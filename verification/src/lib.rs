//! An embeddable document store for similarity search over fixed-size
//! vectors, with metadata filtering, and the small services around it.

pub mod application;
pub mod chars;
pub mod cli;
pub mod config;
pub mod document;
pub mod embedding;
pub mod error;
pub mod filter;
pub mod ieee;
pub mod json;
pub mod keywords;
pub mod mcp;
pub mod mock;
pub mod rank;
pub mod remote;
pub mod retry;
pub mod server;
pub mod store;
pub mod string_map;
pub mod strings;
pub mod summary;
pub mod text_chunks;
pub mod text_layout;
pub mod text_processing;
pub mod word_lists;

pub use application::App;
pub use cli::{Args, Cli};
pub use config::Config;
pub use server::Server;
