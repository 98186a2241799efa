use p_mo::cli::{Args, CliError, ParseError};
use p_mo::config::ConfigError;
use p_mo::document::Document;
use p_mo::embedding::EmbeddingError;
use p_mo::error::VectorStoreError;
use p_mo::json::JsonValue;
use p_mo::server::ServerError;
use p_mo::store::EmbeddedStore;
use p_mo::strings::labelled;
use p_mo::word_lists::{is_common_word, is_stopword};

fn doc(id: Option<&str>, embedding: Vec<u32>) -> Document {
    Document {
        id: id.map(|s| s.to_string()),
        content: String::new(),
        embedding,
        metadata: JsonValue::Null,
    }
}

#[test]
fn store_errors_in_words() {
    assert_eq!(
        VectorStoreError::ConnectionError("refused".to_string()).describe(),
        "Connection error: refused"
    );
    assert_eq!(
        VectorStoreError::OperationFailed("x".to_string()).describe(),
        "Operation failed: x"
    );
    assert_eq!(VectorStoreError::PoolError(String::new()).describe(), "Pool error: ");
    assert_eq!(labelled("a", "b"), "ab");
}

#[test]
fn store_failures_say_what_they_are_about() {
    let mut store = EmbeddedStore::new();
    let error = store.delete_collection("gone").unwrap_err();
    assert_eq!(error.describe(), "Collection not found: gone");
    store.create_collection("docs", 2).unwrap();
    let error = store.create_collection("docs", 2).unwrap_err();
    assert_eq!(error.describe(), "Operation failed: Collection exists: docs");
    let error = store.insert_document("docs", doc(Some("a"), vec![0])).unwrap_err();
    assert_eq!(
        error.describe(),
        "Invalid argument: Embedding length does not match the vector size of collection docs"
    );
    let error = store.get_document("docs", "a").unwrap_err();
    assert_eq!(error.describe(), "Document not found: a");
    let error = store.update_document("docs", "b", doc(None, vec![0, 0])).unwrap_err();
    assert_eq!(error.detail(), "b");
    let error = store.delete_document("none", "b").unwrap_err();
    assert_eq!(error.detail(), "none");
    store.store_document("docs", doc(None, vec![0, 0]), "id".to_string(), true).unwrap();
    let error =
        store.store_document("docs", doc(None, vec![0, 0]), "id".to_string(), true).unwrap_err();
    assert_eq!(error.describe(), "Internal error: Identifier is in use: id");
}

#[test]
fn other_errors_in_words() {
    assert_eq!(ParseError::MissingCommand.describe(), "Missing command");
    assert_eq!(
        ParseError::InvalidOption("x".to_string()).describe(),
        "Invalid option format: x"
    );
    assert_eq!(
        Args::parse(vec!["p".to_string(), "c".to_string(), "-k".to_string()])
            .unwrap_err()
            .describe(),
        "Missing value for option: k"
    );
    assert_eq!(CliError::InvalidCommand.describe(), "Invalid command");
    assert_eq!(
        CliError::ExecutionError("boom".to_string()).describe(),
        "Failed to execute command: boom"
    );
    assert_eq!(
        CliError::ConfigError(ConfigError::ReadError("denied".to_string())).describe(),
        "Configuration error: Failed to read config file: denied"
    );
    assert_eq!(
        ConfigError::ParseError("line 1".to_string()).describe(),
        "Failed to parse config file: line 1"
    );
    assert_eq!(
        ConfigError::WriteError("full".to_string()).describe(),
        "Failed to write config file: full"
    );
    assert_eq!(
        ServerError::BindError("in use".to_string()).describe(),
        "Failed to bind to address: in use"
    );
    assert_eq!(ServerError::AlreadyRunning.describe(), "Server already running");
    assert_eq!(ServerError::NotRunning.describe(), "Server not running");
    assert_eq!(ServerError::DaemonError("x".to_string()).describe(), "Failed to daemonize: x");
    assert_eq!(
        EmbeddingError::InitializationError("m".to_string()).describe(),
        "Failed to initialize embedding model: m"
    );
    assert_eq!(
        EmbeddingError::GenerationError("m".to_string()).describe(),
        "Failed to generate embedding: m"
    );
    assert_eq!(EmbeddingError::InvalidInputError("m".to_string()).describe(), "Invalid input: m");
}

#[test]
fn word_predicates() {
    assert!(is_stopword("the"));
    assert!(is_stopword("wouldn't"));
    assert!(!is_stopword("zebra"));
    assert!(is_common_word("about"));
    assert!(!is_common_word("is"));
}
