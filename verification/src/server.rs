//! The server: what it is configured with and what its start has to do.

use vstd::prelude::*;
use crate::config::ServerConfig;
use crate::strings::{decimal, decimal_chars, labelled, string_from_chars};

verus! {

/// Why the server could not be started or stopped.
#[derive(Debug)]
pub enum ServerError {
    /// The address could not be bound.
    BindError(String),
    /// The server runs already.
    AlreadyRunning,
    /// The server does not run.
    NotRunning,
    /// The server could not be put in the background.
    DaemonError(String),
}

impl ServerError {
    /// The error in words.
    pub open spec fn text(self) -> Seq<char> {
        match self {
            ServerError::BindError(message) => "Failed to bind to address: "@ + message@,
            ServerError::AlreadyRunning => "Server already running"@,
            ServerError::NotRunning => "Server not running"@,
            ServerError::DaemonError(message) => "Failed to daemonize: "@ + message@,
        }
    }

    /// The error in words.
    pub fn describe(&self) -> (text: String)
        ensures
            text@ == self.text(),
    {
        match self {
            ServerError::BindError(message) => labelled(
                "Failed to bind to address: ",
                message.as_str(),
            ),
            ServerError::AlreadyRunning => "Server already running".to_owned(),
            ServerError::NotRunning => "Server not running".to_owned(),
            ServerError::DaemonError(message) => labelled(
                "Failed to daemonize: ",
                message.as_str(),
            ),
        }
    }
}

/// A server with its configuration.
#[derive(Debug)]
pub struct Server {
    config: ServerConfig,
}

impl Server {
    /// The configuration of the server.
    pub closed spec fn configuration(&self) -> ServerConfig {
        self.config
    }

    /// The address that the server binds, as text: host, colon, port.
    pub open spec fn address_text(&self) -> Seq<char> {
        self.configuration().host@ + ":"@ + decimal(self.configuration().port as nat)
    }

    /// A server with this configuration.
    pub fn new(config: ServerConfig) -> (server: Server)
        ensures
            server.configuration() == config,
    {
        Server { config }
    }

    /// The configuration of the server.
    pub fn config(&self) -> (config: &ServerConfig)
        ensures
            *config == self.configuration(),
    {
        &self.config
    }

    /// The address that the server binds, as text.
    pub fn address(&self) -> (text: String)
        ensures
            text@ == self.address_text(),
    {
        let digits = string_from_chars(&decimal_chars(self.config.port as u64));
        let mut text = self.config.host.clone();
        text.append(":");
        text.append(digits.as_str());
        text
    }

    /// Where the start writes the process identifier: to the configured
    /// file, where the server runs in the background and a file is named.
    pub fn pid_file_to_write(&self) -> (path: Option<&String>)
        ensures
            path == (if self.configuration().daemon {
                match self.configuration().pid_file {
                    Some(p) => Some(&p),
                    None => None,
                }
            } else {
                None
            }),
    {
        if self.config.daemon {
            match &self.config.pid_file {
                Some(p) => Some(p),
                None => None,
            }
        } else {
            None
        }
    }

    /// Where the start opens the log: at the configured file, where the
    /// server runs in the background and a file is named.
    pub fn log_file_to_open(&self) -> (path: Option<&String>)
        ensures
            path == (if self.configuration().daemon {
                match self.configuration().log_file {
                    Some(p) => Some(&p),
                    None => None,
                }
            } else {
                None
            }),
    {
        if self.config.daemon {
            match &self.config.log_file {
                Some(p) => Some(p),
                None => None,
            }
        } else {
            None
        }
    }
}

} // verus!
