//! The server's configuration and its validation.

use vstd::prelude::*;
use crate::strings::labelled;

verus! {

/// How the server is to run.
#[derive(Debug)]
pub struct ServerConfig {
    /// The address to listen on.
    pub host: String,
    /// The port to listen on.
    pub port: u16,
    /// After how many seconds a request is given up.
    pub timeout_secs: u64,
    /// Whether to run in the background.
    pub daemon: bool,
    /// Where to write the process identifier.
    pub pid_file: Option<String>,
    /// Where to write the log.
    pub log_file: Option<String>,
}

/// The configuration as a whole.
#[derive(Debug)]
pub struct Config {
    pub server: ServerConfig,
}

/// Why a configuration could not be read or written.
#[derive(Debug)]
pub enum ConfigError {
    /// The file could not be read.
    ReadError(String),
    /// The file's text is not a configuration.
    ParseError(String),
    /// The file could not be written.
    WriteError(String),
}

impl ConfigError {
    /// The error in words.
    pub open spec fn text(self) -> Seq<char> {
        match self {
            ConfigError::ReadError(message) => "Failed to read config file: "@ + message@,
            ConfigError::ParseError(message) => "Failed to parse config file: "@ + message@,
            ConfigError::WriteError(message) => "Failed to write config file: "@ + message@,
        }
    }

    /// The error in words.
    pub fn describe(&self) -> (text: String)
        ensures
            text@ == self.text(),
    {
        match self {
            ConfigError::ReadError(message) => labelled(
                "Failed to read config file: ",
                message.as_str(),
            ),
            ConfigError::ParseError(message) => labelled(
                "Failed to parse config file: ",
                message.as_str(),
            ),
            ConfigError::WriteError(message) => labelled(
                "Failed to write config file: ",
                message.as_str(),
            ),
        }
    }
}

/// What is wrong with a configuration, if anything; the first of the faults
/// in the order port, timeout, host.
pub open spec fn config_fault(config: ServerConfig) -> Option<Seq<char>> {
    if config.port == 0 {
        Some("Port cannot be 0"@)
    } else if config.timeout_secs == 0 {
        Some("Timeout cannot be 0"@)
    } else if config.host@.len() == 0 {
        Some("Host cannot be empty"@)
    } else {
        None
    }
}

/// The host of the default configuration.
pub fn default_host() -> (host: String)
    ensures
        host@ == "127.0.0.1"@,
{
    "127.0.0.1".to_owned()
}

/// The port of the default configuration.
pub fn default_port() -> (port: u16)
    ensures
        port == 8080,
{
    8080
}

/// The timeout of the default configuration, in seconds.
pub fn default_timeout_secs() -> (secs: u64)
    ensures
        secs == 30,
{
    30
}

/// Where the default configuration writes the process identifier.
pub fn default_pid_file() -> (path: Option<String>)
    ensures
        path matches Some(p) && p@ == "/tmp/p-mo.pid"@,
{
    Some("/tmp/p-mo.pid".to_owned())
}

/// Where the default configuration writes the log.
pub fn default_log_file() -> (path: Option<String>)
    ensures
        path matches Some(p) && p@ == "/tmp/p-mo.log"@,
{
    Some("/tmp/p-mo.log".to_owned())
}

/// Whether a configuration is the default one.
pub open spec fn is_default_config(config: ServerConfig) -> bool {
    &&& config.host@ == "127.0.0.1"@
    &&& config.port == 8080
    &&& config.timeout_secs == 30
    &&& !config.daemon
    &&& config.pid_file matches Some(p) && p@ == "/tmp/p-mo.pid"@
    &&& config.log_file matches Some(p) && p@ == "/tmp/p-mo.log"@
}

/// The default configuration of the server.
pub fn default_server_config() -> (config: ServerConfig)
    ensures
        is_default_config(config),
{
    ServerConfig {
        host: default_host(),
        port: default_port(),
        timeout_secs: default_timeout_secs(),
        daemon: false,
        pid_file: default_pid_file(),
        log_file: default_log_file(),
    }
}

impl Default for ServerConfig {
    fn default() -> (config: ServerConfig)
        ensures
            is_default_config(config),
    {
        default_server_config()
    }
}

impl Default for Config {
    fn default() -> (config: Config)
        ensures
            is_default_config(config.server),
    {
        Config { server: default_server_config() }
    }
}

impl Clone for ServerConfig {
    fn clone(&self) -> (res: ServerConfig)
        ensures
            res == *self,
    {
        let pid_file = match &self.pid_file {
            Some(p) => Some(p.clone()),
            None => None,
        };
        let log_file = match &self.log_file {
            Some(p) => Some(p.clone()),
            None => None,
        };
        ServerConfig {
            host: self.host.clone(),
            port: self.port,
            timeout_secs: self.timeout_secs,
            daemon: self.daemon,
            pid_file,
            log_file,
        }
    }
}

impl Clone for Config {
    fn clone(&self) -> (res: Config)
        ensures
            res == *self,
    {
        Config { server: self.server.clone() }
    }
}

impl ServerConfig {
    /// Checks the configuration: the port and the timeout must not be 0 and
    /// the host must not be empty. The error names the first fault found.
    pub fn validate(&self) -> (r: Result<(), String>)
        ensures
            match config_fault(*self) {
                Some(fault) => r matches Err(message) && message@ == fault,
                None => r is Ok,
            },
    {
        if self.port == 0 {
            return Err("Port cannot be 0".to_owned());
        }
        if self.timeout_secs == 0 {
            return Err("Timeout cannot be 0".to_owned());
        }
        if self.host.as_str().unicode_len() == 0 {
            return Err("Host cannot be empty".to_owned());
        }
        Ok(())
    }

    /// The configuration with a host and a port put in place of its own
    /// where they are given, and run in the background where either it or
    /// `daemon` says so.
    pub fn with_overrides(self, host: Option<String>, port: Option<u16>, daemon: bool) -> (r:
        ServerConfig)
        ensures
            r.host == (match host {
                Some(h) => h,
                None => self.host,
            }),
            r.port == (match port {
                Some(p) => p,
                None => self.port,
            }),
            r.daemon == (daemon || self.daemon),
            r.timeout_secs == self.timeout_secs,
            r.pid_file == self.pid_file,
            r.log_file == self.log_file,
    {
        let new_host = match host {
            Some(h) => h,
            None => self.host,
        };
        let new_port = match port {
            Some(p) => p,
            None => self.port,
        };
        ServerConfig {
            host: new_host,
            port: new_port,
            timeout_secs: self.timeout_secs,
            daemon: daemon || self.daemon,
            pid_file: self.pid_file,
            log_file: self.log_file,
        }
    }
}

/// A default configuration is valid.
pub proof fn lemma_default_config_is_valid(config: ServerConfig)
    requires
        is_default_config(config),
    ensures
        config_fault(config) is None,
{
    reveal_strlit("127.0.0.1");
}

} // verus!
