//! The application: a command line with the configuration it runs under.

use vstd::prelude::*;
use crate::cli::{answer, runs_after, Cli, CliError, Command};
use crate::config::{Config, ConfigError};

verus! {

/// A command line and the configuration that was loaded for it, if any.
#[derive(Debug)]
pub struct App {
    /// The command line.
    pub cli: Cli,
    /// The configuration, once loaded.
    pub config: Option<Config>,
}

impl App {
    /// An application without a configuration, whose server does not run.
    pub fn new() -> (app: App)
        ensures
            app.config is None,
            !app.cli.running(),
    {
        App { cli: Cli::new(), config: None }
    }

    /// Takes what reading the configuration gave: keeps the configuration,
    /// or fails with the error and keeps what it had.
    pub fn load_config(&mut self, loaded: Result<Config, ConfigError>) -> (r: Result<
        (),
        CliError,
    >)
        ensures
            final(self).cli == old(self).cli,
            match loaded {
                Ok(config) => r is Ok && final(self).config == Some(config),
                Err(error) => r == Err::<(), CliError>(CliError::ConfigError(error))
                    && final(self).config == old(self).config,
            },
    {
        match loaded {
            Ok(config) => {
                self.config = Some(config);
                Ok(())
            },
            Err(error) => Err(CliError::ConfigError(error)),
        }
    }

    /// Carries out a command under the configuration that was loaded, and
    /// returns its answer.
    pub fn execute(&mut self, command: Command) -> (r: Result<String, CliError>)
        ensures
            r matches Ok(message) && message@ == answer(
                command,
                old(self).cli.running(),
                old(self).config,
            ),
            final(self).cli.running() == runs_after(command, old(self).cli.running()),
            final(self).config == old(self).config,
    {
        match &self.config {
            Some(config) => self.cli.execute(command, Some(config)),
            None => self.cli.execute(command, None),
        }
    }
}

} // verus!
