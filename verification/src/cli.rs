//! The command line: its arguments, its commands and what they answer.

use vstd::prelude::*;
use crate::config::{Config, ConfigError};
use crate::string_map::StringMap;
use crate::strings::{
    chars_of,
    decimal,
    decimal_chars,
    labelled,
    string_from_chars,
    string_views,
};

verus! {

/// The options of a command line: values by key. A key given twice has the
/// value given last.
pub type Options = StringMap;

/// A command with its options.
#[derive(Debug)]
pub struct Args {
    /// The command's name.
    pub command: String,
    /// The options behind it.
    pub options: Options,
}

/// Why a command line could not be read.
#[derive(Debug)]
pub enum ParseError {
    /// There is no command.
    MissingCommand,
    /// A value stands where an option's name is due; holds the value.
    InvalidOption(String),
    /// An option has no value; holds its name.
    MissingValue(String),
}

/// The mathematical value of a `ParseError`.
pub enum ParseFault {
    MissingCommand,
    InvalidOption(Seq<char>),
    MissingValue(Seq<char>),
}

impl View for ParseError {
    type V = ParseFault;

    open spec fn view(&self) -> ParseFault {
        match self {
            ParseError::MissingCommand => ParseFault::MissingCommand,
            ParseError::InvalidOption(s) => ParseFault::InvalidOption(s@),
            ParseError::MissingValue(s) => ParseFault::MissingValue(s@),
        }
    }
}

impl ParseError {
    /// The error in words.
    pub open spec fn text(self) -> Seq<char> {
        match self {
            ParseError::MissingCommand => "Missing command"@,
            ParseError::InvalidOption(word) => "Invalid option format: "@ + word@,
            ParseError::MissingValue(name) => "Missing value for option: "@ + name@,
        }
    }

    /// The error in words.
    pub fn describe(&self) -> (text: String)
        ensures
            text@ == self.text(),
    {
        match self {
            ParseError::MissingCommand => "Missing command".to_owned(),
            ParseError::InvalidOption(word) => labelled("Invalid option format: ", word.as_str()),
            ParseError::MissingValue(name) => labelled(
                "Missing value for option: ",
                name.as_str(),
            ),
        }
    }
}

/// Whether a word names an option: it begins with a hyphen.
pub open spec fn is_option_name(word: Seq<char>) -> bool {
    word.len() > 0 && word[0] == '-'
}

/// A word without the hyphens it begins with.
pub open spec fn without_hyphens(word: Seq<char>) -> Seq<char>
    decreases word.len(),
{
    if is_option_name(word) {
        without_hyphens(word.drop_first())
    } else {
        word
    }
}

/// Where the reading of a command line's words stands.
pub enum ParseState {
    /// A word could not be taken.
    Failed(ParseFault),
    /// An option's name is due next.
    Ready(Map<Seq<char>, Seq<char>>),
    /// The value of the option of this name is due next.
    Pending(Map<Seq<char>, Seq<char>>, Seq<char>),
}

/// The state after the first `n` of the words that follow the command.
pub open spec fn state_after(words: Seq<Seq<char>>, n: nat) -> ParseState
    decreases n,
{
    if n == 0 {
        ParseState::Ready(Map::empty())
    } else {
        let word = words[n - 1];
        match state_after(words, (n - 1) as nat) {
            ParseState::Failed(fault) => ParseState::Failed(fault),
            ParseState::Ready(options) => if is_option_name(word) {
                ParseState::Pending(options, without_hyphens(word))
            } else {
                ParseState::Failed(ParseFault::InvalidOption(word))
            },
            ParseState::Pending(options, key) => if is_option_name(word) {
                ParseState::Failed(ParseFault::MissingValue(key))
            } else {
                ParseState::Ready(options.insert(key, word))
            },
        }
    }
}

/// What a command line holds: the first word is the program's name, the
/// second the command, and then come options, each a name that begins with
/// a hyphen and a value that does not.
pub open spec fn parsed(args: Seq<Seq<char>>) -> Result<
    (Seq<char>, Map<Seq<char>, Seq<char>>),
    ParseFault,
> {
    if args.len() < 2 {
        Err(ParseFault::MissingCommand)
    } else {
        let words = args.skip(2);
        match state_after(words, words.len()) {
            ParseState::Failed(fault) => Err(fault),
            ParseState::Ready(options) => Ok((args[1], options)),
            ParseState::Pending(_, key) => Err(ParseFault::MissingValue(key)),
        }
    }
}

/// The name of an option: the word without the hyphens it begins with.
pub fn option_name(word: &String) -> (name: String)
    ensures
        name@ == without_hyphens(word@),
{
    let chars = chars_of(word.as_str());
    let mut start: usize = 0;
    assert(chars@.skip(0) =~= chars@);
    while start < chars.len() && chars[start] == '-'
        invariant
            start <= chars.len(),
            without_hyphens(chars@) == without_hyphens(chars@.skip(start as int)),
        decreases chars.len() - start,
    {
        proof {
            let rest = chars@.skip(start as int);
            assert(rest[0] == chars@[start as int]);
            assert(rest.drop_first() =~= chars@.skip(start + 1));
        }
        start += 1;
    }
    proof {
        let rest = chars@.skip(start as int);
        if rest.len() > 0 {
            assert(rest[0] == chars@[start as int]);
        }
    }
    let mut name: Vec<char> = Vec::new();
    let mut i: usize = start;
    while i < chars.len()
        invariant
            start <= i <= chars.len(),
            name@ == chars@.subrange(start as int, i as int),
        decreases chars.len() - i,
    {
        name.push(chars[i]);
        assert(name@ =~= chars@.subrange(start as int, i + 1));
        i += 1;
    }
    assert(name@ =~= chars@.skip(start as int));
    string_from_chars(&name)
}

/// Whether a word begins with a hyphen.
pub fn names_option(word: &String) -> (r: bool)
    ensures
        r == is_option_name(word@),
{
    let s = word.as_str();
    s.unicode_len() > 0 && s.get_char(0) == '-'
}

impl Args {
    /// Reads a command line.
    ///
    /// The first word is the program's name and is passed over; the second
    /// is the command. Then come the options. Fails with `MissingCommand`
    /// where there is no command, with `InvalidOption` at a value that no
    /// option's name precedes, and with `MissingValue` at an option's name
    /// that no value follows.
    pub fn parse(args: Vec<String>) -> (r: Result<Args, ParseError>)
        ensures
            match parsed(string_views(args@)) {
                Ok((command, options)) => r matches Ok(a) && a.command@ == command && a.options@
                    == options,
                Err(fault) => r matches Err(e) && e@ == fault,
            },
    {
        let ghost all = string_views(args@);
        if args.len() < 2 {
            return Err(ParseError::MissingCommand);
        }
        let ghost words = all.skip(2);
        let command = args[1].clone();
        let mut options = Options::new();
        let mut pending: Option<String> = None;
        let mut i: usize = 2;
        while i < args.len()
            invariant
                2 <= i <= args.len(),
                all == string_views(args@),
                words == all.skip(2),
                match pending {
                    Some(key) => state_after(words, (i - 2) as nat) == ParseState::Pending(
                        options@,
                        key@,
                    ),
                    None => state_after(words, (i - 2) as nat) == ParseState::Ready(options@),
                },
            decreases args.len() - i,
        {
            let word = &args[i];
            assert(words[i - 2] == word@);
            let is_name = names_option(word);
            proof {
                assert(state_after(words, (i - 1) as nat) == match state_after(
                    words,
                    (i - 2) as nat,
                ) {
                    ParseState::Failed(fault) => ParseState::Failed(fault),
                    ParseState::Ready(held) => if is_option_name(word@) {
                        ParseState::Pending(held, without_hyphens(word@))
                    } else {
                        ParseState::Failed(ParseFault::InvalidOption(word@))
                    },
                    ParseState::Pending(held, key) => if is_option_name(word@) {
                        ParseState::Failed(ParseFault::MissingValue(key))
                    } else {
                        ParseState::Ready(held.insert(key, word@))
                    },
                });
            }
            match pending {
                Some(key) => {
                    if is_name {
                        proof {
                            lemma_failed_stays(words, (i - 1) as nat, words.len());
                        }
                        return Err(ParseError::MissingValue(key));
                    }
                    options.insert(key, word.clone());
                    pending = None;
                },
                None => {
                    if !is_name {
                        proof {
                            lemma_failed_stays(words, (i - 1) as nat, words.len());
                        }
                        return Err(ParseError::InvalidOption(word.clone()));
                    }
                    pending = Some(option_name(word));
                },
            }
            i += 1;
        }
        match pending {
            Some(key) => Err(ParseError::MissingValue(key)),
            None => Ok(Args { command, options }),
        }
    }

    /// The value of an option.
    pub fn get_option(&self, key: &str) -> (r: Option<&str>)
        ensures
            r is Some <==> self.options@.contains_key(key@),
            r matches Some(value) ==> value@ == self.options@[key@],
    {
        match self.options.get(key) {
            Some(value) => Some(value.as_str()),
            None => None,
        }
    }
}

/// Once a word could not be taken, the words behind it change nothing.
pub proof fn lemma_failed_stays(words: Seq<Seq<char>>, n: nat, m: nat)
    requires
        n <= m,
        state_after(words, n) is Failed,
    ensures
        state_after(words, m) == state_after(words, n),
    decreases m,
{
    if m > n {
        lemma_failed_stays(words, n, (m - 1) as nat);
    }
}

/// What the command line can ask for.
#[derive(Debug)]
pub enum Command {
    /// Start the server.
    Start {
        /// The address to listen on, in place of the configured one.
        host: Option<String>,
        /// The port to listen on, in place of the configured one.
        port: Option<u16>,
        /// Whether to run in the background.
        daemon: bool,
        /// Where the configuration is.
        config_path: Option<String>,
    },
    /// Stop the server.
    Stop,
    /// Say whether the server runs.
    Status,
    /// Write a default configuration.
    InitConfig {
        /// Where to write it.
        config_path: Option<String>,
    },
}

/// Why a command failed.
#[derive(Debug)]
pub enum CliError {
    /// The command could not be carried out.
    ExecutionError(String),
    /// There is no such command.
    InvalidCommand,
    /// The configuration could not be read or written.
    ConfigError(ConfigError),
}

impl CliError {
    /// The error in words.
    pub open spec fn text(self) -> Seq<char> {
        match self {
            CliError::ExecutionError(message) => "Failed to execute command: "@ + message@,
            CliError::InvalidCommand => "Invalid command"@,
            CliError::ConfigError(error) => "Configuration error: "@ + error.text(),
        }
    }

    /// The error in words.
    pub fn describe(&self) -> (text: String)
        ensures
            text@ == self.text(),
    {
        match self {
            CliError::ExecutionError(message) => labelled(
                "Failed to execute command: ",
                message.as_str(),
            ),
            CliError::InvalidCommand => "Invalid command".to_owned(),
            CliError::ConfigError(error) => labelled(
                "Configuration error: ",
                error.describe().as_str(),
            ),
        }
    }
}

/// Carries out commands and keeps track of whether the server runs.
#[derive(Debug)]
pub struct Cli {
    is_running: bool,
}

/// The address that a start announces: the host and the port that were
/// asked for, or else those of the configuration, or else `127.0.0.1` and
/// `8080`; and a note where the server runs in the background.
pub open spec fn start_message(
    host: Option<String>,
    port: Option<u16>,
    daemon: bool,
    loaded: Option<Config>,
) -> Seq<char> {
    let host_part = match host {
        Some(h) => h@,
        None => match loaded {
            Some(config) => config.server.host@,
            None => "127.0.0.1"@,
        },
    };
    let port_part = match port {
        Some(p) => p,
        None => match loaded {
            Some(config) => config.server.port,
            None => 8080,
        },
    };
    let note = if daemon {
        " in daemon mode"@
    } else {
        Seq::empty()
    };
    host_part + ":"@ + decimal(port_part as nat) + note
}

/// What a command answers.
pub open spec fn answer(command: Command, running: bool, loaded: Option<Config>) -> Seq<char> {
    match command {
        Command::Start { host, port, daemon, config_path } => start_message(
            host,
            port,
            daemon,
            loaded,
        ),
        Command::Stop => "Server stopped"@,
        Command::Status => if running {
            "Server status: running"@
        } else {
            "Server status: stopped"@
        },
        Command::InitConfig { config_path } => "Created default configuration"@,
    }
}

/// Whether the server runs after a command.
pub open spec fn runs_after(command: Command, running: bool) -> bool {
    match command {
        Command::Start { host, port, daemon, config_path } => true,
        Command::Stop => false,
        _ => running,
    }
}

impl Cli {
    /// Whether the server runs.
    pub closed spec fn running(&self) -> bool {
        self.is_running
    }

    /// A command line whose server does not run.
    pub fn new() -> (cli: Cli)
        ensures
            !cli.running(),
    {
        Cli { is_running: false }
    }

    /// Whether the server runs.
    pub fn is_running(&self) -> (r: bool)
        ensures
            r == self.running(),
    {
        self.is_running
    }

    /// Carries out a command and returns its answer.
    ///
    /// `loaded` is the configuration read from the path that a `Start`
    /// names, where there is one and it could be read. A start and a stop
    /// set whether the server runs; the other commands leave it.
    pub fn execute(&mut self, command: Command, loaded: Option<&Config>) -> (r: Result<
        String,
        CliError,
    >)
        ensures
            r matches Ok(message) && message@ == answer(
                command,
                old(self).running(),
                match loaded {
                    Some(config) => Some(*config),
                    None => None,
                },
            ),
            final(self).running() == runs_after(command, old(self).running()),
    {
        match command {
            Command::Start { host, port, daemon, config_path } => {
                let host_part: String = match host {
                    Some(h) => h,
                    None => match loaded {
                        Some(config) => config.server.host.clone(),
                        None => "127.0.0.1".to_owned(),
                    },
                };
                let port_part: u16 = match port {
                    Some(p) => p,
                    None => match loaded {
                        Some(config) => config.server.port,
                        None => 8080,
                    },
                };
                self.is_running = true;
                let digits = string_from_chars(&decimal_chars(port_part as u64));
                let mut message = host_part;
                message.append(":");
                message.append(digits.as_str());
                if daemon {
                    message.append(" in daemon mode");
                }
                assert(message@ =~= answer(
                    command,
                    old(self).running(),
                    match loaded {
                        Some(config) => Some(*config),
                        None => None,
                    },
                ));
                Ok(message)
            },
            Command::Stop => {
                self.is_running = false;
                Ok("Server stopped".to_owned())
            },
            Command::Status => {
                if self.is_running {
                    Ok("Server status: running".to_owned())
                } else {
                    Ok("Server status: stopped".to_owned())
                }
            },
            Command::InitConfig { config_path } => Ok("Created default configuration".to_owned()),
        }
    }
}

} // verus!
