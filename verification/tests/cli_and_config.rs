use p_mo::application::App;
use p_mo::cli::{Args, Cli, CliError, Command, Options, ParseError};
use p_mo::config::{Config, ConfigError, ServerConfig};
use p_mo::server::Server;

#[test]
fn test_app_initialization() {
    let app = App::new();
    assert!(app.config.is_none());
}

#[test]
fn test_app_execute_stop_command() {
    let mut app = App::new();
    let result = app.execute(Command::Stop);
    assert!(result.is_ok());
}

#[test]
fn test_app_execute_status_command() {
    let mut app = App::new();
    let result = app.execute(Command::Status);
    assert!(result.is_ok());
}

#[test]
fn test_app_execute_init_config() {
    let mut app = App::new();
    let result = app.execute(Command::InitConfig {
        config_path: Some("new_config.toml".to_string()),
    });
    assert!(result.is_ok());
}

#[test]
fn test_app_config_loading_with_nonexistent_file() {
    let mut app = App::new();
    let result = app.load_config(Err(ConfigError::ReadError("no such file".to_string())));
    assert!(result.is_err());
    assert!(app.config.is_none());
}

#[test]
fn app_keeps_a_loaded_configuration() {
    let mut app = App::new();
    let mut config = Config::default();
    config.server.port = 9100;
    assert!(app.load_config(Ok(config)).is_ok());
    assert_eq!(app.config.as_ref().unwrap().server.port, 9100);
    let message = app
        .execute(Command::Start { host: None, port: None, daemon: false, config_path: None })
        .unwrap();
    assert_eq!(message, "127.0.0.1:9100");
}

#[test]
fn app_reports_config_errors_as_they_are() {
    let mut app = App::new();
    match app.load_config(Err(ConfigError::ParseError("bad".to_string()))) {
        Err(CliError::ConfigError(ConfigError::ParseError(m))) => assert_eq!(m, "bad"),
        other => panic!("unexpected: {:?}", other),
    }
}

#[test]
fn test_parse_simple_command() {
    let args = vec!["program".to_string(), "start".to_string()];
    let parsed = Args::parse(args).unwrap();
    assert_eq!(parsed.command, "start");
    assert!(parsed.options.is_empty());
}

#[test]
fn test_parse_with_options() {
    let args = vec![
        "program".to_string(),
        "start".to_string(),
        "-host".to_string(),
        "localhost".to_string(),
        "-port".to_string(),
        "8080".to_string(),
    ];
    let parsed = Args::parse(args).unwrap();
    assert_eq!(parsed.command, "start");
    assert_eq!(parsed.get_option("host"), Some("localhost"));
    assert_eq!(parsed.get_option("port"), Some("8080"));
}

#[test]
fn test_parse_missing_value() {
    let args = vec!["program".to_string(), "start".to_string(), "-host".to_string()];
    let result = Args::parse(args);
    assert!(matches!(result, Err(ParseError::MissingValue(_))));
}

#[test]
fn parse_without_command_fails() {
    assert!(matches!(Args::parse(vec![]), Err(ParseError::MissingCommand)));
    assert!(matches!(
        Args::parse(vec!["program".to_string()]),
        Err(ParseError::MissingCommand)
    ));
}

#[test]
fn parse_value_without_name_fails() {
    let args = vec!["program".to_string(), "start".to_string(), "stray".to_string()];
    match Args::parse(args) {
        Err(ParseError::InvalidOption(word)) => assert_eq!(word, "stray"),
        other => panic!("unexpected: {:?}", other),
    }
}

#[test]
fn parse_two_names_in_a_row_fails_with_the_first() {
    let args = vec![
        "program".to_string(),
        "start".to_string(),
        "--host".to_string(),
        "--port".to_string(),
        "1".to_string(),
    ];
    match Args::parse(args) {
        Err(ParseError::MissingValue(name)) => assert_eq!(name, "host"),
        other => panic!("unexpected: {:?}", other),
    }
}

#[test]
fn parse_strips_every_leading_hyphen_and_last_value_wins() {
    let args = vec![
        "program".to_string(),
        "run".to_string(),
        "---k".to_string(),
        "one".to_string(),
        "-k".to_string(),
        "two".to_string(),
        "-".to_string(),
        "empty".to_string(),
    ];
    let parsed = Args::parse(args).unwrap();
    assert_eq!(parsed.get_option("k"), Some("two"));
    assert_eq!(parsed.get_option(""), Some("empty"));
    assert_eq!(parsed.get_option("missing"), None);
    assert!(!parsed.options.is_empty());
}

#[test]
fn options_insert_and_get() {
    let mut options = Options::new();
    assert!(options.is_empty());
    options.insert("a".to_string(), "1".to_string());
    options.insert("b".to_string(), "2".to_string());
    options.insert("a".to_string(), "3".to_string());
    assert_eq!(options.get("a"), Some(&"3".to_string()));
    assert_eq!(options.get("b"), Some(&"2".to_string()));
    assert_eq!(options.get("c"), None);
}

#[test]
fn test_config_validation() {
    let valid_config = ServerConfig {
        host: "localhost".to_string(),
        port: 8080,
        timeout_secs: 30,
        daemon: false,
        pid_file: None,
        log_file: None,
    };
    assert!(valid_config.validate().is_ok());

    let invalid_config = ServerConfig { port: 0, ..valid_config.clone() };
    assert!(invalid_config.validate().is_err());
}

#[test]
fn validation_names_the_first_fault() {
    let base = ServerConfig {
        host: "".to_string(),
        port: 0,
        timeout_secs: 0,
        daemon: false,
        pid_file: None,
        log_file: None,
    };
    assert_eq!(base.validate(), Err("Port cannot be 0".to_string()));
    let with_port = ServerConfig { port: 1, ..base.clone() };
    assert_eq!(with_port.validate(), Err("Timeout cannot be 0".to_string()));
    let with_timeout = ServerConfig { timeout_secs: 1, ..with_port.clone() };
    assert_eq!(with_timeout.validate(), Err("Host cannot be empty".to_string()));
    let with_host = ServerConfig { host: "h".to_string(), ..with_timeout.clone() };
    assert_eq!(with_host.validate(), Ok(()));
}

#[test]
fn test_config_overrides() {
    let base_config = ServerConfig {
        host: "localhost".to_string(),
        port: 8080,
        timeout_secs: 30,
        daemon: false,
        pid_file: None,
        log_file: None,
    };

    let overridden =
        base_config.clone().with_overrides(Some("0.0.0.0".to_string()), Some(9000), true);

    assert_eq!(overridden.host, "0.0.0.0");
    assert_eq!(overridden.port, 9000);
    assert!(overridden.daemon);
    assert_eq!(overridden.timeout_secs, base_config.timeout_secs);
}

#[test]
fn overrides_keep_what_is_not_given() {
    let base = ServerConfig {
        host: "localhost".to_string(),
        port: 8080,
        timeout_secs: 30,
        daemon: true,
        pid_file: Some("/run/x.pid".to_string()),
        log_file: None,
    };
    let kept = base.clone().with_overrides(None, None, false);
    assert_eq!(kept.host, "localhost");
    assert_eq!(kept.port, 8080);
    assert!(kept.daemon);
    assert_eq!(kept.pid_file, Some("/run/x.pid".to_string()));
    assert_eq!(kept.log_file, None);
}

#[test]
fn test_config_defaults() {
    let config = Config::default();
    assert_eq!(config.server.host, "127.0.0.1");
    assert_eq!(config.server.port, 8080);
    assert_eq!(config.server.timeout_secs, 30);
    assert!(!config.server.daemon);
}

#[test]
fn default_config_is_valid_and_names_its_files() {
    let config = ServerConfig::default();
    assert!(config.validate().is_ok());
    assert_eq!(config.pid_file, Some("/tmp/p-mo.pid".to_string()));
    assert_eq!(config.log_file, Some("/tmp/p-mo.log".to_string()));
}

#[test]
fn test_cli_config_override() {
    let config = Config::default();
    let mut cli = Cli::new();
    let result = cli
        .execute(
            Command::Start {
                host: Some("0.0.0.0".to_string()),
                port: Some(9000),
                daemon: true,
                config_path: Some("test_config.toml".to_string()),
            },
            Some(&config),
        )
        .expect("Failed to execute command");
    assert!(result.contains("0.0.0.0:9000"));
    assert!(result.contains("daemon mode"));
    assert_eq!(result, "0.0.0.0:9000 in daemon mode");
}

#[test]
fn cli_tracks_whether_the_server_runs() {
    let mut cli = Cli::new();
    assert!(!cli.is_running());
    assert_eq!(cli.execute(Command::Status, None).unwrap(), "Server status: stopped");
    let started = cli
        .execute(Command::Start { host: None, port: None, daemon: false, config_path: None }, None)
        .unwrap();
    assert_eq!(started, "127.0.0.1:8080");
    assert!(cli.is_running());
    assert_eq!(cli.execute(Command::Status, None).unwrap(), "Server status: running");
    assert_eq!(cli.execute(Command::Stop, None).unwrap(), "Server stopped");
    assert!(!cli.is_running());
    assert_eq!(
        cli.execute(Command::InitConfig { config_path: None }, None).unwrap(),
        "Created default configuration"
    );
}

#[test]
fn cli_start_takes_host_and_port_from_the_configuration() {
    let mut config = Config::default();
    config.server.host = "example.org".to_string();
    config.server.port = 65535;
    let mut cli = Cli::new();
    let message = cli
        .execute(
            Command::Start { host: None, port: None, daemon: false, config_path: None },
            Some(&config),
        )
        .unwrap();
    assert_eq!(message, "example.org:65535");
    let message = cli
        .execute(
            Command::Start { host: None, port: Some(0), daemon: false, config_path: None },
            Some(&config),
        )
        .unwrap();
    assert_eq!(message, "example.org:0");
}

#[test]
fn server_address_and_daemon_files() {
    let mut config = ServerConfig::default();
    config.port = 10;
    let server = Server::new(config.clone());
    assert_eq!(server.address(), "127.0.0.1:10");
    assert_eq!(server.pid_file_to_write(), None);
    assert_eq!(server.log_file_to_open(), None);
    config.daemon = true;
    let server = Server::new(config);
    assert_eq!(server.pid_file_to_write(), Some(&"/tmp/p-mo.pid".to_string()));
    assert_eq!(server.log_file_to_open(), Some(&"/tmp/p-mo.log".to_string()));
    assert_eq!(server.config().port, 10);
}
