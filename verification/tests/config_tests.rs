use scs::Cli;
use scs::Mode;
use scs::config::Config;
use scs::item::Secret;
use scs::peer::remote_peer_id_polyfill;

fn make_config() -> Config {
    let secret = vec![Secret::secret_from_string("hi,there".to_string()).unwrap()];
    let message = vec!["new message".to_string()];
    let file = vec!["sample.txt".to_string()];
    Config::from_parts(
        Some(secret),
        Some(message),
        Some(file),
        5555,
        1,
        "save-dir".to_string(),
        None,
        None,
        "test".to_string(),
    )
}

#[test]
fn config_from_cli() {
    let peer_id = "12D3KooWDpJ7As7BWAwRMfu1VU2WCqNjvq387JEYKDBj4kx6nXTN".to_string();
    let opts = Cli {
        secret: None,
        message: Some(vec!["from cli".to_string()]),
        file: None,
        mode: Mode::Send,
        remote_peer_id: Some(peer_id.clone()),
        name: None,
        port: Some(5555),
        debug: 0,
        config: None,
    };
    let rpm = remote_peer_id_polyfill(&opts, None).unwrap();
    let config = Config::from_cli_parts(&opts, "save-dir".to_string(), "seed".to_string())
        .unwrap();
    assert_eq!(opts.mode, Mode::Send);
    assert_eq!(rpm, peer_id);
    assert_eq!(config.port(), 5555);
}

#[test]
fn fail_to_polyfill_remote_peer_id() {
    let opts = Cli {
        secret: None,
        message: Some(vec!["from cli".to_string()]),
        file: None,
        mode: Mode::Send,
        remote_peer_id: None,
        name: None,
        port: Some(5555),
        debug: 0,
        config: None,
    };
    let rpm = remote_peer_id_polyfill(&opts, None);
    assert!(rpm.is_err());
    let err = rpm.unwrap_err();
    assert!(err.message().contains("Either a remote peer id or a name must be present"));
}

#[test]
fn file_to_be_sent() {
    let config = make_config();
    let files = config.file();
    assert!(files.is_some());
    let files = files.unwrap();
    assert_eq!(files.len(), 1);
    assert_eq!(files[0], "sample.txt");
}

#[test]
fn messages() {
    let config = make_config();
    assert!(config.message().is_some());
    let binding = config.message().unwrap();
    let msg = binding.first().unwrap();
    assert_eq!(msg, "new message");
}

#[test]
fn secrets() {
    let config = make_config();
    assert!(config.secret().is_some());
    let binding = config.secret().unwrap();
    let secret = binding.first().unwrap();
    assert_eq!(secret.key, "hi");
    assert_ne!(secret.value, "hi");
}

#[test]
fn verbose() {
    let config = make_config();
    assert!(config.verbose());
}

#[test]
fn lists() {
    let config = make_config();
    assert!(config.blacklists().is_none());
    assert!(config.whitelists().is_none());
}

#[test]
fn seed() {
    let seed_key = "greyhounds";
    let config = Config::from_parts(
        None,
        None,
        None,
        5555,
        1,
        "default".to_string(),
        None,
        None,
        seed_key.to_string(),
    );
    let padded_string = config.seed_key();
    let padded_string = &padded_string[seed_key.len()..padded_string.len()];
    assert_eq!(padded_string.len(), 32 - seed_key.len());
}

#[test]
fn pad_string() {
    let s = "hi".to_string();
    let config = make_config();
    let padded_str = config.pad_seed_key(s.clone());
    assert_eq!(padded_str.len(), 32);
    assert_ne!(s, padded_str);
    assert!(padded_str.contains(&s));
}

#[test]
fn seed_padding_boundary() {
    let config = Config::from_parts(
        None,
        None,
        None,
        0,
        0,
        "default".to_string(),
        None,
        None,
        "ab".to_string(),
    );
    let key = config.seed_key();
    assert_eq!(key.len(), 32);
    let bytes = key.as_bytes();
    assert_eq!(bytes[0], b'a');
    assert_eq!(bytes[1], b'b');
    for i in 2..32 {
        assert_eq!(bytes[i], 0x20);
    }
}

#[test]
fn seed_truncated_to_32() {
    let long = "0123456789012345678901234567890123456789".to_string();
    let config = make_config();
    let padded = config.pad_seed_key(long.clone());
    assert_eq!(padded.len(), 32);
    assert_eq!(padded.as_str(), &long[..32]);
}

#[test]
fn from_cli_rejects_malformed_secret() {
    let opts = Cli {
        secret: Some(vec!["good,pair".to_string(), "nocomma".to_string()]),
        message: None,
        file: None,
        mode: Mode::Send,
        remote_peer_id: None,
        name: None,
        port: None,
        debug: 0,
        config: None,
    };
    let config = Config::from_cli_parts(&opts, "save-dir".to_string(), "seed".to_string());
    assert!(config.is_err());
    assert!(config.unwrap_err().message().contains("Key or Value not found for"));
}

#[test]
fn from_cli_defaults_port_to_zero() {
    let opts = Cli {
        secret: None,
        message: Some(vec!["m".to_string()]),
        file: None,
        mode: Mode::Receive,
        remote_peer_id: None,
        name: None,
        port: None,
        debug: 0,
        config: None,
    };
    let config = Config::from_cli_parts(&opts, "save-dir".to_string(), "seed".to_string())
        .unwrap();
    assert_eq!(config.port(), 0);
    assert!(config.whitelists().is_none());
    assert!(config.blacklists().is_none());
}

#[test]
fn mode_words() {
    assert_eq!(Mode::parse_mode("send").unwrap(), Mode::Send);
    assert_eq!(Mode::parse_mode("receive").unwrap(), Mode::Receive);
    assert_eq!(Mode::parse_mode("list").unwrap(), Mode::List);
    let err = Mode::parse_mode("other");
    assert!(err.is_err());
    assert_eq!(err.unwrap_err(), "Expected either 'send' or 'receive' or 'list'");
}

#[test]
fn cli() {
    let cli = Cli {
        secret: None,
        message: None,
        file: None,
        mode: Mode::Send,
        remote_peer_id: Some("12D3KooWDpJ7As7BWAwRMfu1VU2WCqNjvq387JEYKDBj4kx6nXTN".to_string()),
        name: None,
        port: Some(5555),
        debug: 0,
        config: None,
    };
    assert_eq!(cli.debug, 0);
    assert_eq!(cli.file, None);
    assert!(cli.message.is_none());
    assert_ne!(cli.config, Some("path/to/config".to_string()));
}
