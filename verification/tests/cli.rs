use luxinos::{
    parse_cli, parse_port, parse_role, parse_transport, ClientKind, ConfigError, Endpoint,
    MessageSocketConfig, DEFAULT_PORT,
};

fn args(words: &[&str]) -> Vec<String> {
    words.iter().map(|w| String::from(*w)).collect()
}

fn config(port: u16, pass: &str, unix_socket: bool, file: &str) -> MessageSocketConfig {
    MessageSocketConfig {
        port,
        pass: String::from(pass),
        unix_socket,
        unix_socket_file: String::from(file),
    }
}

const DEFAULT_FILE: &str = "/tmp/guessing-game-unix-socket";

#[test]
fn server_with_password_only() {
    assert_eq!(
        parse_cli(&args(&["server", "abc"]), true),
        Ok((config(8080, "abc", false, DEFAULT_FILE), ClientKind::Guesser))
    );
    assert_eq!(DEFAULT_PORT, 8080);
}

#[test]
fn server_without_password() {
    assert_eq!(parse_cli(&args(&["server"]), true), Err(ConfigError::MissingPassword));
    assert_eq!(parse_cli(&args(&[]), true), Err(ConfigError::MissingPassword));
}

#[test]
fn server_with_transport() {
    assert_eq!(
        parse_cli(&args(&["server", "abc", "tcp"]), true),
        Ok((config(8080, "abc", false, DEFAULT_FILE), ClientKind::Guesser))
    );
    assert_eq!(
        parse_cli(&args(&["server", "abc", "unix"]), true),
        Ok((config(8080, "abc", true, DEFAULT_FILE), ClientKind::Guesser))
    );
}

#[test]
fn server_with_port_or_path() {
    assert_eq!(
        parse_cli(&args(&["server", "abc", "tcp", "9000"]), true),
        Ok((config(9000, "abc", false, DEFAULT_FILE), ClientKind::Guesser))
    );
    assert_eq!(
        parse_cli(&args(&["server", "abc", "unix", "/run/game.sock"]), true),
        Ok((config(8080, "abc", true, "/run/game.sock"), ClientKind::Guesser))
    );
    // a path may look like anything
    assert_eq!(
        parse_cli(&args(&["server", "abc", "unix", "9000"]), true),
        Ok((config(8080, "abc", true, "9000"), ClientKind::Guesser))
    );
}

#[test]
fn server_with_bad_transport() {
    assert_eq!(
        parse_cli(&args(&["server", "abc", "udp"]), true),
        Err(ConfigError::InvalidTransport { position: 2 })
    );
    assert_eq!(
        parse_cli(&args(&["server", "abc", "TCP", "x"]), true),
        Err(ConfigError::InvalidTransport { position: 2 })
    );
}

#[test]
fn server_with_bad_port() {
    for port in ["", "x", "65536", "-1", "80 ", " 80", "8o8o", "+", "1e3"] {
        assert_eq!(
            parse_cli(&args(&["server", "abc", "tcp", port]), true),
            Err(ConfigError::InvalidPort)
        );
    }
}

#[test]
fn arguments_after_the_last_are_not_looked_at() {
    assert_eq!(
        parse_cli(&args(&["server", "abc", "tcp", "9000", "more", "words"]), true),
        Ok((config(9000, "abc", false, DEFAULT_FILE), ClientKind::Guesser))
    );
}

#[test]
fn client_needs_password_and_role() {
    assert_eq!(parse_cli(&args(&["client"]), false), Err(ConfigError::MissingRole));
    assert_eq!(parse_cli(&args(&["client", "abc"]), false), Err(ConfigError::MissingRole));
}

#[test]
fn client_roles() {
    assert_eq!(
        parse_cli(&args(&["client", "abc", "guesser"]), false),
        Ok((config(8080, "abc", false, DEFAULT_FILE), ClientKind::Guesser))
    );
    assert_eq!(
        parse_cli(&args(&["client", "abc", "chooser"]), false),
        Ok((config(8080, "abc", false, DEFAULT_FILE), ClientKind::Chooser))
    );
    assert_eq!(
        parse_cli(&args(&["client", "abc", "player"]), false),
        Err(ConfigError::InvalidRole { position: 2 })
    );
    assert_eq!(
        parse_cli(&args(&["client", "abc", "tcp"]), false),
        Err(ConfigError::InvalidRole { position: 2 })
    );
}

#[test]
fn client_with_transport_and_port() {
    assert_eq!(
        parse_cli(&args(&["client", "abc", "chooser", "tcp", "65535"]), false),
        Ok((config(65535, "abc", false, DEFAULT_FILE), ClientKind::Chooser))
    );
    assert_eq!(
        parse_cli(&args(&["client", "abc", "guesser", "unix", "/tmp/s"]), false),
        Ok((config(8080, "abc", true, "/tmp/s"), ClientKind::Guesser))
    );
    assert_eq!(
        parse_cli(&args(&["client", "abc", "chooser", "pipe"]), false),
        Err(ConfigError::InvalidTransport { position: 3 })
    );
    assert_eq!(
        parse_cli(&args(&["client", "abc", "chooser", "tcp", "http"]), false),
        Err(ConfigError::InvalidPort)
    );
}

#[test]
fn the_first_fault_is_reported() {
    assert_eq!(
        parse_cli(&args(&["client", "abc", "player", "pipe", "http"]), false),
        Err(ConfigError::InvalidRole { position: 2 })
    );
    assert_eq!(
        parse_cli(&args(&["client", "abc", "chooser", "pipe", "http"]), false),
        Err(ConfigError::InvalidTransport { position: 3 })
    );
}

#[test]
fn a_server_takes_the_word_after_the_password_as_transport() {
    assert_eq!(
        parse_cli(&args(&["server", "abc", "guesser"]), true),
        Err(ConfigError::InvalidTransport { position: 2 })
    );
}

#[test]
fn ports() {
    assert_eq!(parse_port("0"), Some(0));
    assert_eq!(parse_port("8080"), Some(8080));
    assert_eq!(parse_port("65535"), Some(65535));
    assert_eq!(parse_port("+443"), Some(443));
    assert_eq!(parse_port("00080"), Some(80));
    assert_eq!(parse_port("000000000000000000000000065535"), Some(65535));
    assert_eq!(parse_port("65536"), None);
    assert_eq!(parse_port("99999999999999999999"), None);
    assert_eq!(parse_port(""), None);
    assert_eq!(parse_port("+"), None);
    assert_eq!(parse_port("++1"), None);
    assert_eq!(parse_port("-1"), None);
    assert_eq!(parse_port("-0"), None);
    assert_eq!(parse_port("12a"), None);
    assert_eq!(parse_port("a12"), None);
    assert_eq!(parse_port("1 2"), None);
    assert_eq!(parse_port("٣"), None);
    assert_eq!(parse_port("１２"), None);
}

#[test]
fn ports_are_read_as_the_standard_library_reads_them() {
    let mut texts: Vec<String> = Vec::new();
    for n in 0..=70_000u32 {
        if n % 7 == 0 || n > 65_500 {
            texts.push(n.to_string());
            texts.push(format!("+{}", n));
            texts.push(format!("0{}", n));
            texts.push(format!("-{}", n));
            texts.push(format!("{}x", n));
        }
    }
    for text in texts {
        assert_eq!(parse_port(&text), text.parse::<u16>().ok());
    }
}

#[test]
fn roles_and_transports() {
    assert_eq!(parse_role(&String::from("guesser")), Some(ClientKind::Guesser));
    assert_eq!(parse_role(&String::from("chooser")), Some(ClientKind::Chooser));
    assert_eq!(parse_role(&String::from("Guesser")), None);
    assert_eq!(parse_role(&String::from("")), None);
    assert_eq!(parse_transport(&String::from("tcp")), Some(false));
    assert_eq!(parse_transport(&String::from("unix")), Some(true));
    assert_eq!(parse_transport(&String::from("unix ")), None);
    assert_eq!(parse_transport(&String::from("")), None);
}

#[test]
fn endpoint_is_the_local_port_or_the_socket_file() {
    let tcp = config(9000, "abc", false, "/tmp/s");
    assert_eq!(tcp.endpoint(), Endpoint::Tcp { host: [127, 0, 0, 1], port: 9000 });
    let unix = config(9000, "abc", true, "/tmp/s");
    assert_eq!(unix.endpoint(), Endpoint::Unix { path: String::from("/tmp/s") });
}
