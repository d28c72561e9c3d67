//! The command line: `server <password> [tcp|unix] [port|path]` and
//! `client <password> <guesser|chooser> [tcp|unix] [port|path]`.

use crate::socket::{ConfigView, MessageSocketConfig, DEFAULT_PORT};
use vstd::prelude::*;
use vstd::utf8::encode_utf8;

verus! {

/// What a client does once opponents are announced.
#[derive(Debug, Clone, Copy, PartialEq, Eq, Structural)]
pub enum ClientKind {
    /// Waits to be chosen.
    Guesser,
    /// Chooses an opponent from the list.
    Chooser,
}

/// What is wrong with a command line. Positions count from 0, the program's
/// name.
#[derive(Debug, Clone, Copy, PartialEq, Eq, Structural)]
pub enum ConfigError {
    /// A server was given no password.
    MissingPassword,
    /// A client was given no password, or no role after it.
    MissingRole,
    /// The role is neither `guesser` nor `chooser`.
    InvalidRole { position: usize },
    /// The transport is neither `tcp` nor `unix`.
    InvalidTransport { position: usize },
    /// The port is no decimal number that fits into 16 bits.
    InvalidPort,
}

/// Whether a byte is an ASCII digit.
pub open spec fn is_digit(b: u8) -> bool {
    48 <= b <= 57
}

/// Whether all bytes are ASCII digits.
pub open spec fn all_digits(text: Seq<u8>) -> bool {
    forall|i: int| 0 <= i < text.len() ==> is_digit(#[trigger] text[i])
}

/// The number that decimal digits spell.
pub open spec fn decimal(digits: Seq<u8>) -> nat
    decreases digits.len(),
{
    if digits.len() == 0 {
        0
    } else {
        decimal(digits.drop_last()) * 10 + (digits.last() - 48) as nat
    }
}

/// The digits of a number written with or without a plus sign before it.
pub open spec fn unsigned_part(text: Seq<u8>) -> Seq<u8> {
    if text.len() > 0 && text[0] == 43 {
        text.drop_first()
    } else {
        text
    }
}

/// The port that a text spells: one or more decimal digits, a plus sign
/// before them or not, of a number up to 65535.
pub open spec fn port_of(text: Seq<u8>) -> Option<u16> {
    let digits = unsigned_part(text);
    if digits.len() > 0 && all_digits(digits) && decimal(digits) <= u16::MAX {
        Some(decimal(digits) as u16)
    } else {
        None
    }
}

/// A number does not get smaller when more digits follow.
proof fn lemma_decimal_grows(digits: Seq<u8>, k: int)
    requires
        0 <= k <= digits.len(),
        all_digits(digits),
    ensures
        decimal(digits.subrange(0, k)) <= decimal(digits),
    decreases digits.len() - k,
{
    if k < digits.len() {
        assert(digits.subrange(0, k + 1).drop_last() =~= digits.subrange(0, k));
        assert(is_digit(digits[k]));
        lemma_decimal_grows(digits, k + 1);
    } else {
        assert(digits.subrange(0, k) =~= digits);
    }
}

/// Reads a port number.
pub fn parse_port(text: &str) -> (port: Option<u16>)
    ensures
        port == port_of(encode_utf8(text@)),
{
    let bytes = text.as_bytes();
    let n: usize = bytes.len();
    let start: usize = if n > 0 && bytes[0] == 43 {
        1
    } else {
        0
    };
    if start == n {
        return None;
    }
    let ghost digits = unsigned_part(bytes@);
    assert(digits =~= bytes@.subrange(start as int, n as int));
    let mut value: u32 = 0;
    let mut i: usize = start;
    while i < n
        invariant
            start <= i <= n == bytes@.len(),
            bytes@ == encode_utf8(text@),
            digits == unsigned_part(bytes@),
            digits == bytes@.subrange(start as int, n as int),
            all_digits(digits.subrange(0, i - start)),
            value == decimal(digits.subrange(0, i - start)),
            value <= u16::MAX,
        decreases n - i,
    {
        let b: u8 = bytes[i];
        if b < 48 || b > 57 {
            assert(!is_digit(digits[i - start]));
            return None;
        }
        let next: u32 = value * 10 + (b - 48) as u32;
        assert(digits.subrange(0, i - start + 1).drop_last() =~= digits.subrange(0, i - start));
        if next > 65535 {
            proof {
                if all_digits(digits) {
                    lemma_decimal_grows(digits, i - start + 1);
                }
            }
            return None;
        }
        value = next;
        i += 1;
    }
    assert(digits.subrange(0, i - start) =~= digits);
    Some(value as u16)
}

/// The role that an argument names.
pub open spec fn role_of(arg: Seq<char>) -> Option<ClientKind> {
    if arg == "guesser"@ {
        Some(ClientKind::Guesser)
    } else if arg == "chooser"@ {
        Some(ClientKind::Chooser)
    } else {
        None
    }
}

/// Whether an argument asks for a Unix-domain socket (`unix`) or not (`tcp`).
pub open spec fn transport_of(arg: Seq<char>) -> Option<bool> {
    if arg == "tcp"@ {
        Some(false)
    } else if arg == "unix"@ {
        Some(true)
    } else {
        None
    }
}

/// The socket file used where none is given.
pub open spec fn default_socket_file() -> Seq<char> {
    "/tmp/guessing-game-unix-socket"@
}

/// At which position the transport stands: after the password for a server,
/// after the role for a client.
pub open spec fn transport_position(is_server: bool) -> int {
    if is_server {
        2
    } else {
        3
    }
}

/// What a command line asks for. `args[0]` is the program's name and
/// `args[1]` the password; a client's role follows; then, both optional, the
/// transport (TCP where it is missing) and the port or socket file (port 8080
/// or the default file where it is missing).
pub open spec fn parsed(args: Seq<Seq<char>>, is_server: bool) -> Result<
    (ConfigView, ClientKind),
    ConfigError,
> {
    let at = transport_position(is_server);
    if is_server && args.len() < 2 {
        Err(ConfigError::MissingPassword)
    } else if !is_server && args.len() < 3 {
        Err(ConfigError::MissingRole)
    } else if !is_server && role_of(args[2]) is None {
        Err(ConfigError::InvalidRole { position: 2 })
    } else if args.len() > at && transport_of(args[at]) is None {
        Err(ConfigError::InvalidTransport { position: at as usize })
    } else {
        let kind = if is_server {
            ClientKind::Guesser
        } else {
            role_of(args[2])->Some_0
        };
        let unix_socket = args.len() > at && transport_of(args[at])->Some_0;
        let given = args.len() > at + 1;
        if given && !unix_socket && port_of(encode_utf8(args[at + 1])) is None {
            Err(ConfigError::InvalidPort)
        } else {
            Ok(
                (
                    ConfigView {
                        port: if given && !unix_socket {
                            port_of(encode_utf8(args[at + 1]))->Some_0
                        } else {
                            DEFAULT_PORT
                        },
                        pass: args[1],
                        unix_socket,
                        unix_socket_file: if given && unix_socket {
                            args[at + 1]
                        } else {
                            default_socket_file()
                        },
                    },
                    kind,
                ),
            )
        }
    }
}

/// The arguments as contracts see them.
pub open spec fn arg_views(args: Seq<String>) -> Seq<Seq<char>> {
    Seq::new(args.len(), |i: int| args[i]@)
}

/// Reads the role of a client.
pub fn parse_role(arg: &String) -> (kind: Option<ClientKind>)
    ensures
        kind == role_of(arg@),
{
    if *arg == String::from_str("guesser") {
        Some(ClientKind::Guesser)
    } else if *arg == String::from_str("chooser") {
        Some(ClientKind::Chooser)
    } else {
        None
    }
}

/// Reads the transport: whether a Unix-domain socket is asked for.
pub fn parse_transport(arg: &String) -> (unix_socket: Option<bool>)
    ensures
        unix_socket == transport_of(arg@),
{
    if *arg == String::from_str("tcp") {
        Some(false)
    } else if *arg == String::from_str("unix") {
        Some(true)
    } else {
        None
    }
}

/// Reads the command line of a server or of a client. `args` holds the
/// program's name first, as the system hands it over.
pub fn parse_cli(args: &Vec<String>, is_server: bool) -> (r: Result<
    (MessageSocketConfig, ClientKind),
    ConfigError,
>)
    ensures
        match r {
            Ok((config, kind)) => parsed(arg_views(args@), is_server) == Ok::<
                (ConfigView, ClientKind),
                ConfigError,
            >((config@, kind)),
            Err(e) => parsed(arg_views(args@), is_server) == Err::<
                (ConfigView, ClientKind),
                ConfigError,
            >(e),
        },
{
    let mut kind = ClientKind::Guesser;
    let mut config = MessageSocketConfig {
        port: DEFAULT_PORT,
        pass: String::new(),
        unix_socket: false,
        unix_socket_file: String::from_str("/tmp/guessing-game-unix-socket"),
    };
    if is_server {
        if args.len() < 2 {
            return Err(ConfigError::MissingPassword);
        }
    } else {
        if args.len() < 3 {
            return Err(ConfigError::MissingRole);
        }
    }
    config.pass = args[1].clone();
    let at: usize = if is_server {
        2
    } else {
        3
    };
    if !is_server {
        match parse_role(&args[2]) {
            Some(k) => {
                kind = k;
            },
            None => {
                return Err(ConfigError::InvalidRole { position: 2 });
            },
        }
    }
    if args.len() > at {
        match parse_transport(&args[at]) {
            Some(unix_socket) => {
                config.unix_socket = unix_socket;
            },
            None => {
                return Err(ConfigError::InvalidTransport { position: at });
            },
        }
    }
    if args.len() > at + 1 {
        if config.unix_socket {
            config.unix_socket_file = args[at + 1].clone();
        } else {
            match parse_port(args[at + 1].as_str()) {
                Some(port) => {
                    config.port = port;
                },
                None => {
                    return Err(ConfigError::InvalidPort);
                },
            }
        }
    }
    Ok((config, kind))
}

} // verus!
