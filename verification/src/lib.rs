//! A small turn-based guessing game played over a socket: the fixed-size
//! message frames that peers exchange, the server's table of sessions, and the
//! decisions that server and client take between two transmissions.
//!
//! Nothing here touches a socket. Every function maps plain values to plain
//! values, so that the program around the library performs the transmissions
//! and hands what it received back in.

pub mod cli;
pub mod client;
pub mod message;
pub mod payload;
pub mod server;
pub mod socket;

pub use cli::{parse_cli, parse_port, parse_role, parse_transport, ClientKind, ConfigError};
pub use client::{
    is_valid_choice, other_ids, Client, ClientAction, ClientError, ClientPhase,
};
pub use message::{Message, MessageError, MessageKind, FRAME_SIZE, PAYLOAD_CAPACITY};
pub use payload::{MessageType, INTEGER_WIDTH, LIST_CAPACITY};
pub use server::{
    check_password, AuthState, Delivery, Joined, Users, JOINER_DELAY_SECS,
};
pub use socket::{Endpoint, FrameReader, MessageSocketConfig, DEFAULT_PORT};
