//! Where to listen or connect, the choice between a TCP port on the local
//! machine and a Unix-domain socket file, and how the bytes that a socket
//! hands over in pieces become one frame.

use crate::message::{parse_frame, Message, MessageError, MessageView, FRAME_SIZE};
use vstd::prelude::*;

verus! {

/// The port used where none is given.
pub const DEFAULT_PORT: u16 = 8080;

/// What a server listens on and a client connects to, and the shared password.
#[derive(Debug, Clone, PartialEq, Eq)]
pub struct MessageSocketConfig {
    /// The TCP port, used unless `unix_socket` is set.
    pub port: u16,
    /// The password that server and clients share.
    pub pass: String,
    /// Whether to use a Unix-domain socket in place of TCP.
    pub unix_socket: bool,
    /// The socket file, used where `unix_socket` is set.
    pub unix_socket_file: String,
}

/// A configuration as contracts see it.
pub struct ConfigView {
    pub port: u16,
    pub pass: Seq<char>,
    pub unix_socket: bool,
    pub unix_socket_file: Seq<char>,
}

impl View for MessageSocketConfig {
    type V = ConfigView;

    open spec fn view(&self) -> ConfigView {
        ConfigView {
            port: self.port,
            pass: self.pass@,
            unix_socket: self.unix_socket,
            unix_socket_file: self.unix_socket_file@,
        }
    }
}

/// An address to bind or to connect to.
#[derive(Debug, Clone, PartialEq, Eq)]
pub enum Endpoint {
    /// A TCP port on the host with this IPv4 address.
    Tcp { host: [u8; 4], port: u16 },
    /// A Unix-domain socket file.
    Unix { path: String },
}

/// An endpoint as contracts see it.
pub enum EndpointView {
    Tcp { host: Seq<u8>, port: u16 },
    Unix { path: Seq<char> },
}

impl View for Endpoint {
    type V = EndpointView;

    open spec fn view(&self) -> EndpointView {
        match self {
            Endpoint::Tcp { host, port } => EndpointView::Tcp { host: host@, port: *port },
            Endpoint::Unix { path } => EndpointView::Unix { path: path@ },
        }
    }
}

/// The IPv4 address of the local machine, 127.0.0.1.
pub open spec fn loopback() -> Seq<u8> {
    seq![127u8, 0u8, 0u8, 1u8]
}

/// The endpoint that a configuration stands for: its socket file where it
/// asks for a Unix-domain socket, else its port on the local machine.
pub open spec fn endpoint_of(config: ConfigView) -> EndpointView {
    if config.unix_socket {
        EndpointView::Unix { path: config.unix_socket_file }
    } else {
        EndpointView::Tcp { host: loopback(), port: config.port }
    }
}

impl MessageSocketConfig {
    /// The endpoint to bind, for a server, or to connect to, for a client.
    pub fn endpoint(&self) -> (endpoint: Endpoint)
        ensures
            endpoint@ == endpoint_of(self@),
    {
        if self.unix_socket {
            Endpoint::Unix { path: self.unix_socket_file.clone() }
        } else {
            let host: [u8; 4] = [127, 0, 0, 1];
            assert(host@ =~= loopback());
            Endpoint::Tcp { host, port: self.port }
        }
    }
}

/// Collects the bytes of one frame as a socket hands them over, piece by
/// piece, and never takes more than one frame.
pub struct FrameReader {
    bytes: Vec<u8>,
}

impl View for FrameReader {
    type V = Seq<u8>;

    /// The bytes collected so far.
    closed spec fn view(&self) -> Seq<u8> {
        self.bytes@
    }
}

/// The smaller of two numbers.
pub open spec fn smaller(a: int, b: int) -> int {
    if a <= b {
        a
    } else {
        b
    }
}

impl FrameReader {
    /// What every reader satisfies: it holds no more than one frame.
    pub open spec fn well_formed(&self) -> bool {
        self@.len() <= FRAME_SIZE
    }

    /// A reader that has collected nothing yet.
    pub fn new() -> (reader: FrameReader)
        ensures
            reader@ == Seq::<u8>::empty(),
            reader.well_formed(),
    {
        FrameReader { bytes: Vec::new() }
    }

    /// The number of bytes still to read: ask the socket for no more.
    pub fn missing(&self) -> (n: usize)
        requires
            self.well_formed(),
        ensures
            n == FRAME_SIZE - self@.len(),
    {
        FRAME_SIZE - self.bytes.len()
    }

    /// Takes in what was read: as much of `chunk`, from its start, as the
    /// frame still misses. Says how many bytes were taken.
    pub fn feed(&mut self, chunk: &[u8]) -> (taken: usize)
        requires
            old(self).well_formed(),
        ensures
            final(self).well_formed(),
            taken == smaller(chunk@.len() as int, FRAME_SIZE - old(self)@.len()),
            final(self)@ == old(self)@ + chunk@.subrange(0, taken as int),
    {
        let missing: usize = FRAME_SIZE - self.bytes.len();
        let taken: usize = if chunk.len() <= missing {
            chunk.len()
        } else {
            missing
        };
        let mut i: usize = 0;
        while i < taken
            invariant
                i <= taken <= chunk@.len(),
                old(self)@.len() + taken <= FRAME_SIZE,
                self@ == old(self)@ + chunk@.subrange(0, i as int),
            decreases taken - i,
        {
            self.bytes.push(chunk[i]);
            i += 1;
            assert(self@ =~= old(self)@ + chunk@.subrange(0, i as int));
        }
        taken
    }

    /// The frame that was collected. Where the peer stopped before the frame
    /// was whole, this is an `IncompleteFrame`.
    pub fn finish(&self) -> (r: Result<Message, MessageError>)
        ensures
            match r {
                Ok(m) => parse_frame(self@) == Ok::<MessageView, MessageError>(m@),
                Err(e) => parse_frame(self@) == Err::<MessageView, MessageError>(e),
            },
            self@.len() < FRAME_SIZE ==> r == Err::<Message, MessageError>(
                MessageError::IncompleteFrame,
            ),
    {
        Message::from_bytes(self.bytes.as_slice())
    }
}

} // verus!
