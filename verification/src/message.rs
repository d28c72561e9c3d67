//! The message frame: a record of fixed size that carries a sender, a kind, a
//! length and a zero-padded payload.

use crate::payload::{decoded, encoded, MessageType};
use vstd::bytes::{
    lemma_auto_spec_u64_to_from_le_bytes, spec_u64_from_le_bytes, spec_u64_to_le_bytes,
    u64_from_le_bytes, u64_to_le_bytes,
};
use vstd::prelude::*;
use vstd::slice::slice_subrange;

verus! {

/// Number of payload bytes that every frame carries.
pub const PAYLOAD_CAPACITY: usize = 1000;

/// Number of bytes of a frame on the wire, whatever it holds.
pub const FRAME_SIZE: usize = 1024;

/// What a message is about.
#[derive(Debug, Clone, Copy, PartialEq, Eq, Structural)]
pub enum MessageKind {
    /// Terminates the connection.
    Exit,
    /// Asks (server) or enters (client) the password.
    EnterPasswd,
    /// Says the password is wrong.
    WrongPasswd,
    /// Assigns a user id.
    AssignUid,
    /// Shows available opponents.
    ShowOpponents,
    /// Accepts (server) or selects (client) an opponent.
    SelectOpponent,
    /// Asks the opponent to be a guesser.
    AskOpponent,
    /// Guesses.
    Guess,
    /// Shows that the guess is wrong.
    WrongGuess,
    /// Sends a hint to the guesser.
    Hint,
    /// Announces that the guess is correct.
    CorrectGuess,
}

impl MessageKind {
    /// The byte that stands for this kind in a frame.
    pub open spec fn spec_tag(self) -> u8 {
        match self {
            MessageKind::Exit => 0,
            MessageKind::EnterPasswd => 1,
            MessageKind::WrongPasswd => 2,
            MessageKind::AssignUid => 3,
            MessageKind::ShowOpponents => 4,
            MessageKind::SelectOpponent => 5,
            MessageKind::AskOpponent => 6,
            MessageKind::Guess => 7,
            MessageKind::WrongGuess => 8,
            MessageKind::Hint => 9,
            MessageKind::CorrectGuess => 10,
        }
    }

    /// The kind that a tag byte stands for, if any.
    pub open spec fn spec_from_tag(tag: u8) -> Option<MessageKind> {
        if tag == 0 {
            Some(MessageKind::Exit)
        } else if tag == 1 {
            Some(MessageKind::EnterPasswd)
        } else if tag == 2 {
            Some(MessageKind::WrongPasswd)
        } else if tag == 3 {
            Some(MessageKind::AssignUid)
        } else if tag == 4 {
            Some(MessageKind::ShowOpponents)
        } else if tag == 5 {
            Some(MessageKind::SelectOpponent)
        } else if tag == 6 {
            Some(MessageKind::AskOpponent)
        } else if tag == 7 {
            Some(MessageKind::Guess)
        } else if tag == 8 {
            Some(MessageKind::WrongGuess)
        } else if tag == 9 {
            Some(MessageKind::Hint)
        } else if tag == 10 {
            Some(MessageKind::CorrectGuess)
        } else {
            None
        }
    }

    /// Whether messages of this kind may carry text.
    pub open spec fn spec_carries_text(self) -> bool {
        self == MessageKind::EnterPasswd || self == MessageKind::Hint
    }

    /// The byte that stands for this kind in a frame.
    pub fn tag(self) -> (t: u8)
        ensures
            t == self.spec_tag(),
            Self::spec_from_tag(t) == Some(self),
    {
        match self {
            MessageKind::Exit => 0,
            MessageKind::EnterPasswd => 1,
            MessageKind::WrongPasswd => 2,
            MessageKind::AssignUid => 3,
            MessageKind::ShowOpponents => 4,
            MessageKind::SelectOpponent => 5,
            MessageKind::AskOpponent => 6,
            MessageKind::Guess => 7,
            MessageKind::WrongGuess => 8,
            MessageKind::Hint => 9,
            MessageKind::CorrectGuess => 10,
        }
    }

    /// The kind that a tag byte stands for, if any.
    pub fn from_tag(tag: u8) -> (kind: Option<MessageKind>)
        ensures
            kind == Self::spec_from_tag(tag),
            kind matches Some(k) ==> k.spec_tag() == tag,
    {
        match tag {
            0 => Some(MessageKind::Exit),
            1 => Some(MessageKind::EnterPasswd),
            2 => Some(MessageKind::WrongPasswd),
            3 => Some(MessageKind::AssignUid),
            4 => Some(MessageKind::ShowOpponents),
            5 => Some(MessageKind::SelectOpponent),
            6 => Some(MessageKind::AskOpponent),
            7 => Some(MessageKind::Guess),
            8 => Some(MessageKind::WrongGuess),
            9 => Some(MessageKind::Hint),
            10 => Some(MessageKind::CorrectGuess),
            _ => None,
        }
    }

    /// Whether messages of this kind may carry text.
    pub fn carries_text(self) -> (b: bool)
        ensures
            b == self.spec_carries_text(),
    {
        match self {
            MessageKind::EnterPasswd => true,
            MessageKind::Hint => true,
            _ => false,
        }
    }
}

/// Why a frame or a value could not be encoded or decoded.
#[derive(Debug, Clone, Copy, PartialEq, Eq, Structural)]
pub enum MessageError {
    /// Fewer bytes arrived than one frame holds.
    IncompleteFrame,
    /// The tag byte stands for no kind.
    UnknownKind,
    /// The length field describes more than the payload can hold.
    LengthExceedsCapacity,
    /// The value to send does not fit into one payload.
    PayloadTooLarge,
    /// The payload is not UTF-8 where text is expected.
    InvalidText,
    /// A number in the frame does not fit into `usize` on this machine.
    ValueOutOfRange,
}

/// One message. All messages have the same size: the payload is a buffer of
/// `PAYLOAD_CAPACITY` bytes, of which the value in it uses a part.
#[derive(Debug, Clone, PartialEq, Eq)]
pub struct Message {
    /// Who sent it; 0 for the server and for a client without an id.
    pub id: usize,
    /// What the message is about.
    pub kind: MessageKind,
    /// Bytes of text, or elements of a list, that the payload holds.
    pub raw_bytes_len: usize,
    /// The payload: the value first, zeros after it.
    pub raw_bytes: [u8; 1000],
}

/// A message as contracts see it.
pub struct MessageView {
    /// The sender.
    pub id: usize,
    pub kind: MessageKind,
    /// What the length field holds.
    pub len: usize,
    /// The bytes of the payload, all of them.
    pub payload: Seq<u8>,
}

impl View for Message {
    type V = MessageView;

    open spec fn view(&self) -> MessageView {
        MessageView {
            id: self.id,
            kind: self.kind,
            len: self.raw_bytes_len,
            payload: self.raw_bytes@,
        }
    }
}

impl MessageView {
    /// The length field describes no more than the payload can hold, and the
    /// payload has its fixed size.
    pub open spec fn well_formed(self) -> bool {
        self.len <= PAYLOAD_CAPACITY && self.payload.len() == PAYLOAD_CAPACITY
    }
}

/// `n` zero bytes.
pub open spec fn zeros(n: nat) -> Seq<u8> {
    Seq::new(n, |i: int| 0u8)
}

/// The bytes of a frame, in the order in which they travel: the sender as
/// eight bytes, least significant first; the kind's tag; seven reserved bytes,
/// all zero; the length field as eight bytes, least significant first; the
/// payload.
pub open spec fn frame_bytes(m: MessageView) -> Seq<u8> {
    spec_u64_to_le_bytes(m.id as u64) + seq![m.kind.spec_tag()] + zeros(7) + spec_u64_to_le_bytes(
        m.len as u64,
    ) + m.payload
}

/// The message that the first `FRAME_SIZE` of the bytes received hold. The
/// reserved bytes are not looked at.
pub open spec fn parse_frame(bytes: Seq<u8>) -> Result<MessageView, MessageError> {
    if bytes.len() < FRAME_SIZE {
        Err(MessageError::IncompleteFrame)
    } else {
        let id = spec_u64_from_le_bytes(bytes.subrange(0, 8));
        let len = spec_u64_from_le_bytes(bytes.subrange(16, 24));
        match MessageKind::spec_from_tag(bytes[8]) {
            None => Err(MessageError::UnknownKind),
            Some(kind) => if id > usize::MAX {
                Err(MessageError::ValueOutOfRange)
            } else if len > PAYLOAD_CAPACITY {
                Err(MessageError::LengthExceedsCapacity)
            } else {
                Ok(
                    MessageView {
                        id: id as usize,
                        kind,
                        len: len as usize,
                        payload: bytes.subrange(24, FRAME_SIZE as int),
                    },
                )
            },
        }
    }
}

/// Every frame has the same size, whatever its kind and whatever it carries.
pub proof fn lemma_frame_size(m: MessageView)
    requires
        m.payload.len() == PAYLOAD_CAPACITY,
    ensures
        frame_bytes(m).len() == FRAME_SIZE,
{
    lemma_auto_spec_u64_to_from_le_bytes();
}

/// Reading back the frame of a well-formed message gives that message.
pub proof fn lemma_parse_frame_bytes(m: MessageView)
    requires
        m.well_formed(),
    ensures
        parse_frame(frame_bytes(m)) == Ok::<MessageView, MessageError>(m),
{
    lemma_auto_spec_u64_to_from_le_bytes();
    let bytes = frame_bytes(m);
    assert(bytes.subrange(0, 8) =~= spec_u64_to_le_bytes(m.id as u64));
    assert(bytes.subrange(16, 24) =~= spec_u64_to_le_bytes(m.len as u64));
    assert(bytes.subrange(24, FRAME_SIZE as int) =~= m.payload);
    assert(bytes[8] == m.kind.spec_tag());
}

/// Whatever is read from the wire is well formed: its length field describes
/// no more than its payload holds.
pub proof fn lemma_parsed_is_well_formed(bytes: Seq<u8>)
    requires
        parse_frame(bytes) is Ok,
    ensures
        parse_frame(bytes)->Ok_0.well_formed(),
{
}

/// Appends `src` to `dst`.
fn append_bytes(dst: &mut Vec<u8>, src: &[u8])
    ensures
        final(dst)@ == old(dst)@ + src@,
{
    let mut i: usize = 0;
    while i < src.len()
        invariant
            i <= src@.len(),
            dst@ == old(dst)@ + src@.subrange(0, i as int),
        decreases src@.len() - i,
    {
        dst.push(src[i]);
        i += 1;
        assert(dst@ =~= old(dst)@ + src@.subrange(0, i as int));
    }
    assert(src@.subrange(0, i as int) =~= src@);
}

impl Message {
    /// A message with an all-zero payload whose length field is `raw_bytes_len`.
    /// Fails with `PayloadTooLarge` where that is more than a payload holds.
    pub fn new_raw(id: usize, kind: MessageKind, raw_bytes_len: usize) -> (r: Result<
        Message,
        MessageError,
    >)
        ensures
            match r {
                Ok(m) => raw_bytes_len <= PAYLOAD_CAPACITY && m@ == (MessageView {
                    id,
                    kind,
                    len: raw_bytes_len,
                    payload: zeros(PAYLOAD_CAPACITY as nat),
                }),
                Err(e) => raw_bytes_len > PAYLOAD_CAPACITY && e == MessageError::PayloadTooLarge,
            },
    {
        if raw_bytes_len > PAYLOAD_CAPACITY {
            return Err(MessageError::PayloadTooLarge);
        }
        let m = Message { id, kind, raw_bytes_len, raw_bytes: [0u8; 1000] };
        assert(m.raw_bytes@ =~= zeros(PAYLOAD_CAPACITY as nat));
        Ok(m)
    }

    /// The frame of this message: always `FRAME_SIZE` bytes.
    pub fn to_bytes(&self) -> (bytes: Vec<u8>)
        ensures
            bytes@ == frame_bytes(self@),
            bytes@.len() == FRAME_SIZE,
    {
        let mut bytes = u64_to_le_bytes(self.id as u64);
        bytes.push(self.kind.tag());
        let reserved = [0u8; 7];
        assert(reserved@ =~= zeros(7));
        append_bytes(&mut bytes, reserved.as_slice());
        let len = u64_to_le_bytes(self.raw_bytes_len as u64);
        append_bytes(&mut bytes, len.as_slice());
        append_bytes(&mut bytes, self.raw_bytes.as_slice());
        bytes
    }

    /// Reads one message from the bytes received. Fewer than `FRAME_SIZE`
    /// bytes are an `IncompleteFrame`; bytes beyond the frame are left alone.
    pub fn from_bytes(bytes: &[u8]) -> (r: Result<Message, MessageError>)
        ensures
            match r {
                Ok(m) => parse_frame(bytes@) == Ok::<MessageView, MessageError>(m@),
                Err(e) => parse_frame(bytes@) == Err::<MessageView, MessageError>(e),
            },
    {
        if bytes.len() < FRAME_SIZE {
            return Err(MessageError::IncompleteFrame);
        }
        let kind = match MessageKind::from_tag(bytes[8]) {
            Some(kind) => kind,
            None => {
                return Err(MessageError::UnknownKind);
            },
        };
        let id: u64 = u64_from_le_bytes(slice_subrange(bytes, 0, 8));
        let len: u64 = u64_from_le_bytes(slice_subrange(bytes, 16, 24));
        if id > usize::MAX as u64 {
            return Err(MessageError::ValueOutOfRange);
        }
        if len > PAYLOAD_CAPACITY as u64 {
            return Err(MessageError::LengthExceedsCapacity);
        }
        let mut raw_bytes = [0u8; 1000];
        let mut i: usize = 0;
        while i < PAYLOAD_CAPACITY
            invariant
                i <= PAYLOAD_CAPACITY,
                bytes@.len() >= FRAME_SIZE,
                forall|j: int| 0 <= j < i ==> raw_bytes@[j] == bytes@[24 + j],
            decreases PAYLOAD_CAPACITY - i,
        {
            raw_bytes[i] = bytes[24 + i];
            i += 1;
        }
        assert(raw_bytes@ =~= bytes@.subrange(24, FRAME_SIZE as int));
        Ok(Message { id: id as usize, kind, raw_bytes_len: len as usize, raw_bytes })
    }

    /// The message that carries `v` from sender `id`. Fails with
    /// `PayloadTooLarge` where `v` does not fit into one payload.
    pub fn new<T: MessageType>(v: &T, id: usize, kind: MessageKind) -> (r: Result<
        Message,
        MessageError,
    >)
        ensures
            match r {
                Ok(m) => encoded::<T>(v@, id, kind) == Ok::<MessageView, MessageError>(m@),
                Err(e) => encoded::<T>(v@, id, kind) == Err::<MessageView, MessageError>(e),
            },
    {
        v.to_message(id, kind)
    }

    /// The message that carries `v` from no one in particular: sender 0.
    pub fn new_anonymous<T: MessageType>(v: &T, kind: MessageKind) -> (r: Result<
        Message,
        MessageError,
    >)
        ensures
            match r {
                Ok(m) => encoded::<T>(v@, 0, kind) == Ok::<MessageView, MessageError>(m@),
                Err(e) => encoded::<T>(v@, 0, kind) == Err::<MessageView, MessageError>(e),
            },
    {
        Message::new::<T>(v, 0, kind)
    }

    /// The value of type `T` that this message carries.
    pub fn value<T: MessageType>(&self) -> (r: Result<T, MessageError>)
        ensures
            match r {
                Ok(v) => decoded::<T>(self@) == Ok::<T::V, MessageError>(v@),
                Err(e) => decoded::<T>(self@) == Err::<T::V, MessageError>(e),
            },
    {
        T::to_value(self)
    }
}

} // verus!
