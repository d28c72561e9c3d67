//! The values that a message can carry, and how each lies in the payload.

use crate::message::{Message, MessageError, MessageKind, MessageView, PAYLOAD_CAPACITY};
use vstd::bytes::{
    lemma_auto_spec_u64_to_from_le_bytes, spec_u64_from_le_bytes, spec_u64_to_le_bytes,
    u64_from_le_bytes, u64_to_le_bytes,
};
use vstd::prelude::*;
use vstd::slice::{slice_subrange, slice_to_vec};
use vstd::utf8::{decode_utf8, encode_utf8, valid_utf8};

verus! {

/// Number of bytes that one integer takes in a payload.
pub const INTEGER_WIDTH: usize = 8;

/// Largest number of integers that one payload holds.
pub const LIST_CAPACITY: usize = 125;

/// `bytes` followed by as many zeros as fill the payload.
pub open spec fn padded(bytes: Seq<u8>) -> Seq<u8> {
    Seq::new(
        PAYLOAD_CAPACITY as nat,
        |i: int|
            if i < bytes.len() {
                bytes[i]
            } else {
                0u8
            },
    )
}

/// A type of value that a message can carry: nothing, an unsigned integer,
/// text, or a list of unsigned integers.
pub trait MessageType: Sized + View {
    /// The bytes that stand for `v` at the start of the payload.
    spec fn payload_of(v: Self::V) -> Seq<u8>;

    /// What the length field says of `v`: bytes for text, elements for a list.
    spec fn length_of(v: Self::V) -> nat;

    /// The value that a payload holds under a given length field.
    spec fn value_of(len: usize, payload: Seq<u8>) -> Result<Self::V, MessageError>;

    /// A value that fits is read back from its own payload.
    proof fn lemma_round_trip(v: Self::V)
        requires
            Self::payload_of(v).len() <= PAYLOAD_CAPACITY,
        ensures
            Self::length_of(v) <= PAYLOAD_CAPACITY,
            Self::value_of(Self::length_of(v) as usize, padded(Self::payload_of(v))) == Ok::<
                Self::V,
                MessageError,
            >(v),
    ;

    /// Reads the value that `message` carries.
    fn to_value(message: &Message) -> (r: Result<Self, MessageError>)
        ensures
            match r {
                Ok(v) => Self::value_of(message.raw_bytes_len, message.raw_bytes@) == Ok::<
                    Self::V,
                    MessageError,
                >(v@),
                Err(e) => Self::value_of(message.raw_bytes_len, message.raw_bytes@) == Err::<
                    Self::V,
                    MessageError,
                >(e),
            },
    ;

    /// Builds the message that carries `self`.
    fn to_message(&self, id: usize, kind: MessageKind) -> (r: Result<Message, MessageError>)
        ensures
            match r {
                Ok(m) => Self::payload_of(self@).len() <= PAYLOAD_CAPACITY && m@ == (MessageView {
                    id,
                    kind,
                    len: Self::length_of(self@) as usize,
                    payload: padded(Self::payload_of(self@)),
                }),
                Err(e) => Self::payload_of(self@).len() > PAYLOAD_CAPACITY && e
                    == MessageError::PayloadTooLarge,
            },
    ;
}

/// The message that carries `v`, or `PayloadTooLarge` where `v` takes more
/// bytes than one payload holds.
pub open spec fn encoded<T: MessageType>(v: T::V, id: usize, kind: MessageKind) -> Result<
    MessageView,
    MessageError,
> {
    if T::payload_of(v).len() <= PAYLOAD_CAPACITY {
        Ok(
            MessageView {
                id,
                kind,
                len: T::length_of(v) as usize,
                payload: padded(T::payload_of(v)),
            },
        )
    } else {
        Err(MessageError::PayloadTooLarge)
    }
}

/// The value of type `T` that a message carries.
pub open spec fn decoded<T: MessageType>(m: MessageView) -> Result<T::V, MessageError> {
    T::value_of(m.len, m.payload)
}

/// Whatever is sent arrives: a value that can be encoded is decoded from its
/// message unchanged, and that message is well formed.
pub proof fn lemma_decode_encode<T: MessageType>(v: T::V, id: usize, kind: MessageKind)
    requires
        encoded::<T>(v, id, kind) is Ok,
    ensures
        encoded::<T>(v, id, kind)->Ok_0.well_formed(),
        decoded::<T>(encoded::<T>(v, id, kind)->Ok_0) == Ok::<T::V, MessageError>(v),
{
    T::lemma_round_trip(v);
}

/// Copies `bytes` to the start of a fresh, zeroed payload.
fn payload_from(bytes: &[u8]) -> (raw: [u8; 1000])
    requires
        bytes@.len() <= PAYLOAD_CAPACITY,
    ensures
        raw@ == padded(bytes@),
{
    let mut raw = [0u8; 1000];
    let mut i: usize = 0;
    while i < bytes.len()
        invariant
            i <= bytes@.len() <= PAYLOAD_CAPACITY,
            forall|j: int| 0 <= j < i ==> raw@[j] == bytes@[j],
            forall|j: int| i <= j < PAYLOAD_CAPACITY ==> raw@[j] == 0,
        decreases bytes@.len() - i,
    {
        raw[i] = bytes[i];
        i += 1;
    }
    assert(raw@ =~= padded(bytes@));
    raw
}

/// Calls `String::from_utf8` of the standard library. Its contract is not
/// proved here but taken from that function's documentation: the bytes are
/// accepted exactly when they are valid UTF-8, and the string then holds the
/// characters that they encode.
#[verifier::external_body]
fn text_from_utf8(bytes: Vec<u8>) -> (r: Option<String>)
    ensures
        r is Some <==> valid_utf8(bytes@),
        r matches Some(s) ==> s@ == decode_utf8(bytes@),
{
    String::from_utf8(bytes).ok()
}

impl MessageType for () {
    /// No bytes at all.
    open spec fn payload_of(v: ()) -> Seq<u8> {
        Seq::empty()
    }

    open spec fn length_of(v: ()) -> nat {
        0
    }

    /// Nothing, whatever the payload holds; only a length field beyond the
    /// payload is refused.
    open spec fn value_of(len: usize, payload: Seq<u8>) -> Result<(), MessageError> {
        if len > PAYLOAD_CAPACITY {
            Err(MessageError::LengthExceedsCapacity)
        } else {
            Ok(())
        }
    }

    proof fn lemma_round_trip(v: ()) {
    }

    fn to_value(message: &Message) -> (r: Result<(), MessageError>) {
        if message.raw_bytes_len > PAYLOAD_CAPACITY {
            Err(MessageError::LengthExceedsCapacity)
        } else {
            Ok(())
        }
    }

    fn to_message(&self, id: usize, kind: MessageKind) -> (r: Result<Message, MessageError>) {
        let empty: Vec<u8> = Vec::new();
        Ok(Message { id, kind, raw_bytes_len: 0, raw_bytes: payload_from(empty.as_slice()) })
    }
}

/// The integer that the `i`-th group of eight bytes of a payload holds.
pub open spec fn integer_at(payload: Seq<u8>, i: int) -> u64 {
    spec_u64_from_le_bytes(payload.subrange(INTEGER_WIDTH * i, INTEGER_WIDTH * i + INTEGER_WIDTH))
}

impl MessageType for usize {
    /// Eight bytes, least significant first.
    open spec fn payload_of(v: usize) -> Seq<u8> {
        spec_u64_to_le_bytes(v as u64)
    }

    open spec fn length_of(v: usize) -> nat {
        INTEGER_WIDTH as nat
    }

    /// The integer in the first eight bytes. The length field is not needed
    /// to find it; one beyond the payload is refused all the same.
    open spec fn value_of(len: usize, payload: Seq<u8>) -> Result<usize, MessageError> {
        if len > PAYLOAD_CAPACITY {
            Err(MessageError::LengthExceedsCapacity)
        } else if integer_at(payload, 0) > usize::MAX {
            Err(MessageError::ValueOutOfRange)
        } else {
            Ok(integer_at(payload, 0) as usize)
        }
    }

    proof fn lemma_round_trip(v: usize) {
        lemma_auto_spec_u64_to_from_le_bytes();
        assert(padded(spec_u64_to_le_bytes(v as u64)).subrange(0, 8) =~= spec_u64_to_le_bytes(
            v as u64,
        ));
    }

    fn to_value(message: &Message) -> (r: Result<usize, MessageError>) {
        if message.raw_bytes_len > PAYLOAD_CAPACITY {
            return Err(MessageError::LengthExceedsCapacity);
        }
        let x: u64 = u64_from_le_bytes(slice_subrange(message.raw_bytes.as_slice(), 0, 8));
        if x > usize::MAX as u64 {
            Err(MessageError::ValueOutOfRange)
        } else {
            Ok(x as usize)
        }
    }

    fn to_message(&self, id: usize, kind: MessageKind) -> (r: Result<Message, MessageError>) {
        let bytes = u64_to_le_bytes(*self as u64);
        Ok(
            Message {
                id,
                kind,
                raw_bytes_len: INTEGER_WIDTH,
                raw_bytes: payload_from(bytes.as_slice()),
            },
        )
    }
}

impl MessageType for String {
    /// The text in UTF-8.
    open spec fn payload_of(v: Seq<char>) -> Seq<u8> {
        encode_utf8(v)
    }

    /// The number of bytes of the text in UTF-8.
    open spec fn length_of(v: Seq<char>) -> nat {
        encode_utf8(v).len()
    }

    /// The first `len` bytes, read as UTF-8. The length field alone says where
    /// the text ends: a zero byte is a character like any other.
    open spec fn value_of(len: usize, payload: Seq<u8>) -> Result<Seq<char>, MessageError> {
        if len > PAYLOAD_CAPACITY {
            Err(MessageError::LengthExceedsCapacity)
        } else if !valid_utf8(payload.subrange(0, len as int)) {
            Err(MessageError::InvalidText)
        } else {
            Ok(decode_utf8(payload.subrange(0, len as int)))
        }
    }

    proof fn lemma_round_trip(v: Seq<char>) {
        broadcast use vstd::utf8::encode_utf8_valid_utf8, vstd::utf8::encode_utf8_decode_utf8;

        let bytes = encode_utf8(v);
        assert(padded(bytes).subrange(0, bytes.len() as int) =~= bytes);
    }

    fn to_value(message: &Message) -> (r: Result<String, MessageError>) {
        if message.raw_bytes_len > PAYLOAD_CAPACITY {
            return Err(MessageError::LengthExceedsCapacity);
        }
        let text = slice_subrange(message.raw_bytes.as_slice(), 0, message.raw_bytes_len);
        match text_from_utf8(slice_to_vec(text)) {
            Some(s) => Ok(s),
            None => Err(MessageError::InvalidText),
        }
    }

    fn to_message(&self, id: usize, kind: MessageKind) -> (r: Result<Message, MessageError>) {
        let bytes = self.as_str().as_bytes();
        if bytes.len() > PAYLOAD_CAPACITY {
            return Err(MessageError::PayloadTooLarge);
        }
        Ok(Message { id, kind, raw_bytes_len: bytes.len(), raw_bytes: payload_from(bytes) })
    }
}

/// The bytes of a list of integers: eight for each, least significant first,
/// one integer after the other.
pub open spec fn list_bytes(list: Seq<usize>) -> Seq<u8> {
    Seq::new(
        (INTEGER_WIDTH * list.len()) as nat,
        |i: int| spec_u64_to_le_bytes(list[i / 8] as u64)[i % 8],
    )
}

impl MessageType for Vec<usize> {
    /// Eight bytes for each integer.
    open spec fn payload_of(v: Seq<usize>) -> Seq<u8> {
        list_bytes(v)
    }

    /// The number of integers in the list: an eighth of the bytes they take.
    open spec fn length_of(v: Seq<usize>) -> nat {
        v.len()
    }

    /// The first `len` integers, unless they are more than a payload holds.
    open spec fn value_of(len: usize, payload: Seq<u8>) -> Result<Seq<usize>, MessageError> {
        if len > LIST_CAPACITY {
            Err(MessageError::LengthExceedsCapacity)
        } else if exists|i: int| 0 <= i < len && #[trigger] integer_at(payload, i) > usize::MAX {
            Err(MessageError::ValueOutOfRange)
        } else {
            Ok(Seq::new(len as nat, |i: int| integer_at(payload, i) as usize))
        }
    }

    proof fn lemma_round_trip(v: Seq<usize>) {
        lemma_auto_spec_u64_to_from_le_bytes();
        let payload = padded(list_bytes(v));
        assert forall|i: int| 0 <= i < v.len() implies #[trigger] integer_at(payload, i)
            == v[i] as u64 by {
            assert(payload.subrange(8 * i, 8 * i + 8) =~= spec_u64_to_le_bytes(v[i] as u64));
        }
        assert(Seq::new(v.len(), |i: int| integer_at(payload, i) as usize) =~= v);
    }

    fn to_value(message: &Message) -> (r: Result<Vec<usize>, MessageError>) {
        if message.raw_bytes_len > LIST_CAPACITY {
            return Err(MessageError::LengthExceedsCapacity);
        }
        let mut list: Vec<usize> = Vec::new();
        let mut i: usize = 0;
        while i < message.raw_bytes_len
            invariant
                i <= message.raw_bytes_len <= LIST_CAPACITY,
                list@.len() == i,
                forall|j: int|
                    0 <= j < i ==> #[trigger] integer_at(message.raw_bytes@, j) == list@[j],
            decreases message.raw_bytes_len - i,
        {
            let x: u64 = u64_from_le_bytes(
                slice_subrange(message.raw_bytes.as_slice(), 8 * i, 8 * i + 8),
            );
            if x > usize::MAX as u64 {
                assert(integer_at(message.raw_bytes@, i as int) > usize::MAX);
                return Err(MessageError::ValueOutOfRange);
            }
            list.push(x as usize);
            i += 1;
        }
        assert(list@ =~= Seq::new(i as nat, |j: int| integer_at(message.raw_bytes@, j) as usize));
        Ok(list)
    }

    fn to_message(&self, id: usize, kind: MessageKind) -> (r: Result<Message, MessageError>) {
        if self.len() > LIST_CAPACITY {
            return Err(MessageError::PayloadTooLarge);
        }
        let mut bytes: Vec<u8> = Vec::new();
        let mut i: usize = 0;
        while i < self.len()
            invariant
                i <= self@.len() <= LIST_CAPACITY,
                bytes@ == list_bytes(self@.subrange(0, i as int)),
            decreases self@.len() - i,
        {
            let mut integer = u64_to_le_bytes(self[i] as u64);
            bytes.append(&mut integer);
            i += 1;
            assert(bytes@ =~= list_bytes(self@.subrange(0, i as int)));
        }
        assert(self@.subrange(0, i as int) =~= self@);
        Ok(Message { id, kind, raw_bytes_len: self.len(), raw_bytes: payload_from(bytes.as_slice()) })
    }
}

} // verus!
