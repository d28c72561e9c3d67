use luxinos::{
    FrameReader, Message, MessageError, MessageKind, MessageType, FRAME_SIZE, INTEGER_WIDTH,
    LIST_CAPACITY, PAYLOAD_CAPACITY,
};

const ALL_KINDS: [MessageKind; 11] = [
    MessageKind::Exit,
    MessageKind::EnterPasswd,
    MessageKind::WrongPasswd,
    MessageKind::AssignUid,
    MessageKind::ShowOpponents,
    MessageKind::SelectOpponent,
    MessageKind::AskOpponent,
    MessageKind::Guess,
    MessageKind::WrongGuess,
    MessageKind::Hint,
    MessageKind::CorrectGuess,
];

fn frame_with(id: u64, tag: u8, len: u64, payload: &[u8]) -> Vec<u8> {
    let mut bytes = Vec::new();
    bytes.extend_from_slice(&id.to_le_bytes());
    bytes.push(tag);
    bytes.extend_from_slice(&[0u8; 7]);
    bytes.extend_from_slice(&len.to_le_bytes());
    bytes.extend_from_slice(payload);
    bytes.resize(FRAME_SIZE, 0);
    bytes
}

#[test]
fn constants_describe_the_frame() {
    assert_eq!(PAYLOAD_CAPACITY, 1000);
    assert_eq!(FRAME_SIZE, 1024);
    assert_eq!(INTEGER_WIDTH, 8);
    assert_eq!(LIST_CAPACITY, 125);
}

#[test]
fn tags_count_up_from_zero() {
    for (i, kind) in ALL_KINDS.iter().enumerate() {
        assert_eq!(kind.tag() as usize, i);
        assert_eq!(MessageKind::from_tag(i as u8), Some(*kind));
    }
    assert_eq!(MessageKind::from_tag(11), None);
    assert_eq!(MessageKind::from_tag(255), None);
}

#[test]
fn only_passwords_and_hints_carry_text() {
    for kind in ALL_KINDS.iter() {
        let expected = *kind == MessageKind::EnterPasswd || *kind == MessageKind::Hint;
        assert_eq!(kind.carries_text(), expected);
    }
}

#[test]
fn new_raw_is_all_zero() {
    let m = Message::new_raw(4, MessageKind::Guess, 17).unwrap();
    assert_eq!(m.id, 4);
    assert_eq!(m.kind, MessageKind::Guess);
    assert_eq!(m.raw_bytes_len, 17);
    assert!(m.raw_bytes.iter().all(|b| *b == 0));
    assert!(Message::new_raw(4, MessageKind::Guess, PAYLOAD_CAPACITY).is_ok());
}

#[test]
fn new_raw_refuses_a_length_beyond_the_payload() {
    assert_eq!(
        Message::new_raw(4, MessageKind::Guess, PAYLOAD_CAPACITY + 1),
        Err(MessageError::PayloadTooLarge)
    );
}

#[test]
fn unit_round_trip() {
    let m = Message::new::<()>(&(), 3, MessageKind::WrongPasswd).unwrap();
    assert_eq!(m.id, 3);
    assert_eq!(m.kind, MessageKind::WrongPasswd);
    assert_eq!(m.raw_bytes_len, 0);
    assert!(m.raw_bytes.iter().all(|b| *b == 0));
    assert_eq!(m.value::<()>(), Ok(()));
}

#[test]
fn integer_round_trip() {
    for v in [0usize, 1, 5, 255, 256, 65_535, 1 << 31, usize::MAX - 1, usize::MAX] {
        let m = Message::new::<usize>(&v, 2, MessageKind::SelectOpponent).unwrap();
        assert_eq!(m.raw_bytes_len, 8);
        assert_eq!(m.value::<usize>(), Ok(v));
    }
}

#[test]
fn integer_lies_least_significant_byte_first() {
    let m = Message::new::<usize>(&0x0102, 0, MessageKind::Guess).unwrap();
    assert_eq!(&m.raw_bytes[..8], &[2, 1, 0, 0, 0, 0, 0, 0]);
    assert!(m.raw_bytes[8..].iter().all(|b| *b == 0));
}

#[test]
fn text_round_trip() {
    for text in ["", "abc", "pässwörd", "日本語", "a\0b", "🎲 guess"] {
        let value = String::from(text);
        let m = Message::new::<String>(&value, 0, MessageKind::EnterPasswd).unwrap();
        assert_eq!(m.raw_bytes_len, text.len());
        assert_eq!(&m.raw_bytes[..text.len()], text.as_bytes());
        assert!(m.raw_bytes[text.len()..].iter().all(|b| *b == 0));
        assert_eq!(m.value::<String>(), Ok(value));
    }
}

#[test]
fn text_as_long_as_the_payload_fits() {
    let value = "x".repeat(PAYLOAD_CAPACITY);
    let m = Message::new::<String>(&value, 0, MessageKind::Hint).unwrap();
    assert_eq!(m.raw_bytes_len, PAYLOAD_CAPACITY);
    assert_eq!(m.value::<String>(), Ok(value));
}

#[test]
fn text_longer_than_the_payload_is_refused() {
    let value = "x".repeat(PAYLOAD_CAPACITY + 1);
    assert_eq!(
        Message::new::<String>(&value, 0, MessageKind::Hint),
        Err(MessageError::PayloadTooLarge)
    );
    // 334 characters of three bytes each: 1002 bytes
    let wide = "日".repeat(334);
    assert_eq!(
        Message::new::<String>(&wide, 0, MessageKind::Hint),
        Err(MessageError::PayloadTooLarge)
    );
}

#[test]
fn text_is_cut_by_the_length_field_not_by_a_zero() {
    let mut m = Message::new::<String>(&String::from("abcdef"), 0, MessageKind::Hint).unwrap();
    m.raw_bytes_len = 3;
    assert_eq!(m.value::<String>(), Ok(String::from("abc")));
    m.raw_bytes_len = 8;
    assert_eq!(m.value::<String>(), Ok(String::from("abcdef\0\0")));
}

#[test]
fn text_that_is_not_utf8_is_refused() {
    let mut m = Message::new_raw(0, MessageKind::EnterPasswd, 2).unwrap();
    m.raw_bytes[0] = 0xff;
    m.raw_bytes[1] = 0xfe;
    assert_eq!(m.value::<String>(), Err(MessageError::InvalidText));
    // a character cut in two
    let mut cut = Message::new::<String>(&String::from("é"), 0, MessageKind::Hint).unwrap();
    cut.raw_bytes_len = 1;
    assert_eq!(cut.value::<String>(), Err(MessageError::InvalidText));
}

#[test]
fn text_is_held_to_what_utf8_allows() {
    let cases: [(&[u8], bool); 8] = [
        (&[0x7f], true),
        (&[0xc2, 0x80], true),
        (&[0xc0, 0x80], false),
        (&[0xe0, 0x80, 0x80], false),
        (&[0xed, 0xa0, 0x80], false),
        (&[0xf4, 0x8f, 0xbf, 0xbf], true),
        (&[0xf4, 0x90, 0x80, 0x80], false),
        (&[0x80], false),
    ];
    for (bytes, accepted) in cases {
        let mut m = Message::new_raw(0, MessageKind::Hint, bytes.len()).unwrap();
        m.raw_bytes[..bytes.len()].copy_from_slice(bytes);
        match m.value::<String>() {
            Ok(text) => {
                assert!(accepted);
                assert_eq!(text.as_bytes(), bytes);
            }
            Err(e) => {
                assert!(!accepted);
                assert_eq!(e, MessageError::InvalidText);
            }
        }
    }
}

#[test]
fn list_round_trip() {
    let lists: [Vec<usize>; 4] = [vec![], vec![1, 2], vec![1, 2, 3], vec![usize::MAX, 0, 7]];
    for list in lists {
        let m = Message::new::<Vec<usize>>(&list, 1, MessageKind::ShowOpponents).unwrap();
        assert_eq!(m.raw_bytes_len, list.len());
        assert_eq!(m.value::<Vec<usize>>(), Ok(list));
    }
}

#[test]
fn list_takes_eight_bytes_for_each_integer() {
    let m = Message::new::<Vec<usize>>(&vec![1, 2], 2, MessageKind::ShowOpponents).unwrap();
    assert_eq!(m.raw_bytes_len, 2);
    assert_eq!(&m.raw_bytes[..16], &[1, 0, 0, 0, 0, 0, 0, 0, 2, 0, 0, 0, 0, 0, 0, 0]);
    assert!(m.raw_bytes[16..].iter().all(|b| *b == 0));
}

#[test]
fn list_as_long_as_the_payload_fits() {
    let list: Vec<usize> = (1..=LIST_CAPACITY).collect();
    let m = Message::new::<Vec<usize>>(&list, 0, MessageKind::ShowOpponents).unwrap();
    assert_eq!(m.raw_bytes_len, 125);
    assert_eq!(m.value::<Vec<usize>>(), Ok(list));
}

#[test]
fn list_longer_than_the_payload_is_refused() {
    let list: Vec<usize> = (1..=LIST_CAPACITY + 1).collect();
    assert_eq!(
        Message::new::<Vec<usize>>(&list, 0, MessageKind::ShowOpponents),
        Err(MessageError::PayloadTooLarge)
    );
}

#[test]
fn declared_length_beyond_the_payload_is_refused() {
    let mut m = Message::new_raw(0, MessageKind::Hint, 0).unwrap();
    m.raw_bytes_len = PAYLOAD_CAPACITY + 1;
    assert_eq!(m.value::<String>(), Err(MessageError::LengthExceedsCapacity));
    assert_eq!(m.value::<usize>(), Err(MessageError::LengthExceedsCapacity));
    assert_eq!(m.value::<()>(), Err(MessageError::LengthExceedsCapacity));
    assert_eq!(m.value::<Vec<usize>>(), Err(MessageError::LengthExceedsCapacity));
    m.raw_bytes_len = LIST_CAPACITY + 1;
    assert_eq!(m.value::<Vec<usize>>(), Err(MessageError::LengthExceedsCapacity));
    assert!(m.value::<String>().is_ok());
    m.raw_bytes_len = usize::MAX;
    assert_eq!(m.value::<String>(), Err(MessageError::LengthExceedsCapacity));
    assert_eq!(m.value::<Vec<usize>>(), Err(MessageError::LengthExceedsCapacity));
}

#[test]
fn to_message_and_to_value_are_what_new_and_value_call() {
    let m = 9usize.to_message(4, MessageKind::Guess).unwrap();
    assert_eq!(m, Message::new::<usize>(&9, 4, MessageKind::Guess).unwrap());
    assert_eq!(<usize as MessageType>::to_value(&m), Ok(9));
    let t = String::from("hi").to_message(0, MessageKind::Hint).unwrap();
    assert_eq!(<String as MessageType>::to_value(&t), Ok(String::from("hi")));
    let l = vec![3usize, 4].to_message(0, MessageKind::ShowOpponents).unwrap();
    assert_eq!(<Vec<usize> as MessageType>::to_value(&l), Ok(vec![3, 4]));
    let u = ().to_message(0, MessageKind::Exit).unwrap();
    assert_eq!(<() as MessageType>::to_value(&u), Ok(()));
}

#[test]
fn new_anonymous_has_sender_zero() {
    let m = Message::new_anonymous::<usize>(&7, MessageKind::AssignUid).unwrap();
    assert_eq!(m.id, 0);
    assert_eq!(m, Message::new::<usize>(&7, 0, MessageKind::AssignUid).unwrap());
}

#[test]
fn frame_size_is_constant() {
    let mut sizes = Vec::new();
    for kind in ALL_KINDS.iter() {
        sizes.push(Message::new::<()>(&(), 0, *kind).unwrap().to_bytes().len());
        sizes.push(Message::new::<usize>(&usize::MAX, 9, *kind).unwrap().to_bytes().len());
        sizes.push(Message::new::<String>(&String::new(), 1, *kind).unwrap().to_bytes().len());
        sizes.push(
            Message::new::<String>(&"y".repeat(1000), 1, *kind).unwrap().to_bytes().len(),
        );
        sizes.push(
            Message::new::<Vec<usize>>(&(0..125).collect(), 1, *kind).unwrap().to_bytes().len(),
        );
    }
    assert!(sizes.iter().all(|n| *n == FRAME_SIZE));
}

#[test]
fn frame_layout() {
    let m = Message::new::<usize>(&5, 2, MessageKind::SelectOpponent).unwrap();
    let bytes = m.to_bytes();
    assert_eq!(bytes.len(), 1024);
    assert_eq!(&bytes[0..8], &[2, 0, 0, 0, 0, 0, 0, 0]);
    assert_eq!(bytes[8], 5);
    assert_eq!(&bytes[9..16], &[0; 7]);
    assert_eq!(&bytes[16..24], &[8, 0, 0, 0, 0, 0, 0, 0]);
    assert_eq!(&bytes[24..32], &[5, 0, 0, 0, 0, 0, 0, 0]);
    assert!(bytes[32..].iter().all(|b| *b == 0));
    assert_eq!(bytes, frame_with(2, 5, 8, &5u64.to_le_bytes()));
}

#[test]
fn frame_round_trip() {
    let messages = [
        Message::new::<()>(&(), 0, MessageKind::EnterPasswd).unwrap(),
        Message::new::<usize>(&42, 7, MessageKind::Guess).unwrap(),
        Message::new::<String>(&String::from("warmer"), 3, MessageKind::Hint).unwrap(),
        Message::new::<Vec<usize>>(&vec![1, 2, 3], 2, MessageKind::ShowOpponents).unwrap(),
        Message::new::<usize>(&1, usize::MAX, MessageKind::AssignUid).unwrap(),
    ];
    for m in messages {
        assert_eq!(Message::from_bytes(&m.to_bytes()), Ok(m));
    }
}

#[test]
fn short_read_is_an_incomplete_frame() {
    let bytes = Message::new::<usize>(&1, 1, MessageKind::Guess).unwrap().to_bytes();
    assert_eq!(Message::from_bytes(&[]), Err(MessageError::IncompleteFrame));
    assert_eq!(Message::from_bytes(&bytes[..1]), Err(MessageError::IncompleteFrame));
    assert_eq!(Message::from_bytes(&bytes[..FRAME_SIZE - 1]), Err(MessageError::IncompleteFrame));
    // a short read of a frame with an unknown kind is still a short read
    let bad = frame_with(0, 200, 0, &[]);
    assert_eq!(Message::from_bytes(&bad[..100]), Err(MessageError::IncompleteFrame));
}

#[test]
fn bytes_after_the_frame_are_left_alone() {
    let m = Message::new::<String>(&String::from("abc"), 1, MessageKind::Hint).unwrap();
    let mut bytes = m.to_bytes();
    bytes.extend_from_slice(&[9, 9, 9]);
    assert_eq!(Message::from_bytes(&bytes), Ok(m));
}

#[test]
fn unknown_kind_is_refused() {
    assert_eq!(Message::from_bytes(&frame_with(0, 11, 0, &[])), Err(MessageError::UnknownKind));
    assert_eq!(Message::from_bytes(&frame_with(0, 255, 0, &[])), Err(MessageError::UnknownKind));
    assert!(Message::from_bytes(&frame_with(0, 10, 0, &[])).is_ok());
}

#[test]
fn frame_that_declares_more_than_it_holds_is_refused() {
    assert_eq!(
        Message::from_bytes(&frame_with(0, 9, 1001, &[])),
        Err(MessageError::LengthExceedsCapacity)
    );
    assert_eq!(
        Message::from_bytes(&frame_with(0, 9, u64::MAX, &[])),
        Err(MessageError::LengthExceedsCapacity)
    );
    let full = Message::from_bytes(&frame_with(0, 9, 1000, &[b'z'; 1000])).unwrap();
    assert_eq!(full.value::<String>(), Ok("z".repeat(1000)));
}

#[test]
fn reserved_bytes_are_not_looked_at() {
    let mut bytes = frame_with(3, 7, 8, &9u64.to_le_bytes());
    for b in bytes[9..16].iter_mut() {
        *b = 0xaa;
    }
    let m = Message::from_bytes(&bytes).unwrap();
    assert_eq!(m, Message::new::<usize>(&9, 3, MessageKind::Guess).unwrap());
}

#[test]
fn numbers_too_wide_for_the_machine_are_refused() {
    let frame = frame_with(u64::MAX, 7, 8, &u64::MAX.to_le_bytes());
    let read = Message::from_bytes(&frame);
    if (usize::MAX as u64) < u64::MAX {
        assert_eq!(read, Err(MessageError::ValueOutOfRange));
        let m = Message::from_bytes(&frame_with(1, 7, 8, &u64::MAX.to_le_bytes())).unwrap();
        assert_eq!(m.value::<usize>(), Err(MessageError::ValueOutOfRange));
        let mut l = m.clone();
        l.raw_bytes_len = 1;
        assert_eq!(l.value::<Vec<usize>>(), Err(MessageError::ValueOutOfRange));
    } else {
        let m = read.unwrap();
        assert_eq!(m.id, usize::MAX);
        assert_eq!(m.value::<usize>(), Ok(usize::MAX));
    }
}

#[test]
fn integer_is_read_whatever_the_length_field_says_within_the_payload() {
    let mut m = Message::new::<usize>(&77, 0, MessageKind::AssignUid).unwrap();
    m.raw_bytes_len = 0;
    assert_eq!(m.value::<usize>(), Ok(77));
    m.raw_bytes_len = PAYLOAD_CAPACITY;
    assert_eq!(m.value::<usize>(), Ok(77));
}

#[test]
fn reader_puts_the_pieces_together() {
    let m = Message::new::<String>(&String::from("warmer"), 3, MessageKind::Hint).unwrap();
    let bytes = m.to_bytes();
    for piece in [1usize, 7, 24, 500, 1023, 1024, 4096] {
        let mut reader = FrameReader::new();
        assert_eq!(reader.missing(), FRAME_SIZE);
        let mut fed = 0;
        for chunk in bytes.chunks(piece) {
            assert_eq!(reader.feed(chunk), chunk.len());
            fed += chunk.len();
            assert_eq!(reader.missing(), FRAME_SIZE - fed);
        }
        assert_eq!(reader.finish(), Ok(m.clone()));
    }
}

#[test]
fn reader_takes_no_more_than_one_frame() {
    let first = Message::new::<usize>(&1, 1, MessageKind::Guess).unwrap();
    let second = Message::new::<usize>(&2, 2, MessageKind::Guess).unwrap();
    let mut bytes = first.to_bytes();
    bytes.extend_from_slice(&second.to_bytes());
    let mut reader = FrameReader::new();
    assert_eq!(reader.feed(&bytes[..1000]), 1000);
    assert_eq!(reader.feed(&bytes[1000..]), 24);
    assert_eq!(reader.missing(), 0);
    assert_eq!(reader.feed(&bytes[1024..]), 0);
    assert_eq!(reader.finish(), Ok(first));
}

#[test]
fn reader_that_was_cut_short_has_an_incomplete_frame() {
    let bytes = Message::new::<usize>(&1, 1, MessageKind::Guess).unwrap().to_bytes();
    let empty = FrameReader::new();
    assert_eq!(empty.finish(), Err(MessageError::IncompleteFrame));
    let mut reader = FrameReader::new();
    assert_eq!(reader.feed(&[]), 0);
    assert_eq!(reader.feed(&bytes[..FRAME_SIZE - 1]), FRAME_SIZE - 1);
    assert_eq!(reader.missing(), 1);
    assert_eq!(reader.finish(), Err(MessageError::IncompleteFrame));
    assert_eq!(reader.feed(&bytes[FRAME_SIZE - 1..]), 1);
    assert!(reader.finish().is_ok());
}
