use gossip_cache::protocol::{decode, encode, Command, DecodeError, Message};

fn msg(cmd: Command, key: &str, value: &str) -> Message {
    Message { cmd, key: key.to_string(), value: value.to_string() }
}

#[test]
fn encode_insert_exact_bytes() {
    let bytes = encode(&msg(Command::Insert, "a", "1"));
    let expected: Vec<u8> = vec![
        1, 0, 0, 0, 1, 0, 0, 0, 0, 0, 0, 0, b'a', 1, 0, 0, 0, 0, 0, 0, 0, b'1',
    ];
    assert_eq!(bytes, expected);
}

#[test]
fn encode_ping_exact_bytes() {
    let bytes = encode(&msg(Command::Ping, "", ""));
    assert_eq!(bytes, vec![0u8; 20]);
}

#[test]
fn encode_remove_tag() {
    let bytes = encode(&msg(Command::Remove, "k", ""));
    assert_eq!(&bytes[0..4], &[2, 0, 0, 0]);
    assert_eq!(bytes.len(), 4 + 8 + 1 + 8);
}

#[test]
fn round_trip_every_command() {
    for m in [
        msg(Command::Ping, "", ""),
        msg(Command::Insert, "hello", "world"),
        msg(Command::Remove, "hello", ""),
        msg(Command::Insert, "ключ", "значение ✓"),
    ] {
        assert_eq!(decode(&encode(&m)), Ok(m.clone()));
    }
}

#[test]
fn matches_bincode_layout() {
    let ours = encode(&msg(Command::Insert, "key", "välue"));
    let theirs = bincode::serialize(&(1u32, "key".to_string(), "välue".to_string())).unwrap();
    assert_eq!(ours, theirs);
    let removed = bincode::serialize(&(2u32, "key".to_string(), String::new())).unwrap();
    assert_eq!(decode(&removed), Ok(msg(Command::Remove, "key", "")));
    let back: (u32, String, String) = bincode::deserialize(&encode(&msg(Command::Ping, "", ""))).unwrap();
    assert_eq!(back, (0, String::new(), String::new()));
}

#[test]
fn decode_empty_is_truncated() {
    assert_eq!(decode(&[]), Err(DecodeError::Truncated));
}

#[test]
fn decode_cut_short_is_truncated() {
    let bytes = encode(&msg(Command::Insert, "abc", "def"));
    for n in 0..bytes.len() {
        assert_eq!(decode(&bytes[..n]), Err(DecodeError::Truncated));
    }
}

#[test]
fn decode_huge_length_is_truncated() {
    let mut bytes = vec![1u8, 0, 0, 0];
    bytes.extend_from_slice(&u64::MAX.to_le_bytes());
    bytes.push(b'x');
    assert_eq!(decode(&bytes), Err(DecodeError::Truncated));
}

#[test]
fn decode_unknown_command() {
    let mut bytes = encode(&msg(Command::Insert, "a", "1"));
    bytes[0] = 7;
    assert_eq!(decode(&bytes), Err(DecodeError::UnknownCommand(7)));
}

#[test]
fn decode_invalid_utf8() {
    let bytes = vec![1u8, 0, 0, 0, 1, 0, 0, 0, 0, 0, 0, 0, 0xff, 0, 0, 0, 0, 0, 0, 0, 0];
    assert_eq!(decode(&bytes), Err(DecodeError::InvalidUtf8));
}

#[test]
fn decode_trailing_bytes() {
    let mut bytes = encode(&msg(Command::Remove, "a", ""));
    bytes.push(0);
    assert_eq!(decode(&bytes), Err(DecodeError::TrailingBytes));
}
