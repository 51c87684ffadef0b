use kvstore::codec::{copy_range, decode, decode_header, encode, prepare_command, Header, Request};
use kvstore::command::{Command, ProtocolError};

fn header(tag: u8, key_len: u64, val_len: u64) -> Vec<u8> {
    let mut h = vec![tag];
    h.extend(key_len.to_be_bytes());
    h.extend(val_len.to_be_bytes());
    h
}

#[test]
fn encode_set_apple_orange() {
    let bytes = encode(Command::SET, b"apple", b"orange");
    let mut expected: Vec<u8> = vec![0, 0, 0, 0, 0, 0, 0, 0, 5, 0, 0, 0, 0, 0, 0, 0, 6];
    expected.extend(b"apple");
    expected.extend(b"orange");
    assert_eq!(bytes, expected);
    assert_eq!(bytes.len(), 17 + 5 + 6);
}

#[test]
fn encode_get_sends_no_value() {
    let bytes = encode(Command::GET, b"apple", b"");
    let mut expected = header(1, 5, 0);
    expected.extend(b"apple");
    assert_eq!(bytes, expected);
}

#[test]
fn encode_counts_the_value_but_sends_it_only_for_set() {
    let bytes = encode(Command::DEL, b"k", b"xyz");
    let mut expected = header(2, 1, 3);
    expected.extend(b"k");
    assert_eq!(bytes, expected);
}

#[test]
fn encode_writes_lengths_big_endian() {
    let key = vec![7u8; 258];
    let bytes = encode(Command::GET, &key, b"");
    assert_eq!(&bytes[..17], &[1, 0, 0, 0, 0, 0, 0, 1, 2, 0, 0, 0, 0, 0, 0, 0, 0][..]);
    assert_eq!(&bytes[17..], &key[..]);
}

#[test]
fn prepare_command_drops_the_value_but_for_set() {
    assert_eq!(prepare_command(Command::GET, b"apple", b"pear"), encode(Command::GET, b"apple", b""));
    assert_eq!(prepare_command(Command::DEL, b"apple", b"pear"), encode(Command::DEL, b"apple", b""));
    assert_eq!(
        prepare_command(Command::SET, b"apple", b"pear"),
        encode(Command::SET, b"apple", b"pear")
    );
}

#[test]
fn decode_header_reads_tag_and_lengths() {
    let h = header(0, 5, 6);
    assert_eq!(
        decode_header(&h),
        Ok(Header { command: Command::SET, key_len: 5, val_len: 6 })
    );
    let h = header(2, 0x0102030405060708, u64::MAX);
    assert_eq!(
        decode_header(&h),
        Ok(Header { command: Command::DEL, key_len: 0x0102030405060708, val_len: u64::MAX })
    );
}

#[test]
fn decode_header_refuses_unknown_tags() {
    assert_eq!(decode_header(&header(3, 5, 0)), Err(ProtocolError::InvalidCommand));
    assert_eq!(decode_header(&header(200, 0, 0)), Err(ProtocolError::InvalidCommand));
}

#[test]
fn decode_reverses_encode() {
    let cases: Vec<(Command, &[u8], &[u8])> = vec![
        (Command::SET, b"apple", b"orange"),
        (Command::SET, b"", b""),
        (Command::SET, b"k", b""),
        (Command::SET, b"", b"v"),
        (Command::GET, b"apple", b""),
        (Command::GET, b"", b""),
        (Command::DEL, b"apple", b""),
        (Command::DEL, b"", b""),
    ];
    for (c, k, v) in cases {
        let bytes = encode(c, k, v);
        let expected = Request { command: c, key: k.to_vec(), value: v.to_vec() };
        assert_eq!(decode(&bytes), Ok((expected, bytes.len())));
    }
}

#[test]
fn decode_leaves_following_bytes() {
    let mut bytes = encode(Command::SET, b"a", b"b");
    let n = bytes.len();
    bytes.extend(encode(Command::GET, b"a", b""));
    let (req, used) = decode(&bytes).unwrap();
    assert_eq!(used, n);
    assert_eq!(req.key, b"a".to_vec());
    assert_eq!(req.value, b"b".to_vec());
}

#[test]
fn decode_ignores_value_length_of_get() {
    let mut bytes = header(1, 1, 9);
    bytes.push(b'x');
    let (req, used) = decode(&bytes).unwrap();
    assert_eq!(req, Request { command: Command::GET, key: b"x".to_vec(), value: vec![] });
    assert_eq!(used, 18);
}

#[test]
fn decode_short_header_is_truncated() {
    assert_eq!(decode(&[]), Err(ProtocolError::Truncated));
    assert_eq!(decode(&header(0, 0, 0)[..16]), Err(ProtocolError::Truncated));
}

#[test]
fn decode_short_body_is_truncated() {
    let mut bytes = header(1, 5, 0);
    bytes.extend(b"app");
    assert_eq!(decode(&bytes), Err(ProtocolError::Truncated));
    let mut bytes = header(0, 1, 4);
    bytes.extend(b"kval");
    assert_eq!(decode(&bytes), Err(ProtocolError::Truncated));
    let bytes = header(0, u64::MAX, u64::MAX);
    assert_eq!(decode(&bytes), Err(ProtocolError::Truncated));
}

#[test]
fn decode_unknown_tag_is_invalid_command() {
    let mut bytes = header(3, 1, 0);
    bytes.push(b'k');
    assert_eq!(decode(&bytes), Err(ProtocolError::InvalidCommand));
}

#[test]
fn copy_range_copies_the_range() {
    assert_eq!(copy_range(b"abcdef", 1, 4), b"bcd".to_vec());
    assert_eq!(copy_range(b"abcdef", 3, 3), Vec::<u8>::new());
}
