use meshtnc::codec::{decode, encode, FramedUnit, FrameError, SessionMode};

fn ascii_line(r: Result<Option<FramedUnit>, FrameError>) -> Vec<u8> {
    match r {
        Ok(Some(FramedUnit::AsciiLine(v))) => v,
        other => panic!("expected an ASCII line, got {:?}", other),
    }
}

#[test]
fn decode_waits_for_a_newline() {
    let mut buf = b"no newline yet".to_vec();
    let r = decode(SessionMode::Starting, &mut buf);
    assert_eq!(r, Ok(None));
    assert_eq!(buf, b"no newline yet".to_vec());
}

#[test]
fn decode_takes_one_line_inclusive() {
    let mut buf = b"first\nsecond\n".to_vec();
    let line = ascii_line(decode(SessionMode::Idle, &mut buf));
    assert_eq!(line, b"first\n".to_vec());
    assert_eq!(buf, b"second\n".to_vec());
    let line = ascii_line(decode(SessionMode::Idle, &mut buf));
    assert_eq!(line, b"second\n".to_vec());
    assert!(buf.is_empty());
}

#[test]
fn decode_leading_newline_is_a_one_byte_unit() {
    let mut buf = b"\nrest".to_vec();
    let line = ascii_line(decode(SessionMode::RadioSet, &mut buf));
    assert_eq!(line, b"\n".to_vec());
    assert_eq!(buf, b"rest".to_vec());
}

#[test]
fn decode_rejects_bad_utf8_and_drops_the_line() {
    let mut buf = vec![0xFF, 0xFE, b'\n', b'o', b'k', b'\n'];
    let r = decode(SessionMode::Idle, &mut buf);
    assert_eq!(r, Err(FrameError::InvalidEncoding));
    // The bad line is gone; the stream stays in sync.
    let line = ascii_line(decode(SessionMode::Idle, &mut buf));
    assert_eq!(line, b"ok\n".to_vec());
}

#[test]
fn decode_accepts_multibyte_utf8() {
    let mut buf = "héllo\n".as_bytes().to_vec();
    let line = ascii_line(decode(SessionMode::Idle, &mut buf));
    assert_eq!(line, "héllo\n".as_bytes().to_vec());
}

#[test]
fn unknown_mode_drains_everything_and_emits_nothing() {
    let mut buf = b"anything at all\nStarting!\n".to_vec();
    let r = decode(SessionMode::Unknown, &mut buf);
    assert_eq!(r, Ok(None));
    assert!(buf.is_empty());
}

#[test]
fn kiss_mode_emits_nothing_and_keeps_the_buffer() {
    let mut buf = b"binary\nstuff".to_vec();
    let r = decode(SessionMode::Kiss, &mut buf);
    assert_eq!(r, Ok(None));
    assert_eq!(buf, b"binary\nstuff".to_vec());
}

#[test]
fn encode_appends_newline_then_carriage_return() {
    let mut out = Vec::new();
    let r = encode(SessionMode::Starting, b"set radio 1,2,3,4,5".to_vec(), &mut out);
    assert_eq!(r, Ok(()));
    assert_eq!(out, b"set radio 1,2,3,4,5\n\r".to_vec());
}

#[test]
fn encode_refuses_bad_utf8() {
    let mut out = Vec::new();
    let r = encode(SessionMode::Idle, vec![0xC0, 0x80], &mut out);
    assert_eq!(r, Err(FrameError::InvalidEncoding));
    assert!(out.is_empty());
}

#[test]
fn encode_sends_nothing_in_kiss_or_unknown() {
    let mut out = Vec::new();
    assert_eq!(encode(SessionMode::Kiss, b"x".to_vec(), &mut out), Ok(()));
    assert_eq!(encode(SessionMode::Unknown, b"x".to_vec(), &mut out), Ok(()));
    assert!(out.is_empty());
}

#[test]
fn encode_then_decode_reproduces_the_line() {
    let line = b"set radio 910.525,62.5,7,5,0x12".to_vec();
    let mut wire = Vec::new();
    assert_eq!(encode(SessionMode::RadioSet, line.clone(), &mut wire), Ok(()));
    let got = ascii_line(decode(SessionMode::RadioSet, &mut wire));
    // The decoded unit is the line plus its newline; the carriage return
    // stays behind.
    let mut expected = line.clone();
    expected.push(b'\n');
    assert_eq!(got, expected);
    assert_eq!(wire, b"\r".to_vec());
}

#[test]
fn decode_across_partial_feeds() {
    let mut buf = b"12345,RX".to_vec();
    assert_eq!(decode(SessionMode::Idle, &mut buf), Ok(None));
    buf.extend_from_slice(b"LOG,1,2,AA\n");
    let line = ascii_line(decode(SessionMode::Idle, &mut buf));
    assert_eq!(line, b"12345,RXLOG,1,2,AA\n".to_vec());
    assert!(buf.is_empty());
}
