use byte_cursor::bytes::Cursor;
use byte_cursor::bytes::Error;

#[test]
fn end_of_input_succeeds_trivially() {
    let mut c = Cursor::new(b"");
    assert_eq!(c.advance_char(), Ok(()));
    assert_eq!(c.cursor(), 0);
    assert_eq!(c.index(), 1);
}

#[test]
fn ascii_consumes_one_byte() {
    let mut c = Cursor::new(b"ab");
    assert_eq!(c.advance_char(), Ok(()));
    assert_eq!(c.cursor(), 1);
    assert_eq!(c.index(), 1);
}

#[test]
fn crlf_consumes_both_bytes_in_one_call() {
    let mut c = Cursor::new(&[0x0D, 0x0A]);
    assert_eq!(c.advance_char(), Ok(()));
    assert_eq!(c.cursor(), 2);
    assert_eq!(c.index(), 1);
}

#[test]
fn lone_cr_consumes_one_byte() {
    let mut c = Cursor::new(&[0x0D, 0x41]);
    assert_eq!(c.advance_char(), Ok(()));
    assert_eq!(c.cursor(), 1);
    assert_eq!(c.index(), 1);
}

#[test]
fn continuation_byte_as_lead() {
    let mut c = Cursor::new(&[0x80]);
    assert_eq!(c.advance_char(), Err(Error::EncounteredContinuationByte));
    assert_eq!(c.cursor(), 1);
    assert_eq!(c.index(), 1);
}

#[test]
fn two_byte_sequence_succeeds() {
    let mut c = Cursor::new(&[0xC2, 0xA9]);
    assert_eq!(c.advance_char(), Ok(()));
    assert_eq!(c.cursor(), 2);
    assert_eq!(c.index(), 1);
}

#[test]
fn two_byte_sequence_missing_second() {
    let mut c = Cursor::new(&[0xC2]);
    assert_eq!(c.advance_char(), Err(Error::Missing2ndOf2));
    assert_eq!(c.cursor(), 1);
    assert_eq!(c.index(), 1);
}

#[test]
fn two_byte_sequence_invalid_second() {
    let mut c = Cursor::new(&[0xC2, 0x41]);
    assert_eq!(c.advance_char(), Err(Error::Invalid2ndOf2));
    assert_eq!(c.cursor(), 2);
}

#[test]
fn three_byte_sequence_succeeds() {
    let mut c = Cursor::new(&[0xE2, 0x82, 0xAC]);
    assert_eq!(c.advance_char(), Ok(()));
    assert_eq!(c.cursor(), 3);
    assert_eq!(c.index(), 1);
}

#[test]
fn three_byte_sequence_missing_second() {
    let mut c = Cursor::new(&[0xE2]);
    assert_eq!(c.advance_char(), Err(Error::Missing2ndOf3));
    assert_eq!(c.cursor(), 1);
}

#[test]
fn three_byte_sequence_invalid_second() {
    let mut c = Cursor::new(&[0xE2, 0x41]);
    assert_eq!(c.advance_char(), Err(Error::Invalid2ndOf3));
    assert_eq!(c.cursor(), 2);
}

#[test]
fn three_byte_sequence_missing_third() {
    let mut c = Cursor::new(&[0xE2, 0x82]);
    assert_eq!(c.advance_char(), Err(Error::Missing3rdOf3));
    assert_eq!(c.cursor(), 2);
}

#[test]
fn three_byte_sequence_invalid_third() {
    let mut c = Cursor::new(&[0xE2, 0x82, 0x41]);
    assert_eq!(c.advance_char(), Err(Error::Invalid3rdOf3));
    assert_eq!(c.cursor(), 3);
}

#[test]
fn four_byte_sequence_succeeds() {
    let mut c = Cursor::new(&[0xF0, 0x9F, 0x92, 0x9C]);
    assert_eq!(c.advance_char(), Ok(()));
    assert_eq!(c.cursor(), 4);
    assert_eq!(c.index(), 1);
}

#[test]
fn four_byte_sequence_missing_second() {
    let mut c = Cursor::new(&[0xF0]);
    assert_eq!(c.advance_char(), Err(Error::Missing2ndOf4));
    assert_eq!(c.cursor(), 1);
}

#[test]
fn four_byte_sequence_invalid_second() {
    let mut c = Cursor::new(&[0xF0, 0x41]);
    assert_eq!(c.advance_char(), Err(Error::Invalid2ndOf4));
    assert_eq!(c.cursor(), 2);
}

#[test]
fn four_byte_sequence_missing_third() {
    let mut c = Cursor::new(&[0xF0, 0x9F]);
    assert_eq!(c.advance_char(), Err(Error::Missing3rdOf4));
    assert_eq!(c.cursor(), 2);
}

#[test]
fn four_byte_sequence_invalid_third() {
    let mut c = Cursor::new(&[0xF0, 0x9F, 0x41]);
    assert_eq!(c.advance_char(), Err(Error::Invalid3rdOf4));
    assert_eq!(c.cursor(), 3);
}

#[test]
fn four_byte_sequence_missing_fourth() {
    let mut c = Cursor::new(&[0xF0, 0x9F, 0x92]);
    assert_eq!(c.advance_char(), Err(Error::Missing4thOf4));
    assert_eq!(c.cursor(), 3);
}

#[test]
fn four_byte_sequence_invalid_fourth() {
    let mut c = Cursor::new(&[0xF0, 0x9F, 0x92, 0x41]);
    assert_eq!(c.advance_char(), Err(Error::Invalid4thOf4));
    assert_eq!(c.cursor(), 4);
}

#[test]
fn continuation_bytes_are_read_normalized() {
    // The second byte is read through the normalizing reader, so a CRLF
    // pair there is consumed whole before being rejected.
    let mut c = Cursor::new(&[0xC2, 0x0D, 0x0A]);
    assert_eq!(c.advance_char(), Err(Error::Invalid2ndOf2));
    assert_eq!(c.cursor(), 3);
    assert_eq!(c.index(), 1);
}

#[test]
fn cursor_sits_past_the_bad_byte_for_resumption() {
    let mut c = Cursor::new(&[0x80, 0x41]);
    assert_eq!(c.advance_char(), Err(Error::EncounteredContinuationByte));
    assert_eq!(c.advance_char(), Ok(()));
    assert_eq!(c.cursor(), 2);
    assert_eq!(c.index(), 2);
}

#[test]
fn advance_char_unchecked_skips_announced_width() {
    let mut c = Cursor::new(&[0xC3, 0xA9, 0x61]);
    c.advance_char_unchecked();
    assert_eq!(c.cursor(), 2);
    assert_eq!(c.index(), 1);
}

#[test]
fn error_kinds_order_by_declaration() {
    assert!(Error::EncounteredContinuationByte < Error::Missing2ndOf2);
    assert!(Error::Missing2ndOf2 < Error::Invalid2ndOf2);
    assert!(Error::Missing4thOf4 < Error::Invalid4thOf4);
    assert_eq!(Error::Invalid3rdOf3, Error::Invalid3rdOf3.clone());
}
