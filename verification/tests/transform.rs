//! Tests for the header-rule parsing, the JSON backslash escaping and the
//! caller-owned error buffer.

use lua_resty_protobuf::escape;
use lua_resty_protobuf::write_error_buffer;
use lua_resty_protobuf::InvalidKeyValue;
use lua_resty_protobuf::KeyValue;

#[test]
fn test_escape() {
    const A: u8 = 97;
    const QUOTE: u8 = 34;
    const SLASH: u8 = 47;
    const BSLASH: u8 = 92;

    let cases: Vec<(Vec<u8>, Vec<u8>)> = vec![
        // aaa => aaa
        (vec![A, A, A], vec![A, A, A]),
        // aa//a => aa//a
        (vec![A, A, SLASH, SLASH, A], vec![A, A, SLASH, SLASH, A]),
        // aa"a => aa"a
        (vec![A, A, QUOTE, A], vec![A, A, QUOTE, A]),
        // aa\"a => aa\\"a
        (
            vec![A, A, BSLASH, QUOTE, A],
            vec![A, A, BSLASH, BSLASH, QUOTE, A],
        ),
        // aa\/a => aa\/a
        (
            vec![A, A, BSLASH, SLASH, A],
            vec![A, A, BSLASH, BSLASH, SLASH, A],
        ),
        // aa\\/a => aa\\\/a
        (
            vec![A, A, BSLASH, BSLASH, SLASH, A],
            vec![A, A, BSLASH, BSLASH, BSLASH, BSLASH, SLASH, A],
        ),
    ];

    for (input, exp) in cases {
        let input = String::from_utf8(input).unwrap();
        assert_eq!(exp, escape(&input));
    }
}

#[test]
fn test_header_try_from_valid() {
    assert_eq!(Ok(KeyValue::new("a", "b")), KeyValue::try_from("a:b"));
}

#[test]
fn test_header_try_from_invalid() {
    assert_eq!(
        Err(InvalidKeyValue("a".to_string())),
        KeyValue::try_from("a")
    );
    assert_eq!(
        Err(InvalidKeyValue("a:".to_string())),
        KeyValue::try_from("a:")
    );
    assert_eq!(
        Err(InvalidKeyValue(":b".to_string())),
        KeyValue::try_from(":b")
    );
}

#[test]
fn test_header_first_colon_splits() {
    assert_eq!(
        Ok(KeyValue::new("name", "v:w")),
        KeyValue::try_from("name:v:w")
    );
}

#[test]
fn test_error_buffer_truncation() {
    // A 50-byte message written into a 10-byte buffer yields exactly 9
    // message bytes followed by one terminator byte.
    let msg = [b'm'; 50];
    let mut buf = vec![0xffu8; 10];
    write_error_buffer(&mut buf, &msg);
    assert_eq!(&buf[..9], &[b'm'; 9]);
    assert_eq!(buf[9], 0);
}

#[test]
fn test_error_buffer_short_message_fits() {
    let msg = *b"oops";
    let mut buf = vec![0xffu8; 10];
    write_error_buffer(&mut buf, &msg);
    assert_eq!(&buf[..4], b"oops");
    assert_eq!(buf[4], 0);
    assert_eq!(&buf[5..], &[0xff; 5]);
}

#[test]
fn test_error_buffer_zero_length_untouched() {
    let msg = *b"oops";
    let mut buf: Vec<u8> = Vec::new();
    write_error_buffer(&mut buf, &msg);
    assert!(buf.is_empty());
}
