use token_scout::bytes::{bytes_equal, copy_range, read_be_capped, starts_with, to_hex};
use token_scout::decode::{read_string, read_string_bytes, read_uint32, DecodeError};

fn word(value: u64) -> Vec<u8> {
    let mut w = vec![0u8; 24];
    w.extend_from_slice(&value.to_be_bytes());
    w
}

fn string_payload(offset: u64, length: u64, data: &[u8], padded_to: usize) -> Vec<u8> {
    let mut p = word(offset);
    while (p.len() as u64) < offset {
        p.push(0xee);
    }
    p.extend_from_slice(&word(length));
    p.extend_from_slice(data);
    while p.len() < padded_to {
        p.push(0);
    }
    p
}

#[test]
fn uint32_zero_word_is_zero() {
    assert_eq!(read_uint32(&vec![0u8; 32]), Ok(0));
}

#[test]
fn uint32_three_hundred() {
    let mut w = vec![0u8; 32];
    w[30] = 0x01;
    w[31] = 0x2c;
    assert_eq!(read_uint32(&w), Ok(300));
}

#[test]
fn uint32_largest_value() {
    let mut w = vec![0u8; 32];
    w[28] = 0xff;
    w[29] = 0xff;
    w[30] = 0xff;
    w[31] = 0xff;
    assert_eq!(read_uint32(&w), Ok(u32::MAX));
}

#[test]
fn uint32_is_big_endian() {
    let mut w = vec![0u8; 32];
    w[28] = 0x01;
    w[29] = 0x02;
    w[30] = 0x03;
    w[31] = 0x04;
    assert_eq!(read_uint32(&w), Ok(0x0102_0304));
}

#[test]
fn uint32_ignores_upper_bytes_and_later_words() {
    let mut w = vec![0xaau8; 64];
    w[28] = 0;
    w[29] = 0;
    w[30] = 0;
    w[31] = 18;
    assert_eq!(read_uint32(&w), Ok(18));
}

#[test]
fn uint32_short_payload_fails() {
    assert_eq!(read_uint32(&vec![]), Err(DecodeError::TooShort));
    assert_eq!(read_uint32(&vec![0, 1, 2]), Err(DecodeError::TooShort));
    assert_eq!(read_uint32(&vec![0u8; 31]), Err(DecodeError::TooShort));
}

#[test]
fn string_test_word() {
    let p = string_payload(32, 4, b"TEST", 96);
    assert_eq!(p.len(), 96);
    assert_eq!(read_string(&p), Ok(String::from("TEST")));
}

#[test]
fn string_empty() {
    let p = string_payload(32, 0, b"", 64);
    assert_eq!(read_string(&p), Ok(String::new()));
}

#[test]
fn string_without_padding() {
    let p = string_payload(32, 5, b"hello", 0);
    assert_eq!(p.len(), 69);
    assert_eq!(read_string(&p), Ok(String::from("hello")));
}

#[test]
fn string_at_a_later_offset() {
    let p = string_payload(64, 3, b"abc", 128);
    assert_eq!(read_string(&p), Ok(String::from("abc")));
}

#[test]
fn string_multibyte_characters() {
    let text = "z\u{e9}\u{20ac}";
    let p = string_payload(32, text.len() as u64, text.as_bytes(), 96);
    assert_eq!(read_string(&p), Ok(String::from(text)));
}

#[test]
fn string_length_beyond_payload_fails() {
    let p = string_payload(32, 33, b"TEST", 96);
    assert_eq!(read_string(&p), Err(DecodeError::LengthOutOfRange));
    let q = string_payload(32, 5, b"TEST", 0);
    assert_eq!(read_string(&q), Err(DecodeError::LengthOutOfRange));
}

#[test]
fn string_length_that_fills_the_payload() {
    let p = string_payload(32, 32, &[b'a'; 32], 96);
    assert_eq!(read_string(&p), Ok("a".repeat(32)));
}

#[test]
fn string_huge_length_word_fails() {
    let mut p = string_payload(32, 4, b"TEST", 96);
    p[32] = 0x01;
    assert_eq!(read_string(&p), Err(DecodeError::LengthOutOfRange));
}

#[test]
fn string_offset_beyond_payload_fails() {
    let mut p = word(65);
    p.extend_from_slice(&vec![0u8; 64]);
    assert_eq!(read_string(&p), Err(DecodeError::OffsetOutOfRange));
    let mut q = word(32);
    q.extend_from_slice(&vec![0u8; 31]);
    assert_eq!(read_string(&q), Err(DecodeError::OffsetOutOfRange));
}

#[test]
fn string_huge_offset_word_fails() {
    let mut p = string_payload(32, 4, b"TEST", 96);
    p[0] = 0x80;
    assert_eq!(read_string(&p), Err(DecodeError::OffsetOutOfRange));
}

#[test]
fn string_short_payload_fails() {
    assert_eq!(read_string(&vec![]), Err(DecodeError::TooShort));
    assert_eq!(read_string(&vec![0u8; 31]), Err(DecodeError::TooShort));
}

#[test]
fn string_invalid_utf8_fails() {
    let p = string_payload(32, 4, &[0xff, 0xfe, 0x00, 0x41], 96);
    assert_eq!(read_string(&p), Err(DecodeError::InvalidUtf8));
    let q = string_payload(32, 2, &[0xc3, 0x28], 96);
    assert_eq!(read_string(&q), Err(DecodeError::InvalidUtf8));
}

#[test]
fn string_bytes_leave_padding_out() {
    let p = string_payload(32, 4, b"TEST", 96);
    assert_eq!(read_string_bytes(&p), Ok(b"TEST".to_vec()));
}

#[test]
fn big_endian_value_under_a_cap() {
    let bytes = vec![0x00, 0x01, 0x00, 0xff];
    assert_eq!(read_be_capped(&bytes, 0, 4, 70000), Some(65791));
    assert_eq!(read_be_capped(&bytes, 0, 4, 65791), Some(65791));
    assert_eq!(read_be_capped(&bytes, 0, 4, 65790), None);
    assert_eq!(read_be_capped(&bytes, 1, 2, 1000), Some(256));
    assert_eq!(read_be_capped(&bytes, 2, 0, 0), Some(0));
}

#[test]
fn big_endian_value_of_nine_bytes_exceeds_any_cap() {
    let bytes = vec![1, 0, 0, 0, 0, 0, 0, 0, 0];
    assert_eq!(read_be_capped(&bytes, 0, 9, u64::MAX), None);
    assert_eq!(read_be_capped(&bytes, 1, 8, u64::MAX), Some(0));
}

#[test]
fn byte_helpers() {
    assert!(bytes_equal(&vec![1, 2, 3], &vec![1, 2, 3]));
    assert!(!bytes_equal(&vec![1, 2, 3], &vec![1, 2, 4]));
    assert!(!bytes_equal(&vec![1, 2, 3], &vec![1, 2]));
    assert!(bytes_equal(&vec![], &vec![]));
    assert!(starts_with(&vec![1, 2, 3], &vec![1, 2]));
    assert!(starts_with(&vec![1, 2, 3], &vec![]));
    assert!(!starts_with(&vec![1, 2], &vec![1, 2, 3]));
    assert!(!starts_with(&vec![1, 9, 3], &vec![1, 2]));
    assert_eq!(copy_range(&vec![5, 6, 7, 8], 1, 3), vec![6, 7]);
    assert_eq!(copy_range(&vec![5, 6, 7, 8], 2, 2), Vec::<u8>::new());
}

#[test]
fn hex_text_is_lower_case_pairs() {
    assert_eq!(to_hex(&vec![]), "");
    assert_eq!(to_hex(&vec![0x01]), "01");
    assert_eq!(to_hex(&vec![0xa1, 0xc3]), "a1c3");
    assert_eq!(to_hex(&vec![0x00, 0x0f, 0xf0, 0xff, 0x9a]), "000ff0ff9a");
}
