//! The varint and string codec, exercised on the wire vectors.

use rustcraft::errors::PacketReadError;
use rustcraft::packet_utils::{read_string, read_varint, read_varlong, write_string, write_varint, write_varlong};

#[test]
fn test_read_varint_single_byte() {
    let buf: Vec<u8> = vec![0x01];
    assert_eq!(read_varint(&buf, 0).unwrap().0, 1);
}

#[test]
fn test_read_varint_multi_byte() {
    let buf: Vec<u8> = vec![0xAC, 0x02];
    assert_eq!(read_varint(&buf, 0).unwrap().0, 300);
}

#[test]
fn test_read_varint_many_bytes_1() {
    let buf: Vec<u8> = vec![0x83, 0x08];
    assert_eq!(read_varint(&buf, 0).unwrap().0, 1027);
}

#[test]
fn test_read_varint_many_bytes_2() {
    let buf: Vec<u8> = vec![0xb9, 0x60];
    assert_eq!(read_varint(&buf, 0).unwrap().0, 12345);
}

#[test]
fn test_read_varint_negative() {
    let buf: Vec<u8> = vec![0xff, 0xff, 0xff, 0xff, 0x0f];
    assert_eq!(read_varint(&buf, 0).unwrap().0, -1);
}

#[test]
fn test_read_varint_max_value() {
    let buf: Vec<u8> = vec![0xFF, 0xFF, 0xFF, 0xFF, 0x07];
    assert_eq!(read_varint(&buf, 0).unwrap().0, 2147483647);
}

#[test]
fn test_read_varint_min_value() {
    let buf: Vec<u8> = vec![0x80, 0x80, 0x80, 0x80, 0x08];
    assert_eq!(read_varint(&buf, 0).unwrap().0, -2147483648);
}

#[test]
#[should_panic(expected = "EmptyBuf")]
fn test_read_varint_incomplete_data() {
    let buf: Vec<u8> = vec![0xFF, 0xFF];
    read_varint(&buf, 0).unwrap();
}

#[test]
#[should_panic(expected = "TooLong")]
fn test_read_varint_too_long() {
    let buf: Vec<u8> = vec![0xFF, 0xFF, 0xFF, 0xFF, 0xFF, 0x02];
    read_varint(&buf, 0).unwrap();
}

#[test]
#[should_panic(expected = "EmptyBuf")]
fn test_read_varint_empty_buffer() {
    let buf: Vec<u8> = Vec::new();
    read_varint(&buf, 0).unwrap();
}

#[test]
fn test_read_varint_zero_value() {
    let buf: Vec<u8> = vec![0x00];
    assert_eq!(read_varint(&buf, 0).unwrap().0, 0);
}

#[test]
fn test_multi_read_varint() -> Result<(), PacketReadError> {
    let buf: Vec<u8> = vec![0x83, 0x08, 0xb9, 0x60];
    let (first, next) = read_varint(&buf, 0)?;
    assert_eq!(first, 1027);
    let (second, _) = read_varint(&buf, next)?;
    assert_eq!(second, 12345);
    Ok(())
}

#[test]
fn test_write_varint_single_byte() {
    let mut buf: Vec<u8> = Vec::new();
    write_varint(&mut buf, 1);
    assert_eq!(buf, vec![0x01]);
}

#[test]
fn test_write_varint_multi_byte() {
    let mut buf: Vec<u8> = Vec::new();
    write_varint(&mut buf, 300);
    assert_eq!(buf, vec![0xAC, 0x02]);
}

#[test]
fn test_write_varint_many_bytes_1() {
    let mut buf: Vec<u8> = Vec::new();
    write_varint(&mut buf, 1027);
    assert_eq!(buf, vec![0x83, 0x08]);
}

#[test]
fn test_write_varint_many_bytes_2() {
    let mut buf: Vec<u8> = Vec::new();
    write_varint(&mut buf, 12345);
    assert_eq!(buf, vec![0xb9, 0x60]);
}

#[test]
fn test_write_varint_max_value() {
    let mut buf: Vec<u8> = Vec::new();
    write_varint(&mut buf, 2147483647);
    assert_eq!(buf, vec![0xFF, 0xFF, 0xFF, 0xFF, 0x07]);
}

#[test]
fn test_write_varint_zero_value() {
    let mut buf: Vec<u8> = Vec::new();
    write_varint(&mut buf, 0);
    assert_eq!(buf, vec![0x00]);
}

#[test]
fn test_write_varint_negative_value() {
    let mut buf: Vec<u8> = Vec::new();
    write_varint(&mut buf, -1);
    assert_eq!(buf, vec![0xFF, 0xFF, 0xFF, 0xFF, 0x0F]);
}

#[test]
fn test_write_varint_min_value() {
    let mut buf: Vec<u8> = Vec::new();
    write_varint(&mut buf, -2147483648);
    assert_eq!(buf, vec![0x80, 0x80, 0x80, 0x80, 0x08]);
}

#[test]
fn test_write_string() {
    let mut buf: Vec<u8> = Vec::new();
    write_string(&mut buf, "Hello, world!");

    let mut expected: Vec<u8> = Vec::new();
    expected.push(13);
    expected.extend_from_slice(b"Hello, world!");

    assert_eq!(buf, expected);
}

#[test]
fn test_read_string_success() {
    let mut buf: Vec<u8> = Vec::new();
    buf.push(13);
    buf.extend_from_slice("Hello, world!".as_bytes());

    let (result, _) = read_string(&buf, 0).unwrap();
    assert_eq!(result, "Hello, world!");
}

#[test]
#[should_panic(expected = "BufferUnderflow")]
fn test_read_string_insufficient_length() {
    let mut buf: Vec<u8> = Vec::new();
    buf.push(5);
    buf.extend_from_slice(b"abc");

    read_string(&buf, 0).unwrap();
}

#[test]
#[should_panic(expected = "Utf8Error")]
fn test_read_string_invalid_utf8() {
    let mut buf: Vec<u8> = Vec::new();
    buf.push(3);
    buf.extend_from_slice(&[0xff, 0xff, 0xff]);

    read_string(&buf, 0).unwrap();
}

#[test]
fn test_string_round_trip_unicode() {
    let mut buf: Vec<u8> = Vec::new();
    write_string(&mut buf, "héllo wörld ✓");
    let (result, end) = read_string(&buf, 0).unwrap();
    assert_eq!(result, "héllo wörld ✓");
    assert_eq!(end, buf.len());
}

#[test]
fn test_varlong_round_trip() {
    let mut buf: Vec<u8> = Vec::new();
    write_varlong(&mut buf, -1);
    assert_eq!(buf.len(), 10);
    assert_eq!(read_varlong(&buf, 0).unwrap().0, -1);

    let mut buf2: Vec<u8> = Vec::new();
    write_varlong(&mut buf2, 9223372036854775807);
    assert_eq!(read_varlong(&buf2, 0).unwrap().0, 9223372036854775807);
}
