use m5ros::fmt::{format_decimal, StringWriter};
use m5ros::util::{compare_bytes, format_hex_u16, format_hex_u32, format_hex_u64, format_hex_u8, write_hex_u64};

#[test]
fn test_string_writer() {
    let mut buf = [0u8; 64];
    let mut writer = StringWriter::new(&mut buf);
    writer.write_str("Hello").unwrap();
    writer.write_char(' ').unwrap();
    writer.write_str("World").unwrap();
    assert_eq!(writer.as_str(), "Hello World");
}

#[test]
fn test_format_decimal() {
    let mut buf = [0u8; 20];
    assert_eq!(format_decimal(0, &mut buf), "0");
    assert_eq!(format_decimal(42, &mut buf), "42");
    assert_eq!(format_decimal(1234567890, &mut buf), "1234567890");
}

#[test]
fn test_hex_formatting() {
    let mut buf = [0u8; 18];
    assert_eq!(format_hex_u64(0xDEADBEEF, &mut buf), "0x00000000DEADBEEF");

    let mut buf = [0u8; 10];
    assert_eq!(format_hex_u32(0xCAFEBABE, &mut buf), "0xCAFEBABE");

    let mut buf = [0u8; 6];
    assert_eq!(format_hex_u16(0xABCD, &mut buf), "0xABCD");

    let mut buf = [0u8; 4];
    assert_eq!(format_hex_u8(0xFF, &mut buf), "0xFF");
}

#[test]
fn string_writer_refuses_overflow_and_encodes_utf8() {
    let mut buf = [0u8; 4];
    let mut w = StringWriter::new(&mut buf);
    assert_eq!(w.write_str("abc"), Ok(()));
    assert_eq!(w.write_str("de"), Err(()));
    assert_eq!(w.len(), 3);
    assert_eq!(w.write_char('\u{e9}'), Err(()));
    assert_eq!(w.write_char('d'), Ok(()));
    assert_eq!(w.as_str(), "abcd");
    assert_eq!(w.write_char('e'), Err(()));
    let mut big = [0u8; 8];
    let mut u = StringWriter::new(&mut big);
    assert!(u.is_empty());
    u.write_char('\u{20AC}').unwrap();
    assert_eq!(u.as_str(), "\u{20AC}");
    assert_eq!(u.len(), 3);
}

#[test]
fn decimal_of_largest_u64() {
    let mut buf = [0u8; 20];
    assert_eq!(format_decimal(u64::MAX, &mut buf), "18446744073709551615");
}

#[test]
fn hex_to_serial() {
    let mut out: Vec<u8> = Vec::new();
    write_hex_u64(0x1234, &mut out);
    assert_eq!(out, b"0000000000001234".to_vec());
}

#[test]
fn compare_bytes_reports_first_difference() {
    assert_eq!(compare_bytes(b"abcd", b"abcd", 4), 0);
    assert_eq!(compare_bytes(b"abcd", b"abzd", 4), (b'c' as i32) - (b'z' as i32));
    assert_eq!(compare_bytes(b"abzd", b"abcd", 4), 23);
    assert_eq!(compare_bytes(b"abcX", b"abcY", 3), 0);
    assert_eq!(compare_bytes(b"", b"", 0), 0);
}

#[test]
fn string_writer_leaves_the_rest_of_the_buffer() {
    let mut buf = [b'x'; 8];
    {
        let mut writer = StringWriter::new(&mut buf);
        writer.write_str("ab").unwrap();
        writer.write_char('c').unwrap();
        assert!(writer.write_str("toolong").is_err());
        assert_eq!(writer.as_str(), "abc");
    }
    assert_eq!(&buf, b"abcxxxxx");
}
