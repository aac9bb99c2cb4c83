use hayes::decimal::{digit_count, is_digit_byte, magnitude, render};
use hayes::impls::{copy_bytes, BufferWriter, FormatError};

#[test]
fn writer_starts_empty() {
    let mut buf = [0u8; 4];
    let writer = BufferWriter::new(&mut buf);
    assert_eq!(writer.written(), 0);
}

#[test]
fn writer_appends_and_counts() {
    let mut buf = [b'.'; 8];
    let mut writer = BufferWriter::new(&mut buf);
    assert_eq!(writer.write_str("AT"), Ok(()));
    assert_eq!(writer.written(), 2);
    assert_eq!(writer.write_str("+CFUN"), Ok(()));
    assert_eq!(writer.written(), 7);
    assert_eq!(writer.write_bytes(b"?"), Ok(()));
    assert_eq!(writer.written(), 8);
    assert_eq!(&buf, b"AT+CFUN?");
}

#[test]
fn writer_rejects_what_does_not_fit() {
    let mut buf = [b'.'; 4];
    let mut writer = BufferWriter::new(&mut buf);
    assert_eq!(writer.write_str("abc"), Ok(()));
    // Nothing is written by an append that fails, and what was appended stays.
    assert_eq!(writer.write_str("de"), Err(FormatError));
    assert_eq!(writer.written(), 3);
    assert_eq!(writer.write_str("d"), Ok(()));
    assert_eq!(writer.write_str(""), Ok(()));
    assert_eq!(writer.write_str("e"), Err(FormatError));
    assert_eq!(writer.written(), 4);
    assert_eq!(&buf, b"abcd");
}

#[test]
fn writer_over_an_empty_region() {
    let mut buf = [0u8; 0];
    let mut writer = BufferWriter::new(&mut buf);
    assert_eq!(writer.write_str(""), Ok(()));
    assert_eq!(writer.write_str("x"), Err(FormatError));
    assert_eq!(writer.written(), 0);
}

#[test]
fn copy_bytes_into_the_middle() {
    let mut buf = *b"abcdef";
    copy_bytes(&mut buf, 2, b"XY");
    assert_eq!(&buf, b"abXYef");
    copy_bytes(&mut buf, 6, b"");
    assert_eq!(&buf, b"abXYef");
}

#[test]
fn render_right_aligned() {
    let mut text = [b' '; 40];
    let start = render(1205, &mut text);
    assert_eq!(start, 36);
    assert_eq!(&text[start..], b"1205");
    assert!(text[..start].iter().all(|byte| *byte == b' '));

    let start = render(0, &mut text);
    assert_eq!(&text[start..], b"0");

    let start = render(u128::MAX, &mut text);
    assert_eq!(start, 1);
    assert_eq!(&text[start..], b"340282366920938463463374607431768211455");
}

#[test]
fn digit_count_at_the_powers_of_ten() {
    assert_eq!(digit_count(0), 1);
    assert_eq!(digit_count(9), 1);
    assert_eq!(digit_count(10), 2);
    assert_eq!(digit_count(99), 2);
    assert_eq!(digit_count(100), 3);
    assert_eq!(digit_count(u128::MAX), 39);
    let mut power: u128 = 1;
    for digits in 1..=39usize {
        assert_eq!(digit_count(power), digits);
        if digits > 1 {
            assert_eq!(digit_count(power - 1), digits - 1);
        }
        if digits < 39 {
            power *= 10;
        }
    }
}

#[test]
fn magnitude_of_the_least_value() {
    assert_eq!(magnitude(0), 0);
    assert_eq!(magnitude(5), 5);
    assert_eq!(magnitude(-5), 5);
    assert_eq!(magnitude(i128::MAX), i128::MAX as u128);
    assert_eq!(magnitude(i128::MIN), (i128::MAX as u128) + 1);
}

#[test]
fn digits_are_told_from_their_neighbours() {
    assert!(!is_digit_byte(b'/'));
    assert!(is_digit_byte(b'0'));
    assert!(is_digit_byte(b'9'));
    assert!(!is_digit_byte(b':'));
    assert!(!is_digit_byte(b'-'));
}
