use hayes::impls::primitive::sint::{read_signed, write_signed};
use hayes::{AtReadable, AtWritable, HayesError};

#[test]
fn test_read_i8() {
    assert_eq!(i8::read(b"0"), Ok((0, 1)));
    assert_eq!(i8::read(b"123"), Ok((123, 3)));
    assert_eq!(i8::read(b"-42"), Ok((-42, 3)));
    assert_eq!(i8::read(b"-128"), Ok((-128, 4)));
}

#[test]
fn test_write_i8() {
    let mut buf = [0u8; 10];
    assert_eq!(0i8.write(&mut buf), Ok(1));
    assert_eq!(&buf[..1], b"0");

    assert_eq!(123i8.write(&mut buf), Ok(3));
    assert_eq!(&buf[..3], b"123");

    assert_eq!((-42i8).write(&mut buf), Ok(3));
    assert_eq!(&buf[..3], b"-42");
}

#[test]
fn test_write_large_int() {
    let mut buf = [0u8; 50];
    assert_eq!(i64::MAX.write(&mut buf), Ok(19));
    assert_eq!(&buf[..19], b"9223372036854775807");

    assert_eq!(i64::MIN.write(&mut buf), Ok(20));
    assert_eq!(&buf[..20], b"-9223372036854775808");

    assert_eq!(i128::MIN.write(&mut buf), Ok(40));
    assert_eq!(&buf[..40], b"-170141183460469231731687303715884105728");
}

#[test]
fn int_test_insufficient_buffer() {
    let mut buf = [0u8; 2];

    // 42 needs 2 bytes, buffer has 2 - should succeed
    assert_eq!(42i8.write(&mut buf), Ok(2));

    // 123 needs 3 bytes, buffer has 2 - should fail with required=3
    assert_eq!(
        123i8.write(&mut buf),
        Err(HayesError::InsufficientBuffer {
            required: 3,
            available: 2,
        })
    );

    // -42 needs 3 bytes (sign + 2 digits), buffer has 2 - should fail with required=3
    assert_eq!(
        (-42i8).write(&mut buf),
        Err(HayesError::InsufficientBuffer {
            required: 3,
            available: 2,
        })
    );

    // 0 needs 1 byte
    let mut buf0 = [0u8; 0];
    assert_eq!(
        0i8.write(&mut buf0),
        Err(HayesError::InsufficientBuffer {
            required: 1,
            available: 0,
        })
    );

    // 12345 needs 5 bytes
    assert_eq!(
        12345i32.write(&mut buf),
        Err(HayesError::InsufficientBuffer {
            required: 5,
            available: 2,
        })
    );
}

#[test]
fn int_read_rejects_what_leaves_the_width() {
    assert_eq!(i8::read(b"127"), Ok((127, 3)));
    assert_eq!(i8::read(b"128"), Err(HayesError::ParseError));
    assert_eq!(i8::read(b"-129"), Err(HayesError::ParseError));
    assert_eq!(i8::read(b"1270"), Err(HayesError::ParseError));
    assert_eq!(i16::read(b"32768"), Err(HayesError::ParseError));
    assert_eq!(i16::read(b"-32768"), Ok((i16::MIN, 6)));
    assert_eq!(i32::read(b"2147483648"), Err(HayesError::ParseError));
    assert_eq!(i32::read(b"-2147483648"), Ok((i32::MIN, 11)));
    assert_eq!(i64::read(b"9223372036854775808"), Err(HayesError::ParseError));
    assert_eq!(
        i128::read(b"170141183460469231731687303715884105728"),
        Err(HayesError::ParseError)
    );
    assert_eq!(
        i128::read(b"-170141183460469231731687303715884105729"),
        Err(HayesError::ParseError)
    );
    assert_eq!(
        i128::read(b"99999999999999999999999999999999999999999999"),
        Err(HayesError::ParseError)
    );
}

#[test]
fn int_read_least_values() {
    assert_eq!(i64::read(b"-9223372036854775808"), Ok((i64::MIN, 20)));
    assert_eq!(
        i128::read(b"-170141183460469231731687303715884105728"),
        Ok((i128::MIN, 40))
    );
    assert_eq!(
        isize::read(isize::MIN.to_string().as_bytes()),
        Ok((isize::MIN, isize::MIN.to_string().len()))
    );
}

#[test]
fn int_read_sign_and_end() {
    assert_eq!(i8::read(b""), Err(HayesError::UnexpectedEnd));
    // A bare sign at the end of the input
    assert_eq!(i8::read(b"-"), Err(HayesError::UnexpectedEnd));
    // A sign that no digit follows
    assert_eq!(i8::read(b"-a"), Err(HayesError::ParseError));
    assert_eq!(i8::read(b"--1"), Err(HayesError::ParseError));
    // No digit in the first place
    assert_eq!(i8::read(b"a"), Err(HayesError::ParseError));
    assert_eq!(i8::read(b"+1"), Err(HayesError::ParseError));
    assert_eq!(i8::read(b" 1"), Err(HayesError::ParseError));
}

#[test]
fn int_read_stops_at_the_first_non_digit() {
    assert_eq!(i32::read(b"-42,7"), Ok((-42, 3)));
    assert_eq!(i32::read(b"42-7"), Ok((42, 2)));
    assert_eq!(i32::read(b"7\r\n"), Ok((7, 1)));
}

#[test]
fn int_read_accepts_leading_zeros() {
    assert_eq!(i8::read(b"007"), Ok((7, 3)));
    assert_eq!(i8::read(b"-007"), Ok((-7, 4)));
    assert_eq!(i8::read(b"-0"), Ok((0, 2)));
    assert_eq!(i8::read(b"0000000000127"), Ok((127, 13)));
    assert_eq!(i8::read(b"-0000000000128"), Ok((-128, 14)));
}

#[test]
fn int_write_leaves_the_rest_untouched() {
    let mut buf = [b'x'; 6];
    assert_eq!((-42i32).write(&mut buf), Ok(3));
    assert_eq!(&buf, b"-42xxx");
}

#[test]
fn int_write_failure_leaves_the_buffer_untouched() {
    let mut buf = [b'x'; 2];
    assert_eq!(
        (-42i32).write(&mut buf),
        Err(HayesError::InsufficientBuffer {
            required: 3,
            available: 2,
        })
    );
    assert_eq!(&buf, b"xx");
}

#[test]
fn int_exact_buffer_and_one_less() {
    let values: [i128; 9] = [
        0,
        9,
        10,
        -1,
        -10,
        i64::MAX as i128,
        i64::MIN as i128,
        i128::MAX,
        i128::MIN,
    ];
    for value in values {
        let text = value.to_string();
        let required = text.len();
        let mut exact = vec![0u8; required];
        assert_eq!(value.write(&mut exact), Ok(required));
        assert_eq!(exact, text.as_bytes());
        let mut short = vec![0u8; required - 1];
        assert_eq!(
            value.write(&mut short),
            Err(HayesError::InsufficientBuffer {
                required,
                available: required - 1,
            })
        );
    }
}

#[test]
fn int_round_trip_at_the_ends_of_every_width() {
    let mut buf = [0u8; 40];
    for value in [i8::MIN, -1, 0, 1, i8::MAX] {
        let n = value.write(&mut buf).unwrap();
        assert_eq!(i8::read(&buf[..n]), Ok((value, n)));
    }
    for value in [i16::MIN, -1, 0, 1, i16::MAX] {
        let n = value.write(&mut buf).unwrap();
        assert_eq!(i16::read(&buf[..n]), Ok((value, n)));
    }
    for value in [i32::MIN, -1, 0, 1, i32::MAX] {
        let n = value.write(&mut buf).unwrap();
        assert_eq!(i32::read(&buf[..n]), Ok((value, n)));
    }
    for value in [i64::MIN, -1, 0, 1, i64::MAX] {
        let n = value.write(&mut buf).unwrap();
        assert_eq!(i64::read(&buf[..n]), Ok((value, n)));
    }
    for value in [i128::MIN, -1, 0, 1, i128::MAX] {
        let n = value.write(&mut buf).unwrap();
        assert_eq!(i128::read(&buf[..n]), Ok((value, n)));
    }
    for value in [isize::MIN, -1, 0, 1, isize::MAX] {
        let n = value.write(&mut buf).unwrap();
        assert_eq!(isize::read(&buf[..n]), Ok((value, n)));
    }
}

#[test]
fn int_round_trip_every_i8() {
    let mut buf = [0u8; 4];
    for value in i8::MIN..=i8::MAX {
        let n = value.write(&mut buf).unwrap();
        assert_eq!(&buf[..n], value.to_string().as_bytes());
        assert_eq!(i8::read(&buf[..n]), Ok((value, n)));
    }
}

#[test]
fn int_reencoding_a_decoded_value() {
    // Not byte-identical for an input with leading zeros, but the same value.
    let (value, consumed) = i16::read(b"-00042;").unwrap();
    assert_eq!((value, consumed), (-42, 6));
    let mut buf = [0u8; 8];
    let n = value.write(&mut buf).unwrap();
    assert_eq!(&buf[..n], b"-42");
    assert_eq!(i16::read(&buf[..n]), Ok((value, n)));
}

#[test]
fn signed_routine_holds_both_bounds_on_both_sides_of_the_sign() {
    // Without a sign, below the least value
    assert_eq!(read_signed(b"3", 5, 10), Err(HayesError::ParseError));
    assert_eq!(read_signed(b"5", 5, 10), Ok((5, 1)));
    assert_eq!(read_signed(b"10", 5, 10), Ok((10, 2)));
    assert_eq!(read_signed(b"11", 5, 10), Err(HayesError::ParseError));
    // The first digits alone lie below the least value, the number does not
    assert_eq!(read_signed(b"07", 5, 10), Ok((7, 2)));
    // Behind a sign, above the greatest value
    assert_eq!(read_signed(b"-3", -10, -5), Err(HayesError::ParseError));
    assert_eq!(read_signed(b"-5", -10, -5), Ok((-5, 2)));
    assert_eq!(read_signed(b"-10", -10, -5), Ok((-10, 3)));
    assert_eq!(read_signed(b"-11", -10, -5), Err(HayesError::ParseError));
    assert_eq!(read_signed(b"-0", -10, -5), Err(HayesError::ParseError));
    assert_eq!(read_signed(b"7", -10, -5), Err(HayesError::ParseError));
}

#[test]
fn signed_routine_with_given_bounds() {
    assert_eq!(read_signed(b"-5", -5, 5), Ok((-5, 2)));
    assert_eq!(read_signed(b"-6", -5, 5), Err(HayesError::ParseError));
    assert_eq!(read_signed(b"5", -5, 5), Ok((5, 1)));
    assert_eq!(read_signed(b"6", -5, 5), Err(HayesError::ParseError));
    let mut buf = [0u8; 3];
    assert_eq!(write_signed(-77, &mut buf), Ok(3));
    assert_eq!(&buf, b"-77");
}
