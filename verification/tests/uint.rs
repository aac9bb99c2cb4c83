use hayes::impls::primitive::uint::{read_unsigned, write_unsigned};
use hayes::{AtReadable, AtWritable, HayesError};

#[test]
fn test_read_u8() {
    assert_eq!(u8::read(b"0"), Ok((0, 1)));
    assert_eq!(u8::read(b"123"), Ok((123, 3)));
    assert_eq!(u8::read(b"255"), Ok((255, 3)));
    assert_eq!(u8::read(b"42,"), Ok((42, 2)));
}

#[test]
fn test_write_u8() {
    let mut buf = [0u8; 10];
    assert_eq!(0u8.write(&mut buf), Ok(1));
    assert_eq!(&buf[..1], b"0");

    assert_eq!(123u8.write(&mut buf), Ok(3));
    assert_eq!(&buf[..3], b"123");
}

#[test]
fn test_write_large_uint() {
    let mut buf = [0u8; 50];
    assert_eq!(u64::MAX.write(&mut buf), Ok(20));
    assert_eq!(&buf[..20], b"18446744073709551615");

    assert_eq!(u128::MAX.write(&mut buf), Ok(39));
    assert_eq!(&buf[..39], b"340282366920938463463374607431768211455");
}

#[test]
fn uint_test_insufficient_buffer() {
    let mut buf = [0u8; 2];

    // 42 needs 2 bytes, buffer has 2 - should succeed
    assert_eq!(42u8.write(&mut buf), Ok(2));

    // 255 needs 3 bytes, buffer has 2 - should fail with required=3
    assert_eq!(
        255u8.write(&mut buf),
        Err(HayesError::InsufficientBuffer {
            required: 3,
            available: 2,
        })
    );

    // 0 needs 1 byte
    let mut buf0 = [0u8; 0];
    assert_eq!(
        0u8.write(&mut buf0),
        Err(HayesError::InsufficientBuffer {
            required: 1,
            available: 0,
        })
    );

    // 99999 needs 5 bytes
    assert_eq!(
        99999u32.write(&mut buf),
        Err(HayesError::InsufficientBuffer {
            required: 5,
            available: 2,
        })
    );
}

#[test]
fn uint_read_rejects_what_leaves_the_width() {
    assert_eq!(u8::read(b"256"), Err(HayesError::ParseError));
    assert_eq!(u8::read(b"2550"), Err(HayesError::ParseError));
    assert_eq!(u8::read(b"999"), Err(HayesError::ParseError));
    assert_eq!(u16::read(b"65535"), Ok((u16::MAX, 5)));
    assert_eq!(u16::read(b"65536"), Err(HayesError::ParseError));
    assert_eq!(u32::read(b"4294967295"), Ok((u32::MAX, 10)));
    assert_eq!(u32::read(b"4294967296"), Err(HayesError::ParseError));
    assert_eq!(u64::read(b"18446744073709551615"), Ok((u64::MAX, 20)));
    assert_eq!(u64::read(b"18446744073709551616"), Err(HayesError::ParseError));
    assert_eq!(
        u128::read(b"340282366920938463463374607431768211455"),
        Ok((u128::MAX, 39))
    );
    assert_eq!(
        u128::read(b"340282366920938463463374607431768211456"),
        Err(HayesError::ParseError)
    );
    assert_eq!(
        u128::read(b"3402823669209384634633746074317682114550"),
        Err(HayesError::ParseError)
    );
    assert_eq!(
        usize::read(usize::MAX.to_string().as_bytes()),
        Ok((usize::MAX, usize::MAX.to_string().len()))
    );
}

#[test]
fn uint_read_without_a_digit() {
    // Exhausted input is not the same failure as a first byte that is no digit.
    assert_eq!(u8::read(b""), Err(HayesError::UnexpectedEnd));
    assert_eq!(u8::read(b"abc"), Err(HayesError::ParseError));
    assert_eq!(u8::read(b",123"), Err(HayesError::ParseError));
    assert_eq!(u8::read(b"-1"), Err(HayesError::ParseError));
    assert_eq!(u8::read(b"/"), Err(HayesError::ParseError));
    assert_eq!(u8::read(b":"), Err(HayesError::ParseError));
}

#[test]
fn uint_read_accepts_leading_zeros() {
    assert_eq!(u8::read(b"007"), Ok((7, 3)));
    assert_eq!(u8::read(b"000000255"), Ok((255, 9)));
    assert_eq!(u8::read(b"0000000000"), Ok((0, 10)));
}

#[test]
fn uint_read_fields_one_after_another() {
    let input = b"12,345";
    let (first, consumed) = u8::read(input).unwrap();
    assert_eq!((first, consumed), (12, 2));
    let (second, consumed) = u16::read(&input[consumed + 1..]).unwrap();
    assert_eq!((second, consumed), (345, 3));
}

#[test]
fn uint_write_leaves_the_rest_untouched() {
    let mut buf = [b'x'; 5];
    assert_eq!(907u16.write(&mut buf), Ok(3));
    assert_eq!(&buf, b"907xx");
}

#[test]
fn uint_write_failure_leaves_the_buffer_untouched() {
    let mut buf = [b'x'; 2];
    assert!(907u16.write(&mut buf).is_err());
    assert_eq!(&buf, b"xx");
}

#[test]
fn uint_required_bytes_by_digit_count() {
    // One byte for zero, and one more at every power of ten.
    let cases: [(u128, usize); 9] = [
        (0, 1),
        (9, 1),
        (10, 2),
        (99, 2),
        (100, 3),
        (999_999, 6),
        (1_000_000, 7),
        (u64::MAX as u128, 20),
        (u128::MAX, 39),
    ];
    for (value, required) in cases {
        let mut exact = vec![0u8; required];
        assert_eq!(value.write(&mut exact), Ok(required));
        let mut short = vec![0u8; required - 1];
        assert_eq!(
            value.write(&mut short),
            Err(HayesError::InsufficientBuffer {
                required,
                available: required - 1,
            })
        );
    }
}

#[test]
fn uint_round_trip_at_the_ends_of_every_width() {
    let mut buf = [0u8; 40];
    for value in [0, 1, u8::MAX] {
        let n = value.write(&mut buf).unwrap();
        assert_eq!(u8::read(&buf[..n]), Ok((value, n)));
    }
    for value in [0, 1, u16::MAX] {
        let n = value.write(&mut buf).unwrap();
        assert_eq!(u16::read(&buf[..n]), Ok((value, n)));
    }
    for value in [0, 1, u32::MAX] {
        let n = value.write(&mut buf).unwrap();
        assert_eq!(u32::read(&buf[..n]), Ok((value, n)));
    }
    for value in [0, 1, u64::MAX] {
        let n = value.write(&mut buf).unwrap();
        assert_eq!(u64::read(&buf[..n]), Ok((value, n)));
    }
    for value in [0, 1, u128::MAX] {
        let n = value.write(&mut buf).unwrap();
        assert_eq!(u128::read(&buf[..n]), Ok((value, n)));
    }
    for value in [0, 1, usize::MAX] {
        let n = value.write(&mut buf).unwrap();
        assert_eq!(usize::read(&buf[..n]), Ok((value, n)));
    }
}

#[test]
fn uint_round_trip_every_u16() {
    let mut buf = [0u8; 5];
    for value in 0..=u16::MAX {
        let n = value.write(&mut buf).unwrap();
        assert_eq!(&buf[..n], value.to_string().as_bytes());
        assert_eq!(u16::read(&buf[..n]), Ok((value, n)));
    }
}

#[test]
fn uint_reencoding_a_decoded_value() {
    let (value, consumed) = u32::read(b"000120").unwrap();
    assert_eq!((value, consumed), (120, 6));
    let mut buf = [0u8; 6];
    let n = value.write(&mut buf).unwrap();
    assert_eq!(&buf[..n], b"120");
    assert_eq!(u32::read(&buf[..n]), Ok((value, n)));
}

#[test]
fn unsigned_routine_with_a_given_bound() {
    assert_eq!(read_unsigned(b"100", 100), Ok((100, 3)));
    assert_eq!(read_unsigned(b"101", 100), Err(HayesError::ParseError));
    assert_eq!(read_unsigned(b"", 100), Err(HayesError::UnexpectedEnd));
    let mut buf = [0u8; 3];
    assert_eq!(write_unsigned(77, &mut buf), Ok(2));
    assert_eq!(&buf[..2], b"77");
}
