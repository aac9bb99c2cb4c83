//! The codec of the signed integers.
//!
//! Every width shares one routine for each direction, which works on 128-bit
//! numbers and is told the least and the greatest value of the width.

use vstd::prelude::*;
use crate::decimal::{
    digit_count, digit_run, digits_value, is_digit, is_digit_byte, lemma_decimal_len_u128,
    lemma_digit_run, lemma_digit_run_reaches, lemma_digits_value_step, magnitude, render,
    signed_decimal, MINUS, TEXT_CAPACITY, ZERO,
};
use crate::impls::BufferWriter;
use crate::{write_result, AtReadable, AtWritable, HayesError};

verus! {

/// What the beginning of `input` stands for as a signed number between `min`
/// and `max`.
///
/// The number is written as an optional `'-'` and the longest run of digits
/// that follows; leading zeros are accepted. Input that is empty, or that
/// ends behind the sign, ends unexpectedly. Input without a digit in the
/// place of the first one does not parse, nor do digits whose number, negated
/// behind a sign, lies below `min` or above `max`.
pub open spec fn signed_decoded(input: Seq<u8>, min: int, max: int) -> Result<
    (int, nat),
    HayesError,
> {
    if input.len() == 0 {
        Err(HayesError::UnexpectedEnd)
    } else if input[0] == MINUS {
        let digits = input.skip(1);
        let run = digit_run(digits);
        let value = -(digits_value(digits.take(run as int)) as int);
        if digits.len() == 0 {
            Err(HayesError::UnexpectedEnd)
        } else if run == 0 || value < min || value > max {
            Err(HayesError::ParseError)
        } else {
            Ok((value, run + 1))
        }
    } else {
        let run = digit_run(input);
        let value = digits_value(input.take(run as int)) as int;
        if run == 0 || value < min || value > max {
            Err(HayesError::ParseError)
        } else {
            Ok((value, run))
        }
    }
}

/// Reads a signed number between `min` and `max` from the beginning of
/// `input`.
///
/// Behind a sign the digits are accumulated as `value * 10 - digit`, and
/// never as a positive number that is negated at the end: the least value of
/// a width has no positive counterpart in that width. Without a sign they are
/// accumulated as `value * 10 + digit`. The arithmetic is checked, and the
/// first step that leaves the range on the side that the digits move to,
/// below `min` behind a sign and above `max` without one, ends the call with
/// a parse error. A number that stays short of the other bound is rejected
/// when all its digits are read.
pub fn read_signed(input: &[u8], min: i128, max: i128) -> (r: Result<(i128, usize), HayesError>)
    ensures
        match r {
            Ok((value, consumed)) => {
                &&& signed_decoded(input@, min as int, max as int) == Ok::<
                    (int, nat),
                    HayesError,
                >((value as int, consumed as nat))
                &&& 1 <= consumed <= input@.len()
                &&& min <= value <= max
            },
            Err(e) => signed_decoded(input@, min as int, max as int) == Err::<
                (int, nat),
                HayesError,
            >(e),
        },
{
    if input.len() == 0 {
        return Err(HayesError::UnexpectedEnd);
    }
    // Handle optional negative sign
    let is_negative = input[0] == MINUS;
    if is_negative && input.len() < 2 {
        return Err(HayesError::UnexpectedEnd);
    }
    let digits = if is_negative {
        &input[1..input.len()]
    } else {
        input
    };
    let mut value: i128 = 0;
    let mut consumed: usize = 0;

    if is_negative {
        while consumed < digits.len() && is_digit_byte(digits[consumed])
            invariant
                input@.len() >= 2,
                input@[0] == MINUS,
                digits@ == input@.skip(1),
                consumed <= digits@.len(),
                forall|i: int| 0 <= i < consumed ==> is_digit(digits@[i]),
                value == -(digits_value(digits@.take(consumed as int)) as int),
                consumed > 0 ==> value >= min,
            decreases digits@.len() - consumed,
        {
            let digit = (digits[consumed] - ZERO) as i128;
            proof {
                lemma_digits_value_step(digits@, consumed as int);
            }
            let next = match value.checked_mul(10) {
                Some(tenfold) => tenfold.checked_sub(digit),
                None => None,
            };
            match next {
                Some(difference) if difference >= min => {
                    value = difference;
                    consumed = consumed + 1;
                },
                _ => {
                    proof {
                        lemma_digit_run_reaches(digits@, consumed as int);
                    }
                    return Err(HayesError::ParseError);
                },
            }
        }
    } else {
        while consumed < digits.len() && is_digit_byte(digits[consumed])
            invariant
                input@.len() >= 1,
                input@[0] != MINUS,
                digits@ == input@,
                consumed <= digits@.len(),
                forall|i: int| 0 <= i < consumed ==> is_digit(digits@[i]),
                value == digits_value(digits@.take(consumed as int)),
                consumed > 0 ==> value <= max,
            decreases digits@.len() - consumed,
        {
            let digit = (digits[consumed] - ZERO) as i128;
            proof {
                lemma_digits_value_step(digits@, consumed as int);
            }
            let next = match value.checked_mul(10) {
                Some(tenfold) => tenfold.checked_add(digit),
                None => None,
            };
            match next {
                Some(sum) if sum <= max => {
                    value = sum;
                    consumed = consumed + 1;
                },
                _ => {
                    proof {
                        lemma_digit_run_reaches(digits@, consumed as int);
                    }
                    return Err(HayesError::ParseError);
                },
            }
        }
    }
    proof {
        lemma_digit_run(digits@, consumed as nat);
    }
    if consumed == 0 || value < min || value > max {
        return Err(HayesError::ParseError);
    }
    if is_negative {
        consumed = consumed + 1;
    }
    Ok((value, consumed))
}

/// Writes the decimal text of `value`, with a leading `'-'` if it is
/// negative, to the beginning of `output`.
///
/// The text is appended through a [`BufferWriter`]. If it does not fit, the
/// output is left as it was, and the error tells the number of bytes that
/// the text needs, counted from the digits of `value` and its sign, not
/// taken from the writer.
pub fn write_signed(value: i128, output: &mut [u8]) -> (r: Result<usize, HayesError>)
    ensures
        r == write_result(signed_decimal(value as int), old(output)@.len() as usize),
        final(output)@.len() == old(output)@.len(),
        r is Ok ==> final(output)@ == signed_decimal(value as int) + old(output)@.skip(
            signed_decimal(value as int).len() as int,
        ),
        r is Err ==> final(output)@ == old(output)@,
{
    let available = output.len();
    let size = magnitude(value);
    proof {
        lemma_decimal_len_u128(size as nat);
    }
    let mut text = [0u8; TEXT_CAPACITY];
    let mut start = render(size, &mut text);
    if value < 0 {
        start = start - 1;
        text[start] = MINUS;
    }
    let mut writer = BufferWriter::new(output);
    match writer.write_bytes(&text[start..TEXT_CAPACITY]) {
        Ok(()) => Ok(writer.written()),
        Err(_) => Err(
            HayesError::InsufficientBuffer {
                required: if value < 0 {
                    // For negative: need sign + digits
                    1 + digit_count(size)
                } else {
                    digit_count(size)
                },
                available,
            },
        ),
    }
}

impl<'at> AtReadable<'at> for i8 {
    /// The number that the sign and the leading digits of `input` denote, if
    /// it is an `i8`.
    open spec fn decoded(input: Seq<u8>) -> Result<(i8, nat), HayesError> {
        match signed_decoded(input, i8::MIN as int, i8::MAX as int) {
            Ok((value, consumed)) => Ok((value as i8, consumed)),
            Err(e) => Err(e),
        }
    }

    fn read(input: &'at [u8]) -> (r: Result<(Self, usize), HayesError>)
        ensures
            r matches Ok((_, consumed)) ==> consumed >= 1,
    {
        match read_signed(input, i8::MIN as i128, i8::MAX as i128) {
            Ok((value, consumed)) => Ok((value as i8, consumed)),
            Err(e) => Err(e),
        }
    }
}

impl AtWritable for i8 {
    /// The decimal text of the number, behind a `'-'` if it is negative.
    open spec fn wire(&self) -> Seq<u8> {
        signed_decimal(*self as int)
    }

    fn write(&self, output: &mut [u8]) -> (r: Result<usize, HayesError>) {
        write_signed(*self as i128, output)
    }
}

impl<'at> AtReadable<'at> for i16 {
    /// The number that the sign and the leading digits of `input` denote, if
    /// it is an `i16`.
    open spec fn decoded(input: Seq<u8>) -> Result<(i16, nat), HayesError> {
        match signed_decoded(input, i16::MIN as int, i16::MAX as int) {
            Ok((value, consumed)) => Ok((value as i16, consumed)),
            Err(e) => Err(e),
        }
    }

    fn read(input: &'at [u8]) -> (r: Result<(Self, usize), HayesError>)
        ensures
            r matches Ok((_, consumed)) ==> consumed >= 1,
    {
        match read_signed(input, i16::MIN as i128, i16::MAX as i128) {
            Ok((value, consumed)) => Ok((value as i16, consumed)),
            Err(e) => Err(e),
        }
    }
}

impl AtWritable for i16 {
    /// The decimal text of the number, behind a `'-'` if it is negative.
    open spec fn wire(&self) -> Seq<u8> {
        signed_decimal(*self as int)
    }

    fn write(&self, output: &mut [u8]) -> (r: Result<usize, HayesError>) {
        write_signed(*self as i128, output)
    }
}

impl<'at> AtReadable<'at> for i32 {
    /// The number that the sign and the leading digits of `input` denote, if
    /// it is an `i32`.
    open spec fn decoded(input: Seq<u8>) -> Result<(i32, nat), HayesError> {
        match signed_decoded(input, i32::MIN as int, i32::MAX as int) {
            Ok((value, consumed)) => Ok((value as i32, consumed)),
            Err(e) => Err(e),
        }
    }

    fn read(input: &'at [u8]) -> (r: Result<(Self, usize), HayesError>)
        ensures
            r matches Ok((_, consumed)) ==> consumed >= 1,
    {
        match read_signed(input, i32::MIN as i128, i32::MAX as i128) {
            Ok((value, consumed)) => Ok((value as i32, consumed)),
            Err(e) => Err(e),
        }
    }
}

impl AtWritable for i32 {
    /// The decimal text of the number, behind a `'-'` if it is negative.
    open spec fn wire(&self) -> Seq<u8> {
        signed_decimal(*self as int)
    }

    fn write(&self, output: &mut [u8]) -> (r: Result<usize, HayesError>) {
        write_signed(*self as i128, output)
    }
}

impl<'at> AtReadable<'at> for i64 {
    /// The number that the sign and the leading digits of `input` denote, if
    /// it is an `i64`.
    open spec fn decoded(input: Seq<u8>) -> Result<(i64, nat), HayesError> {
        match signed_decoded(input, i64::MIN as int, i64::MAX as int) {
            Ok((value, consumed)) => Ok((value as i64, consumed)),
            Err(e) => Err(e),
        }
    }

    fn read(input: &'at [u8]) -> (r: Result<(Self, usize), HayesError>)
        ensures
            r matches Ok((_, consumed)) ==> consumed >= 1,
    {
        match read_signed(input, i64::MIN as i128, i64::MAX as i128) {
            Ok((value, consumed)) => Ok((value as i64, consumed)),
            Err(e) => Err(e),
        }
    }
}

impl AtWritable for i64 {
    /// The decimal text of the number, behind a `'-'` if it is negative.
    open spec fn wire(&self) -> Seq<u8> {
        signed_decimal(*self as int)
    }

    fn write(&self, output: &mut [u8]) -> (r: Result<usize, HayesError>) {
        write_signed(*self as i128, output)
    }
}

impl<'at> AtReadable<'at> for i128 {
    /// The number that the sign and the leading digits of `input` denote, if
    /// it is an `i128`.
    open spec fn decoded(input: Seq<u8>) -> Result<(i128, nat), HayesError> {
        match signed_decoded(input, i128::MIN as int, i128::MAX as int) {
            Ok((value, consumed)) => Ok((value as i128, consumed)),
            Err(e) => Err(e),
        }
    }

    fn read(input: &'at [u8]) -> (r: Result<(Self, usize), HayesError>)
        ensures
            r matches Ok((_, consumed)) ==> consumed >= 1,
    {
        match read_signed(input, i128::MIN as i128, i128::MAX as i128) {
            Ok((value, consumed)) => Ok((value as i128, consumed)),
            Err(e) => Err(e),
        }
    }
}

impl AtWritable for i128 {
    /// The decimal text of the number, behind a `'-'` if it is negative.
    open spec fn wire(&self) -> Seq<u8> {
        signed_decimal(*self as int)
    }

    fn write(&self, output: &mut [u8]) -> (r: Result<usize, HayesError>) {
        write_signed(*self as i128, output)
    }
}

impl<'at> AtReadable<'at> for isize {
    /// The number that the sign and the leading digits of `input` denote, if
    /// it is an `isize`.
    open spec fn decoded(input: Seq<u8>) -> Result<(isize, nat), HayesError> {
        match signed_decoded(input, isize::MIN as int, isize::MAX as int) {
            Ok((value, consumed)) => Ok((value as isize, consumed)),
            Err(e) => Err(e),
        }
    }

    fn read(input: &'at [u8]) -> (r: Result<(Self, usize), HayesError>)
        ensures
            r matches Ok((_, consumed)) ==> consumed >= 1,
    {
        match read_signed(input, isize::MIN as i128, isize::MAX as i128) {
            Ok((value, consumed)) => Ok((value as isize, consumed)),
            Err(e) => Err(e),
        }
    }
}

impl AtWritable for isize {
    /// The decimal text of the number, behind a `'-'` if it is negative.
    open spec fn wire(&self) -> Seq<u8> {
        signed_decimal(*self as int)
    }

    fn write(&self, output: &mut [u8]) -> (r: Result<usize, HayesError>) {
        write_signed(*self as i128, output)
    }
}

} // verus!
