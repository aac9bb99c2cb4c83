//! The codec of the unsigned integers.
//!
//! Every width shares one routine for each direction, which works on 128-bit
//! numbers and is told the greatest value of the width.

use vstd::prelude::*;
use crate::decimal::{
    decimal, digit_count, digit_run, digits_value, is_digit, is_digit_byte,
    lemma_decimal_len_u128, lemma_digit_run, lemma_digit_run_reaches, lemma_digits_value_step,
    render, TEXT_CAPACITY, ZERO,
};
use crate::impls::BufferWriter;
use crate::{write_result, AtReadable, AtWritable, HayesError};

verus! {

/// What the beginning of `input` stands for as an unsigned number of at most
/// `max`.
///
/// The number is written as the longest run of digits that `input` begins
/// with; leading zeros are accepted. Empty input ends unexpectedly. Input
/// that begins with no digit does not parse, nor do digits whose number
/// exceeds `max`.
pub open spec fn unsigned_decoded(input: Seq<u8>, max: nat) -> Result<(nat, nat), HayesError> {
    let run = digit_run(input);
    let value = digits_value(input.take(run as int));
    if input.len() == 0 {
        Err(HayesError::UnexpectedEnd)
    } else if run == 0 || value > max {
        Err(HayesError::ParseError)
    } else {
        Ok((value, run))
    }
}

/// Reads an unsigned number of at most `max` from the beginning of `input`.
///
/// The digits are accumulated as `value * 10 + digit` with checked
/// arithmetic. The first step that leaves the range up to `max` ends the
/// call with a parse error.
pub fn read_unsigned(input: &[u8], max: u128) -> (r: Result<(u128, usize), HayesError>)
    ensures
        match r {
            Ok((value, consumed)) => {
                &&& unsigned_decoded(input@, max as nat) == Ok::<(nat, nat), HayesError>(
                    (value as nat, consumed as nat),
                )
                &&& 1 <= consumed <= input@.len()
                &&& value <= max
            },
            Err(e) => unsigned_decoded(input@, max as nat) == Err::<(nat, nat), HayesError>(e),
        },
{
    if input.len() == 0 {
        return Err(HayesError::UnexpectedEnd);
    }
    let mut value: u128 = 0;
    let mut consumed: usize = 0;
    while consumed < input.len() && is_digit_byte(input[consumed])
        invariant
            consumed <= input@.len(),
            forall|i: int| 0 <= i < consumed ==> is_digit(input@[i]),
            value == digits_value(input@.take(consumed as int)),
            value <= max,
        decreases input@.len() - consumed,
    {
        let digit = (input[consumed] - ZERO) as u128;
        proof {
            lemma_digits_value_step(input@, consumed as int);
        }
        let next = match value.checked_mul(10) {
            Some(tenfold) => tenfold.checked_add(digit),
            None => None,
        };
        match next {
            Some(sum) if sum <= max => {
                value = sum;
                consumed = consumed + 1;
            },
            _ => {
                proof {
                    lemma_digit_run_reaches(input@, consumed as int);
                }
                return Err(HayesError::ParseError);
            },
        }
    }
    proof {
        lemma_digit_run(input@, consumed as nat);
    }
    if consumed == 0 {
        return Err(HayesError::ParseError);
    }
    Ok((value, consumed))
}

/// Writes the decimal text of `value` to the beginning of `output`.
///
/// The text is appended through a [`BufferWriter`]. If it does not fit, the
/// output is left as it was, and the error tells the number of bytes that
/// the text needs, counted from the digits of `value`, not taken from the
/// writer.
pub fn write_unsigned(value: u128, output: &mut [u8]) -> (r: Result<usize, HayesError>)
    ensures
        r == write_result(decimal(value as nat), old(output)@.len() as usize),
        final(output)@.len() == old(output)@.len(),
        r is Ok ==> final(output)@ == decimal(value as nat) + old(output)@.skip(
            decimal(value as nat).len() as int,
        ),
        r is Err ==> final(output)@ == old(output)@,
{
    proof {
        lemma_decimal_len_u128(value as nat);
    }
    let available = output.len();
    let mut text = [0u8; TEXT_CAPACITY];
    let start = render(value, &mut text);
    let mut writer = BufferWriter::new(output);
    match writer.write_bytes(&text[start..TEXT_CAPACITY]) {
        Ok(()) => Ok(writer.written()),
        Err(_) => Err(
            HayesError::InsufficientBuffer { required: digit_count(value), available },
        ),
    }
}

impl<'at> AtReadable<'at> for u8 {
    /// The number that the leading digits of `input` denote, if it is a
    /// `u8`.
    open spec fn decoded(input: Seq<u8>) -> Result<(u8, nat), HayesError> {
        match unsigned_decoded(input, u8::MAX as nat) {
            Ok((value, consumed)) => Ok((value as u8, consumed)),
            Err(e) => Err(e),
        }
    }

    fn read(input: &'at [u8]) -> (r: Result<(Self, usize), HayesError>)
        ensures
            r matches Ok((_, consumed)) ==> consumed >= 1,
    {
        match read_unsigned(input, u8::MAX as u128) {
            Ok((value, consumed)) => Ok((value as u8, consumed)),
            Err(e) => Err(e),
        }
    }
}

impl AtWritable for u8 {
    /// The decimal text of the number.
    open spec fn wire(&self) -> Seq<u8> {
        decimal(*self as nat)
    }

    fn write(&self, output: &mut [u8]) -> (r: Result<usize, HayesError>) {
        write_unsigned(*self as u128, output)
    }
}

impl<'at> AtReadable<'at> for u16 {
    /// The number that the leading digits of `input` denote, if it is a
    /// `u16`.
    open spec fn decoded(input: Seq<u8>) -> Result<(u16, nat), HayesError> {
        match unsigned_decoded(input, u16::MAX as nat) {
            Ok((value, consumed)) => Ok((value as u16, consumed)),
            Err(e) => Err(e),
        }
    }

    fn read(input: &'at [u8]) -> (r: Result<(Self, usize), HayesError>)
        ensures
            r matches Ok((_, consumed)) ==> consumed >= 1,
    {
        match read_unsigned(input, u16::MAX as u128) {
            Ok((value, consumed)) => Ok((value as u16, consumed)),
            Err(e) => Err(e),
        }
    }
}

impl AtWritable for u16 {
    /// The decimal text of the number.
    open spec fn wire(&self) -> Seq<u8> {
        decimal(*self as nat)
    }

    fn write(&self, output: &mut [u8]) -> (r: Result<usize, HayesError>) {
        write_unsigned(*self as u128, output)
    }
}

impl<'at> AtReadable<'at> for u32 {
    /// The number that the leading digits of `input` denote, if it is a
    /// `u32`.
    open spec fn decoded(input: Seq<u8>) -> Result<(u32, nat), HayesError> {
        match unsigned_decoded(input, u32::MAX as nat) {
            Ok((value, consumed)) => Ok((value as u32, consumed)),
            Err(e) => Err(e),
        }
    }

    fn read(input: &'at [u8]) -> (r: Result<(Self, usize), HayesError>)
        ensures
            r matches Ok((_, consumed)) ==> consumed >= 1,
    {
        match read_unsigned(input, u32::MAX as u128) {
            Ok((value, consumed)) => Ok((value as u32, consumed)),
            Err(e) => Err(e),
        }
    }
}

impl AtWritable for u32 {
    /// The decimal text of the number.
    open spec fn wire(&self) -> Seq<u8> {
        decimal(*self as nat)
    }

    fn write(&self, output: &mut [u8]) -> (r: Result<usize, HayesError>) {
        write_unsigned(*self as u128, output)
    }
}

impl<'at> AtReadable<'at> for u64 {
    /// The number that the leading digits of `input` denote, if it is a
    /// `u64`.
    open spec fn decoded(input: Seq<u8>) -> Result<(u64, nat), HayesError> {
        match unsigned_decoded(input, u64::MAX as nat) {
            Ok((value, consumed)) => Ok((value as u64, consumed)),
            Err(e) => Err(e),
        }
    }

    fn read(input: &'at [u8]) -> (r: Result<(Self, usize), HayesError>)
        ensures
            r matches Ok((_, consumed)) ==> consumed >= 1,
    {
        match read_unsigned(input, u64::MAX as u128) {
            Ok((value, consumed)) => Ok((value as u64, consumed)),
            Err(e) => Err(e),
        }
    }
}

impl AtWritable for u64 {
    /// The decimal text of the number.
    open spec fn wire(&self) -> Seq<u8> {
        decimal(*self as nat)
    }

    fn write(&self, output: &mut [u8]) -> (r: Result<usize, HayesError>) {
        write_unsigned(*self as u128, output)
    }
}

impl<'at> AtReadable<'at> for u128 {
    /// The number that the leading digits of `input` denote, if it is a
    /// `u128`.
    open spec fn decoded(input: Seq<u8>) -> Result<(u128, nat), HayesError> {
        match unsigned_decoded(input, u128::MAX as nat) {
            Ok((value, consumed)) => Ok((value as u128, consumed)),
            Err(e) => Err(e),
        }
    }

    fn read(input: &'at [u8]) -> (r: Result<(Self, usize), HayesError>)
        ensures
            r matches Ok((_, consumed)) ==> consumed >= 1,
    {
        match read_unsigned(input, u128::MAX as u128) {
            Ok((value, consumed)) => Ok((value as u128, consumed)),
            Err(e) => Err(e),
        }
    }
}

impl AtWritable for u128 {
    /// The decimal text of the number.
    open spec fn wire(&self) -> Seq<u8> {
        decimal(*self as nat)
    }

    fn write(&self, output: &mut [u8]) -> (r: Result<usize, HayesError>) {
        write_unsigned(*self as u128, output)
    }
}

impl<'at> AtReadable<'at> for usize {
    /// The number that the leading digits of `input` denote, if it is a
    /// `usize`.
    open spec fn decoded(input: Seq<u8>) -> Result<(usize, nat), HayesError> {
        match unsigned_decoded(input, usize::MAX as nat) {
            Ok((value, consumed)) => Ok((value as usize, consumed)),
            Err(e) => Err(e),
        }
    }

    fn read(input: &'at [u8]) -> (r: Result<(Self, usize), HayesError>)
        ensures
            r matches Ok((_, consumed)) ==> consumed >= 1,
    {
        match read_unsigned(input, usize::MAX as u128) {
            Ok((value, consumed)) => Ok((value as usize, consumed)),
            Err(e) => Err(e),
        }
    }
}

impl AtWritable for usize {
    /// The decimal text of the number.
    open spec fn wire(&self) -> Seq<u8> {
        decimal(*self as nat)
    }

    fn write(&self, output: &mut [u8]) -> (r: Result<usize, HayesError>) {
        write_unsigned(*self as u128, output)
    }
}

} // verus!
