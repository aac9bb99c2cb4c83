//! What encoding and decoding have to do with each other.
//!
//! The theorems of this module are stated over the spec functions
//! of the two traits, [`AtWritable::wire`] and [`AtReadable::decoded`], which
//! are what the executable `write` and `read` compute.

use vstd::prelude::*;
use vstd::string::StringSliceAdditionalSpecFns;
use vstd::utf8::{
    decode_utf8_encode_utf8, encode_utf8_decode_utf8, encode_utf8_valid_utf8,
};
use crate::decimal::{
    decimal, digit_run, is_digit, lemma_decimal_digits, lemma_decimal_len, lemma_decimal_len_u128,
    lemma_decimal_not_longer, lemma_decimal_value, lemma_digit_run, lemma_digit_run_bounds,
    signed_decimal, signed_width, MINUS,
};
use crate::impls::primitive::sint::signed_decoded;
use crate::impls::primitive::str::{
    lemma_quote_position, lemma_quote_position_bounds, quote_position, quoted, quoted_content,
    QUOTE,
};
use crate::impls::primitive::uint::unsigned_decoded;
use crate::{write_result, AtReadable, AtWritable, HayesError};

verus! {

/// Whether a decoder that has read a number stops in front of `rest`: at the
/// end of the input, or at a byte that is no digit.
pub open spec fn ends_number(rest: Seq<u8>) -> bool {
    rest.len() == 0 || !is_digit(rest[0])
}

/// Decoding the text of an unsigned number gives back the number, and
/// consumes just the text, whatever follows that ends the number. This holds
/// in every width: `max` is the greatest value of the width.
pub proof fn lemma_unsigned_round_trip(n: nat, max: nat, rest: Seq<u8>)
    requires
        n <= max,
        ends_number(rest),
    ensures
        unsigned_decoded(decimal(n) + rest, max) == Ok::<(nat, nat), HayesError>(
            (n, decimal(n).len()),
        ),
{
    let text = decimal(n);
    let input = text + rest;
    lemma_decimal_digits(n);
    lemma_decimal_len(n);
    lemma_decimal_value(n);
    lemma_digit_run(input, text.len());
    assert(input.take(text.len() as int) =~= text);
}

/// Decoding the text of a signed number gives back the number, and consumes
/// just the text, whatever follows that ends the number. This holds in every
/// width, `min` and `max` being the least and the greatest value of the
/// width, and so for the least value too, which has no positive counterpart.
pub proof fn lemma_signed_round_trip(n: int, min: int, max: int, rest: Seq<u8>)
    requires
        min <= n <= max,
        ends_number(rest),
    ensures
        signed_decoded(signed_decimal(n) + rest, min, max) == Ok::<(int, nat), HayesError>(
            (n, signed_decimal(n).len()),
        ),
{
    let size = vstd::math::abs(n);
    let text = decimal(size);
    let input = signed_decimal(n) + rest;
    lemma_decimal_digits(size);
    lemma_decimal_len(size);
    lemma_decimal_value(size);
    let digits = text + rest;
    lemma_digit_run(digits, text.len());
    assert(digits.take(text.len() as int) =~= text);
    if n < 0 {
        assert(input.skip(1) =~= digits);
    }
}

/// The bytes that were consumed for an unsigned number hold all of it: alone
/// they decode to the same number and are consumed whole. So a decoder never
/// takes a byte that belongs to what follows.
pub proof fn lemma_unsigned_consumed_suffices(input: Seq<u8>, max: nat)
    requires
        unsigned_decoded(input, max) is Ok,
    ensures
        ({
            let consumed = unsigned_decoded(input, max)->Ok_0.1;
            &&& consumed <= input.len()
            &&& unsigned_decoded(input.take(consumed as int), max) == unsigned_decoded(input, max)
        }),
{
    lemma_digits_alone(input);
}

/// The bytes that were consumed for a signed number hold all of it: alone
/// they decode to the same number and are consumed whole.
pub proof fn lemma_signed_consumed_suffices(input: Seq<u8>, min: int, max: int)
    requires
        signed_decoded(input, min, max) is Ok,
    ensures
        ({
            let consumed = signed_decoded(input, min, max)->Ok_0.1;
            &&& consumed <= input.len()
            &&& signed_decoded(input.take(consumed as int), min, max) == signed_decoded(
                input,
                min,
                max,
            )
        }),
{
    if input[0] == MINUS {
        let digits = input.skip(1);
        let run = digit_run(digits);
        lemma_digits_alone(digits);
        assert(input.take(run as int + 1).skip(1) =~= digits.take(run as int));
    } else {
        lemma_digits_alone(input);
    }
}

/// A run of digits, cut off where it ends, is a run of the same length.
proof fn lemma_digits_alone(bytes: Seq<u8>)
    ensures
        digit_run(bytes) <= bytes.len(),
        digit_run(bytes.take(digit_run(bytes) as int)) == digit_run(bytes),
        bytes.take(digit_run(bytes) as int).take(digit_run(bytes) as int) == bytes.take(
            digit_run(bytes) as int,
        ),
{
    let run = digit_run(bytes);
    lemma_digit_run_bounds(bytes);
    let alone = bytes.take(run as int);
    lemma_digit_run(alone, run);
}

/// The bytes that were consumed for a string hold all of it: alone they
/// decode to the same string and are consumed whole.
pub proof fn lemma_str_consumed_suffices(input: Seq<u8>)
    requires
        quoted_content(input) is Ok,
    ensures
        ({
            let consumed = quoted_content(input)->Ok_0.1;
            &&& consumed <= input.len()
            &&& quoted_content(input.take(consumed as int)) == quoted_content(input)
            &&& <&str>::decoded(input.take(consumed as int)) == <&str>::decoded(input)
        }),
{
    let rest = input.skip(1);
    let end = quote_position(rest);
    lemma_quote_position_bounds(rest);
    let alone = input.take(end as int + 2);
    assert forall|i: int| 0 <= i < end implies alone.skip(1)[i] != QUOTE by {
        assert(alone.skip(1)[i] == rest[i]);
    }
    lemma_quote_position(alone.skip(1), end);
    assert(alone.skip(1).take(end as int) =~= rest.take(end as int));
}

/// A buffer as long as the wire form is long enough, and a buffer of one
/// byte less is not: the error then tells the length of the wire form as
/// required, and the length of the buffer as available.
pub proof fn lemma_exact_room(wire: Seq<u8>)
    requires
        1 <= wire.len() <= usize::MAX,
    ensures
        write_result(wire, wire.len() as usize) == Ok::<usize, HayesError>(wire.len() as usize),
        write_result(wire, (wire.len() - 1) as usize) == Err::<usize, HayesError>(
            HayesError::InsufficientBuffer {
                required: wire.len() as usize,
                available: (wire.len() - 1) as usize,
            },
        ),
{
}

/// The text of a number of any width needs as many bytes as its digits and
/// its sign count: one byte for zero, `floor(log10(|n|)) + 1` digits
/// otherwise, and one byte more for the sign of a negative number. A buffer
/// of that length is long enough, and a buffer of one byte less is not.
pub proof fn lemma_number_exact_room(n: int)
    requires
        i128::MIN <= n <= u128::MAX,
    ensures
        signed_decimal(n).len() == signed_width(n),
        1 <= signed_width(n) <= 40,
        write_result(signed_decimal(n), signed_width(n) as usize) == Ok::<usize, HayesError>(
            signed_width(n) as usize,
        ),
        write_result(signed_decimal(n), (signed_width(n) - 1) as usize) == Err::<
            usize,
            HayesError,
        >(
            HayesError::InsufficientBuffer {
                required: signed_width(n) as usize,
                available: (signed_width(n) - 1) as usize,
            },
        ),
{
    lemma_decimal_len(vstd::math::abs(n));
    lemma_decimal_len_u128(vstd::math::abs(n));
    lemma_exact_room(signed_decimal(n));
}

/// A number that was decoded from any input, with leading zeros or without,
/// is encoded to a text that decodes to the same number. The text is the
/// canonical one: it need not be the input, and it is no longer than what was
/// consumed of the input.
pub proof fn lemma_unsigned_reencode(input: Seq<u8>, max: nat)
    requires
        unsigned_decoded(input, max) is Ok,
    ensures
        ({
            let value = unsigned_decoded(input, max)->Ok_0.0;
            let consumed = unsigned_decoded(input, max)->Ok_0.1;
            &&& decimal(value).len() <= consumed
            &&& unsigned_decoded(decimal(value), max) == Ok::<(nat, nat), HayesError>(
                (value, decimal(value).len()),
            )
        }),
{
    let value = unsigned_decoded(input, max)->Ok_0.0;
    lemma_unsigned_round_trip(value, max, Seq::empty());
    lemma_digit_run_bounds(input);
    lemma_decimal_not_longer(input.take(digit_run(input) as int));
}

/// A number that was decoded from any input, with leading zeros or without,
/// is encoded to a text that decodes to the same number. The text is the
/// canonical one: it need not be the input, and it is no longer than what was
/// consumed of the input. It is shorter for `-0`, which is written as `0`.
pub proof fn lemma_signed_reencode(input: Seq<u8>, min: int, max: int)
    requires
        signed_decoded(input, min, max) is Ok,
    ensures
        ({
            let value = signed_decoded(input, min, max)->Ok_0.0;
            let consumed = signed_decoded(input, min, max)->Ok_0.1;
            &&& signed_decimal(value).len() <= consumed
            &&& signed_decoded(signed_decimal(value), min, max) == Ok::<(int, nat), HayesError>(
                (value, signed_decimal(value).len()),
            )
        }),
{
    let value = signed_decoded(input, min, max)->Ok_0.0;
    lemma_signed_round_trip(value, min, max, Seq::empty());
    let digits = if input[0] == MINUS {
        input.skip(1)
    } else {
        input
    };
    lemma_digit_run_bounds(digits);
    lemma_decimal_not_longer(digits.take(digit_run(digits) as int));
}

/// Decoding the wire form of a boolean gives back the boolean and consumes
/// its one byte.
pub proof fn lemma_bool_round_trip(value: bool)
    ensures
        bool::decoded(value.wire()) == Ok::<(bool, nat), HayesError>((value, 1)),
        value.wire().len() == 1,
{
}

/// The wire form of a string without a `'"'` decodes to the string, and is
/// consumed whole.
pub proof fn lemma_str_round_trip(value: &str)
    requires
        forall|i: int| 0 <= i < value.spec_bytes().len() ==> value.spec_bytes()[i] != QUOTE,
    ensures
        <&str>::decoded(value.wire()) == Ok::<(Seq<char>, nat), HayesError>(
            (value@, value.wire().len()),
        ),
        value.wire().len() == value.spec_bytes().len() + 2,
{
    let content = value.spec_bytes();
    let input = quoted(content);
    let rest = input.skip(1);
    lemma_quote_position(rest, content.len());
    assert(rest.take(content.len() as int) =~= content);
    encode_utf8_valid_utf8(value@);
    encode_utf8_decode_utf8(value@);
}

/// A string that was decoded is encoded to a wire form that decodes to the
/// same string: between the quotes of the input there was no `'"'`.
pub proof fn lemma_str_reencode(input: Seq<u8>, value: &str, consumed: nat)
    requires
        <&str>::decoded(input) == Ok::<(Seq<char>, nat), HayesError>((value@, consumed)),
    ensures
        <&str>::decoded(value.wire()) == Ok::<(Seq<char>, nat), HayesError>(
            (value@, value.wire().len()),
        ),
{
    let rest = input.skip(1);
    let end = quote_position(rest);
    let content = rest.take(end as int);
    // The bytes of the value are the bytes between the quotes.
    decode_utf8_encode_utf8(content);
    lemma_quote_position_bounds(rest);
    lemma_str_round_trip(value);
}

/// The wire form of an optional field decodes to the field, provided that a
/// value that is present has a wire form of at least one byte that the
/// wrapped codec decodes to the value. An absent field is written as no
/// bytes, and no bytes are read as an absent field.
///
/// A present value without a byte on the wire is beyond this: it reads back
/// as an absent field.
pub proof fn lemma_option_round_trip<'at, T: AtReadable<'at> + AtWritable>(value: Option<T>)
    requires
        value matches Some(inner) ==> inner.wire().len() > 0 && T::decoded(inner.wire()) == Ok::<
            (T::V, nat),
            HayesError,
        >((inner.deep_view(), inner.wire().len())),
    ensures
        Option::<T>::decoded(value.wire()) == Ok::<(Option<T::V>, nat), HayesError>(
            (value.deep_view(), value.wire().len()),
        ),
{
}

/// Every `u8` is decoded from its wire form, which is consumed whole.
pub proof fn lemma_u8_round_trip(value: u8)
    ensures
        u8::decoded(value.wire()) == Ok::<(u8, nat), HayesError>((value, value.wire().len())),
        value.wire().len() > 0,
{
    lemma_unsigned_round_trip(value as nat, u8::MAX as nat, Seq::empty());
}

/// Every `u16` is decoded from its wire form, which is consumed whole.
pub proof fn lemma_u16_round_trip(value: u16)
    ensures
        u16::decoded(value.wire()) == Ok::<(u16, nat), HayesError>((value, value.wire().len())),
        value.wire().len() > 0,
{
    lemma_unsigned_round_trip(value as nat, u16::MAX as nat, Seq::empty());
}

/// Every `u32` is decoded from its wire form, which is consumed whole.
pub proof fn lemma_u32_round_trip(value: u32)
    ensures
        u32::decoded(value.wire()) == Ok::<(u32, nat), HayesError>((value, value.wire().len())),
        value.wire().len() > 0,
{
    lemma_unsigned_round_trip(value as nat, u32::MAX as nat, Seq::empty());
}

/// Every `u64` is decoded from its wire form, which is consumed whole.
pub proof fn lemma_u64_round_trip(value: u64)
    ensures
        u64::decoded(value.wire()) == Ok::<(u64, nat), HayesError>((value, value.wire().len())),
        value.wire().len() > 0,
{
    lemma_unsigned_round_trip(value as nat, u64::MAX as nat, Seq::empty());
}

/// Every `u128` is decoded from its wire form, which is consumed whole.
pub proof fn lemma_u128_round_trip(value: u128)
    ensures
        u128::decoded(value.wire()) == Ok::<(u128, nat), HayesError>((value, value.wire().len())),
        value.wire().len() > 0,
{
    lemma_unsigned_round_trip(value as nat, u128::MAX as nat, Seq::empty());
}

/// Every `usize` is decoded from its wire form, which is consumed whole.
pub proof fn lemma_usize_round_trip(value: usize)
    ensures
        usize::decoded(value.wire()) == Ok::<(usize, nat), HayesError>((value, value.wire().len())),
        value.wire().len() > 0,
{
    lemma_unsigned_round_trip(value as nat, usize::MAX as nat, Seq::empty());
}

/// Every `i8` is decoded from its wire form, which is consumed whole.
pub proof fn lemma_i8_round_trip(value: i8)
    ensures
        i8::decoded(value.wire()) == Ok::<(i8, nat), HayesError>((value, value.wire().len())),
        value.wire().len() > 0,
{
    lemma_signed_round_trip(value as int, i8::MIN as int, i8::MAX as int, Seq::empty());
}

/// Every `i16` is decoded from its wire form, which is consumed whole.
pub proof fn lemma_i16_round_trip(value: i16)
    ensures
        i16::decoded(value.wire()) == Ok::<(i16, nat), HayesError>((value, value.wire().len())),
        value.wire().len() > 0,
{
    lemma_signed_round_trip(value as int, i16::MIN as int, i16::MAX as int, Seq::empty());
}

/// Every `i32` is decoded from its wire form, which is consumed whole.
pub proof fn lemma_i32_round_trip(value: i32)
    ensures
        i32::decoded(value.wire()) == Ok::<(i32, nat), HayesError>((value, value.wire().len())),
        value.wire().len() > 0,
{
    lemma_signed_round_trip(value as int, i32::MIN as int, i32::MAX as int, Seq::empty());
}

/// Every `i64` is decoded from its wire form, which is consumed whole.
pub proof fn lemma_i64_round_trip(value: i64)
    ensures
        i64::decoded(value.wire()) == Ok::<(i64, nat), HayesError>((value, value.wire().len())),
        value.wire().len() > 0,
{
    lemma_signed_round_trip(value as int, i64::MIN as int, i64::MAX as int, Seq::empty());
}

/// Every `i128` is decoded from its wire form, which is consumed whole.
pub proof fn lemma_i128_round_trip(value: i128)
    ensures
        i128::decoded(value.wire()) == Ok::<(i128, nat), HayesError>((value, value.wire().len())),
        value.wire().len() > 0,
{
    lemma_signed_round_trip(value as int, i128::MIN as int, i128::MAX as int, Seq::empty());
}

/// Every `isize` is decoded from its wire form, which is consumed whole.
pub proof fn lemma_isize_round_trip(value: isize)
    ensures
        isize::decoded(value.wire()) == Ok::<(isize, nat), HayesError>((value, value.wire().len())),
        value.wire().len() > 0,
{
    lemma_signed_round_trip(value as int, isize::MIN as int, isize::MAX as int, Seq::empty());
}

/// An optional `u8` that was decoded from any input is written, into a
/// buffer that could hold what was consumed, as a wire form that decodes to
/// the same value and is no longer than what was consumed.
pub proof fn lemma_option_u8_reencode(input: Seq<u8>, capacity: usize)
    requires
        capacity >= Option::<u8>::decoded(input)->Ok_0.1,
    ensures
        ({
            let value = Option::<u8>::decoded(input)->Ok_0.0;
            let consumed = Option::<u8>::decoded(input)->Ok_0.1;
            &&& Option::<u8>::decoded(input) is Ok
            &&& value.wire().len() <= consumed
            &&& write_result(value.wire(), capacity) == Ok::<usize, HayesError>(
                value.wire().len() as usize,
            )
            &&& Option::<u8>::decoded(value.wire()) == Ok::<(Option<u8>, nat), HayesError>(
                (value, value.wire().len()),
            )
        }),
{
    if unsigned_decoded(input, u8::MAX as nat) is Ok {
        lemma_unsigned_reencode(input, u8::MAX as nat);
        lemma_u8_round_trip(Option::<u8>::decoded(input)->Ok_0.0->Some_0);
    }
}

/// An optional `u16` that was decoded from any input is written, into a
/// buffer that could hold what was consumed, as a wire form that decodes to
/// the same value and is no longer than what was consumed.
pub proof fn lemma_option_u16_reencode(input: Seq<u8>, capacity: usize)
    requires
        capacity >= Option::<u16>::decoded(input)->Ok_0.1,
    ensures
        ({
            let value = Option::<u16>::decoded(input)->Ok_0.0;
            let consumed = Option::<u16>::decoded(input)->Ok_0.1;
            &&& Option::<u16>::decoded(input) is Ok
            &&& value.wire().len() <= consumed
            &&& write_result(value.wire(), capacity) == Ok::<usize, HayesError>(
                value.wire().len() as usize,
            )
            &&& Option::<u16>::decoded(value.wire()) == Ok::<(Option<u16>, nat), HayesError>(
                (value, value.wire().len()),
            )
        }),
{
    if unsigned_decoded(input, u16::MAX as nat) is Ok {
        lemma_unsigned_reencode(input, u16::MAX as nat);
        lemma_u16_round_trip(Option::<u16>::decoded(input)->Ok_0.0->Some_0);
    }
}

/// An optional `u32` that was decoded from any input is written, into a
/// buffer that could hold what was consumed, as a wire form that decodes to
/// the same value and is no longer than what was consumed.
pub proof fn lemma_option_u32_reencode(input: Seq<u8>, capacity: usize)
    requires
        capacity >= Option::<u32>::decoded(input)->Ok_0.1,
    ensures
        ({
            let value = Option::<u32>::decoded(input)->Ok_0.0;
            let consumed = Option::<u32>::decoded(input)->Ok_0.1;
            &&& Option::<u32>::decoded(input) is Ok
            &&& value.wire().len() <= consumed
            &&& write_result(value.wire(), capacity) == Ok::<usize, HayesError>(
                value.wire().len() as usize,
            )
            &&& Option::<u32>::decoded(value.wire()) == Ok::<(Option<u32>, nat), HayesError>(
                (value, value.wire().len()),
            )
        }),
{
    if unsigned_decoded(input, u32::MAX as nat) is Ok {
        lemma_unsigned_reencode(input, u32::MAX as nat);
        lemma_u32_round_trip(Option::<u32>::decoded(input)->Ok_0.0->Some_0);
    }
}

/// An optional `u64` that was decoded from any input is written, into a
/// buffer that could hold what was consumed, as a wire form that decodes to
/// the same value and is no longer than what was consumed.
pub proof fn lemma_option_u64_reencode(input: Seq<u8>, capacity: usize)
    requires
        capacity >= Option::<u64>::decoded(input)->Ok_0.1,
    ensures
        ({
            let value = Option::<u64>::decoded(input)->Ok_0.0;
            let consumed = Option::<u64>::decoded(input)->Ok_0.1;
            &&& Option::<u64>::decoded(input) is Ok
            &&& value.wire().len() <= consumed
            &&& write_result(value.wire(), capacity) == Ok::<usize, HayesError>(
                value.wire().len() as usize,
            )
            &&& Option::<u64>::decoded(value.wire()) == Ok::<(Option<u64>, nat), HayesError>(
                (value, value.wire().len()),
            )
        }),
{
    if unsigned_decoded(input, u64::MAX as nat) is Ok {
        lemma_unsigned_reencode(input, u64::MAX as nat);
        lemma_u64_round_trip(Option::<u64>::decoded(input)->Ok_0.0->Some_0);
    }
}

/// An optional `u128` that was decoded from any input is written, into a
/// buffer that could hold what was consumed, as a wire form that decodes to
/// the same value and is no longer than what was consumed.
pub proof fn lemma_option_u128_reencode(input: Seq<u8>, capacity: usize)
    requires
        capacity >= Option::<u128>::decoded(input)->Ok_0.1,
    ensures
        ({
            let value = Option::<u128>::decoded(input)->Ok_0.0;
            let consumed = Option::<u128>::decoded(input)->Ok_0.1;
            &&& Option::<u128>::decoded(input) is Ok
            &&& value.wire().len() <= consumed
            &&& write_result(value.wire(), capacity) == Ok::<usize, HayesError>(
                value.wire().len() as usize,
            )
            &&& Option::<u128>::decoded(value.wire()) == Ok::<(Option<u128>, nat), HayesError>(
                (value, value.wire().len()),
            )
        }),
{
    if unsigned_decoded(input, u128::MAX as nat) is Ok {
        lemma_unsigned_reencode(input, u128::MAX as nat);
        lemma_u128_round_trip(Option::<u128>::decoded(input)->Ok_0.0->Some_0);
    }
}

/// An optional `usize` that was decoded from any input is written, into a
/// buffer that could hold what was consumed, as a wire form that decodes to
/// the same value and is no longer than what was consumed.
pub proof fn lemma_option_usize_reencode(input: Seq<u8>, capacity: usize)
    requires
        capacity >= Option::<usize>::decoded(input)->Ok_0.1,
    ensures
        ({
            let value = Option::<usize>::decoded(input)->Ok_0.0;
            let consumed = Option::<usize>::decoded(input)->Ok_0.1;
            &&& Option::<usize>::decoded(input) is Ok
            &&& value.wire().len() <= consumed
            &&& write_result(value.wire(), capacity) == Ok::<usize, HayesError>(
                value.wire().len() as usize,
            )
            &&& Option::<usize>::decoded(value.wire()) == Ok::<(Option<usize>, nat), HayesError>(
                (value, value.wire().len()),
            )
        }),
{
    if unsigned_decoded(input, usize::MAX as nat) is Ok {
        lemma_unsigned_reencode(input, usize::MAX as nat);
        lemma_usize_round_trip(Option::<usize>::decoded(input)->Ok_0.0->Some_0);
    }
}

/// An optional `i8` that was decoded from any input is written, into a
/// buffer that could hold what was consumed, as a wire form that decodes to
/// the same value and is no longer than what was consumed.
pub proof fn lemma_option_i8_reencode(input: Seq<u8>, capacity: usize)
    requires
        capacity >= Option::<i8>::decoded(input)->Ok_0.1,
    ensures
        ({
            let value = Option::<i8>::decoded(input)->Ok_0.0;
            let consumed = Option::<i8>::decoded(input)->Ok_0.1;
            &&& Option::<i8>::decoded(input) is Ok
            &&& value.wire().len() <= consumed
            &&& write_result(value.wire(), capacity) == Ok::<usize, HayesError>(
                value.wire().len() as usize,
            )
            &&& Option::<i8>::decoded(value.wire()) == Ok::<(Option<i8>, nat), HayesError>(
                (value, value.wire().len()),
            )
        }),
{
    if signed_decoded(input, i8::MIN as int, i8::MAX as int) is Ok {
        lemma_signed_reencode(input, i8::MIN as int, i8::MAX as int);
        lemma_i8_round_trip(Option::<i8>::decoded(input)->Ok_0.0->Some_0);
    }
}

/// An optional `i16` that was decoded from any input is written, into a
/// buffer that could hold what was consumed, as a wire form that decodes to
/// the same value and is no longer than what was consumed.
pub proof fn lemma_option_i16_reencode(input: Seq<u8>, capacity: usize)
    requires
        capacity >= Option::<i16>::decoded(input)->Ok_0.1,
    ensures
        ({
            let value = Option::<i16>::decoded(input)->Ok_0.0;
            let consumed = Option::<i16>::decoded(input)->Ok_0.1;
            &&& Option::<i16>::decoded(input) is Ok
            &&& value.wire().len() <= consumed
            &&& write_result(value.wire(), capacity) == Ok::<usize, HayesError>(
                value.wire().len() as usize,
            )
            &&& Option::<i16>::decoded(value.wire()) == Ok::<(Option<i16>, nat), HayesError>(
                (value, value.wire().len()),
            )
        }),
{
    if signed_decoded(input, i16::MIN as int, i16::MAX as int) is Ok {
        lemma_signed_reencode(input, i16::MIN as int, i16::MAX as int);
        lemma_i16_round_trip(Option::<i16>::decoded(input)->Ok_0.0->Some_0);
    }
}

/// An optional `i32` that was decoded from any input is written, into a
/// buffer that could hold what was consumed, as a wire form that decodes to
/// the same value and is no longer than what was consumed.
pub proof fn lemma_option_i32_reencode(input: Seq<u8>, capacity: usize)
    requires
        capacity >= Option::<i32>::decoded(input)->Ok_0.1,
    ensures
        ({
            let value = Option::<i32>::decoded(input)->Ok_0.0;
            let consumed = Option::<i32>::decoded(input)->Ok_0.1;
            &&& Option::<i32>::decoded(input) is Ok
            &&& value.wire().len() <= consumed
            &&& write_result(value.wire(), capacity) == Ok::<usize, HayesError>(
                value.wire().len() as usize,
            )
            &&& Option::<i32>::decoded(value.wire()) == Ok::<(Option<i32>, nat), HayesError>(
                (value, value.wire().len()),
            )
        }),
{
    if signed_decoded(input, i32::MIN as int, i32::MAX as int) is Ok {
        lemma_signed_reencode(input, i32::MIN as int, i32::MAX as int);
        lemma_i32_round_trip(Option::<i32>::decoded(input)->Ok_0.0->Some_0);
    }
}

/// An optional `i64` that was decoded from any input is written, into a
/// buffer that could hold what was consumed, as a wire form that decodes to
/// the same value and is no longer than what was consumed.
pub proof fn lemma_option_i64_reencode(input: Seq<u8>, capacity: usize)
    requires
        capacity >= Option::<i64>::decoded(input)->Ok_0.1,
    ensures
        ({
            let value = Option::<i64>::decoded(input)->Ok_0.0;
            let consumed = Option::<i64>::decoded(input)->Ok_0.1;
            &&& Option::<i64>::decoded(input) is Ok
            &&& value.wire().len() <= consumed
            &&& write_result(value.wire(), capacity) == Ok::<usize, HayesError>(
                value.wire().len() as usize,
            )
            &&& Option::<i64>::decoded(value.wire()) == Ok::<(Option<i64>, nat), HayesError>(
                (value, value.wire().len()),
            )
        }),
{
    if signed_decoded(input, i64::MIN as int, i64::MAX as int) is Ok {
        lemma_signed_reencode(input, i64::MIN as int, i64::MAX as int);
        lemma_i64_round_trip(Option::<i64>::decoded(input)->Ok_0.0->Some_0);
    }
}

/// An optional `i128` that was decoded from any input is written, into a
/// buffer that could hold what was consumed, as a wire form that decodes to
/// the same value and is no longer than what was consumed.
pub proof fn lemma_option_i128_reencode(input: Seq<u8>, capacity: usize)
    requires
        capacity >= Option::<i128>::decoded(input)->Ok_0.1,
    ensures
        ({
            let value = Option::<i128>::decoded(input)->Ok_0.0;
            let consumed = Option::<i128>::decoded(input)->Ok_0.1;
            &&& Option::<i128>::decoded(input) is Ok
            &&& value.wire().len() <= consumed
            &&& write_result(value.wire(), capacity) == Ok::<usize, HayesError>(
                value.wire().len() as usize,
            )
            &&& Option::<i128>::decoded(value.wire()) == Ok::<(Option<i128>, nat), HayesError>(
                (value, value.wire().len()),
            )
        }),
{
    if signed_decoded(input, i128::MIN as int, i128::MAX as int) is Ok {
        lemma_signed_reencode(input, i128::MIN as int, i128::MAX as int);
        lemma_i128_round_trip(Option::<i128>::decoded(input)->Ok_0.0->Some_0);
    }
}

/// An optional `isize` that was decoded from any input is written, into a
/// buffer that could hold what was consumed, as a wire form that decodes to
/// the same value and is no longer than what was consumed.
pub proof fn lemma_option_isize_reencode(input: Seq<u8>, capacity: usize)
    requires
        capacity >= Option::<isize>::decoded(input)->Ok_0.1,
    ensures
        ({
            let value = Option::<isize>::decoded(input)->Ok_0.0;
            let consumed = Option::<isize>::decoded(input)->Ok_0.1;
            &&& Option::<isize>::decoded(input) is Ok
            &&& value.wire().len() <= consumed
            &&& write_result(value.wire(), capacity) == Ok::<usize, HayesError>(
                value.wire().len() as usize,
            )
            &&& Option::<isize>::decoded(value.wire()) == Ok::<(Option<isize>, nat), HayesError>(
                (value, value.wire().len()),
            )
        }),
{
    if signed_decoded(input, isize::MIN as int, isize::MAX as int) is Ok {
        lemma_signed_reencode(input, isize::MIN as int, isize::MAX as int);
        lemma_isize_round_trip(Option::<isize>::decoded(input)->Ok_0.0->Some_0);
    }
}

} // verus!
