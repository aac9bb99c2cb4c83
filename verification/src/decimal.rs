//! Decimal notation: the text of a number and the number of a text.
//!
//! The integer codecs of every width share the definitions and routines of
//! this module. Texts are sequences of ASCII bytes, most significant digit
//! first.

use vstd::prelude::*;
use vstd::arithmetic::logarithm::{lemma_log0, lemma_log_nonnegative, lemma_log_s, log};
use vstd::arithmetic::power::{lemma_pow_increases, pow};

verus! {

/// ASCII `'0'`.
pub const ZERO: u8 = 0x30;

/// ASCII `'9'`.
pub const NINE: u8 = 0x39;

/// ASCII `'-'`.
pub const MINUS: u8 = 0x2d;

/// Room for the longest text of a 128-bit number: a sign and 39 digits.
pub const TEXT_CAPACITY: usize = 40;

/// Whether `byte` is an ASCII decimal digit.
pub open spec fn is_digit(byte: u8) -> bool {
    ZERO <= byte <= NINE
}

/// The canonical decimal text of `n`: no leading zeros, and `"0"` for zero.
pub open spec fn decimal(n: nat) -> Seq<u8>
    decreases n,
{
    if n < 10 {
        seq![(ZERO + n) as u8]
    } else {
        decimal(n / 10).push((ZERO + n % 10) as u8)
    }
}

/// The canonical decimal text of `n`, with a leading `'-'` if `n` is negative.
pub open spec fn signed_decimal(n: int) -> Seq<u8> {
    if n < 0 {
        seq![MINUS] + decimal((-n) as nat)
    } else {
        decimal(n as nat)
    }
}

/// The canonical decimal text of `n` as characters.
pub open spec fn decimal_chars(n: nat) -> Seq<char> {
    decimal(n).map_values(|byte: u8| byte as char)
}

/// The number of digits of `n`: one for zero, else `floor(log10(n)) + 1`.
pub open spec fn decimal_width(n: nat) -> nat {
    if n == 0 {
        1
    } else {
        (log(10, n as int) + 1) as nat
    }
}

/// The number of bytes of the text of `n`: its digits, and one more for the
/// sign of a negative number.
pub open spec fn signed_width(n: int) -> nat {
    if n < 0 {
        1 + decimal_width((-n) as nat)
    } else {
        decimal_width(n as nat)
    }
}

/// The number that the digits `text` denote, leading zeros allowed. The
/// empty text denotes zero.
pub open spec fn digits_value(text: Seq<u8>) -> nat
    recommends
        forall|i: int| 0 <= i < text.len() ==> is_digit(text[i]),
    decreases text.len(),
{
    if text.len() == 0 {
        0
    } else {
        digits_value(text.drop_last()) * 10 + (text.last() - ZERO) as nat
    }
}

/// The length of the longest prefix of `bytes` that consists of digits.
pub open spec fn digit_run(bytes: Seq<u8>) -> nat
    decreases bytes.len(),
{
    if bytes.len() == 0 || !is_digit(bytes[0]) {
        0
    } else {
        1 + digit_run(bytes.drop_first())
    }
}

/// The text of a number is as long as its count of digits says.
pub proof fn lemma_decimal_len(n: nat)
    ensures
        decimal(n).len() == decimal_width(n),
        decimal(n).len() >= 1,
    decreases n,
{
    if n < 10 {
        lemma_log0(10, n as int);
    } else {
        lemma_decimal_len(n / 10);
        lemma_log_s(10, n as int);
        lemma_log_nonnegative(10, (n / 10) as int);
    }
}

/// The text of a number consists of digits only.
pub proof fn lemma_decimal_digits(n: nat)
    ensures
        forall|i: int| 0 <= i < decimal(n).len() ==> is_digit(#[trigger] decimal(n)[i]),
    decreases n,
{
    if n >= 10 {
        lemma_decimal_digits(n / 10);
        assert forall|i: int| 0 <= i < decimal(n).len() implies is_digit(
            #[trigger] decimal(n)[i],
        ) by {
            if i < decimal(n / 10).len() {
                assert(decimal(n)[i] == decimal(n / 10)[i]);
            }
        }
    }
}

/// The text of a number has no leading zero, unless the number is zero.
pub proof fn lemma_decimal_leading_digit(n: nat)
    ensures
        n > 0 ==> decimal(n)[0] != ZERO,
        n == 0 ==> decimal(n) == seq![ZERO],
    decreases n,
{
    if n >= 10 {
        lemma_decimal_leading_digit(n / 10);
        lemma_decimal_len(n / 10);
    }
}

/// The text of a number denotes that number.
pub proof fn lemma_decimal_value(n: nat)
    ensures
        digits_value(decimal(n)) == n,
    decreases n,
{
    if n < 10 {
        assert(digits_value(decimal(n).drop_last()) == 0);
    } else {
        lemma_decimal_value(n / 10);
        assert(decimal(n).drop_last() =~= decimal(n / 10));
    }
}

/// The text of the number that digits denote is no longer than the digits:
/// it is the digits without their leading zeros.
pub proof fn lemma_decimal_not_longer(text: Seq<u8>)
    requires
        text.len() >= 1,
        forall|i: int| 0 <= i < text.len() ==> is_digit(text[i]),
    ensures
        decimal(digits_value(text)).len() <= text.len(),
    decreases text.len(),
{
    let front = text.drop_last();
    if text.len() == 1 {
        assert(digits_value(front) == 0);
    } else {
        assert forall|i: int| 0 <= i < front.len() implies is_digit(front[i]) by {
            assert(front[i] == text[i]);
        }
        lemma_decimal_not_longer(front);
        assert(is_digit(text.last()));
        assert(digits_value(text) / 10 == digits_value(front));
    }
}

/// `digit_run` is the one position that ends a run of digits.
pub proof fn lemma_digit_run(bytes: Seq<u8>, k: nat)
    requires
        k <= bytes.len(),
        forall|i: int| 0 <= i < k ==> is_digit(bytes[i]),
        k == bytes.len() || !is_digit(bytes[k as int]),
    ensures
        digit_run(bytes) == k,
    decreases k,
{
    if k > 0 {
        let rest = bytes.drop_first();
        assert forall|i: int| 0 <= i < k - 1 implies is_digit(rest[i]) by {
            assert(rest[i] == bytes[i + 1]);
        }
        lemma_digit_run(rest, (k - 1) as nat);
    }
}

/// A run of digits lies within the bytes, holds digits only, and ends at
/// the end of the bytes or before a byte that is no digit.
pub proof fn lemma_digit_run_bounds(bytes: Seq<u8>)
    ensures
        digit_run(bytes) <= bytes.len(),
        forall|i: int| 0 <= i < digit_run(bytes) ==> is_digit(#[trigger] bytes[i]),
        digit_run(bytes) == bytes.len() || !is_digit(bytes[digit_run(bytes) as int]),
    decreases bytes.len(),
{
    if bytes.len() != 0 && is_digit(bytes[0]) {
        let rest = bytes.drop_first();
        lemma_digit_run_bounds(rest);
        assert forall|i: int| 0 <= i < digit_run(bytes) implies is_digit(#[trigger] bytes[i]) by {
            if i > 0 {
                assert(bytes[i] == rest[i - 1]);
            }
        }
        if digit_run(bytes) != bytes.len() {
            assert(bytes[digit_run(bytes) as int] == rest[digit_run(rest) as int]);
        }
    }
}

/// Reading one more digit multiplies the number by ten and adds the digit.
pub proof fn lemma_digits_value_step(text: Seq<u8>, i: int)
    requires
        0 <= i < text.len(),
    ensures
        digits_value(text.take(i + 1)) == digits_value(text.take(i)) * 10 + (text[i] - ZERO) as nat,
{
    assert(text.take(i + 1).drop_last() =~= text.take(i));
}

/// The number that a prefix of digits denotes does not exceed the number
/// that a longer prefix denotes.
pub proof fn lemma_digits_value_grows(text: Seq<u8>, i: int, j: int)
    requires
        0 <= i <= j <= text.len(),
        forall|k: int| 0 <= k < j ==> is_digit(text[k]),
    ensures
        digits_value(text.take(i)) <= digits_value(text.take(j)),
    decreases j - i,
{
    if i < j {
        lemma_digits_value_grows(text, i, j - 1);
        lemma_digits_value_step(text, j - 1);
    }
}

/// Where digits have been read up to a further digit, the run of digits
/// reaches beyond that digit, and denotes no less than the digits up to and
/// including it.
pub proof fn lemma_digit_run_reaches(bytes: Seq<u8>, i: int)
    requires
        0 <= i < bytes.len(),
        forall|k: int| 0 <= k <= i ==> is_digit(bytes[k]),
    ensures
        digit_run(bytes) > i,
        digits_value(bytes.take(i + 1)) <= digits_value(bytes.take(digit_run(bytes) as int)),
{
    let run = digit_run(bytes);
    lemma_digit_run_bounds(bytes);
    if run <= i {
        assert(is_digit(bytes[run as int]));
    }
    lemma_digits_value_grows(bytes, i + 1, run as int);
}

/// A number of `k` digits lies below the `k`-th power of ten and, unless it
/// is zero, not below the `k - 1`-th.
pub proof fn lemma_decimal_len_bounds(n: nat)
    ensures
        n < pow(10, decimal(n).len()),
        n > 0 ==> pow(10, (decimal(n).len() - 1) as nat) <= n,
    decreases n,
{
    reveal(pow);
    if n < 10 {
        assert(pow(10, 1) == 10 * pow(10, 0));
    } else {
        lemma_decimal_len_bounds(n / 10);
        lemma_decimal_len(n / 10);
    }
}

/// No 128-bit number has more than 39 digits.
pub proof fn lemma_decimal_len_u128(n: nat)
    requires
        n <= u128::MAX,
    ensures
        1 <= decimal(n).len() <= 39,
{
    lemma_decimal_len(n);
    lemma_decimal_len_bounds(n);
    if decimal(n).len() > 39 {
        assert(pow(10, 39) == 1_000_000_000_000_000_000_000_000_000_000_000_000_000int) by {
            reveal_with_fuel(pow, 40);
        }
        lemma_pow_increases(10, 39, (decimal(n).len() - 1) as nat);
    }
}

/// Whether `byte` is an ASCII decimal digit.
pub fn is_digit_byte(byte: u8) -> (r: bool)
    ensures
        r == is_digit(byte),
{
    ZERO <= byte && byte <= NINE
}

/// The absolute value of `value`, which fits the unsigned type of the same
/// width even for the least value.
pub fn magnitude(value: i128) -> (r: u128)
    ensures
        value >= 0 ==> r == value,
        value < 0 ==> r == -value,
{
    if value >= 0 {
        value as u128
    } else {
        (-(value + 1)) as u128 + 1
    }
}

/// Counts the digits of `value` by repeated division.
pub fn digit_count(value: u128) -> (r: usize)
    ensures
        r == decimal_width(value as nat),
        r == decimal(value as nat).len(),
        1 <= r <= 39,
{
    let mut count: usize = 1;
    let mut rest: u128 = value;
    proof {
        lemma_decimal_len(value as nat);
        lemma_decimal_len_u128(value as nat);
    }
    while rest >= 10
        invariant
            count >= 1,
            count + decimal(rest as nat).len() == decimal(value as nat).len() + 1,
            decimal(value as nat).len() <= 39,
        decreases rest,
    {
        proof {
            lemma_decimal_len(rest as nat / 10);
        }
        rest = rest / 10;
        count = count + 1;
    }
    count
}

/// Writes the text of `value` into the end of `text` and returns the index
/// at which it begins. The bytes before that index are left as they were,
/// and at least one of them remains, so that a sign can be put in front.
pub fn render(value: u128, text: &mut [u8; TEXT_CAPACITY]) -> (start: usize)
    ensures
        1 <= start < TEXT_CAPACITY,
        final(text)@.skip(start as int) == decimal(value as nat),
        final(text)@.take(start as int) == old(text)@.take(start as int),
{
    let mut i: usize = TEXT_CAPACITY;
    let mut rest: u128 = value;
    proof {
        lemma_decimal_len_u128(value as nat);
    }
    loop
        invariant_except_break
            1 <= i <= TEXT_CAPACITY,
            decimal(value as nat) == decimal(rest as nat) + text@.skip(i as int),
        invariant
            decimal(value as nat).len() <= 39,
            forall|j: int| 0 <= j < i ==> text@[j] == old(text)@[j],
        ensures
            1 <= i < TEXT_CAPACITY,
            text@.skip(i as int) == decimal(value as nat),
        decreases rest,
    {
        proof {
            lemma_decimal_len(rest as nat);
        }
        i = i - 1;
        text[i] = ZERO + (rest % 10) as u8;
        if rest < 10 {
            break;
        }
        rest = rest / 10;
    }
    i
}

} // verus!
