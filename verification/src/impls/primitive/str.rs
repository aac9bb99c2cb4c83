//! The codec of the strings.
//!
//! A string travels between two `'"'` bytes. There is no escaping, so the
//! first `'"'` behind the opening one ends the string, and a string that
//! holds a `'"'` has no wire form that reads back as it is.

use vstd::prelude::*;
use vstd::string::StringSliceAdditionalSpecFns;
use vstd::utf8::{decode_utf8, encode_utf8_decode_utf8, valid_utf8};
use crate::impls::copy_bytes;
use crate::{AtReadable, AtWritable, HayesError};

verus! {

/// ASCII `'"'`.
pub const QUOTE: u8 = 0x22;

/// `core::str::Utf8Error`, with which std rejects bytes that are not UTF-8.
/// Nothing is known of what it holds: the codec only tells it from success.
#[verifier::external_type_specification]
#[verifier::external_body]
pub struct ExUtf8Error(core::str::Utf8Error);

/// `core::str::from_utf8`, assumed and not proved: the bytes are accepted if
/// and only if they are valid UTF-8, in the sense of vstd's `valid_utf8`, and
/// the string that comes back then consists of just these bytes.
pub assume_specification[ core::str::from_utf8 ](v: &[u8]) -> (r: Result<
    &str,
    core::str::Utf8Error,
>)
    ensures
        r is Ok <==> valid_utf8(v@),
        r matches Ok(s) ==> s.spec_bytes() == v@,
;

/// The index of the first `'"'` in `bytes`, or the length of `bytes` if there
/// is none.
pub open spec fn quote_position(bytes: Seq<u8>) -> nat
    decreases bytes.len(),
{
    if bytes.len() == 0 || bytes[0] == QUOTE {
        0
    } else {
        1 + quote_position(bytes.drop_first())
    }
}

/// The bytes between the quotes of the quoted string that `input` begins
/// with, and the number of bytes up to and including the closing quote.
///
/// Input that does not begin with `'"'` has an invalid format, and so has
/// empty input. Input without a second `'"'` ends unexpectedly. The bytes
/// between the two must be valid UTF-8.
pub open spec fn quoted_content(input: Seq<u8>) -> Result<(Seq<u8>, nat), HayesError> {
    let rest = input.skip(1);
    let end = quote_position(rest);
    let content = rest.take(end as int);
    if input.len() == 0 || input[0] != QUOTE {
        Err(HayesError::InvalidFormat)
    } else if end == rest.len() {
        Err(HayesError::UnexpectedEnd)
    } else if !valid_utf8(content) {
        Err(HayesError::InvalidUtf8)
    } else {
        Ok((content, end + 2))
    }
}

/// The wire form of a string with the bytes `content`.
pub open spec fn quoted(content: Seq<u8>) -> Seq<u8> {
    seq![QUOTE] + content + seq![QUOTE]
}

/// `quote_position` is the one position before which no byte is a `'"'`, and
/// at which there is one or the bytes end.
pub proof fn lemma_quote_position(bytes: Seq<u8>, k: nat)
    requires
        k <= bytes.len(),
        forall|i: int| 0 <= i < k ==> bytes[i] != QUOTE,
        k == bytes.len() || bytes[k as int] == QUOTE,
    ensures
        quote_position(bytes) == k,
    decreases k,
{
    if k > 0 {
        let rest = bytes.drop_first();
        lemma_quote_position(rest, (k - 1) as nat);
    }
}

/// The first `'"'` lies within the bytes or they hold none, and no byte
/// before it is a `'"'`.
pub proof fn lemma_quote_position_bounds(bytes: Seq<u8>)
    ensures
        quote_position(bytes) <= bytes.len(),
        forall|i: int| 0 <= i < quote_position(bytes) ==> #[trigger] bytes[i] != QUOTE,
        quote_position(bytes) == bytes.len() || bytes[quote_position(bytes) as int] == QUOTE,
    decreases bytes.len(),
{
    if bytes.len() != 0 && bytes[0] != QUOTE {
        let rest = bytes.drop_first();
        lemma_quote_position_bounds(rest);
        assert forall|i: int| 0 <= i < quote_position(bytes) implies #[trigger] bytes[i]
            != QUOTE by {
            if i > 0 {
                assert(bytes[i] == rest[i - 1]);
            }
        }
    }
}

impl<'at> AtReadable<'at> for &'at str {
    /// The characters that the bytes between the quotes encode.
    open spec fn decoded(input: Seq<u8>) -> Result<(Seq<char>, nat), HayesError> {
        match quoted_content(input) {
            Ok((content, consumed)) => Ok((decode_utf8(content), consumed)),
            Err(e) => Err(e),
        }
    }

    fn read(input: &'at [u8]) -> (r: Result<(Self, usize), HayesError>)
        ensures
            r matches Ok((s, consumed)) ==> {
                &&& quoted_content(input@) == Ok::<(Seq<u8>, nat), HayesError>(
                    (s.spec_bytes(), consumed as nat),
                )
                &&& consumed >= 2
            },
    {
        // Expect opening quote
        if input.len() == 0 || input[0] != QUOTE {
            return Err(HayesError::InvalidFormat);
        }
        // Find closing quote
        let mut closing: usize = 1;
        while closing < input.len() && input[closing] != QUOTE
            invariant
                1 <= closing <= input@.len(),
                forall|i: int| 1 <= i < closing ==> input@[i] != QUOTE,
            decreases input@.len() - closing,
        {
            closing = closing + 1;
        }
        proof {
            let rest = input@.skip(1);
            lemma_quote_position(rest, (closing - 1) as nat);
        }
        if closing == input.len() {
            return Err(HayesError::UnexpectedEnd);
        }
        // Extract string between quotes
        let str_bytes = &input[1..closing];
        proof {
            assert(str_bytes@ =~= input@.skip(1).take(closing - 1));
        }
        match core::str::from_utf8(str_bytes) {
            Ok(s) => {
                proof {
                    encode_utf8_decode_utf8(s@);
                }
                // Opening quote, string and closing quote are consumed
                Ok((s, closing + 1))
            },
            Err(_) => Err(HayesError::InvalidUtf8),
        }
    }
}

impl AtWritable for &str {
    /// The bytes of the string between two `'"'`.
    open spec fn wire(&self) -> Seq<u8> {
        quoted(self.spec_bytes())
    }

    fn write(&self, output: &mut [u8]) -> (r: Result<usize, HayesError>) {
        let bytes = self.as_bytes();
        let available = output.len();
        // +2 for quotes
        let required = match bytes.len().checked_add(2) {
            Some(required) => required,
            None => {
                return Err(HayesError::InsufficientBuffer { required: usize::MAX, available });
            },
        };
        if available < required {
            return Err(HayesError::InsufficientBuffer { required, available });
        }
        output[0] = QUOTE;
        copy_bytes(output, 1, bytes);
        output[1 + bytes.len()] = QUOTE;
        Ok(required)
    }
}

} // verus!
