//! The codec of an optional field.
//!
//! Decoding is permissive, so that a response may leave fields out: where
//! the wrapped codec rejects the input, for whatever reason, the field is
//! taken to be absent. A malformed value can thus not be told from a missing
//! one. No other codec recovers from an error in this way.

use vstd::prelude::*;
use crate::{AtReadable, AtWritable, HayesError};

verus! {

impl<'at, T: AtReadable<'at>> AtReadable<'at> for Option<T> {
    /// The value of the wrapped codec, where it accepts the input. Where it
    /// rejects the input, and on empty input, the field is absent and no
    /// byte is consumed.
    open spec fn decoded(input: Seq<u8>) -> Result<(Option<T::V>, nat), HayesError> {
        if input.len() == 0 {
            Ok((None, 0))
        } else {
            match T::decoded(input) {
                Ok((value, consumed)) => Ok((Some(value), consumed)),
                Err(_) => Ok((None, 0)),
            }
        }
    }

    fn read(input: &'at [u8]) -> (r: Result<(Self, usize), HayesError>)
        ensures
            r is Ok,
    {
        // If the input is empty, treat as None
        if input.len() == 0 {
            return Ok((None, 0));
        }
        // Try to parse the inner type
        match T::read(input) {
            Ok((value, consumed)) => Ok((Some(value), consumed)),
            // If parsing fails, treat as None with 0 bytes consumed
            // This allows the parser to continue with the next field
            Err(_) => Ok((None, 0)),
        }
    }
}

impl<T: AtWritable> AtWritable for Option<T> {
    /// The wire form of the value that is present, and no bytes for an
    /// absent one. A present value is written as the value alone is, in
    /// result and in buffer; an absent one leaves the buffer as it was.
    open spec fn wire(&self) -> Seq<u8> {
        match self {
            Some(value) => value.wire(),
            None => Seq::empty(),
        }
    }

    fn write(&self, output: &mut [u8]) -> (r: Result<usize, HayesError>) {
        match self {
            Some(value) => value.write(output),
            None => Ok(0),
        }
    }
}

} // verus!
