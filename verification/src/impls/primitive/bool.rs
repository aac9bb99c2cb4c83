//! The codec of the booleans.

use vstd::prelude::*;
use crate::{AtReadable, AtWritable, HayesError};

verus! {

impl<'at> AtReadable<'at> for bool {
    /// `false` for a first byte `'0'` and `true` for a first byte `'1'`. One
    /// byte is consumed. Empty input ends unexpectedly, and any other first
    /// byte does not parse.
    open spec fn decoded(input: Seq<u8>) -> Result<(bool, nat), HayesError> {
        if input.len() == 0 {
            Err(HayesError::UnexpectedEnd)
        } else if input[0] == 0x30 {
            Ok((false, 1))
        } else if input[0] == 0x31 {
            Ok((true, 1))
        } else {
            Err(HayesError::ParseError)
        }
    }

    fn read(input: &'at [u8]) -> (r: Result<(Self, usize), HayesError>)
        ensures
            r matches Ok((_, consumed)) ==> consumed == 1,
    {
        if input.len() == 0 {
            return Err(HayesError::UnexpectedEnd);
        }
        match input[0] {
            0x30u8 => Ok((false, 1)),
            0x31u8 => Ok((true, 1)),
            _ => Err(HayesError::ParseError),
        }
    }
}

impl AtWritable for bool {
    /// The one byte `'1'` for `true` and `'0'` for `false`.
    open spec fn wire(&self) -> Seq<u8> {
        if *self {
            seq![0x31u8]
        } else {
            seq![0x30u8]
        }
    }

    fn write(&self, output: &mut [u8]) -> (r: Result<usize, HayesError>) {
        if output.len() == 0 {
            return Err(HayesError::InsufficientBuffer { required: 1, available: 0 });
        }
        output[0] = if *self {
            0x31u8
        } else {
            0x30u8
        };
        Ok(1)
    }
}

} // verus!
