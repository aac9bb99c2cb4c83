//! The failures shared by every codec.

use vstd::prelude::*;
use vstd::string::StringExecFns;
use crate::decimal::{
    decimal, decimal_chars, is_digit, lemma_decimal_digits, render, TEXT_CAPACITY,
};

verus! {

/// Error type for AT command parsing and generation.
///
/// No variant carries a partial value: an error means that the operation had
/// no usable effect.
#[derive(Debug, Clone, Copy, PartialEq, Eq, Structural)]
pub enum HayesError {
    /// Buffer does not have sufficient space for the operation
    InsufficientBuffer {
        /// Space required for the operation
        required: usize,
        /// Space available in the buffer
        available: usize,
    },
    /// Failed to parse the input
    ParseError,
    /// Input format is invalid
    InvalidFormat,
    /// Encountered an unsupported error code
    UnsupportedError,
    /// Invalid UTF-8 in string data
    InvalidUtf8,
    /// Unexpected end of input
    UnexpectedEnd,
    /// Modem returned an error
    ModemError,
    /// CME error with code
    CmeError(u16),
    /// CMS error with code
    CmsError(u16),
}

impl HayesError {
    /// The human-readable rendering of the error. Numbers are rendered in
    /// decimal.
    pub open spec fn message(&self) -> Seq<char> {
        match self {
            HayesError::InsufficientBuffer { required, available } => {
                "Insufficient buffer space: required "@ + decimal_chars(*required as nat)
                    + ", available "@ + decimal_chars(*available as nat)
            },
            HayesError::ParseError => "Failed to parse input"@,
            HayesError::InvalidFormat => "Invalid format"@,
            HayesError::UnsupportedError => "Unsupported error code"@,
            HayesError::InvalidUtf8 => "Invalid UTF-8 in string data"@,
            HayesError::UnexpectedEnd => "Unexpected end of input"@,
            HayesError::ModemError => "Modem returned ERROR"@,
            HayesError::CmeError(code) => "CME ERROR: "@ + decimal_chars(*code as nat),
            HayesError::CmsError(code) => "CMS ERROR: "@ + decimal_chars(*code as nat),
        }
    }

    /// Renders the error for a human reader.
    pub fn to_string(&self) -> (text: String)
        ensures
            text@ == self.message(),
    {
        match self {
            HayesError::InsufficientBuffer { required, available } => {
                let mut text = String::from_str("Insufficient buffer space: required ");
                append_decimal(&mut text, *required as u128);
                text.append(", available ");
                append_decimal(&mut text, *available as u128);
                text
            },
            HayesError::ParseError => String::from_str("Failed to parse input"),
            HayesError::InvalidFormat => String::from_str("Invalid format"),
            HayesError::UnsupportedError => String::from_str("Unsupported error code"),
            HayesError::InvalidUtf8 => String::from_str("Invalid UTF-8 in string data"),
            HayesError::UnexpectedEnd => String::from_str("Unexpected end of input"),
            HayesError::ModemError => String::from_str("Modem returned ERROR"),
            HayesError::CmeError(code) => {
                let mut text = String::from_str("CME ERROR: ");
                append_decimal(&mut text, *code as u128);
                text
            },
            HayesError::CmsError(code) => {
                let mut text = String::from_str("CMS ERROR: ");
                append_decimal(&mut text, *code as u128);
                text
            },
        }
    }
}

/// The text of one digit. The digits up to `'8'` are told apart, and `'9'`
/// is the one that is left.
fn digit_text(digit: u8) -> (text: &'static str)
    requires
        is_digit(digit),
    ensures
        text@ == seq![digit as char],
{
    let text = match digit {
        0x30u8 => {
            proof {
                reveal_strlit("0");
            }
            "0"
        },
        0x31u8 => {
            proof {
                reveal_strlit("1");
            }
            "1"
        },
        0x32u8 => {
            proof {
                reveal_strlit("2");
            }
            "2"
        },
        0x33u8 => {
            proof {
                reveal_strlit("3");
            }
            "3"
        },
        0x34u8 => {
            proof {
                reveal_strlit("4");
            }
            "4"
        },
        0x35u8 => {
            proof {
                reveal_strlit("5");
            }
            "5"
        },
        0x36u8 => {
            proof {
                reveal_strlit("6");
            }
            "6"
        },
        0x37u8 => {
            proof {
                reveal_strlit("7");
            }
            "7"
        },
        0x38u8 => {
            proof {
                reveal_strlit("8");
            }
            "8"
        },
        _ => {
            proof {
                reveal_strlit("9");
            }
            "9"
        },
    };
    text
}

/// Appends the decimal text of `value` to `text`.
fn append_decimal(text: &mut String, value: u128)
    ensures
        final(text)@ == old(text)@ + decimal_chars(value as nat),
{
    let mut digits = [0u8; TEXT_CAPACITY];
    let start = render(value, &mut digits);
    let mut i: usize = start;
    proof {
        lemma_decimal_digits(value as nat);
    }
    while i < TEXT_CAPACITY
        invariant
            start <= i <= TEXT_CAPACITY,
            digits@.skip(start as int) == decimal(value as nat),
            forall|k: int| 0 <= k < decimal(value as nat).len() ==> is_digit(
                #[trigger] decimal(value as nat)[k],
            ),
            text@ == old(text)@ + decimal_chars(value as nat).take(i - start),
        decreases TEXT_CAPACITY - i,
    {
        proof {
            assert(digits@[i as int] == digits@.skip(start as int)[i - start]);
        }
        text.append(digit_text(digits[i]));
        i = i + 1;
    }
}

} // verus!
