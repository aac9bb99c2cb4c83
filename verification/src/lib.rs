//! Primitive-value codec for the Hayes (AT) command protocol.
//!
//! Values are converted to and from their ASCII wire form inside fixed-size
//! byte buffers that the caller lends for the duration of one call. Nothing
//! is allocated while encoding or decoding, and no state is kept between
//! calls.
//!
//! Every codec implements the two core traits, [`AtReadable`] and
//! [`AtWritable`]. Each trait carries a spec function that gives
//! the meaning of the executable method:
//!
//! * [`AtReadable::decoded`] maps an input byte sequence to the value and the
//!   number of bytes that stand for it, or to the error that rejects it;
//! * [`AtWritable::wire`] maps a value to its wire form.
//!
//! The module [`round_trip`] relates the two.

use vstd::prelude::*;

pub mod decimal;
pub mod error;
pub mod impls;
pub mod round_trip;

pub use error::HayesError;

verus! {

/// Trait for types that can be read from AT command/response buffers.
///
/// The `'at` lifetime ties the parsed value to the input buffer, enabling
/// zero-copy parsing for borrowed types like `&'at str`.
///
/// A value is described by its deep view: the value itself for booleans and
/// integers, the characters for a string.
pub trait AtReadable<'at>: Sized + DeepView {
    /// The meaning of [`read`](AtReadable::read): the value that the
    /// beginning of `input` stands for, with the number of bytes that stand
    /// for it, or the error that rejects `input`.
    spec fn decoded(input: Seq<u8>) -> Result<(Self::V, nat), HayesError>;

    /// Read a value from the input buffer.
    ///
    /// Returns the parsed value and the number of bytes consumed, which never
    /// exceeds the length of the input, so that the next field can be read
    /// from what follows. The input is rejected with an error if it does not
    /// contain enough data, if its format is invalid, or if the data cannot
    /// be parsed into the target type.
    fn read(input: &'at [u8]) -> (r: Result<(Self, usize), HayesError>)
        ensures
            match r {
                Ok((value, consumed)) => {
                    &&& Self::decoded(input@) == Ok::<(Self::V, nat), HayesError>(
                        (value.deep_view(), consumed as nat),
                    )
                    &&& consumed <= input@.len()
                },
                Err(e) => Self::decoded(input@) == Err::<(Self::V, nat), HayesError>(e),
            },
    ;
}

/// A length as an error reports it: the length itself, or the greatest
/// `usize` for a length beyond it, which no buffer has.
pub open spec fn reported_len(len: nat) -> usize {
    if len <= usize::MAX {
        len as usize
    } else {
        usize::MAX
    }
}

/// What writing the wire form `wire` into a buffer of `capacity` bytes
/// returns: the length of the wire form if the buffer has room for it, and
/// else the error that tells the bytes required and the bytes available.
pub open spec fn write_result(wire: Seq<u8>, capacity: usize) -> Result<usize, HayesError> {
    if wire.len() <= capacity {
        Ok(wire.len() as usize)
    } else {
        Err(
            HayesError::InsufficientBuffer {
                required: reported_len(wire.len()),
                available: capacity,
            },
        )
    }
}

/// Trait for types that can be written to AT command/response buffers.
pub trait AtWritable {
    /// The meaning of [`write`](AtWritable::write): the wire form of the
    /// value.
    spec fn wire(&self) -> Seq<u8>;

    /// Write a value to the output buffer.
    ///
    /// Returns the number of bytes written. The wire form then stands at the
    /// beginning of the buffer, and the bytes behind it are untouched. The
    /// call fails if and only if the buffer is shorter than the wire form.
    /// The buffer is then left as it was, and the error tells the length of
    /// the wire form and of the buffer, so that the caller can try again
    /// with a larger one.
    fn write(&self, output: &mut [u8]) -> (r: Result<usize, HayesError>)
        ensures
            r == write_result(self.wire(), old(output)@.len() as usize),
            final(output)@.len() == old(output)@.len(),
            r is Ok ==> final(output)@ == self.wire() + old(output)@.skip(
                self.wire().len() as int,
            ),
            r is Err ==> final(output)@ == old(output)@,
    ;
}

/// The line that carries `command` to the modem: `AT`, the command, and a
/// carriage return and line feed.
pub open spec fn request_line(command: Seq<u8>) -> Seq<u8> {
    seq![0x41u8, 0x54u8] + command + seq![0x0du8, 0x0au8]
}

/// Trait for AT commands.
///
/// Types implementing this trait represent AT commands that can be sent to a
/// modem.
pub trait AtCommand {
    /// The response type associated with this command
    type Response<'at>: AtResponse<'at>;

    /// The text of the command, without the `AT` in front of it and without
    /// the line end behind it.
    spec fn command(&self) -> Seq<u8>;

    /// Write the command to the output buffer.
    ///
    /// The output will be formatted as `AT<command>\r\n`. The call fails
    /// if and only if the buffer doesn't have sufficient space for that
    /// line.
    fn write(&self, buffer: &mut [u8]) -> (r: Result<usize, HayesError>)
        ensures
            r == write_result(request_line(self.command()), old(buffer)@.len() as usize),
            final(buffer)@.len() == old(buffer)@.len(),
            r is Ok ==> final(buffer)@ == request_line(self.command()) + old(buffer)@.skip(
                request_line(self.command()).len() as int,
            ),
    ;
}

/// Trait for AT responses.
///
/// Types implementing this trait represent responses from a modem.
/// The `'at` lifetime enables zero-copy parsing of response fields.
pub trait AtResponse<'at>: Sized + DeepView {
    /// The meaning of [`read`](AtResponse::read): the response that `buffer`
    /// holds, or the error that it is answered with.
    spec fn decoded(buffer: Seq<u8>) -> Result<Self::V, HayesError>;

    /// Read a response from the input buffer.
    ///
    /// This method handles the full response including status codes like
    /// `OK`, `ERROR`, `+CME ERROR: <code>`, and `+CMS ERROR: <code>`. It
    /// returns an error if the buffer doesn't contain a complete response,
    /// if the response format is invalid, or if the modem returned an error.
    fn read(buffer: &'at [u8]) -> (r: Result<Self, HayesError>)
        ensures
            match r {
                Ok(response) => Self::decoded(buffer@) == Ok::<Self::V, HayesError>(
                    response.deep_view(),
                ),
                Err(e) => Self::decoded(buffer@) == Err::<Self::V, HayesError>(e),
            },
    ;
}

} // verus!
