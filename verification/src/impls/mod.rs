//! The codecs of the primitive values, and the bounded writer that the
//! integer codecs format through.

use vstd::prelude::*;
use vstd::string::StringSliceAdditionalSpecFns;

pub mod option;
pub mod primitive;

verus! {

/// The failure of an append: the text does not fit into what is left of the
/// region. The codec that appended says how much room was needed.
#[derive(Debug, Clone, Copy, PartialEq, Eq, Structural)]
pub struct FormatError;

/// The bytes `region` with `bytes` put in the place of those from index `at`
/// on.
pub open spec fn overwritten(region: Seq<u8>, at: int, bytes: Seq<u8>) -> Seq<u8>
    recommends
        0 <= at,
        at + bytes.len() <= region.len(),
{
    region.take(at) + bytes + region.skip(at + bytes.len())
}

/// Copies `source` into `target`, to the bytes from index `at` on. The other
/// bytes of `target` stay as they are.
pub fn copy_bytes(target: &mut [u8], at: usize, source: &[u8])
    requires
        at + source@.len() <= old(target)@.len(),
    ensures
        final(target)@ == overwritten(old(target)@, at as int, source@),
{
    let len = source.len();
    let capacity = target.len();
    let mut i: usize = 0;
    while i < len
        invariant
            len == source@.len(),
            i <= len,
            at + len <= capacity,
            target@.len() == capacity,
            old(target)@.len() == capacity,
            target@ == overwritten(old(target)@, at as int, source@.take(i as int)),
        decreases len - i,
    {
        target[at + i] = source[i];
        i = i + 1;
    }
}

/// Helper struct for writing formatted output to a byte buffer.
///
/// A writer is a cursor over a region that the caller lends for one encode
/// call: the bytes before `pos` are the text appended so far. It only ever
/// advances, and it rejects an append that would overrun the region.
///
/// The contracts speak of the region in two ways: `buffer@` is what it holds
/// now, and `final(buffer)@` what it will hold when the writer is gone, which
/// is what the lender then finds in it. Every method leaves the writer on
/// the region that it was on.
pub struct BufferWriter<'a> {
    /// The region that is written to.
    pub buffer: &'a mut [u8],
    /// The number of bytes appended so far.
    pub pos: usize,
}

impl<'a> BufferWriter<'a> {
    /// The cursor lies within the region.
    pub open spec fn wf(&self) -> bool {
        self.pos <= self.buffer@.len()
    }

    /// Starts a writer at the beginning of `buffer`. What the writer leaves
    /// in its region is what `buffer` holds when the writer is gone.
    pub fn new(buffer: &'a mut [u8]) -> (writer: Self)
        ensures
            writer.wf(),
            writer.pos == 0,
            writer.buffer@ == old(buffer)@,
            final(writer.buffer)@ == final(buffer)@,
    {
        BufferWriter { buffer, pos: 0 }
    }

    /// The number of bytes appended so far.
    pub fn written(&self) -> (count: usize)
        ensures
            count == self.pos,
    {
        self.pos
    }

    /// Appends the bytes of `s` if they fit into the rest of the region, and
    /// changes nothing if they do not.
    pub fn write_str(&mut self, s: &str) -> (r: Result<(), FormatError>)
        requires
            old(self).wf(),
        ensures
            final(self).wf(),
            final(final(self).buffer)@ == final(old(self).buffer)@,
            r is Ok <==> old(self).pos + s.spec_bytes().len() <= old(self).buffer@.len(),
            r is Ok ==> {
                &&& final(self).pos == old(self).pos + s.spec_bytes().len()
                &&& final(self).buffer@ == overwritten(
                    old(self).buffer@,
                    old(self).pos as int,
                    s.spec_bytes(),
                )
            },
            r is Err ==> {
                &&& final(self).pos == old(self).pos
                &&& final(self).buffer@ == old(self).buffer@
            },
    {
        self.write_bytes(s.as_bytes())
    }

    /// Appends `bytes` if they fit into the rest of the region, and changes
    /// nothing if they do not.
    pub fn write_bytes(&mut self, bytes: &[u8]) -> (r: Result<(), FormatError>)
        requires
            old(self).wf(),
        ensures
            final(self).wf(),
            final(final(self).buffer)@ == final(old(self).buffer)@,
            r is Ok <==> old(self).pos + bytes@.len() <= old(self).buffer@.len(),
            r is Ok ==> {
                &&& final(self).pos == old(self).pos + bytes@.len()
                &&& final(self).buffer@ == overwritten(
                    old(self).buffer@,
                    old(self).pos as int,
                    bytes@,
                )
            },
            r is Err ==> {
                &&& final(self).pos == old(self).pos
                &&& final(self).buffer@ == old(self).buffer@
            },
    {
        let len = bytes.len();
        if len > self.buffer.len() - self.pos {
            return Err(FormatError);
        }
        copy_bytes(self.buffer, self.pos, bytes);
        self.pos = self.pos + len;
        Ok(())
    }
}

} // verus!
