//! A bounds-checked cursor over a byte buffer.

use vstd::prelude::*;
use crate::utility::DecodablePrimitive;

verus! {

/// A cursor over a byte buffer: a borrowed buffer plus a current offset.
/// The offset advances only when a decode succeeds.
pub struct ByteDecoder<'a> {
    pub bytes: &'a [u8],
    pub offset: usize,
}

impl<'a> ByteDecoder<'a> {
    /// Decodes one fixed-width primitive at the current offset, advancing the
    /// offset past it on success. Returns `None`, leaving the cursor
    /// untouched, when fewer than the primitive's width of bytes remain.
    pub fn advance<T: DecodablePrimitive>(&mut self) -> (decoded: Option<T>)
        ensures
            decoded is Some <==> old(self).offset + T::spec_width() <= old(self).bytes@.len(),
            decoded matches Some(value) ==> value == T::spec_decode(
                old(self).bytes@.skip(old(self).offset as int),
            ),
            final(self).bytes == old(self).bytes,
            final(self).offset == (if old(self).offset + T::spec_width() <= old(
                self,
            ).bytes@.len() {
                old(self).offset + T::spec_width()
            } else {
                old(self).offset as int
            }),
    {
        if self.offset > self.bytes.len() {
            return None;
        }
        let slice = vstd::slice::slice_subrange(self.bytes, self.offset, self.bytes.len());
        proof {
            assert(slice@ =~= self.bytes@.skip(self.offset as int));
        }
        let decoded_value = T::decode_from_bytes(slice);
        if decoded_value.is_some() {
            self.offset = self.offset + T::width();
        }
        decoded_value
    }
}

} // verus!
