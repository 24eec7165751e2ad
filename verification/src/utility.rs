//! Traits for fixed-width binary decoding: packed sizes, byte swapping, and
//! bounds-checked extraction of unsigned integers from a byte buffer.
//!
//! Integers are reinterpreted from consecutive bytes in little-endian order,
//! the byte order of the machines this reader targets; files written in the
//! opposite order are recognized by their swapped magic tag and every field
//! is byte-swapped after decoding.

use vstd::prelude::*;

verus! {

/// Trait for composite types which can be serialized without padding.
pub trait Packable {
    /// The packed size of the type (i.e., without any padding), as a
    /// specification-level value.
    spec fn spec_packed_size() -> usize;

    /// Returns the packed size of the type (i.e., without any padding).
    fn packed_size() -> (size: usize)
        ensures
            size == Self::spec_packed_size(),
    ;
}

/// Convenience trait for types which can be byte swapped.
pub trait ByteSwappable: Copy + Sized {
    /// The value with the order of its bytes reversed.
    spec fn spec_swap_bytes(self) -> Self;

    /// Swaps `self` if `swapped` is true, otherwise returns `self`.
    fn swap_bytes_if(self, swapped: bool) -> (result: Self)
        ensures
            result == (if swapped {
                self.spec_swap_bytes()
            } else {
                self
            }),
    ;
}

impl ByteSwappable for u16 {
    open spec fn spec_swap_bytes(self) -> u16 {
        ((self % 256) * 256 + self / 256) as u16
    }

    fn swap_bytes_if(self, swapped: bool) -> (result: u16) {
        if swapped {
            (self % 256) * 256 + self / 256
        } else {
            self
        }
    }
}

impl ByteSwappable for u32 {
    open spec fn spec_swap_bytes(self) -> u32 {
        ((self % 256) * 0x100_0000 + (self / 256 % 256) * 0x1_0000 + (self / 0x1_0000 % 256) * 256
            + self / 0x100_0000) as u32
    }

    fn swap_bytes_if(self, swapped: bool) -> (result: u32) {
        if swapped {
            (self % 256) * 0x100_0000 + (self / 256 % 256) * 0x1_0000 + (self / 0x1_0000 % 256)
                * 256 + self / 0x100_0000
        } else {
            self
        }
    }
}

/// Trait for primitive types which can be decoded from raw bytes.
pub trait DecodablePrimitive: Sized {
    /// Number of bytes consumed by one value.
    spec fn spec_width() -> usize;

    /// The value encoded by the first `spec_width` bytes of `bytes`,
    /// little-endian.
    spec fn spec_decode(bytes: Seq<u8>) -> Self
        recommends
            bytes.len() >= Self::spec_width(),
    ;

    /// Returns the number of bytes consumed by one value.
    fn width() -> (w: usize)
        ensures
            w == Self::spec_width(),
    ;

    /// Decodes without performing any endian adjustments (i.e., reinterprets
    /// bytes). Returns `None` when fewer than `spec_width` bytes are present.
    fn decode_from_bytes(bytes: &[u8]) -> (decoded: Option<Self>)
        ensures
            decoded is Some <==> bytes@.len() >= Self::spec_width(),
            decoded matches Some(value) ==> value == Self::spec_decode(bytes@),
    ;
}

impl DecodablePrimitive for u16 {
    open spec fn spec_width() -> usize {
        2
    }

    open spec fn spec_decode(bytes: Seq<u8>) -> u16 {
        (bytes[0] + bytes[1] * 256) as u16
    }

    fn width() -> (w: usize) {
        2
    }

    fn decode_from_bytes(bytes: &[u8]) -> (decoded: Option<u16>) {
        if bytes.len() >= 2 {
            Some(bytes[0] as u16 + bytes[1] as u16 * 256)
        } else {
            None
        }
    }
}

impl DecodablePrimitive for u32 {
    open spec fn spec_width() -> usize {
        4
    }

    open spec fn spec_decode(bytes: Seq<u8>) -> u32 {
        (bytes[0] + bytes[1] * 256 + bytes[2] * 0x1_0000 + bytes[3] * 0x100_0000) as u32
    }

    fn width() -> (w: usize) {
        4
    }

    fn decode_from_bytes(bytes: &[u8]) -> (decoded: Option<u32>) {
        if bytes.len() >= 4 {
            Some(
                bytes[0] as u32 + bytes[1] as u32 * 256 + bytes[2] as u32 * 0x1_0000
                    + bytes[3] as u32 * 0x100_0000,
            )
        } else {
            None
        }
    }
}

} // verus!
