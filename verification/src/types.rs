//! Field types and reserved constants of the headermap format.

use vstd::prelude::*;

verus! {

/// Type of the 4-byte magic tag at the start of a headermap file.
pub type MagicType = u32;

/// Type of the 2-byte format version field.
pub type VersionType = u16;

/// Type of the 2-byte reserved field.
pub type ReservedType = u16;

/// Type of a 4-byte offset into the string section.
pub type StringSectionOffsetType = u32;

/// Type of the 4-byte count of strings in the string section.
pub type StringCountType = u32;

/// Type of the 4-byte count of buckets in the bucket array.
pub type BucketCountType = u32;

/// Type of the 4-byte maximum-value-length field.
pub type MaxValueLength = u32;

/// Reserved string offset denoting an empty bucket slot.
pub const STRING_SECTION_OFFSET_RESERVED: StringSectionOffsetType = 0;

/// The single supported format version.
pub const VERSION_1: VersionType = 1;

/// The single supported value of the reserved header field.
pub const RESERVED: ReservedType = 0;

} // verus!
