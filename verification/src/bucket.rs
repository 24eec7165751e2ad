//! Buckets of the open-addressed array that follows the header, and the
//! string resolver that turns their offsets into borrowed string slices.

use vstd::prelude::*;
use vstd::string::StringSliceAdditionalSpecFns;
use vstd::utf8::valid_utf8;
use crate::byte_decoder::ByteDecoder;
use crate::entry::Entry;
use crate::header::spec_adjust_u32;
use crate::header::spec_u32_at;
use crate::header::DataHeader;
use crate::types::BucketCountType;
use crate::types::StringSectionOffsetType;
use crate::types::STRING_SECTION_OFFSET_RESERVED;
use crate::utility::ByteSwappable;
use crate::utility::Packable;

verus! {

/// A bucket represents three offsets into the headermap file, each offset
/// pointing to the beginning of a NUL-terminated UTF-8 string.
///
/// Offsets are relative to the string section offset defined in the
/// headermap data header.
#[derive(Debug, Clone, Copy, PartialEq, Eq, Structural)]
pub struct Bucket {
    pub key_offset: StringSectionOffsetType,
    pub prefix_offset: StringSectionOffsetType,
    pub suffix_offset: StringSectionOffsetType,
}

impl Packable for Bucket {
    open spec fn spec_packed_size() -> usize {
        12
    }

    fn packed_size() -> (size: usize) {
        12
    }
}

/// One value for each way bucket parsing or string resolution can fail.
/// Each carries the bucket index or the absolute byte offset of the
/// malformed region.
#[derive(Debug, Clone, Copy, PartialEq, Eq, Structural)]
pub enum BucketParseError {
    /// A string offset field of the bucket at this index could not be read.
    OffsetParseError(BucketCountType),
    /// The string at this absolute offset would overlap the preamble
    /// (header plus one bucket slot).
    InvalidStringOffsetOverlapsPreambleSection(u64),
    /// This absolute offset lies past the end of the buffer.
    InvalidStringOffsetOutOfBounds(u64),
    /// No NUL byte follows this absolute offset before the buffer end.
    NoStringNullTerminatingByteFound(u64),
    /// The bytes from this absolute offset up to the NUL are not UTF-8.
    InvalidUtf8String(u64),
}

/// Size of the region no string may overlap: the header plus one bucket
/// slot.
pub open spec fn spec_preamble_size() -> int {
    DataHeader::spec_packed_size() + Bucket::spec_packed_size()
}

/// Position of the first NUL byte at or after `pos`, if any.
pub open spec fn spec_find_nul(bytes: Seq<u8>, pos: int) -> Option<int>
    decreases bytes.len() - pos,
{
    if pos < 0 || pos >= bytes.len() {
        None
    } else if bytes[pos] == 0 {
        Some(pos)
    } else {
        spec_find_nul(bytes, pos + 1)
    }
}

/// The bytes of the NUL-terminated string found at `relative` (an offset
/// into the string section), or the first resolution error: preamble
/// overlap, then out of bounds, then missing NUL, then invalid UTF-8.
pub open spec fn spec_string_at(bytes: Seq<u8>, header: DataHeader, relative: u32) -> Result<
    Seq<u8>,
    BucketParseError,
> {
    let absolute = header.string_section_offset + relative;
    if absolute < spec_preamble_size() {
        Err(BucketParseError::InvalidStringOffsetOverlapsPreambleSection(absolute as u64))
    } else if absolute > bytes.len() {
        Err(BucketParseError::InvalidStringOffsetOutOfBounds(absolute as u64))
    } else {
        match spec_find_nul(bytes, absolute) {
            None => Err(BucketParseError::NoStringNullTerminatingByteFound(absolute as u64)),
            Some(nul_position) => {
                let string_bytes = bytes.subrange(absolute, nul_position);
                if valid_utf8(string_bytes) {
                    Ok(string_bytes)
                } else {
                    Err(BucketParseError::InvalidUtf8String(absolute as u64))
                }
            },
        }
    }
}

/// The bucket stored at `bucket_index`: `Ok(None)` when any of its three
/// offset fields is the reserved sentinel, an error when the bucket record
/// is not fully inside the buffer.
pub open spec fn spec_bucket_at(bytes: Seq<u8>, bucket_index: BucketCountType, swap: bool) -> Result<
    Option<Bucket>,
    BucketParseError,
> {
    let offset = DataHeader::spec_packed_size() + bucket_index * Bucket::spec_packed_size();
    if bytes.len() < offset + 12 {
        Err(BucketParseError::OffsetParseError(bucket_index))
    } else {
        let key_offset = spec_adjust_u32(spec_u32_at(bytes, offset), swap);
        let prefix_offset = spec_adjust_u32(spec_u32_at(bytes, offset + 4), swap);
        let suffix_offset = spec_adjust_u32(spec_u32_at(bytes, offset + 8), swap);
        if key_offset == STRING_SECTION_OFFSET_RESERVED || prefix_offset
            == STRING_SECTION_OFFSET_RESERVED || suffix_offset == STRING_SECTION_OFFSET_RESERVED {
            Ok(None)
        } else {
            Ok(Some(Bucket { key_offset, prefix_offset, suffix_offset }))
        }
    }
}

/// The entry produced by the bucket at `bucket_index`, as the byte triple
/// (key, prefix, suffix): `Ok(None)` for an empty slot, the first error of
/// bucket decoding or string resolution otherwise.
pub open spec fn spec_entry_at(
    bytes: Seq<u8>,
    header: DataHeader,
    bucket_index: BucketCountType,
    swap: bool,
) -> Result<Option<(Seq<u8>, Seq<u8>, Seq<u8>)>, BucketParseError> {
    match spec_bucket_at(bytes, bucket_index, swap) {
        Err(e) => Err(e),
        Ok(None) => Ok(None),
        Ok(Some(bucket)) => match spec_string_at(bytes, header, bucket.key_offset) {
            Err(e) => Err(e),
            Ok(key) => match spec_string_at(bytes, header, bucket.prefix_offset) {
                Err(e) => Err(e),
                Ok(prefix) => match spec_string_at(bytes, header, bucket.suffix_offset) {
                    Err(e) => Err(e),
                    Ok(suffix) => Ok(Some((key, prefix, suffix))),
                },
            },
        },
    }
}

/// Relies on `core::str::from_utf8`: it returns `Ok` exactly when the byte
/// slice is valid UTF-8, and the returned string slice is backed by exactly
/// those bytes.
#[verifier::external_body]
fn utf8_from_bytes<'a>(bytes: &'a [u8]) -> (result: Option<&'a str>)
    ensures
        result is Some <==> valid_utf8(bytes@),
        result matches Some(s) ==> s.spec_bytes() == bytes@,
{
    std::str::from_utf8(bytes).ok()
}

/// Tries to find a NUL-terminated string at a particular string offset.
///
/// On success the returned slice spans exactly the bytes between the
/// resolved absolute offset and the first NUL after it; on failure the
/// error is the first resolution error in validation order.
pub fn get_string_slice_at_offset<'a>(
    bytes: &'a [u8],
    data_header: &DataHeader,
    relative_string_start_offset: StringSectionOffsetType,
) -> (result: Result<&'a str, BucketParseError>)
    ensures
        ({
            let spec_result = spec_string_at(bytes@, *data_header, relative_string_start_offset);
            match result {
                Ok(s) => spec_result == Ok::<Seq<u8>, BucketParseError>(s.spec_bytes()),
                Err(e) => spec_result == Err::<Seq<u8>, BucketParseError>(e),
            }
        }),
{
    let absolute_string_start_offset: u64 = data_header.string_section_offset as u64
        + relative_string_start_offset as u64;
    let headermap_preamble_size: u64 = (DataHeader::packed_size() + Bucket::packed_size()) as u64;

    if absolute_string_start_offset < headermap_preamble_size {
        return Err(
            BucketParseError::InvalidStringOffsetOverlapsPreambleSection(
                absolute_string_start_offset,
            ),
        );
    }
    if absolute_string_start_offset > bytes.len() as u64 {
        return Err(BucketParseError::InvalidStringOffsetOutOfBounds(absolute_string_start_offset));
    }
    let start: usize = absolute_string_start_offset as usize;

    let mut position: usize = start;
    while position < bytes.len() && *vstd::slice::slice_index_get(bytes, position) != 0
        invariant
            start <= position <= bytes@.len(),
            position <= bytes@.len(),
            spec_find_nul(bytes@, start as int) == spec_find_nul(bytes@, position as int),
        decreases bytes@.len() - position,
    {
        position = position + 1;
    }

    if position == bytes.len() {
        return Err(
            BucketParseError::NoStringNullTerminatingByteFound(absolute_string_start_offset),
        );
    }

    let string_bytes = vstd::slice::slice_subrange(bytes, start, position);
    match utf8_from_bytes(string_bytes) {
        Some(s) => Ok(s),
        None => Err(BucketParseError::InvalidUtf8String(absolute_string_start_offset)),
    }
}

/// Parses a `StringSectionOffsetType` at the decoder's position, for the
/// bucket at `bucket_index`. If it encounters the reserved offset (meaning
/// empty), it returns `Ok(None)`; if the field's bytes are unavailable, the
/// error carries `bucket_index` and the decoder is left untouched.
pub fn parse_string_section_offset(
    decoder: &mut ByteDecoder,
    bucket_index: BucketCountType,
    swap_bytes: bool,
) -> (result: Result<Option<StringSectionOffsetType>, BucketParseError>)
    ensures
        final(decoder).bytes == old(decoder).bytes,
        match result {
            Ok(parsed_offset) => {
                &&& old(decoder).offset + 4 <= old(decoder).bytes@.len()
                &&& final(decoder).offset == old(decoder).offset + 4
                &&& parsed_offset == ({
                    let value = spec_adjust_u32(
                        spec_u32_at(old(decoder).bytes@, old(decoder).offset as int),
                        swap_bytes,
                    );
                    if value == STRING_SECTION_OFFSET_RESERVED {
                        Option::<StringSectionOffsetType>::None
                    } else {
                        Some(value)
                    }
                })
            },
            Err(e) => {
                &&& old(decoder).bytes@.len() < old(decoder).offset + 4
                &&& e == BucketParseError::OffsetParseError(bucket_index)
                &&& final(decoder).offset == old(decoder).offset
            },
        },
{
    let offset: StringSectionOffsetType = match decoder.advance::<StringSectionOffsetType>() {
        Some(value) => value.swap_bytes_if(swap_bytes),
        None => {
            return Err(BucketParseError::OffsetParseError(bucket_index));
        },
    };

    if offset == STRING_SECTION_OFFSET_RESERVED {
        Ok(None)
    } else {
        Ok(Some(offset))
    }
}

impl Bucket {
    /// Returns a `Bucket` if all offsets contain values.
    pub fn try_new(
        maybe_key_offset: Option<StringSectionOffsetType>,
        maybe_prefix_offset: Option<StringSectionOffsetType>,
        maybe_suffix_offset: Option<StringSectionOffsetType>,
    ) -> (result: Option<Bucket>)
        ensures
            result == (match (maybe_key_offset, maybe_prefix_offset, maybe_suffix_offset) {
                (Some(key_offset), Some(prefix_offset), Some(suffix_offset)) => Some(
                    Bucket { key_offset, prefix_offset, suffix_offset },
                ),
                _ => None,
            }),
    {
        match (maybe_key_offset, maybe_prefix_offset, maybe_suffix_offset) {
            (Some(key_offset), Some(prefix_offset), Some(suffix_offset)) => Some(
                Bucket { key_offset, prefix_offset, suffix_offset },
            ),
            _ => None,
        }
    }

    /// Parses the string offsets for a particular `bucket_index` and returns
    /// a `Bucket` if all offsets contain non-reserved values.
    pub fn new_at_index(
        bytes: &[u8],
        bucket_index: BucketCountType,
        swap_bytes: bool,
    ) -> (result: Result<Option<Bucket>, BucketParseError>)
        ensures
            result == spec_bucket_at(bytes@, bucket_index, swap_bytes),
    {
        let offset64: u64 = DataHeader::packed_size() as u64 + bucket_index as u64
            * Bucket::packed_size() as u64;
        if (bytes.len() as u64) < offset64 {
            return Err(BucketParseError::OffsetParseError(bucket_index));
        }
        let mut decoder = ByteDecoder { bytes, offset: offset64 as usize };

        let maybe_key_offset = parse_string_section_offset(&mut decoder, bucket_index, swap_bytes)?;
        let maybe_prefix_offset = parse_string_section_offset(
            &mut decoder,
            bucket_index,
            swap_bytes,
        )?;
        let maybe_suffix_offset = parse_string_section_offset(
            &mut decoder,
            bucket_index,
            swap_bytes,
        )?;

        Ok(Bucket::try_new(maybe_key_offset, maybe_prefix_offset, maybe_suffix_offset))
    }

    /// Converts a `Bucket` into an `Entry` by trying to convert each string
    /// offset into a string slice; the first resolution failure, in the
    /// order key, prefix, suffix, is the result.
    pub fn to_entry<'a>(&self, bytes: &'a [u8], data_header: &DataHeader) -> (result: Result<
        Entry<'a>,
        BucketParseError,
    >)
        ensures
            ({
                let spec_key = spec_string_at(bytes@, *data_header, self.key_offset);
                let spec_prefix = spec_string_at(bytes@, *data_header, self.prefix_offset);
                let spec_suffix = spec_string_at(bytes@, *data_header, self.suffix_offset);
                match result {
                    Ok(entry) => {
                        &&& spec_key == Ok::<Seq<u8>, BucketParseError>(entry.key.spec_bytes())
                        &&& spec_prefix == Ok::<Seq<u8>, BucketParseError>(
                            entry.prefix.spec_bytes(),
                        )
                        &&& spec_suffix == Ok::<Seq<u8>, BucketParseError>(
                            entry.suffix.spec_bytes(),
                        )
                    },
                    Err(e) => {
                        ||| spec_key == Err::<Seq<u8>, BucketParseError>(e)
                        ||| (spec_key is Ok && spec_prefix == Err::<Seq<u8>, BucketParseError>(e))
                        ||| (spec_key is Ok && spec_prefix is Ok && spec_suffix == Err::<
                            Seq<u8>,
                            BucketParseError,
                        >(e))
                    },
                }
            }),
    {
        let key = get_string_slice_at_offset(bytes, data_header, self.key_offset)?;
        let prefix = get_string_slice_at_offset(bytes, data_header, self.prefix_offset)?;
        let suffix = get_string_slice_at_offset(bytes, data_header, self.suffix_offset)?;

        Ok(Entry { key, prefix, suffix })
    }
}

/// Returns the headermap entry for a particular bucket. If the bucket is
/// empty, it returns `Ok(None)`. Returns an error if parsing failed at any
/// point.
pub fn parse_entry_at_bucket_index<'a>(
    bytes: &'a [u8],
    data_header: &DataHeader,
    bucket_index: BucketCountType,
    swap_bytes: bool,
) -> (result: Result<Option<Entry<'a>>, BucketParseError>)
    ensures
        ({
            let spec_result = spec_entry_at(bytes@, *data_header, bucket_index, swap_bytes);
            match result {
                Ok(Some(entry)) => spec_result == Ok::<
                    Option<(Seq<u8>, Seq<u8>, Seq<u8>)>,
                    BucketParseError,
                >(Some(entry@)),
                Ok(None) => spec_result == Ok::<
                    Option<(Seq<u8>, Seq<u8>, Seq<u8>)>,
                    BucketParseError,
                >(None),
                Err(e) => spec_result == Err::<Option<(Seq<u8>, Seq<u8>, Seq<u8>)>,
                    BucketParseError,
                >(e),
            }
        }),
{
    let maybe_bucket = Bucket::new_at_index(bytes, bucket_index, swap_bytes)?;
    match maybe_bucket {
        Some(bucket) => match bucket.to_entry(bytes, data_header) {
            Ok(entry) => Ok(Some(entry)),
            Err(e) => Err(e),
        },
        None => Ok(None),
    }
}

} // verus!
