//! The headermap file header: layout, validation, and parsing.
//!
//! The header is a fixed 24-byte preamble. Its magic tag doubles as an
//! endianness marker: a file written in the opposite byte order carries the
//! byte-swapped magic, and every later multi-byte field must then be
//! byte-swapped after decoding.

use vstd::prelude::*;
use crate::byte_decoder::ByteDecoder;
use crate::types::BucketCountType;
use crate::types::MagicType;
use crate::types::MaxValueLength;
use crate::types::ReservedType;
use crate::types::StringCountType;
use crate::types::StringSectionOffsetType;
use crate::types::VersionType;
use crate::types::RESERVED;
use crate::types::VERSION_1;
use crate::utility::ByteSwappable;
use crate::utility::DecodablePrimitive;
use crate::utility::Packable;

verus! {

/// The magic tag as read from a file whose byte order matches this reader's.
pub const MAGIC_NATIVE_ENDIAN: MagicType = 0x68_6D_61_70;

/// The magic tag as read from a file written in the opposite byte order:
/// `MAGIC_NATIVE_ENDIAN` with its four bytes reversed.
pub const MAGIC_NON_NATIVE_ENDIAN: MagicType = 0x70_61_6D_68;

/// Represents the headermap file header.
///
/// It implements v1 of the header map format: a 4-byte magic tag, two 2-byte
/// fields (version and reserved), and four 4-byte fields (string section
/// offset, string count, bucket count, maximum value length).
#[derive(Debug, Clone, Copy, PartialEq, Eq, Structural)]
pub struct DataHeader {
    pub magic: MagicType,
    pub version: VersionType,
    pub reserved: ReservedType,
    pub string_section_offset: StringSectionOffsetType,
    pub string_count: StringCountType,
    pub bucket_count: BucketCountType,
    pub max_value_length: MaxValueLength,
}

impl Packable for DataHeader {
    open spec fn spec_packed_size() -> usize {
        24
    }

    fn packed_size() -> (size: usize) {
        24
    }
}

/// One value for each way header parsing can fail. Fields that could not be
/// read at all ("missing") are distinguished from fields that were read but
/// hold an unsupported value.
#[derive(Debug, Clone, Copy, PartialEq, Eq, Structural)]
pub enum DataHeaderError {
    UnknownMagic(MagicType),
    MissingMagic,
    MissingVersion,
    UnsupportedVersion(VersionType),
    MissingReservedValue,
    UnsupportedReserved(ReservedType),
    MissingStringSectionOffsetValue,
    MissingStringCountValue,
    MissingBucketCountValue,
    BucketCountNotPowerOfTwo(BucketCountType),
    MissingMaxValueLengthValue,
    StringSectionOffsetOutOfBounds(StringSectionOffsetType),
}

/// A successfully parsed header together with the endianness flag.
#[derive(Debug, Clone, Copy, PartialEq, Eq, Structural)]
pub struct DataHeaderParseResult {
    pub header: DataHeader,
    /// If the endianness of the binary data is different, then `swap_bytes`
    /// would be `true`. Indicates that all values need to be byte swapped
    /// when deserializing.
    pub swap_bytes: bool,
}

/// The 16-bit value stored at byte position `pos` of `bytes`.
pub open spec fn spec_u16_at(bytes: Seq<u8>, pos: int) -> u16 {
    <u16 as DecodablePrimitive>::spec_decode(bytes.skip(pos))
}

/// The 32-bit value stored at byte position `pos` of `bytes`.
pub open spec fn spec_u32_at(bytes: Seq<u8>, pos: int) -> u32 {
    <u32 as DecodablePrimitive>::spec_decode(bytes.skip(pos))
}

/// `value` byte-swapped when `swap` is set, unchanged otherwise.
pub open spec fn spec_adjust_u16(value: u16, swap: bool) -> u16 {
    if swap {
        value.spec_swap_bytes()
    } else {
        value
    }
}

/// `value` byte-swapped when `swap` is set, unchanged otherwise.
pub open spec fn spec_adjust_u32(value: u32, swap: bool) -> u32 {
    if swap {
        value.spec_swap_bytes()
    } else {
        value
    }
}

/// True exactly when `x` is a power of two.
pub open spec fn spec_is_power_of_two(x: int) -> bool
    decreases x,
{
    if x <= 0 {
        false
    } else if x == 1 {
        true
    } else {
        x % 2 == 0 && spec_is_power_of_two(x / 2)
    }
}

/// True for the bucket counts the header accepts: zero (a headermap with no
/// buckets) or any power of two.
pub open spec fn spec_is_valid_bucket_count(count: BucketCountType) -> bool {
    count == 0 || spec_is_power_of_two(count as int)
}

/// Returns whether `count` is an accepted bucket count: zero or a power of
/// two.
pub fn is_valid_bucket_count(count: BucketCountType) -> (valid: bool)
    ensures
        valid == spec_is_valid_bucket_count(count),
{
    if count == 0 {
        return true;
    }
    let mut value: u32 = count;
    while value > 1
        invariant
            value >= 1,
            count != 0,
            spec_is_power_of_two(value as int) == spec_is_power_of_two(count as int),
        decreases value,
    {
        if value % 2 == 1 {
            proof {
                assert(!spec_is_power_of_two(value as int)) by {
                    reveal_with_fuel(spec_is_power_of_two, 2);
                }
            }
            return false;
        }
        value = value / 2;
    }
    true
}

/// The header that `bytes` parses to, or the first error met while decoding
/// and validating its fields in file order.
pub open spec fn spec_parse_header(bytes: Seq<u8>) -> Result<
    DataHeaderParseResult,
    DataHeaderError,
> {
    if bytes.len() < 4 {
        Err(DataHeaderError::MissingMagic)
    } else {
        let magic = spec_u32_at(bytes, 0);
        if magic != MAGIC_NATIVE_ENDIAN && magic != MAGIC_NON_NATIVE_ENDIAN {
            Err(DataHeaderError::UnknownMagic(magic))
        } else {
            let swap = magic == MAGIC_NON_NATIVE_ENDIAN;
            if bytes.len() < 6 {
                Err(DataHeaderError::MissingVersion)
            } else {
                let version = spec_adjust_u16(spec_u16_at(bytes, 4), swap);
                if version != VERSION_1 {
                    Err(DataHeaderError::UnsupportedVersion(version))
                } else if bytes.len() < 8 {
                    Err(DataHeaderError::MissingReservedValue)
                } else {
                    let reserved = spec_adjust_u16(spec_u16_at(bytes, 6), swap);
                    if reserved != RESERVED {
                        Err(DataHeaderError::UnsupportedReserved(reserved))
                    } else if bytes.len() < 12 {
                        Err(DataHeaderError::MissingStringSectionOffsetValue)
                    } else {
                        let string_section_offset = spec_adjust_u32(spec_u32_at(bytes, 8), swap);
                        if bytes.len() < string_section_offset {
                            Err(
                                DataHeaderError::StringSectionOffsetOutOfBounds(
                                    string_section_offset,
                                ),
                            )
                        } else if bytes.len() < 16 {
                            Err(DataHeaderError::MissingStringCountValue)
                        } else {
                            let string_count = spec_adjust_u32(spec_u32_at(bytes, 12), swap);
                            if bytes.len() < 20 {
                                Err(DataHeaderError::MissingBucketCountValue)
                            } else {
                                let bucket_count = spec_adjust_u32(spec_u32_at(bytes, 16), swap);
                                if !spec_is_valid_bucket_count(bucket_count) {
                                    Err(DataHeaderError::BucketCountNotPowerOfTwo(bucket_count))
                                } else if bytes.len() < 24 {
                                    Err(DataHeaderError::MissingMaxValueLengthValue)
                                } else {
                                    let max_value_length = spec_adjust_u32(
                                        spec_u32_at(bytes, 20),
                                        swap,
                                    );
                                    Ok(
                                        DataHeaderParseResult {
                                            header: DataHeader {
                                                magic: MAGIC_NATIVE_ENDIAN,
                                                version,
                                                reserved,
                                                string_section_offset,
                                                string_count,
                                                bucket_count,
                                                max_value_length,
                                            },
                                            swap_bytes: swap,
                                        },
                                    )
                                }
                            }
                        }
                    }
                }
            }
        }
    }
}

/// Parses and validates the fixed file header, returning it together with
/// the endianness flag, or the first error met in file order.
pub fn parse_header(bytes: &[u8]) -> (result: Result<DataHeaderParseResult, DataHeaderError>)
    ensures
        result == spec_parse_header(bytes@),
{
    let mut decoder = ByteDecoder { bytes, offset: 0 };

    let magic: MagicType = match decoder.advance::<MagicType>() {
        Some(value) => value,
        None => {
            return Err(DataHeaderError::MissingMagic);
        },
    };
    if magic != MAGIC_NATIVE_ENDIAN && magic != MAGIC_NON_NATIVE_ENDIAN {
        return Err(DataHeaderError::UnknownMagic(magic));
    }
    let swap_bytes: bool = magic == MAGIC_NON_NATIVE_ENDIAN;

    let version: VersionType = match decoder.advance::<VersionType>() {
        Some(value) => value.swap_bytes_if(swap_bytes),
        None => {
            return Err(DataHeaderError::MissingVersion);
        },
    };
    if version != VERSION_1 {
        return Err(DataHeaderError::UnsupportedVersion(version));
    }

    let reserved: ReservedType = match decoder.advance::<ReservedType>() {
        Some(value) => value.swap_bytes_if(swap_bytes),
        None => {
            return Err(DataHeaderError::MissingReservedValue);
        },
    };
    if reserved != RESERVED {
        return Err(DataHeaderError::UnsupportedReserved(reserved));
    }

    let string_section_offset: StringSectionOffsetType = match decoder.advance::<
        StringSectionOffsetType,
    >() {
        Some(value) => value.swap_bytes_if(swap_bytes),
        None => {
            return Err(DataHeaderError::MissingStringSectionOffsetValue);
        },
    };
    if bytes.len() < string_section_offset as usize {
        return Err(DataHeaderError::StringSectionOffsetOutOfBounds(string_section_offset));
    }

    let string_count: StringCountType = match decoder.advance::<StringCountType>() {
        Some(value) => value.swap_bytes_if(swap_bytes),
        None => {
            return Err(DataHeaderError::MissingStringCountValue);
        },
    };

    let bucket_count: BucketCountType = match decoder.advance::<BucketCountType>() {
        Some(value) => value.swap_bytes_if(swap_bytes),
        None => {
            return Err(DataHeaderError::MissingBucketCountValue);
        },
    };
    if !is_valid_bucket_count(bucket_count) {
        return Err(DataHeaderError::BucketCountNotPowerOfTwo(bucket_count));
    }

    let max_value_length: MaxValueLength = match decoder.advance::<MaxValueLength>() {
        Some(value) => value.swap_bytes_if(swap_bytes),
        None => {
            return Err(DataHeaderError::MissingMaxValueLengthValue);
        },
    };

    let header = DataHeader {
        magic: MAGIC_NATIVE_ENDIAN,
        version,
        reserved,
        string_section_offset,
        string_count,
        bucket_count,
        max_value_length,
    };

    Ok(DataHeaderParseResult { header, swap_bytes })
}

} // verus!
