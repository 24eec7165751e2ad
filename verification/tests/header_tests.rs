use cheadermap::header::parse_header;
use cheadermap::header::DataHeaderError;
use cheadermap::header::is_valid_bucket_count;
use cheadermap::utility::ByteSwappable;
use cheadermap::utility::Packable;

/// Builds the 24 header bytes in the reader's own (little-endian) order.
fn build_header(
    magic: u32,
    version: u16,
    reserved: u16,
    string_section_offset: u32,
    string_count: u32,
    bucket_count: u32,
    max_value_length: u32,
) -> Vec<u8> {
    let mut bytes = Vec::new();
    bytes.extend_from_slice(&magic.to_le_bytes());
    bytes.extend_from_slice(&version.to_le_bytes());
    bytes.extend_from_slice(&reserved.to_le_bytes());
    bytes.extend_from_slice(&string_section_offset.to_le_bytes());
    bytes.extend_from_slice(&string_count.to_le_bytes());
    bytes.extend_from_slice(&bucket_count.to_le_bytes());
    bytes.extend_from_slice(&max_value_length.to_le_bytes());
    bytes
}

const MAGIC: u32 = 0x68_6D_61_70;
const MAGIC_SWAPPED: u32 = 0x70_61_6D_68;

#[test]
fn test_parse_header_native_order() {
    let bytes = build_header(MAGIC, 1, 0, 24, 5, 8, 32);
    let parsed = parse_header(&bytes).unwrap();
    assert!(!parsed.swap_bytes);
    assert_eq!(parsed.header.magic, MAGIC);
    assert_eq!(parsed.header.version, 1);
    assert_eq!(parsed.header.reserved, 0);
    assert_eq!(parsed.header.string_section_offset, 24);
    assert_eq!(parsed.header.string_count, 5);
    assert_eq!(parsed.header.bucket_count, 8);
    assert_eq!(parsed.header.max_value_length, 32);
}

#[test]
fn test_parse_header_swapped_order() {
    let mut bytes = Vec::new();
    bytes.extend_from_slice(&MAGIC.to_be_bytes());
    bytes.extend_from_slice(&1u16.to_be_bytes());
    bytes.extend_from_slice(&0u16.to_be_bytes());
    bytes.extend_from_slice(&24u32.to_be_bytes());
    bytes.extend_from_slice(&5u32.to_be_bytes());
    bytes.extend_from_slice(&8u32.to_be_bytes());
    bytes.extend_from_slice(&32u32.to_be_bytes());
    let parsed = parse_header(&bytes).unwrap();
    assert!(parsed.swap_bytes);
    assert_eq!(parsed.header.magic, MAGIC);
    assert_eq!(parsed.header.version, 1);
    assert_eq!(parsed.header.string_section_offset, 24);
    assert_eq!(parsed.header.bucket_count, 8);
}

#[test]
fn test_missing_magic() {
    assert_eq!(parse_header(&[]), Err(DataHeaderError::MissingMagic));
    assert_eq!(parse_header(&[0x70, 0x61]), Err(DataHeaderError::MissingMagic));
}

#[test]
fn test_unknown_magic() {
    let bytes = build_header(0xDEAD_BEEF, 1, 0, 24, 0, 1, 0);
    assert_eq!(parse_header(&bytes), Err(DataHeaderError::UnknownMagic(0xDEAD_BEEF)));
}

#[test]
fn test_missing_version() {
    let bytes = &MAGIC.to_le_bytes();
    assert_eq!(parse_header(bytes), Err(DataHeaderError::MissingVersion));
}

#[test]
fn test_unsupported_version() {
    let bytes = build_header(MAGIC, 2, 0, 24, 0, 1, 0);
    assert_eq!(parse_header(&bytes), Err(DataHeaderError::UnsupportedVersion(2)));
}

#[test]
fn test_missing_reserved() {
    let bytes = &build_header(MAGIC, 1, 0, 24, 0, 1, 0)[..6];
    assert_eq!(parse_header(bytes), Err(DataHeaderError::MissingReservedValue));
}

#[test]
fn test_unsupported_reserved() {
    let bytes = build_header(MAGIC, 1, 7, 24, 0, 1, 0);
    assert_eq!(parse_header(&bytes), Err(DataHeaderError::UnsupportedReserved(7)));
}

#[test]
fn test_missing_string_section_offset() {
    let bytes = &build_header(MAGIC, 1, 0, 24, 0, 1, 0)[..8];
    assert_eq!(parse_header(bytes), Err(DataHeaderError::MissingStringSectionOffsetValue));
}

#[test]
fn test_string_section_offset_out_of_bounds() {
    // A valid header whose declared string section begins 2 bytes past the
    // end of the buffer.
    let bytes = build_header(MAGIC, 1, 0, 26, 0, 1, 0);
    assert_eq!(bytes.len(), 24);
    assert_eq!(
        parse_header(&bytes),
        Err(DataHeaderError::StringSectionOffsetOutOfBounds(26))
    );
}

#[test]
fn test_missing_string_count() {
    let bytes = &build_header(MAGIC, 1, 0, 12, 0, 1, 0)[..12];
    assert_eq!(parse_header(bytes), Err(DataHeaderError::MissingStringCountValue));
}

#[test]
fn test_missing_bucket_count() {
    let bytes = &build_header(MAGIC, 1, 0, 16, 0, 1, 0)[..16];
    assert_eq!(parse_header(bytes), Err(DataHeaderError::MissingBucketCountValue));
}

#[test]
fn test_bucket_count_not_power_of_two() {
    for count in [3u32, 6, 12, 100, u32::MAX] {
        let bytes = build_header(MAGIC, 1, 0, 24, 0, count, 0);
        assert_eq!(
            parse_header(&bytes),
            Err(DataHeaderError::BucketCountNotPowerOfTwo(count)),
            "bucket count {} must be rejected",
            count
        );
    }
}

#[test]
fn test_bucket_count_zero_and_powers_accepted() {
    for count in [0u32, 1, 2, 4, 1024, 1 << 31] {
        let bytes = build_header(MAGIC, 1, 0, 24, 0, count, 0);
        let parsed = parse_header(&bytes).unwrap();
        assert_eq!(parsed.header.bucket_count, count);
    }
}

#[test]
fn test_missing_max_value_length() {
    let bytes = &build_header(MAGIC, 1, 0, 20, 0, 1, 0)[..20];
    assert_eq!(parse_header(bytes), Err(DataHeaderError::MissingMaxValueLengthValue));
}

#[test]
fn test_is_valid_bucket_count_values() {
    assert!(is_valid_bucket_count(0));
    assert!(is_valid_bucket_count(1));
    assert!(is_valid_bucket_count(2));
    assert!(is_valid_bucket_count(64));
    assert!(!is_valid_bucket_count(3));
    assert!(!is_valid_bucket_count(96));
}

#[test]
fn test_swap_bytes_if_values() {
    assert_eq!(0x1234u16.swap_bytes_if(false), 0x1234);
    assert_eq!(0x1234u16.swap_bytes_if(true), 0x3412);
    assert_eq!(0x1234_5678u32.swap_bytes_if(false), 0x1234_5678);
    assert_eq!(0x1234_5678u32.swap_bytes_if(true), 0x7856_3412);
}

#[test]
fn test_packed_sizes() {
    assert_eq!(cheadermap::header::DataHeader::packed_size(), 24);
    assert_eq!(cheadermap::bucket::Bucket::packed_size(), 12);
}

#[test]
fn test_magic_matches_swapped_constant() {
    assert_eq!(MAGIC.swap_bytes_if(true), MAGIC_SWAPPED);
}
