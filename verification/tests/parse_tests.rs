use cheadermap::bucket::parse_entry_at_bucket_index;
use cheadermap::bucket::BucketParseError;
use cheadermap::bucket::get_string_slice_at_offset;
use cheadermap::enumerate::headermap_enumerate_entries;
use cheadermap::enumerate::parse_headermap;
use cheadermap::enumerate::HeadermapError;
use cheadermap::header::parse_header;
use cheadermap::header::DataHeaderError;

const MAGIC: u32 = 0x68_6D_61_70;

/// Appends one little-endian u32.
fn push_u32(bytes: &mut Vec<u8>, value: u32) {
    bytes.extend_from_slice(&value.to_le_bytes());
}

/// Builds a whole headermap: a valid header, the given bucket offset
/// triples, and the string section content directly after the buckets.
fn build_headermap(bucket_count: u32, buckets: &[(u32, u32, u32)], strings: &[u8]) -> Vec<u8> {
    let string_section_offset = 24 + 12 * bucket_count;
    let mut bytes = Vec::new();
    push_u32(&mut bytes, MAGIC);
    bytes.extend_from_slice(&1u16.to_le_bytes());
    bytes.extend_from_slice(&0u16.to_le_bytes());
    push_u32(&mut bytes, string_section_offset);
    push_u32(&mut bytes, strings.iter().filter(|b| **b == 0).count() as u32);
    push_u32(&mut bytes, bucket_count);
    push_u32(&mut bytes, 128);
    for (key, prefix, suffix) in buckets {
        push_u32(&mut bytes, *key);
        push_u32(&mut bytes, *prefix);
        push_u32(&mut bytes, *suffix);
    }
    bytes.extend_from_slice(strings);
    bytes
}

/// The same headermap with every multi-byte field byte-swapped.
fn build_headermap_swapped(bucket_count: u32, buckets: &[(u32, u32, u32)], strings: &[u8]) -> Vec<u8> {
    let string_section_offset = 24 + 12 * bucket_count;
    let mut bytes = Vec::new();
    bytes.extend_from_slice(&MAGIC.to_be_bytes());
    bytes.extend_from_slice(&1u16.to_be_bytes());
    bytes.extend_from_slice(&0u16.to_be_bytes());
    bytes.extend_from_slice(&string_section_offset.to_be_bytes());
    bytes.extend_from_slice(&(strings.iter().filter(|b| **b == 0).count() as u32).to_be_bytes());
    bytes.extend_from_slice(&bucket_count.to_be_bytes());
    bytes.extend_from_slice(&128u32.to_be_bytes());
    for (key, prefix, suffix) in buckets {
        bytes.extend_from_slice(&key.to_be_bytes());
        bytes.extend_from_slice(&prefix.to_be_bytes());
        bytes.extend_from_slice(&suffix.to_be_bytes());
    }
    bytes.extend_from_slice(strings);
    bytes
}

// The string section used by most tests: a leading NUL (so that no live
// string sits at relative offset 0, the sentinel), "Foo.h" at offset 1 and
// "/usr/include/" at offset 7.
const STRINGS: &[u8] = b"\0Foo.h\0/usr/include/\0";
const KEY_OFFSET: u32 = 1;
const PREFIX_OFFSET: u32 = 7;

#[test]
fn test_single_entry() {
    // One bucket with key "Foo.h", prefix "/usr/include/", suffix "Foo.h":
    // exactly one entry with those three values.
    let bytes = build_headermap(1, &[(KEY_OFFSET, PREFIX_OFFSET, KEY_OFFSET)], STRINGS);
    let entries = parse_headermap(&bytes, true).unwrap();
    assert_eq!(entries.len(), 1);
    assert_eq!(entries[0].key, "Foo.h");
    assert_eq!(entries[0].prefix, "/usr/include/");
    assert_eq!(entries[0].suffix, "Foo.h");
}

#[test]
fn test_single_entry_byte_swapped() {
    // The identical logical content with the magic and every multi-byte
    // field byte-swapped produces the same single entry.
    let bytes = build_headermap_swapped(1, &[(KEY_OFFSET, PREFIX_OFFSET, KEY_OFFSET)], STRINGS);
    let parsed = parse_header(&bytes).unwrap();
    assert!(parsed.swap_bytes);
    let entries = parse_headermap(&bytes, true).unwrap();
    assert_eq!(entries.len(), 1);
    assert_eq!(entries[0].key, "Foo.h");
    assert_eq!(entries[0].prefix, "/usr/include/");
    assert_eq!(entries[0].suffix, "Foo.h");
}

#[test]
fn test_both_byte_orders_equal_entries() {
    let native = build_headermap(2, &[(KEY_OFFSET, PREFIX_OFFSET, KEY_OFFSET), (0, 0, 0)], STRINGS);
    let swapped =
        build_headermap_swapped(2, &[(KEY_OFFSET, PREFIX_OFFSET, KEY_OFFSET), (0, 0, 0)], STRINGS);
    let native_entries = parse_headermap(&native, true).unwrap();
    let swapped_entries = parse_headermap(&swapped, true).unwrap();
    assert_eq!(native_entries.len(), swapped_entries.len());
    for (left, right) in native_entries.iter().zip(swapped_entries.iter()) {
        assert_eq!(left.key, right.key);
        assert_eq!(left.prefix, right.prefix);
        assert_eq!(left.suffix, right.suffix);
    }
}

#[test]
fn test_header_only_strict_fails_lenient_succeeds() {
    // A header declaring 4 buckets with zero bytes after offset 24: strict
    // mode fails with a missing-offset error on bucket 0, lenient mode
    // returns an empty entry list.
    let mut bytes = Vec::new();
    push_u32(&mut bytes, MAGIC);
    bytes.extend_from_slice(&1u16.to_le_bytes());
    bytes.extend_from_slice(&0u16.to_le_bytes());
    push_u32(&mut bytes, 24);
    push_u32(&mut bytes, 0);
    push_u32(&mut bytes, 4);
    push_u32(&mut bytes, 0);
    assert_eq!(bytes.len(), 24);

    let strict = parse_headermap(&bytes, true);
    assert_eq!(
        strict.unwrap_err(),
        HeadermapError::Bucket(BucketParseError::OffsetParseError(0))
    );

    let lenient = parse_headermap(&bytes, false).unwrap();
    assert!(lenient.is_empty());
}

#[test]
fn test_string_section_offset_past_end_fails_header() {
    // A valid header whose string section offset points 2 bytes past the
    // buffer end: header parsing itself fails.
    let mut bytes = Vec::new();
    push_u32(&mut bytes, MAGIC);
    bytes.extend_from_slice(&1u16.to_le_bytes());
    bytes.extend_from_slice(&0u16.to_le_bytes());
    push_u32(&mut bytes, 26);
    push_u32(&mut bytes, 0);
    push_u32(&mut bytes, 1);
    push_u32(&mut bytes, 0);
    assert_eq!(bytes.len(), 24);
    assert_eq!(
        parse_headermap(&bytes, true).unwrap_err(),
        HeadermapError::Header(DataHeaderError::StringSectionOffsetOutOfBounds(26))
    );
}

#[test]
fn test_one_entry_per_full_bucket() {
    // Four buckets, two fully populated, one empty, one partially filled
    // (treated as entirely empty): exactly two entries, in bucket order.
    let buckets = [
        (KEY_OFFSET, PREFIX_OFFSET, KEY_OFFSET),
        (0, 0, 0),
        (PREFIX_OFFSET, KEY_OFFSET, KEY_OFFSET),
        (KEY_OFFSET, 0, KEY_OFFSET),
    ];
    let bytes = build_headermap(4, &buckets, STRINGS);
    let entries = parse_headermap(&bytes, true).unwrap();
    assert_eq!(entries.len(), 2);
    assert_eq!(entries[0].key, "Foo.h");
    assert_eq!(entries[1].key, "/usr/include/");
    assert_eq!(entries[1].prefix, "Foo.h");
}

#[test]
fn test_parse_twice_identical() {
    // Parsing the same buffer twice yields byte-for-byte equal entries.
    let bytes = build_headermap(2, &[(KEY_OFFSET, PREFIX_OFFSET, KEY_OFFSET), (0, 0, 0)], STRINGS);
    let first = parse_headermap(&bytes, true).unwrap();
    let second = parse_headermap(&bytes, true).unwrap();
    assert_eq!(first.len(), second.len());
    for (left, right) in first.iter().zip(second.iter()) {
        assert_eq!(left.key.as_bytes(), right.key.as_bytes());
        assert_eq!(left.prefix.as_bytes(), right.prefix.as_bytes());
        assert_eq!(left.suffix.as_bytes(), right.suffix.as_bytes());
    }
}

#[test]
fn test_lenient_mode_never_fails_on_corrupt_buckets() {
    // Every bucket of this file is individually corrupt (offsets point past
    // the buffer end): lenient mode still succeeds, strict mode reports the
    // first corruption.
    let buckets = [(9999, 9999, 9999), (8888, 8888, 8888)];
    let bytes = build_headermap(2, &buckets, STRINGS);
    let lenient = parse_headermap(&bytes, false).unwrap();
    assert!(lenient.is_empty());
    let strict = parse_headermap(&bytes, true);
    let expected_offset = (24 + 12 * 2 + 9999) as u64;
    assert_eq!(
        strict.unwrap_err(),
        HeadermapError::Bucket(BucketParseError::InvalidStringOffsetOutOfBounds(expected_offset))
    );
}

#[test]
fn test_string_offset_overlapping_preamble() {
    // With the string section declared at offset 0, a relative offset of 1
    // resolves inside the header itself and is rejected as an overlap.
    let mut bytes = build_headermap(1, &[(1, 1, 1)], STRINGS);
    // Rewrite the string section offset field (bytes 8..12) to 0.
    bytes[8..12].copy_from_slice(&0u32.to_le_bytes());
    assert_eq!(
        parse_headermap(&bytes, true).unwrap_err(),
        HeadermapError::Bucket(
            BucketParseError::InvalidStringOffsetOverlapsPreambleSection(1)
        )
    );
}

#[test]
fn test_unterminated_string() {
    // "Foo.h" at the very end of the buffer with no NUL after it.
    let strings = b"\0Foo.h";
    let bytes = build_headermap(1, &[(1, 1, 1)], strings);
    assert_eq!(
        parse_headermap(&bytes, true).unwrap_err(),
        HeadermapError::Bucket(BucketParseError::NoStringNullTerminatingByteFound(37))
    );
}

#[test]
fn test_invalid_utf8_string() {
    let strings = b"\0\xFF\xFE\0";
    let bytes = build_headermap(1, &[(1, 1, 1)], strings);
    assert_eq!(
        parse_headermap(&bytes, true).unwrap_err(),
        HeadermapError::Bucket(BucketParseError::InvalidUtf8String(37))
    );
}

#[test]
fn test_multibyte_utf8_string_preserved() {
    let strings = "\0héllo→wörld\0".as_bytes();
    let bytes = build_headermap(1, &[(1, 1, 1)], strings);
    let entries = parse_headermap(&bytes, true).unwrap();
    assert_eq!(entries.len(), 1);
    assert_eq!(entries[0].key, "héllo→wörld");
}

#[test]
fn test_zero_bucket_count_yields_no_entries() {
    let bytes = build_headermap(0, &[], b"\0");
    let entries = parse_headermap(&bytes, true).unwrap();
    assert!(entries.is_empty());
}

#[test]
fn test_enumerator_early_stop() {
    // Taking a single entry and not advancing further visits no later
    // bucket, even one that would fail.
    let buckets = [(KEY_OFFSET, PREFIX_OFFSET, KEY_OFFSET), (9999, 9999, 9999)];
    let bytes = build_headermap(2, &buckets, STRINGS);
    let mut enumerator = headermap_enumerate_entries(&bytes, true).unwrap();
    let mut item_count = 0;
    if let Some(entry) = enumerator.next().unwrap() {
        assert_eq!(entry.key, "Foo.h");
        item_count += 1;
    }
    assert_eq!(item_count, 1);
}

#[test]
fn test_enumerator_walks_all_entries() {
    let buckets = [
        (KEY_OFFSET, PREFIX_OFFSET, KEY_OFFSET),
        (0, 0, 0),
        (PREFIX_OFFSET, KEY_OFFSET, KEY_OFFSET),
        (0, 0, 0),
    ];
    let bytes = build_headermap(4, &buckets, STRINGS);
    let mut enumerator = headermap_enumerate_entries(&bytes, true).unwrap();
    let mut keys = Vec::new();
    while let Some(entry) = enumerator.next().unwrap() {
        keys.push(entry.key);
    }
    assert_eq!(keys, vec!["Foo.h", "/usr/include/"]);
}

#[test]
fn test_enumerator_strict_error_repeats() {
    let buckets = [(9999, 9999, 9999)];
    let bytes = build_headermap(1, &buckets, STRINGS);
    let mut enumerator = headermap_enumerate_entries(&bytes, true).unwrap();
    let first = enumerator.next().unwrap_err();
    let second = enumerator.next().unwrap_err();
    assert_eq!(first, second);
}

#[test]
fn test_enumerate_rejects_bad_header() {
    let result = headermap_enumerate_entries(&[1, 2, 3], true);
    assert!(matches!(
        result.err(),
        Some(HeadermapError::Header(DataHeaderError::MissingMagic))
    ));
}

#[test]
fn test_parse_entry_at_bucket_index_directly() {
    let buckets = [(KEY_OFFSET, PREFIX_OFFSET, KEY_OFFSET), (0, 0, 0)];
    let bytes = build_headermap(2, &buckets, STRINGS);
    let parsed = parse_header(&bytes).unwrap();
    let entry = parse_entry_at_bucket_index(&bytes, &parsed.header, 0, parsed.swap_bytes)
        .unwrap()
        .unwrap();
    assert_eq!(entry.key, "Foo.h");
    assert_eq!(entry.prefix, "/usr/include/");
    assert_eq!(entry.suffix, "Foo.h");
    let empty = parse_entry_at_bucket_index(&bytes, &parsed.header, 1, parsed.swap_bytes).unwrap();
    assert!(empty.is_none());
}

#[test]
fn test_get_string_slice_at_offset_directly() {
    let bytes = build_headermap(1, &[(1, 1, 1)], STRINGS);
    let parsed = parse_header(&bytes).unwrap();
    assert_eq!(get_string_slice_at_offset(&bytes, &parsed.header, 1).unwrap(), "Foo.h");
    assert_eq!(
        get_string_slice_at_offset(&bytes, &parsed.header, 7).unwrap(),
        "/usr/include/"
    );
}
