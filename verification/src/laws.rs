//! The guarantees of the format, stated and proved once over the
//! specification model that every parsing contract is pinned to.

use vstd::prelude::*;
use vstd::arithmetic::div_mod::lemma_fundamental_div_mod_converse;
use crate::bucket::spec_bucket_at;
use crate::bucket::spec_entry_at;
use crate::bucket::spec_find_nul;
use crate::bucket::spec_preamble_size;
use crate::bucket::spec_string_at;
use crate::bucket::BucketParseError;
use crate::enumerate::spec_entries;
use crate::enumerate::spec_parse_headermap;
use crate::enumerate::HeadermapError;
use crate::header::spec_is_valid_bucket_count;
use crate::header::spec_parse_header;
use crate::header::spec_u16_at;
use crate::header::spec_u32_at;
use crate::header::DataHeader;
use crate::header::DataHeaderError;
use crate::header::DataHeaderParseResult;
use crate::header::MAGIC_NON_NATIVE_ENDIAN;
use crate::types::BucketCountType;
use crate::utility::ByteSwappable;

verus! {

/// Number of buckets among the first `count` whose three offsets are all
/// non-sentinel.
pub open spec fn spec_full_bucket_count(
    bytes: Seq<u8>,
    swap: bool,
    count: int,
) -> int
    decreases count,
{
    if count <= 0 {
        0
    } else {
        spec_full_bucket_count(bytes, swap, count - 1) + (if spec_bucket_at(
            bytes,
            (count - 1) as BucketCountType,
            swap,
        ) matches Ok(Some(_)) {
            1int
        } else {
            0int
        })
    }
}

/// One entry per populated bucket: when no bucket fails, parsing succeeds
/// and yields exactly one entry for every bucket whose three offsets are
/// all non-sentinel, and none for any other bucket.
pub proof fn lemma_one_entry_per_full_bucket(
    bytes: Seq<u8>,
    header: DataHeader,
    swap: bool,
    fail_on_bucket_error: bool,
    count: int,
)
    requires
        forall|i: int|
            0 <= i < count ==> !(#[trigger] spec_entry_at(
                bytes,
                header,
                i as BucketCountType,
                swap,
            ) is Err),
    ensures
        spec_entries(bytes, header, swap, fail_on_bucket_error, count) matches Ok(entries)
            && entries.len() == spec_full_bucket_count(bytes, swap, count),
    decreases count,
{
    if count > 0 {
        lemma_one_entry_per_full_bucket(bytes, header, swap, fail_on_bucket_error, count - 1);
    }
}

/// One entry per populated bucket, at the top level: when the header
/// parses and no bucket fails, the whole parse succeeds with exactly one
/// entry for every bucket whose three offsets are all non-sentinel.
pub proof fn lemma_parse_counts_full_buckets(bytes: Seq<u8>, fail_on_bucket_error: bool)
    requires
        spec_parse_header(bytes) matches Ok(parse_result) && forall|i: int|
            0 <= i < parse_result.header.bucket_count ==> !(#[trigger] spec_entry_at(
                bytes,
                parse_result.header,
                i as BucketCountType,
                parse_result.swap_bytes,
            ) is Err),
    ensures
        spec_parse_headermap(bytes, fail_on_bucket_error) matches Ok(entries) && entries.len()
            == spec_full_bucket_count(
            bytes,
            spec_parse_header(bytes)->Ok_0.swap_bytes,
            spec_parse_header(bytes)->Ok_0.header.bucket_count as int,
        ),
{
    let parse_result = spec_parse_header(bytes)->Ok_0;
    lemma_one_entry_per_full_bucket(
        bytes,
        parse_result.header,
        parse_result.swap_bytes,
        fail_on_bucket_error,
        parse_result.header.bucket_count as int,
    );
}

/// The preamble is never empty, so the reserved offset 0 can never name a
/// legitimate string position: relative offset 0 of a string section that
/// starts at the very beginning of the file always resolves inside the
/// preamble and is rejected.
pub proof fn lemma_sentinel_never_a_string_position()
    ensures
        spec_preamble_size() > 0,
{
}

/// A bucket count that is neither zero nor a power of two never parses:
/// every successfully parsed header carries an accepted bucket count,
/// whatever the rest of the buffer holds.
pub proof fn lemma_header_bucket_count_power_of_two(bytes: Seq<u8>)
    ensures
        spec_parse_header(bytes) matches Ok(parse_result) ==> spec_is_valid_bucket_count(
            parse_result.header.bucket_count,
        ),
{
}

/// A string offset resolving to a position inside the header-plus-first-
/// bucket region always fails with an overlap error; it is never read.
pub proof fn lemma_string_overlapping_preamble_rejected(
    bytes: Seq<u8>,
    header: DataHeader,
    relative: u32,
)
    requires
        header.string_section_offset + relative < spec_preamble_size(),
    ensures
        spec_string_at(bytes, header, relative) == Err::<Seq<u8>, BucketParseError>(
            BucketParseError::InvalidStringOffsetOverlapsPreambleSection(
                (header.string_section_offset + relative) as u64,
            ),
        ),
{
}

/// A search that starts past every byte, or meets no NUL, finds nothing.
proof fn lemma_find_nul_none(bytes: Seq<u8>, position: int)
    requires
        forall|i: int| position <= i < bytes.len() ==> bytes[i] != 0,
    ensures
        spec_find_nul(bytes, position) is None,
    decreases bytes.len() - position,
{
    if 0 <= position < bytes.len() {
        lemma_find_nul_none(bytes, position + 1);
    }
}

/// A string with no NUL byte before the buffer end always fails with an
/// unterminated-string error; the read never runs past the buffer.
pub proof fn lemma_unterminated_string_rejected(bytes: Seq<u8>, header: DataHeader, relative: u32)
    requires
        spec_preamble_size() <= header.string_section_offset + relative <= bytes.len(),
        forall|i: int|
            header.string_section_offset + relative <= i < bytes.len() ==> bytes[i] != 0,
    ensures
        spec_string_at(bytes, header, relative) == Err::<Seq<u8>, BucketParseError>(
            BucketParseError::NoStringNullTerminatingByteFound(
                (header.string_section_offset + relative) as u64,
            ),
        ),
{
    lemma_find_nul_none(bytes, header.string_section_offset + relative);
}

/// Parsing is a pure function of the buffer: parsing the same buffer twice,
/// with the same error policy, yields identical entry sequences, since every
/// parse result equals the one specification-level value
/// `spec_parse_headermap(bytes, fail_on_bucket_error)`.
pub proof fn lemma_parse_idempotent(
    bytes: Seq<u8>,
    fail_on_bucket_error: bool,
    first: Result<Seq<(Seq<u8>, Seq<u8>, Seq<u8>)>, HeadermapError>,
    second: Result<Seq<(Seq<u8>, Seq<u8>, Seq<u8>)>, HeadermapError>,
)
    requires
        first == spec_parse_headermap(bytes, fail_on_bucket_error),
        second == spec_parse_headermap(bytes, fail_on_bucket_error),
    ensures
        first == second,
{
}

/// Lenient enumeration never fails: without `fail_on_bucket_error` every
/// bucket error is swallowed, whatever the buckets hold.
proof fn lemma_lenient_entries_never_fail(
    bytes: Seq<u8>,
    header: DataHeader,
    swap: bool,
    count: int,
)
    ensures
        spec_entries(bytes, header, swap, false, count) is Ok,
    decreases count,
{
    if count > 0 {
        lemma_lenient_entries_never_fail(bytes, header, swap, count - 1);
    }
}

/// Strict mode surfaces the first corruption: when the header parses, the
/// buckets before `index` walk cleanly, and bucket `index` fails, the whole
/// strict parse fails with exactly that bucket's error.
pub proof fn lemma_strict_fails_on_first_bucket_error(bytes: Seq<u8>, index: int)
    requires
        spec_parse_header(bytes) matches Ok(parse_result) && {
            &&& 0 <= index < parse_result.header.bucket_count
            &&& spec_entries(bytes, parse_result.header, parse_result.swap_bytes, true, index)
                is Ok
            &&& spec_entry_at(
                bytes,
                parse_result.header,
                index as BucketCountType,
                parse_result.swap_bytes,
            ) is Err
        },
    ensures
        spec_parse_headermap(bytes, true) == Err::<
            Seq<(Seq<u8>, Seq<u8>, Seq<u8>)>,
            HeadermapError,
        >(
            HeadermapError::Bucket(
                spec_entry_at(
                    bytes,
                    spec_parse_header(bytes)->Ok_0.header,
                    index as BucketCountType,
                    spec_parse_header(bytes)->Ok_0.swap_bytes,
                )->Err_0,
            ),
        ),
{
    let parse_result = spec_parse_header(bytes)->Ok_0;
    crate::enumerate::lemma_entries_error_persists(
        bytes,
        parse_result.header,
        parse_result.swap_bytes,
        index,
        parse_result.header.bucket_count as int,
        spec_entry_at(
            bytes,
            parse_result.header,
            index as BucketCountType,
            parse_result.swap_bytes,
        )->Err_0,
    );
}

/// Lenient mode never raises an error for a buffer whose header is valid,
/// even if every bucket is individually corrupt.
pub proof fn lemma_lenient_never_fails_after_header(bytes: Seq<u8>)
    requires
        spec_parse_header(bytes) is Ok,
    ensures
        spec_parse_headermap(bytes, false) is Ok,
{
    let parse_result = spec_parse_header(bytes)->Ok_0;
    lemma_lenient_entries_never_fail(
        bytes,
        parse_result.header,
        parse_result.swap_bytes,
        parse_result.header.bucket_count as int,
    );
}

/// Byte position of the first byte after the bucket array.
pub open spec fn spec_bucket_array_end(header: DataHeader) -> int {
    24 + 12 * header.bucket_count
}

/// Partner of byte position `i` under field-wise byte reversal of a
/// headermap with `bucket_count` buckets: a position within a multi-byte
/// header field or bucket offset maps to the mirrored position of the same
/// field; everything after the bucket array (the string section) stays put.
pub open spec fn spec_swab_partner(i: int, bucket_count: int) -> int {
    if 0 <= i < 4 {
        3 - i
    } else if 4 <= i < 6 {
        9 - i
    } else if 6 <= i < 8 {
        13 - i
    } else if 8 <= i < 24 {
        let base = 8 + 4 * ((i - 8) / 4);
        2 * base + 3 - i
    } else if 24 <= i < 24 + 12 * bucket_count {
        let base = 24 + 4 * ((i - 24) / 4);
        2 * base + 3 - i
    } else {
        i
    }
}

/// The same logical headermap encoded in the opposite byte order: every
/// multi-byte header field and every bucket offset byte-reversed, the
/// string section untouched.
pub open spec fn spec_byte_swapped_encoding(bytes: Seq<u8>, bucket_count: int) -> Seq<u8> {
    Seq::new(bytes.len(), |i: int| bytes[spec_swab_partner(i, bucket_count)])
}

/// Dividing a multiple of four plus a remainder below four by four yields
/// the multiplier.
proof fn lemma_div4_small(quotient: int, j: int)
    requires
        0 <= j < 4,
    ensures
        (4 * quotient + j) / 4 == quotient,
{
    lemma_fundamental_div_mod_converse(4 * quotient + j, 4, quotient, j);
}

/// Byte-swapping a 16-bit value assembled from two bytes swaps the bytes.
proof fn lemma_swap16_bytes(b0: int, b1: int)
    requires
        0 <= b0 < 256,
        0 <= b1 < 256,
    ensures
        ((b0 + b1 * 256) as u16).spec_swap_bytes() == b0 * 256 + b1,
{
    lemma_fundamental_div_mod_converse(b0 + b1 * 256, 256, b1, b0);
}

/// Byte-swapping a 32-bit value assembled from four bytes reverses the
/// bytes.
proof fn lemma_swap32_bytes(b0: int, b1: int, b2: int, b3: int)
    requires
        0 <= b0 < 256,
        0 <= b1 < 256,
        0 <= b2 < 256,
        0 <= b3 < 256,
    ensures
        ((b0 + b1 * 256 + b2 * 0x1_0000 + b3 * 0x100_0000) as u32).spec_swap_bytes() == b3 + b2
            * 256 + b1 * 0x1_0000 + b0 * 0x100_0000,
{
    let x = b0 + b1 * 256 + b2 * 0x1_0000 + b3 * 0x100_0000;
    lemma_fundamental_div_mod_converse(x, 256, b1 + b2 * 256 + b3 * 0x1_0000, b0);
    lemma_fundamental_div_mod_converse(x / 256, 256, b2 + b3 * 256, b1);
    lemma_fundamental_div_mod_converse(x, 0x1_0000, b2 + b3 * 256, b0 + b1 * 256);
    lemma_fundamental_div_mod_converse(x / 0x1_0000, 256, b3, b2);
    lemma_fundamental_div_mod_converse(x, 0x100_0000, b3, b0 + b1 * 256 + b2 * 0x1_0000);
}

/// A 16-bit field whose two bytes appear reversed in `swapped` decodes to
/// the byte-swapped value, so swapping it back recovers the original.
proof fn lemma_u16_at_reversed(bytes: Seq<u8>, swapped: Seq<u8>, base: int)
    requires
        0 <= base,
        base + 2 <= bytes.len(),
        base + 2 <= swapped.len(),
        swapped[base] == bytes[base + 1],
        swapped[base + 1] == bytes[base],
    ensures
        spec_u16_at(swapped, base) == spec_u16_at(bytes, base).spec_swap_bytes(),
        spec_u16_at(swapped, base).spec_swap_bytes() == spec_u16_at(bytes, base),
{
    lemma_swap16_bytes(bytes[base] as int, bytes[base + 1] as int);
    lemma_swap16_bytes(bytes[base + 1] as int, bytes[base] as int);
}

/// A 32-bit field whose four bytes appear reversed in `swapped` decodes to
/// the byte-swapped value, so swapping it back recovers the original.
proof fn lemma_u32_at_reversed(bytes: Seq<u8>, swapped: Seq<u8>, base: int)
    requires
        0 <= base,
        base + 4 <= bytes.len(),
        base + 4 <= swapped.len(),
        swapped[base] == bytes[base + 3],
        swapped[base + 1] == bytes[base + 2],
        swapped[base + 2] == bytes[base + 1],
        swapped[base + 3] == bytes[base],
    ensures
        spec_u32_at(swapped, base) == spec_u32_at(bytes, base).spec_swap_bytes(),
        spec_u32_at(swapped, base).spec_swap_bytes() == spec_u32_at(bytes, base),
{
    lemma_swap32_bytes(
        bytes[base] as int,
        bytes[base + 1] as int,
        bytes[base + 2] as int,
        bytes[base + 3] as int,
    );
    lemma_swap32_bytes(
        bytes[base + 3] as int,
        bytes[base + 2] as int,
        bytes[base + 1] as int,
        bytes[base] as int,
    );
}

/// Within the bucket array, the swab partner mirrors each 4-byte field.
proof fn lemma_swab_partner_bucket_field(field: int, j: int, bucket_count: int)
    requires
        0 <= field < 3 * bucket_count,
        0 <= j < 4,
    ensures
        spec_swab_partner(24 + 4 * field + j, bucket_count) == 24 + 4 * field + 3 - j,
{
    lemma_div4_small(field, j);
}

/// The header of the byte-swapped encoding parses to the same header, with
/// the endianness flag set.
#[verifier::rlimit(100)]
proof fn lemma_swab_header(bytes: Seq<u8>, bucket_count: int)
    requires
        spec_parse_header(bytes) matches Ok(parse_result) && !parse_result.swap_bytes
            && parse_result.header.bucket_count == bucket_count,
    ensures
        spec_parse_header(spec_byte_swapped_encoding(bytes, bucket_count)) == Ok::<
            DataHeaderParseResult,
            DataHeaderError,
        >(
            DataHeaderParseResult {
                header: spec_parse_header(bytes)->Ok_0.header,
                swap_bytes: true,
            },
        ),
{
    let swapped = spec_byte_swapped_encoding(bytes, bucket_count);
    assert(swapped.len() == bytes.len());
    assert(bytes.len() >= 24);

    lemma_u32_at_reversed(bytes, swapped, 0);
    assert(spec_u32_at(swapped, 0) == MAGIC_NON_NATIVE_ENDIAN);
    lemma_u16_at_reversed(bytes, swapped, 4);
    lemma_u16_at_reversed(bytes, swapped, 6);
    lemma_u32_at_reversed(bytes, swapped, 8);
    lemma_u32_at_reversed(bytes, swapped, 12);
    lemma_u32_at_reversed(bytes, swapped, 16);
    lemma_u32_at_reversed(bytes, swapped, 20);
}

/// The bucket array of the byte-swapped encoding decodes, under the set
/// endianness flag, to exactly the original buckets.
#[verifier::rlimit(100)]
proof fn lemma_swab_bucket(bytes: Seq<u8>, bucket_count: int, index: int)
    requires
        0 <= index < bucket_count,
        bucket_count <= u32::MAX,
        24 + 12 * bucket_count <= bytes.len(),
    ensures
        spec_bucket_at(
            spec_byte_swapped_encoding(bytes, bucket_count),
            index as BucketCountType,
            true,
        ) == spec_bucket_at(bytes, index as BucketCountType, false),
{
    let swapped = spec_byte_swapped_encoding(bytes, bucket_count);
    let offset = 24 + 12 * index;
    assert(offset + 12 <= bytes.len());

    lemma_swab_partner_bucket_field(3 * index, 0, bucket_count);
    lemma_swab_partner_bucket_field(3 * index, 1, bucket_count);
    lemma_swab_partner_bucket_field(3 * index, 2, bucket_count);
    lemma_swab_partner_bucket_field(3 * index, 3, bucket_count);
    lemma_u32_at_reversed(bytes, swapped, offset);

    lemma_swab_partner_bucket_field(3 * index + 1, 0, bucket_count);
    lemma_swab_partner_bucket_field(3 * index + 1, 1, bucket_count);
    lemma_swab_partner_bucket_field(3 * index + 1, 2, bucket_count);
    lemma_swab_partner_bucket_field(3 * index + 1, 3, bucket_count);
    lemma_u32_at_reversed(bytes, swapped, offset + 4);

    lemma_swab_partner_bucket_field(3 * index + 2, 0, bucket_count);
    lemma_swab_partner_bucket_field(3 * index + 2, 1, bucket_count);
    lemma_swab_partner_bucket_field(3 * index + 2, 2, bucket_count);
    lemma_swab_partner_bucket_field(3 * index + 2, 3, bucket_count);
    lemma_u32_at_reversed(bytes, swapped, offset + 8);
}

/// A found NUL lies between the search start and the buffer end.
proof fn lemma_find_nul_bounds(bytes: Seq<u8>, position: int)
    ensures
        spec_find_nul(bytes, position) matches Some(nul_position) ==> position <= nul_position
            < bytes.len(),
    decreases bytes.len() - position,
{
    if 0 <= position < bytes.len() && bytes[position] != 0 {
        lemma_find_nul_bounds(bytes, position + 1);
    }
}

/// Two buffers that agree from `position` on are searched identically.
proof fn lemma_find_nul_agree(first: Seq<u8>, second: Seq<u8>, position: int)
    requires
        first.len() == second.len(),
        forall|i: int| position <= i < first.len() ==> first[i] == second[i],
    ensures
        spec_find_nul(first, position) == spec_find_nul(second, position),
    decreases first.len() - position,
{
    if 0 <= position < first.len() {
        if first[position] != 0 {
            lemma_find_nul_agree(first, second, position + 1);
        }
    }
}

/// String resolution reads only the header and the bytes from the resolved
/// offset on, so it is identical in the two encodings whenever the string
/// lies at or after the bucket array end.
proof fn lemma_swab_string(
    bytes: Seq<u8>,
    bucket_count: int,
    header: DataHeader,
    relative: u32,
)
    requires
        header.string_section_offset + relative >= 24 + 12 * bucket_count,
    ensures
        spec_string_at(spec_byte_swapped_encoding(bytes, bucket_count), header, relative)
            == spec_string_at(bytes, header, relative),
{
    let swapped = spec_byte_swapped_encoding(bytes, bucket_count);
    let absolute = header.string_section_offset + relative;
    if spec_preamble_size() <= absolute <= bytes.len() {
        assert(forall|i: int| absolute <= i < bytes.len() ==> swapped[i] == bytes[i]);
        lemma_find_nul_agree(swapped, bytes, absolute);
        lemma_find_nul_bounds(bytes, absolute);
        if let Some(nul_position) = spec_find_nul(bytes, absolute) {
            assert(swapped.subrange(absolute, nul_position) =~= bytes.subrange(
                absolute,
                nul_position,
            ));
        }
    }
}

/// One bucket of the byte-swapped encoding yields exactly the entry (or
/// emptiness, or error) of the original bucket.
proof fn lemma_swab_entry(
    bytes: Seq<u8>,
    bucket_count: int,
    header: DataHeader,
    index: int,
)
    requires
        0 <= index < bucket_count,
        bucket_count <= u32::MAX,
        24 + 12 * bucket_count <= bytes.len(),
        spec_bucket_at(bytes, index as BucketCountType, false) matches Ok(Some(bucket)) ==> {
            &&& header.string_section_offset + bucket.key_offset >= 24 + 12 * bucket_count
            &&& header.string_section_offset + bucket.prefix_offset >= 24 + 12 * bucket_count
            &&& header.string_section_offset + bucket.suffix_offset >= 24 + 12 * bucket_count
        },
    ensures
        spec_entry_at(
            spec_byte_swapped_encoding(bytes, bucket_count),
            header,
            index as BucketCountType,
            true,
        ) == spec_entry_at(bytes, header, index as BucketCountType, false),
{
    lemma_swab_bucket(bytes, bucket_count, index);
    if let Ok(Some(bucket)) = spec_bucket_at(bytes, index as BucketCountType, false) {
        lemma_swab_string(bytes, bucket_count, header, bucket.key_offset);
        lemma_swab_string(bytes, bucket_count, header, bucket.prefix_offset);
        lemma_swab_string(bytes, bucket_count, header, bucket.suffix_offset);
    }
}

/// Walking the first `count` buckets of the two encodings yields the same
/// result, under either error policy.
proof fn lemma_swab_entries(
    bytes: Seq<u8>,
    bucket_count: int,
    header: DataHeader,
    fail_on_bucket_error: bool,
    count: int,
)
    requires
        0 <= count <= bucket_count,
        bucket_count <= u32::MAX,
        24 + 12 * bucket_count <= bytes.len(),
        forall|i: int|
            0 <= i < bucket_count ==> (#[trigger] spec_bucket_at(
                bytes,
                i as BucketCountType,
                false,
            ) matches Ok(Some(bucket)) ==> {
                &&& header.string_section_offset + bucket.key_offset >= 24 + 12 * bucket_count
                &&& header.string_section_offset + bucket.prefix_offset >= 24 + 12 * bucket_count
                &&& header.string_section_offset + bucket.suffix_offset >= 24 + 12 * bucket_count
            }),
    ensures
        spec_entries(
            spec_byte_swapped_encoding(bytes, bucket_count),
            header,
            true,
            fail_on_bucket_error,
            count,
        ) == spec_entries(bytes, header, false, fail_on_bucket_error, count),
    decreases count,
{
    if count > 0 {
        lemma_swab_entries(bytes, bucket_count, header, fail_on_bucket_error, count - 1);
        lemma_swab_entry(bytes, bucket_count, header, count - 1);
    }
}

/// Byte order is immaterial: a headermap whose bucket array is fully
/// present and whose populated buckets point at or after the bucket array
/// end parses, after re-encoding every multi-byte field in the opposite
/// byte order, to exactly the same entries (or the same error), under
/// either error policy.
pub proof fn lemma_byte_swapped_parse_equivalent(bytes: Seq<u8>, fail_on_bucket_error: bool)
    requires
        spec_parse_header(bytes) matches Ok(parse_result) && {
            let header = parse_result.header;
            let end = spec_bucket_array_end(header);
            &&& !parse_result.swap_bytes
            &&& end <= bytes.len()
            &&& forall|i: int|
                0 <= i < header.bucket_count ==> (#[trigger] spec_bucket_at(
                    bytes,
                    i as BucketCountType,
                    false,
                ) matches Ok(Some(bucket)) ==> {
                    &&& header.string_section_offset + bucket.key_offset >= end
                    &&& header.string_section_offset + bucket.prefix_offset >= end
                    &&& header.string_section_offset + bucket.suffix_offset >= end
                })
        },
    ensures
        spec_parse_headermap(
            spec_byte_swapped_encoding(
                bytes,
                spec_parse_header(bytes)->Ok_0.header.bucket_count as int,
            ),
            fail_on_bucket_error,
        ) == spec_parse_headermap(bytes, fail_on_bucket_error),
{
    let parse_result = spec_parse_header(bytes)->Ok_0;
    let header = parse_result.header;
    let bucket_count = header.bucket_count as int;
    lemma_swab_header(bytes, bucket_count);
    lemma_swab_entries(bytes, bucket_count, header, fail_on_bucket_error, bucket_count);
}

} // verus!
