//! Enumeration of headermap entries: parse the header once, then walk the
//! bucket array in ascending index order, yielding one entry per non-empty
//! bucket.
//!
//! Enumeration is a restartable sequence: `headermap_enumerate_entries`
//! validates the header and returns an enumerator, and each call of
//! [`HeadermapEnumerator::next`] yields the next entry. A caller stops early
//! by simply not advancing further. `parse_headermap` drains the enumerator
//! into a vector.

use vstd::prelude::*;
use crate::bucket::parse_entry_at_bucket_index;
use crate::bucket::spec_entry_at;
use crate::bucket::BucketParseError;
use crate::entry::Entry;
use crate::header::parse_header;
use crate::header::spec_parse_header;
use crate::header::DataHeader;
use crate::header::DataHeaderError;
use crate::header::DataHeaderParseResult;
use crate::types::BucketCountType;

verus! {

/// Any failure of headermap parsing: a structural header error, which always
/// aborts, or a bucket error, which aborts only in strict mode.
#[derive(Debug, Clone, Copy, PartialEq, Eq, Structural)]
pub enum HeadermapError {
    Header(DataHeaderError),
    Bucket(BucketParseError),
}

/// The entries produced by the first `count` buckets, as byte triples
/// (key, prefix, suffix) in ascending bucket order: empty slots yield
/// nothing, and a bucket error either aborts (when `fail_on_bucket_error`
/// is set) or is skipped silently.
pub open spec fn spec_entries(
    bytes: Seq<u8>,
    header: DataHeader,
    swap: bool,
    fail_on_bucket_error: bool,
    count: int,
) -> Result<Seq<(Seq<u8>, Seq<u8>, Seq<u8>)>, BucketParseError>
    decreases count,
{
    if count <= 0 {
        Ok(Seq::empty())
    } else {
        match spec_entries(bytes, header, swap, fail_on_bucket_error, count - 1) {
            Err(e) => Err(e),
            Ok(entries) => match spec_entry_at(bytes, header, (count - 1) as BucketCountType, swap) {
                Ok(None) => Ok(entries),
                Ok(Some(triple)) => Ok(entries.push(triple)),
                Err(e) => if fail_on_bucket_error {
                    Err(e)
                } else {
                    Ok(entries)
                },
            },
        }
    }
}

/// The full result of parsing `bytes`: the entry triples of all buckets, or
/// the header error, or (in strict mode) the first bucket error in index
/// order.
pub open spec fn spec_parse_headermap(bytes: Seq<u8>, fail_on_bucket_error: bool) -> Result<
    Seq<(Seq<u8>, Seq<u8>, Seq<u8>)>,
    HeadermapError,
> {
    match spec_parse_header(bytes) {
        Err(e) => Err(HeadermapError::Header(e)),
        Ok(parse_result) => match spec_entries(
            bytes,
            parse_result.header,
            parse_result.swap_bytes,
            fail_on_bucket_error,
            parse_result.header.bucket_count as int,
        ) {
            Err(e) => Err(HeadermapError::Bucket(e)),
            Ok(entries) => Ok(entries),
        },
    }
}

/// A lazy, cancellable walk over the buckets of a validated headermap.
///
/// `emitted` is the ghost record of the entries yielded so far, so that
/// contracts can say exactly which prefix of the buckets has been consumed.
pub struct HeadermapEnumerator<'a> {
    pub bytes: &'a [u8],
    pub parse_result: DataHeaderParseResult,
    pub fail_on_bucket_error: bool,
    pub next_bucket_index: BucketCountType,
    pub emitted: Ghost<Seq<(Seq<u8>, Seq<u8>, Seq<u8>)>>,
}

impl<'a> HeadermapEnumerator<'a> {
    /// The enumerator walks a buffer whose header parsed to `parse_result`,
    /// stands before bucket `next_bucket_index`, and has yielded exactly the
    /// entries of the buckets before it.
    pub open spec fn wf(self) -> bool {
        &&& spec_parse_header(self.bytes@) == Ok::<DataHeaderParseResult, DataHeaderError>(
            self.parse_result,
        )
        &&& self.next_bucket_index <= self.parse_result.header.bucket_count
        &&& spec_entries(
            self.bytes@,
            self.parse_result.header,
            self.parse_result.swap_bytes,
            self.fail_on_bucket_error,
            self.next_bucket_index as int,
        ) == Ok::<Seq<(Seq<u8>, Seq<u8>, Seq<u8>)>, BucketParseError>(self.emitted@)
    }

    /// Yields the next entry, or `Ok(None)` once every bucket has been
    /// visited. Empty slots are skipped silently; a bucket error is skipped
    /// too unless `fail_on_bucket_error` is set, in which case it is
    /// returned and the enumerator stays before the failing bucket, so that
    /// calling again returns the same error.
    #[verifier::rlimit(100)]
    #[verifier::loop_isolation(false)]
    pub fn next(&mut self) -> (result: Result<Option<Entry<'a>>, HeadermapError>)
        requires
            old(self).wf(),
        ensures
            final(self).wf(),
            final(self).bytes == old(self).bytes,
            final(self).parse_result == old(self).parse_result,
            final(self).fail_on_bucket_error == old(self).fail_on_bucket_error,
            old(self).next_bucket_index <= final(self).next_bucket_index,
            match result {
                Ok(Some(entry)) => {
                    &&& final(self).emitted@ == old(self).emitted@.push(entry@)
                    &&& old(self).next_bucket_index < final(self).next_bucket_index
                    &&& spec_entry_at(
                        old(self).bytes@,
                        old(self).parse_result.header,
                        (final(self).next_bucket_index - 1) as BucketCountType,
                        old(self).parse_result.swap_bytes,
                    ) == Ok::<Option<(Seq<u8>, Seq<u8>, Seq<u8>)>, BucketParseError>(
                        Some(entry@),
                    )
                },
                Ok(None) => {
                    &&& final(self).emitted@ == old(self).emitted@
                    &&& final(self).next_bucket_index
                        == old(self).parse_result.header.bucket_count
                },
                Err(e) => {
                    &&& final(self).emitted@ == old(self).emitted@
                    &&& old(self).fail_on_bucket_error
                    &&& final(self).next_bucket_index
                        < old(self).parse_result.header.bucket_count
                    &&& (e matches HeadermapError::Bucket(bucket_error) && spec_entry_at(
                        old(self).bytes@,
                        old(self).parse_result.header,
                        final(self).next_bucket_index,
                        old(self).parse_result.swap_bytes,
                    ) == Err::<Option<(Seq<u8>, Seq<u8>, Seq<u8>)>, BucketParseError>(
                        bucket_error,
                    ))
                },
            },
    {
        let ghost orig = *self;
        while self.next_bucket_index < self.parse_result.header.bucket_count
            invariant
                self.wf(),
                self.bytes == orig.bytes,
                self.parse_result == orig.parse_result,
                self.fail_on_bucket_error == orig.fail_on_bucket_error,
                orig.next_bucket_index <= self.next_bucket_index,
                self.emitted@ == orig.emitted@,
            decreases self.parse_result.header.bucket_count - self.next_bucket_index,
        {
            let index = self.next_bucket_index;
            let entry_result = parse_entry_at_bucket_index(
                self.bytes,
                &self.parse_result.header,
                index,
                self.parse_result.swap_bytes,
            );
            match entry_result {
                Ok(Some(entry)) => {
                    self.next_bucket_index = index + 1;
                    proof {
                        self.emitted@ = self.emitted@.push(entry@);
                    }
                    return Ok(Some(entry));
                },
                Ok(None) => {
                    self.next_bucket_index = index + 1;
                },
                Err(e) => {
                    if self.fail_on_bucket_error {
                        return Err(HeadermapError::Bucket(e));
                    }
                    self.next_bucket_index = index + 1;
                },
            }
        }
        Ok(None)
    }
}

/// Validates the header of `bytes` and returns an enumerator standing
/// before the first bucket. Any header error aborts immediately.
pub fn headermap_enumerate_entries<'a>(bytes: &'a [u8], fail_on_bucket_error: bool) -> (result:
    Result<HeadermapEnumerator<'a>, HeadermapError>)
    ensures
        match result {
            Ok(enumerator) => {
                &&& enumerator.wf()
                &&& enumerator.bytes == bytes
                &&& spec_parse_header(bytes@) == Ok::<DataHeaderParseResult, DataHeaderError>(
                    enumerator.parse_result,
                )
                &&& enumerator.fail_on_bucket_error == fail_on_bucket_error
                &&& enumerator.next_bucket_index == 0
                &&& enumerator.emitted@ == Seq::<(Seq<u8>, Seq<u8>, Seq<u8>)>::empty()
            },
            Err(e) => {
                &&& e matches HeadermapError::Header(header_error)
                    && spec_parse_header(bytes@) == Err::<DataHeaderParseResult, DataHeaderError>(
                    header_error,
                )
            },
        },
{
    match parse_header(bytes) {
        Ok(parse_result) => Ok(
            HeadermapEnumerator {
                bytes,
                parse_result,
                fail_on_bucket_error,
                next_bucket_index: 0,
                emitted: Ghost(Seq::empty()),
            },
        ),
        Err(e) => Err(HeadermapError::Header(e)),
    }
}

/// In strict mode, a bucket error is fatal: once the walk that yielded the
/// buckets before `index` succeeds and bucket `index` fails, every longer
/// strict walk fails with exactly that first error.
pub proof fn lemma_entries_error_persists(
    bytes: Seq<u8>,
    header: DataHeader,
    swap: bool,
    index: int,
    count: int,
    error: BucketParseError,
)
    requires
        0 <= index < count,
        spec_entries(bytes, header, swap, true, index) is Ok,
        spec_entry_at(bytes, header, index as BucketCountType, swap) == Err::<
            Option<(Seq<u8>, Seq<u8>, Seq<u8>)>,
            BucketParseError,
        >(error),
    ensures
        spec_entries(bytes, header, swap, true, count) == Err::<
            Seq<(Seq<u8>, Seq<u8>, Seq<u8>)>,
            BucketParseError,
        >(error),
    decreases count,
{
    if count == index + 1 {
    } else {
        lemma_entries_error_persists(bytes, header, swap, index, count - 1, error);
    }
}

/// Parses a headermap and returns a list of entries. If
/// `fail_on_bucket_error` is `true`, then if there's a single bucket error,
/// the method will return an error. Otherwise, any bucket errors are ignored
/// and partial results would be returned.
pub fn parse_headermap<'a>(bytes: &'a [u8], fail_on_bucket_error: bool) -> (result: Result<
    Vec<Entry<'a>>,
    HeadermapError,
>)
    ensures
        match result {
            Ok(entries) => spec_parse_headermap(bytes@, fail_on_bucket_error) matches Ok(model)
                && entries@.map_values(|entry: Entry<'a>| entry@) == model,
            Err(e) => spec_parse_headermap(bytes@, fail_on_bucket_error) == Err::<
                Seq<(Seq<u8>, Seq<u8>, Seq<u8>)>,
                HeadermapError,
            >(e),
        },
{
    let mut enumerator = match headermap_enumerate_entries(bytes, fail_on_bucket_error) {
        Ok(enumerator) => enumerator,
        Err(e) => {
            return Err(e);
        },
    };
    let mut accumulator: Vec<Entry<'a>> = Vec::new();
    proof {
        assert(accumulator@.map_values(|entry: Entry<'a>| entry@) =~= enumerator.emitted@);
    }
    loop
        invariant
            enumerator.wf(),
            enumerator.bytes == bytes,
            spec_parse_header(bytes@) == Ok::<DataHeaderParseResult, DataHeaderError>(
                enumerator.parse_result,
            ),
            enumerator.fail_on_bucket_error == fail_on_bucket_error,
            accumulator@.map_values(|entry: Entry<'a>| entry@) == enumerator.emitted@,
        decreases enumerator.parse_result.header.bucket_count - enumerator.next_bucket_index,
    {
        match enumerator.next() {
            Ok(Some(entry)) => {
                accumulator.push(entry);
                proof {
                    assert(accumulator@.map_values(|entry: Entry<'a>| entry@) =~= enumerator.emitted@);
                }
            },
            Ok(None) => {
                return Ok(accumulator);
            },
            Err(e) => {
                proof {
                    if let HeadermapError::Bucket(bucket_error) = e {
                        lemma_entries_error_persists(
                            bytes@,
                            enumerator.parse_result.header,
                            enumerator.parse_result.swap_bytes,
                            enumerator.next_bucket_index as int,
                            enumerator.parse_result.header.bucket_count as int,
                            bucket_error,
                        );
                    }
                }
                return Err(e);
            },
        }
    }
}

} // verus!
