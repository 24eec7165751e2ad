//! Rendering of entries as plain text, one per line in the format
//! `key -> prefixsuffix`.

use vstd::prelude::*;
use vstd::string::StringSliceAdditionalSpecFns;
use crate::entry::Entry;

verus! {

/// The output line for one entry: its key, an arrow, and the concatenation
/// of its prefix and suffix, ended by a newline.
pub open spec fn spec_text_line(entry: (Seq<u8>, Seq<u8>, Seq<u8>)) -> Seq<u8> {
    entry.0 + seq![32u8, 45u8, 62u8, 32u8] + entry.1 + entry.2 + seq![10u8]
}

/// The output lines of all entries from position `from` on.
pub open spec fn spec_text_lines(entries: Seq<(Seq<u8>, Seq<u8>, Seq<u8>)>, from: int) -> Seq<u8>
    decreases entries.len() - from,
{
    if from < 0 || from >= entries.len() {
        Seq::empty()
    } else {
        spec_text_line(entries[from]) + spec_text_lines(entries, from + 1)
    }
}

/// Appends the bytes of `string` to `output`.
fn append_str_bytes(output: &mut Vec<u8>, string: &str)
    ensures
        final(output)@ == old(output)@ + string.spec_bytes(),
{
    let bytes: &[u8] = string.as_bytes();
    let ghost orig = output@;
    let mut index: usize = 0;
    while index < bytes.len()
        invariant
            index <= bytes@.len(),
            bytes@ == string.spec_bytes(),
            output@ == orig + bytes@.take(index as int),
        decreases bytes@.len() - index,
    {
        output.push(*vstd::slice::slice_index_get(bytes, index));
        proof {
            assert(output@ =~= orig + bytes@.take(index + 1));
        }
        index = index + 1;
    }
    proof {
        assert(orig + bytes@.take(bytes@.len() as int) =~= orig + bytes@);
    }
}

/// Renders `entries` as text, one line per entry, in the order given.
#[verifier::rlimit(100)]
pub fn print_text_entries(entries: &[Entry]) -> (output: Vec<u8>)
    ensures
        output@ == spec_text_lines(entries@.map_values(|entry: Entry| entry@), 0),
{
    let ghost model = entries@.map_values(|entry: Entry| entry@);
    let mut output: Vec<u8> = Vec::new();
    proof {
        assert(output@ =~= Seq::<u8>::empty());
    }
    let mut index: usize = 0;
    while index < entries.len()
        invariant
            index <= entries@.len(),
            model == entries@.map_values(|entry: Entry| entry@),
            output@ + spec_text_lines(model, index as int) == spec_text_lines(model, 0),
        decreases entries@.len() - index,
    {
        let ghost output_before_line = output@;
        let entry: &Entry = vstd::slice::slice_index_get(entries, index);
        append_str_bytes(&mut output, entry.key);
        output.push(32);
        output.push(45);
        output.push(62);
        output.push(32);
        append_str_bytes(&mut output, entry.prefix);
        append_str_bytes(&mut output, entry.suffix);
        output.push(10);
        proof {
            assert(output@ =~= output_before_line + spec_text_line(model[index as int]));
            assert(output@ + spec_text_lines(model, index + 1) =~= output_before_line
                + spec_text_lines(model, index as int));
        }
        index = index + 1;
    }
    output
}

} // verus!
