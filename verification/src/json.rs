//! Rendering of entries as a JSON dictionary, one line per entry in the
//! format `"key": "prefixsuffix"`.
//!
//! The renderer produces the exact output bytes; writing them anywhere is
//! the caller's business.

use vstd::prelude::*;
use vstd::string::StringSliceAdditionalSpecFns;
use crate::entry::Entry;

verus! {

/// ASCII code of the uppercase hexadecimal digit for `value` (below 16).
pub open spec fn spec_hex_digit(value: u8) -> u8
    recommends
        value < 16,
{
    if value < 10 {
        (48 + value) as u8
    } else {
        (55 + value) as u8
    }
}

/// The bytes emitted for one string byte: control bytes (below 0x20) become
/// four uppercase hex digits, backslash and double quote gain a backslash,
/// everything else passes through.
pub open spec fn spec_escape_byte(byte: u8) -> Seq<u8> {
    if byte < 0x20 {
        seq![48u8, 48u8, spec_hex_digit(byte / 16), spec_hex_digit(byte % 16)]
    } else if byte == 0x5C || byte == 0x22 {
        seq![0x5Cu8, byte]
    } else {
        seq![byte]
    }
}

/// The escaped form of a whole byte string.
pub open spec fn spec_escape_bytes(bytes: Seq<u8>) -> Seq<u8>
    decreases bytes.len(),
{
    if bytes.len() == 0 {
        Seq::empty()
    } else {
        spec_escape_bytes(bytes.drop_last()) + spec_escape_byte(bytes.last())
    }
}

/// The output line for one entry: `tab_size` spaces, the quoted escaped
/// key, a colon, then the escaped prefix and suffix inside one pair of
/// quotes, a comma unless the entry is the last, and a newline.
pub open spec fn spec_json_line(
    entry: (Seq<u8>, Seq<u8>, Seq<u8>),
    tab_size: u8,
    is_last: bool,
) -> Seq<u8> {
    Seq::new(tab_size as nat, |i: int| 32u8) + seq![34u8] + spec_escape_bytes(entry.0) + seq![
        34u8,
        58u8,
        32u8,
        34u8,
    ] + spec_escape_bytes(entry.1) + spec_escape_bytes(entry.2) + seq![34u8] + (if is_last {
        Seq::<u8>::empty()
    } else {
        seq![44u8]
    }) + seq![10u8]
}

/// The output lines of all entries from position `from` on.
pub open spec fn spec_json_lines(
    entries: Seq<(Seq<u8>, Seq<u8>, Seq<u8>)>,
    tab_size: u8,
    from: int,
) -> Seq<u8>
    decreases entries.len() - from,
{
    if from < 0 || from >= entries.len() {
        Seq::empty()
    } else {
        spec_json_line(entries[from], tab_size, from == entries.len() - 1) + spec_json_lines(
            entries,
            tab_size,
            from + 1,
        )
    }
}

/// The whole rendered document: an opening brace line, one line per entry,
/// and a closing brace line.
pub open spec fn spec_print_json(entries: Seq<(Seq<u8>, Seq<u8>, Seq<u8>)>, tab_size: u8) -> Seq<
    u8,
> {
    seq![123u8, 10u8] + spec_json_lines(entries, tab_size, 0) + seq![125u8, 10u8]
}

/// Appends the escaped form of `string` to `output`.
pub fn write_json_escaped_string(output: &mut Vec<u8>, string: &str)
    ensures
        final(output)@ == old(output)@ + spec_escape_bytes(string.spec_bytes()),
{
    let bytes: &[u8] = string.as_bytes();
    let ghost orig = output@;
    let mut index: usize = 0;
    while index < bytes.len()
        invariant
            index <= bytes@.len(),
            bytes@ == string.spec_bytes(),
            output@ == orig + spec_escape_bytes(bytes@.take(index as int)),
        decreases bytes@.len() - index,
    {
        let byte: u8 = *vstd::slice::slice_index_get(bytes, index);
        if byte < 0x20 {
            output.push(48);
            output.push(48);
            let high: u8 = byte / 16;
            let low: u8 = byte % 16;
            output.push(if high < 10 { 48 + high } else { 55 + high });
            output.push(if low < 10 { 48 + low } else { 55 + low });
        } else if byte == 0x5C || byte == 0x22 {
            output.push(0x5C);
            output.push(byte);
        } else {
            output.push(byte);
        }
        proof {
            assert(bytes@.take(index + 1).drop_last() =~= bytes@.take(index as int));
            assert(output@ =~= orig + spec_escape_bytes(bytes@.take(index + 1)));
        }
        index = index + 1;
    }
    proof {
        assert(bytes@.take(bytes@.len() as int) =~= bytes@);
    }
}

/// Renders `entries` as the bytes of a JSON dictionary, mapping each
/// escaped key to the concatenation of its escaped prefix and suffix, with
/// lines indented by `tab_size` spaces.
#[verifier::rlimit(100)]
pub fn print_json_entries(entries: &[Entry], tab_size: u8) -> (output: Vec<u8>)
    ensures
        output@ == spec_print_json(entries@.map_values(|entry: Entry| entry@), tab_size),
{
    let ghost model = entries@.map_values(|entry: Entry| entry@);
    let mut output: Vec<u8> = Vec::new();
    output.push(123);
    output.push(10);

    let mut index: usize = 0;
    while index < entries.len()
        invariant
            index <= entries@.len(),
            model == entries@.map_values(|entry: Entry| entry@),
            output@ + spec_json_lines(model, tab_size, index as int) == seq![123u8, 10u8]
                + spec_json_lines(model, tab_size, 0),
        decreases entries@.len() - index,
    {
        let ghost output_before_line = output@;
        let entry: &Entry = vstd::slice::slice_index_get(entries, index);

        let mut tab_index: u8 = 0;
        while tab_index < tab_size
            invariant
                tab_index <= tab_size,
                output@ == output_before_line + Seq::new(tab_index as nat, |i: int| 32u8),
            decreases tab_size - tab_index,
        {
            output.push(32);
            proof {
                assert(output@ =~= output_before_line + Seq::new(
                    (tab_index + 1) as nat,
                    |i: int| 32u8,
                ));
            }
            tab_index = tab_index + 1;
        }

        output.push(34);
        write_json_escaped_string(&mut output, entry.key);
        output.push(34);
        output.push(58);
        output.push(32);
        output.push(34);
        write_json_escaped_string(&mut output, entry.prefix);
        write_json_escaped_string(&mut output, entry.suffix);
        output.push(34);
        if index != entries.len() - 1 {
            output.push(44);
        }
        output.push(10);

        proof {
            assert(output@ =~= output_before_line + spec_json_line(
                model[index as int],
                tab_size,
                index == entries@.len() - 1,
            ));
        }
        index = index + 1;
    }

    output.push(125);
    output.push(10);
    proof {
        assert(output@ =~= seq![123u8, 10u8] + spec_json_lines(model, tab_size, 0) + seq![
            125u8,
            10u8,
        ]);
    }
    output
}

} // verus!
