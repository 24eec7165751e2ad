//! The logical, user-visible record produced by enumeration.

use vstd::prelude::*;
use vstd::string::StringSliceAdditionalSpecFns;

verus! {

/// A headermap entry consists of three strings: `key`, `prefix` and `suffix`.
/// Conceptually, each entry represents a map entry from `key` -> `prefix` +
/// `suffix`.
///
/// The `key` is what appears in `#include` directives and gets mapped to an
/// actual path (i.e., `prefix` + `suffix`).
///
/// All three strings borrow from the parsed byte buffer; an entry never owns
/// its characters.
#[derive(Debug)]
pub struct Entry<'a> {
    pub key: &'a str,
    pub prefix: &'a str,
    pub suffix: &'a str,
}

impl<'a> View for Entry<'a> {
    type V = (Seq<u8>, Seq<u8>, Seq<u8>);

    /// An entry is modeled by the UTF-8 bytes of its three strings.
    open spec fn view(&self) -> (Seq<u8>, Seq<u8>, Seq<u8>) {
        (self.key.spec_bytes(), self.prefix.spec_bytes(), self.suffix.spec_bytes())
    }
}

} // verus!
