//! Reader for the binary "headermap" file format used by C/C++ header-search
//! tooling: a fixed header, an open-addressed bucket array of string-table
//! offsets, and a string section of NUL-terminated UTF-8 strings.
//!
//! The decoding pipeline is verified: every byte access is bounds-checked,
//! every structural invariant of the format is stated in a contract, and the
//! result of each parsing function is pinned to a specification-level model
//! of the format.

pub mod types;
pub mod bucket;
pub mod byte_decoder;
pub mod entry;
pub mod enumerate;
pub mod header;
pub mod json;
pub mod laws;
pub mod text;
pub mod utility;

pub use types::MagicType;
pub use types::VersionType;
pub use types::ReservedType;
pub use types::StringSectionOffsetType;
pub use types::StringCountType;
pub use types::BucketCountType;
pub use types::MaxValueLength;
pub use types::STRING_SECTION_OFFSET_RESERVED;
pub use types::VERSION_1;
pub use types::RESERVED;
