//! Opinionated cross-platform, optionally case-insensitive path element normalization.
//!
//! [`PathElementCS`] (case-sensitive), [`PathElementCI`] (case-insensitive), and
//! [`PathElement`] (runtime-selected) take a raw path element name, validate it,
//! normalize it to a canonical form, and compute an OS-compatible presentation form.
//!
//! # Normalization pipeline
//!
//! 0. **Byte decoding** (only for `from_bytes`): invalid UTF-8 sequences become U+FFFD.
//! 1. **NFD decomposition**, so that NFD (macOS) and NFC inputs agree.
//! 2. **Whitespace trimming** of leading and trailing `White_Space` characters that are
//!    not control characters.
//! 3. **Fullwidth-to-ASCII mapping** (U+FF01..U+FF5E to U+0021..U+007E), which undoes
//!    the Windows compatibility mapping.
//! 4. **Validation**: empty names, `.`, `..`, and names containing `\0`, control
//!    characters, a BOM (U+FEFF), `/`, or unassigned characters are rejected.
//! 5. **NFC composition**.
//!
//! In **case-insensitive** mode the CS-normalized name then goes through NFD, Unicode
//! `toCasefold()`, a fixup for dotless ı and dots above soft-dotted letters, and NFC.
//!
//! Every function states its behaviour as a contract over Unicode sequences, proved by
//! Verus; the Unicode algorithms themselves come from ICU4X (Unicode 17.0.0).

mod case_sensitivity;
mod error;
pub mod java_modified_utf8;
pub mod laws;
pub mod normalize;
pub mod os;
mod path_element;
pub mod unicode;
pub mod utils;

pub use case_sensitivity::{
    CaseInsensitive, CaseSensitive, CaseSensitivity, IntoSensitivity, Sensitivity,
};
pub use error::{Error, ErrorKind, Result, ResultKind};
pub use normalize::{
    fixup_case_fold, is_whitespace_like, map_fullwidth, normalize_ci_from_normalized_cs,
    normalize_cs, trim_whitespace_like, unmap_control_chars, unmap_fullwidth,
    validate_path_element,
};
pub use path_element::{
    IntoCowBytes, IntoCowStr, PathElement, PathElementCI, PathElementCS, PathElementGeneric,
};
