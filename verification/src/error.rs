use vstd::prelude::*;

verus! {

/// The kind of error that occurred during path element normalization or validation.
///
/// See [`Error`] for the full error type, which also carries the original input string.
#[derive(Debug, Clone, Copy, PartialEq, Eq, Structural)]
#[non_exhaustive]
pub enum ErrorKind {
    /// The name is empty (or becomes empty after whitespace trimming).
    Empty,
    /// The name is `.`, the current directory marker.
    CurrentDirectoryMarker,
    /// The name is `..`, the parent directory marker.
    ParentDirectoryMarker,
    /// The name contains a forward slash (`/`), which is a path separator.
    ContainsForwardSlash,
    /// The name contains a null byte (`\0`), which all OSes treat as a string
    /// terminator, silently truncating the name.
    ContainsNullByte,
    /// The name contains a Unicode control character (general category `Cc`).
    ContainsControlCharacter,
    /// The name contains a byte order mark (U+FEFF).
    ContainsBom,
    /// The name contains a character that is unassigned in Unicode.
    ContainsUnassignedChar,
}

/// The human-readable description of an error kind.
pub open spec fn spec_kind_message(kind: ErrorKind) -> Seq<char> {
    match kind {
        ErrorKind::Empty => "empty path element"@,
        ErrorKind::CurrentDirectoryMarker => "current directory marker"@,
        ErrorKind::ParentDirectoryMarker => "parent directory marker"@,
        ErrorKind::ContainsForwardSlash => "contains forward slash"@,
        ErrorKind::ContainsNullByte => "contains null byte"@,
        ErrorKind::ContainsControlCharacter => "contains control character"@,
        ErrorKind::ContainsBom => "contains byte order mark"@,
        ErrorKind::ContainsUnassignedChar => "contains unassigned character"@,
    }
}

/// The `Debug` rendering of a string (quoted and escaped), as std formats it.
pub uninterp spec fn spec_debug_str(s: Seq<char>) -> Seq<char>;

/// Formats `s` with `{:?}` (std's `Debug` for `str`).
///
/// Trusted: the result is std's `Debug` rendering of `s`, which depends on `s` alone.
#[verifier::external_body]
fn debug_str(s: &str) -> (r: String)
    ensures
        r@ == spec_debug_str(s@),
{
    format!("{:?}", s)
}

impl ErrorKind {
    /// Converts this error kind into an [`Error`], attaching the original input string.
    pub fn into_error(self, original: String) -> (e: Error)
        ensures
            e.spec_kind() == self,
            e.spec_original() == original@,
    {
        Error { original, kind: self }
    }

    /// The description of this error kind (what its `Display` prints).
    pub fn to_string(&self) -> (r: String)
        ensures
            r@ == spec_kind_message(*self),
    {
        let s = match self {
            ErrorKind::Empty => "empty path element",
            ErrorKind::CurrentDirectoryMarker => "current directory marker",
            ErrorKind::ParentDirectoryMarker => "parent directory marker",
            ErrorKind::ContainsForwardSlash => "contains forward slash",
            ErrorKind::ContainsNullByte => "contains null byte",
            ErrorKind::ContainsControlCharacter => "contains control character",
            ErrorKind::ContainsBom => "contains byte order mark",
            ErrorKind::ContainsUnassignedChar => "contains unassigned character",
        };
        String::from_str(s)
    }
}

/// An error that occurred during path element normalization or validation.
///
/// Contains the [`ErrorKind`] and the original input string that caused the error.
#[derive(Debug)]
pub struct Error {
    original: String,
    kind: ErrorKind,
}

impl Error {
    /// The kind of this error.
    pub closed spec fn spec_kind(&self) -> ErrorKind {
        self.kind
    }

    /// The original input string of this error.
    pub closed spec fn spec_original(&self) -> Seq<char> {
        self.original@
    }

    /// Returns the kind of error.
    pub fn kind(&self) -> (r: &ErrorKind)
        ensures
            *r == self.spec_kind(),
    {
        &self.kind
    }

    /// Consumes `self` and returns the [`ErrorKind`].
    pub fn into_kind(self) -> (r: ErrorKind)
        ensures
            r == self.spec_kind(),
    {
        self.kind
    }

    /// Returns the original input string that caused the error.
    pub fn original(&self) -> (r: &str)
        ensures
            r@ == self.spec_original(),
    {
        self.original.as_str()
    }

    /// The text that `Display` prints for this error: the kind's description, followed
    /// by `": "` and the quoted original when the original is not empty.
    pub fn to_string(&self) -> (r: String)
        ensures
            r@ == if self.spec_original().len() == 0 {
                spec_kind_message(self.spec_kind())
            } else {
                spec_kind_message(self.spec_kind()) + ": "@ + spec_debug_str(self.spec_original())
            },
    {
        let mut r = self.kind.to_string();
        if self.original.as_str().unicode_len() != 0 {
            r.append(": ");
            let quoted = debug_str(self.original.as_str());
            r.append(quoted.as_str());
        }
        r
    }
}

/// A [`Result`](core::result::Result) type alias using this crate's [`Error`].
pub type Result<T> = core::result::Result<T, Error>;

/// A [`Result`](core::result::Result) type alias using [`ErrorKind`] directly.
pub type ResultKind<T> = core::result::Result<T, ErrorKind>;

} // verus!
