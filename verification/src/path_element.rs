use std::borrow::Cow;

use crate::case_sensitivity::{
    CaseInsensitive, CaseSensitive, CaseSensitivity, IntoSensitivity, Sensitivity,
};
use crate::error::{Error, ErrorKind, Result, ResultKind};
use crate::java_modified_utf8::{spec_utf8_lossy, utf8_lossy};
use crate::normalize::{
    normalize_ci_from_normalized_cs, normalize_cs, spec_normalize_ci_from_cs, spec_normalize_cs,
};
use crate::unicode::spec_nfc;
use crate::utils::{cow_as_str, lemma_identity_iff_equal, occurs, str_chars, SubstringOrOwned};
use core::cmp::Ordering;

use vstd::prelude::*;
use vstd::std_specs::cmp::{PartialEqSpec, PartialEqSpecImpl, PartialOrdSpec, PartialOrdSpecImpl};
use vstd::std_specs::convert::{FromSpec, FromSpecImpl, TryFromSpec, TryFromSpecImpl};
use vstd::utf8::{decode_utf8, valid_utf8};

verus! {

// ---------------------------------------------------------------------------
// Constructor inputs
// ---------------------------------------------------------------------------

/// A string input for the path element constructors: `&str`, `String`, `&String` or
/// `Cow<str>`.
pub trait IntoCowStr<'a>: Sized {
    /// The characters of the input.
    spec fn spec_chars(&self) -> Seq<char>;

    /// The input borrows its characters (rather than owning them).
    spec fn spec_is_borrowed(&self) -> bool;

    /// Converts the input into a `Cow<str>`, borrowing exactly when the input borrows.
    fn into_cow_str(self) -> (r: Cow<'a, str>)
        ensures
            r@ == self.spec_chars(),
            r is Borrowed <==> self.spec_is_borrowed(),
    ;
}

impl<'a> IntoCowStr<'a> for &'a str {
    open spec fn spec_chars(&self) -> Seq<char> {
        (**self)@
    }

    open spec fn spec_is_borrowed(&self) -> bool {
        true
    }

    fn into_cow_str(self) -> (r: Cow<'a, str>) {
        Cow::Borrowed(self)
    }
}

impl<'a> IntoCowStr<'a> for &'a String {
    open spec fn spec_chars(&self) -> Seq<char> {
        (**self)@
    }

    open spec fn spec_is_borrowed(&self) -> bool {
        true
    }

    fn into_cow_str(self) -> (r: Cow<'a, str>) {
        Cow::Borrowed(self.as_str())
    }
}

impl<'a> IntoCowStr<'a> for String {
    open spec fn spec_chars(&self) -> Seq<char> {
        self@
    }

    open spec fn spec_is_borrowed(&self) -> bool {
        false
    }

    fn into_cow_str(self) -> (r: Cow<'a, str>) {
        Cow::Owned(self)
    }
}

impl<'a> IntoCowStr<'a> for Cow<'a, str> {
    open spec fn spec_chars(&self) -> Seq<char> {
        self@
    }

    open spec fn spec_is_borrowed(&self) -> bool {
        self is Borrowed
    }

    fn into_cow_str(self) -> (r: Cow<'a, str>) {
        self
    }
}

/// A byte input for the path element constructors: `&[u8]`, `Vec<u8>`, `&Vec<u8>` or
/// `Cow<[u8]>`.
pub trait IntoCowBytes<'a>: Sized {
    /// The bytes of the input.
    spec fn spec_bytes(&self) -> Seq<u8>;

    /// The input borrows its bytes (rather than owning them).
    spec fn spec_is_borrowed(&self) -> bool;

    /// Converts the input into a `Cow<[u8]>`, borrowing exactly when the input borrows.
    fn into_cow_bytes(self) -> (r: Cow<'a, [u8]>)
        ensures
            r@ == self.spec_bytes(),
            r is Borrowed <==> self.spec_is_borrowed(),
    ;
}

impl<'a> IntoCowBytes<'a> for &'a [u8] {
    open spec fn spec_bytes(&self) -> Seq<u8> {
        (**self)@
    }

    open spec fn spec_is_borrowed(&self) -> bool {
        true
    }

    fn into_cow_bytes(self) -> (r: Cow<'a, [u8]>) {
        Cow::Borrowed(self)
    }
}

impl<'a> IntoCowBytes<'a> for &'a Vec<u8> {
    open spec fn spec_bytes(&self) -> Seq<u8> {
        (**self)@
    }

    open spec fn spec_is_borrowed(&self) -> bool {
        true
    }

    fn into_cow_bytes(self) -> (r: Cow<'a, [u8]>) {
        Cow::Borrowed(self.as_slice())
    }
}

impl<'a> IntoCowBytes<'a> for Vec<u8> {
    open spec fn spec_bytes(&self) -> Seq<u8> {
        self@
    }

    open spec fn spec_is_borrowed(&self) -> bool {
        false
    }

    fn into_cow_bytes(self) -> (r: Cow<'a, [u8]>) {
        Cow::Owned(self)
    }
}

impl<'a> IntoCowBytes<'a> for Cow<'a, [u8]> {
    open spec fn spec_bytes(&self) -> Seq<u8> {
        self@
    }

    open spec fn spec_is_borrowed(&self) -> bool {
        self is Borrowed
    }

    fn into_cow_bytes(self) -> (r: Cow<'a, [u8]>) {
        self
    }
}

/// An owned copy of the characters of a `Cow<str>`.
fn cow_str_into_owned(c: Cow<'_, str>) -> (r: String)
    ensures
        r@ == c@,
{
    match c {
        Cow::Borrowed(s) => s.to_owned(),
        Cow::Owned(s) => s,
    }
}

/// Decodes constructor bytes: invalid UTF-8 sequences become U+FFFD
/// (`String::from_utf8_lossy`); the result borrows exactly when the bytes were
/// borrowed and valid UTF-8.
fn decode_bytes_lossy<'a>(bytes: Cow<'a, [u8]>) -> (r: Cow<'a, str>)
    ensures
        r@ == spec_utf8_lossy(bytes@),
        valid_utf8(bytes@) ==> r@ == decode_utf8(bytes@),
        r is Borrowed <==> (bytes is Borrowed && valid_utf8(bytes@)),
{
    match bytes {
        Cow::Borrowed(b) => utf8_lossy(b),
        Cow::Owned(v) => {
            let s = cow_str_into_owned(utf8_lossy(v.as_slice()));
            Cow::Owned(s)
        },
    }
}

// ---------------------------------------------------------------------------
// The path element
// ---------------------------------------------------------------------------

/// The normalized form of `original` under case sensitivity `cs`: the CS normalization,
/// followed in case-insensitive mode by case folding.
pub open spec fn spec_path_normalized(original: Seq<char>, cs: CaseSensitivity) -> ResultKind<
    Seq<char>,
> {
    match spec_normalize_cs(original) {
        Err(k) => Err(k),
        Ok(n) => Ok(
            match cs {
                CaseSensitivity::Sensitive => n,
                CaseSensitivity::Insensitive => spec_normalize_ci_from_cs(n),
            },
        ),
    }
}

/// The OS-compatible form of `original` on this platform (neither Windows nor Apple):
/// its case-sensitive normalization.
pub open spec fn spec_path_os_compatible(original: Seq<char>) -> ResultKind<Seq<char>> {
    spec_normalize_cs(original)
}

/// Case-sensitive path element (compile-time case sensitivity).
pub type PathElementCS<'a> = PathElementGeneric<'a, CaseSensitive>;

/// Case-insensitive path element (compile-time case sensitivity).
pub type PathElementCI<'a> = PathElementGeneric<'a, CaseInsensitive>;

/// Path element with runtime-selected case sensitivity.
pub type PathElement<'a> = PathElementGeneric<'a, CaseSensitivity>;

/// A validated, normalized single path element.
///
/// `PathElementGeneric` takes a raw path element name, validates it, normalizes it
/// through a Unicode normalization pipeline, and computes an OS-compatible presentation
/// form. All three views -- original, normalized, and OS-compatible -- are accessible
/// without re-computation.
///
/// Equality and ordering are based on the **normalized** form. Where possible, the
/// normalized and OS-compatible forms borrow from the original string.
#[derive(Debug)]
pub struct PathElementGeneric<'a, S: Sensitivity> {
    original: Cow<'a, str>,
    /// Relative to `original`.
    normalized: SubstringOrOwned,
    /// Relative to `original`.
    os_compatible: SubstringOrOwned,
    case_sensitivity: S,
}

impl<'a, S: Sensitivity> PathElementGeneric<'a, S> {
    /// The stored forms lie within the original and are what its normalization gives.
    #[verifier::type_invariant]
    spec fn inv(self) -> bool {
        &&& self.normalized.wf(self.original@)
        &&& self.normalized.canonical(self.original@)
        &&& self.os_compatible.wf(self.original@)
        &&& self.os_compatible.canonical(self.original@)
        &&& spec_path_normalized(self.original@, self.case_sensitivity.spec_sensitivity()) == Ok::<
            Seq<char>,
            ErrorKind,
        >(self.normalized.view_in(self.original@))
        &&& spec_path_os_compatible(self.original@) == Ok::<Seq<char>, ErrorKind>(
            self.os_compatible.view_in(self.original@),
        )
        &&& spec_normalize_cs(self.os_compatible.view_in(self.original@)) == Ok::<
            Seq<char>,
            ErrorKind,
        >(self.os_compatible.view_in(self.original@))
        &&& spec_nfc(self.normalized.view_in(self.original@)) == self.normalized.view_in(
            self.original@,
        )
    }

    /// The original input string.
    pub closed spec fn spec_original(&self) -> Seq<char> {
        self.original@
    }

    /// The original input string is borrowed.
    pub closed spec fn spec_is_borrowed(&self) -> bool {
        self.original is Borrowed
    }

    /// The case sensitivity of this path element.
    pub closed spec fn spec_case_sensitivity(&self) -> CaseSensitivity {
        self.case_sensitivity.spec_sensitivity()
    }

    /// The normalized form: the normalization of the original.
    pub open spec fn spec_normalized(&self) -> Seq<char> {
        spec_path_normalized(self.spec_original(), self.spec_case_sensitivity())->Ok_0
    }

    /// The OS-compatible form: on this platform, the CS normalization of the original.
    pub open spec fn spec_os_compatible(&self) -> Seq<char> {
        spec_path_os_compatible(self.spec_original())->Ok_0
    }
}

impl<'a, S: Sensitivity + Copy> Clone for PathElementGeneric<'a, S> {
    fn clone(&self) -> (r: Self)
        ensures
            r.spec_original() == self.spec_original(),
            r.spec_is_borrowed() == self.spec_is_borrowed(),
            r.spec_case_sensitivity() == self.spec_case_sensitivity(),
    {
        proof {
            use_type_invariant(self);
        }
        let original = match &self.original {
            Cow::Borrowed(s) => Cow::Borrowed(*s),
            Cow::Owned(s) => Cow::Owned(s.clone()),
        };
        PathElementGeneric {
            original,
            normalized: self.normalized.clone(),
            os_compatible: self.os_compatible.clone(),
            case_sensitivity: self.case_sensitivity,
        }
    }
}

/// What a constructor returns for the input `original` (of which `borrowed` says whether
/// it was borrowed) and the case sensitivity `cs`: a path element holding the input,
/// exactly when the input normalizes; otherwise the normalization error, with the
/// input attached.
pub open spec fn spec_constructed<'a, S: Sensitivity>(
    r: Result<PathElementGeneric<'a, S>>,
    original: Seq<char>,
    borrowed: bool,
    cs: CaseSensitivity,
) -> bool {
    match r {
        Ok(pe) => {
            &&& spec_normalize_cs(original) is Ok
            &&& pe.spec_original() == original
            &&& pe.spec_is_borrowed() == borrowed
            &&& pe.spec_case_sensitivity() == cs
            &&& spec_normalize_cs(pe.spec_os_compatible()) == Ok::<Seq<char>, ErrorKind>(
                pe.spec_os_compatible(),
            )
        },
        Err(e) => {
            &&& spec_normalize_cs(original) == Err::<Seq<char>, ErrorKind>(e.spec_kind())
            &&& e.spec_original() == original
        },
    }
}

/// Validates, normalizes, and computes the OS-compatible form of `original`, returning
/// the two forms relative to `original`.
fn build_fields(original: &str, cs: CaseSensitivity) -> (r: Result<
    (SubstringOrOwned, SubstringOrOwned),
>)
    ensures
        match r {
            Ok((normalized, os_compatible)) => {
                &&& normalized.wf(original@)
                &&& normalized.canonical(original@)
                &&& os_compatible.wf(original@)
                &&& os_compatible.canonical(original@)
                &&& spec_path_normalized(original@, cs) == Ok::<Seq<char>, ErrorKind>(
                    normalized.view_in(original@),
                )
                &&& spec_path_os_compatible(original@) == Ok::<Seq<char>, ErrorKind>(
                    os_compatible.view_in(original@),
                )
                &&& spec_normalize_cs(os_compatible.view_in(original@)) == Ok::<
                    Seq<char>,
                    ErrorKind,
                >(os_compatible.view_in(original@))
                &&& spec_nfc(normalized.view_in(original@)) == normalized.view_in(original@)
            },
            Err(e) => {
                &&& spec_normalize_cs(original@) == Err::<Seq<char>, ErrorKind>(e.spec_kind())
                &&& e.spec_original() == original@
            },
        },
{
    let cs_normalized = match normalize_cs(original) {
        Ok(n) => n,
        Err(k) => {
            return Err(k.into_error(original.to_owned()));
        },
    };
    let normalized = match cs {
        CaseSensitivity::Sensitive => SubstringOrOwned::new(cow_as_str(&cs_normalized), original),
        CaseSensitivity::Insensitive => {
            let ci = normalize_ci_from_normalized_cs(cow_as_str(&cs_normalized));
            SubstringOrOwned::new(cow_as_str(&ci), original)
        },
    };
    // On this platform the OS-compatible form is the case-sensitive normalized form.
    let os_compatible = SubstringOrOwned::new(cow_as_str(&cs_normalized), original);
    Ok((normalized, os_compatible))
}

impl<'a, S: Sensitivity> PathElementGeneric<'a, S> {
    /// Creates a new path element with an explicit case-sensitivity marker.
    ///
    /// This is the most general string constructor. The typed aliases and the
    /// runtime-dynamic constructors delegate to this method.
    ///
    /// # Errors
    ///
    /// Returns [`Error`] if the name is invalid (see
    /// [`validate_path_element`](crate::validate_path_element)).
    pub fn with_case_sensitivity(
        original: impl IntoCowStr<'a>,
        case_sensitivity: impl IntoSensitivity<S>,
    ) -> (r: Result<Self>)
        ensures
            spec_constructed(
                r,
                original.spec_chars(),
                original.spec_is_borrowed(),
                case_sensitivity.spec_target(),
            ),
    {
        let original = original.into_cow_str();
        let case_sensitivity = case_sensitivity.into_sensitivity();
        let cs = case_sensitivity.to_case_sensitivity();
        let (normalized, os_compatible) = match build_fields(cow_as_str(&original), cs) {
            Ok(fields) => fields,
            Err(e) => {
                return Err(e);
            },
        };
        Ok(PathElementGeneric { original, normalized, os_compatible, case_sensitivity })
    }

    /// Creates a new path element from bytes with an explicit case-sensitivity marker.
    ///
    /// Invalid UTF-8 is accepted: each invalid sequence becomes U+FFFD
    /// (`String::from_utf8_lossy`). The original borrows the input when the input is
    /// borrowed and valid UTF-8.
    ///
    /// # Errors
    ///
    /// Returns [`Error`] if the decoded name is invalid.
    pub fn from_bytes_with_case_sensitivity(
        original: impl IntoCowBytes<'a>,
        case_sensitivity: impl IntoSensitivity<S>,
    ) -> (r: Result<Self>)
        ensures
            spec_constructed(
                r,
                spec_utf8_lossy(original.spec_bytes()),
                original.spec_is_borrowed() && valid_utf8(original.spec_bytes()),
                case_sensitivity.spec_target(),
            ),
            valid_utf8(original.spec_bytes()) ==> spec_utf8_lossy(original.spec_bytes())
                == decode_utf8(original.spec_bytes()),
    {
        let bytes = original.into_cow_bytes();
        let cow_str = decode_bytes_lossy(bytes);
        Self::with_case_sensitivity(cow_str, case_sensitivity)
    }

    /// Returns the case sensitivity of this path element as a [`CaseSensitivity`] enum.
    pub fn case_sensitivity(&self) -> (r: CaseSensitivity)
        ensures
            r == self.spec_case_sensitivity(),
    {
        self.case_sensitivity.to_case_sensitivity()
    }

    /// Returns the original input string, before any normalization.
    pub fn original(&self) -> (r: &str)
        ensures
            r@ == self.spec_original(),
    {
        cow_as_str(&self.original)
    }

    /// Consumes `self` and returns the original input string.
    pub fn into_original(self) -> (r: Cow<'a, str>)
        ensures
            r@ == self.spec_original(),
            r is Borrowed <==> self.spec_is_borrowed(),
    {
        self.original
    }

    /// Returns `true` if the normalized form is identical to the original.
    pub fn is_normalized(&self) -> (r: bool)
        ensures
            r == (self.spec_normalized() == self.spec_original()),
    {
        proof {
            use_type_invariant(self);
            lemma_identity_iff_equal(&self.normalized, self.original@);
        }
        self.normalized.is_identity(cow_as_str(&self.original))
    }

    /// Returns the normalized form of the path element name.
    ///
    /// This is the canonical representation used for equality comparisons and ordering.
    /// In case-sensitive mode it is NFC-normalized; in case-insensitive mode it is
    /// additionally case-folded.
    pub fn normalized(&self) -> (r: &str)
        ensures
            r@ == self.spec_normalized(),
            spec_nfc(r@) == r@,
            self.spec_case_sensitivity() == CaseSensitivity::Sensitive ==> spec_normalize_cs(r@)
                == Ok::<Seq<char>, ErrorKind>(r@),
    {
        proof {
            use_type_invariant(self);
        }
        self.normalized.as_ref(cow_as_str(&self.original))
    }

    /// Consumes `self` and returns the normalized form as a [`Cow`].
    ///
    /// Returns `Cow::Borrowed` when the normalized form is a substring of the original
    /// and the original was itself borrowed.
    pub fn into_normalized(self) -> (r: Cow<'a, str>)
        ensures
            r@ == self.spec_normalized(),
            r is Borrowed <==> (self.spec_is_borrowed() && occurs(
                self.spec_normalized(),
                self.spec_original(),
            )),
    {
        proof {
            use_type_invariant(&self);
        }
        let PathElementGeneric { original, normalized, .. } = self;
        normalized.into_cow(original)
    }

    /// Returns `true` if the OS-compatible form is identical to the original.
    pub fn is_os_compatible(&self) -> (r: bool)
        ensures
            r == (self.spec_os_compatible() == self.spec_original()),
    {
        proof {
            use_type_invariant(self);
            lemma_identity_iff_equal(&self.os_compatible, self.original@);
        }
        self.os_compatible.is_identity(cow_as_str(&self.original))
    }

    /// Returns the OS-compatible presentation form of the path element name.
    ///
    /// Normalizing it again gives it back, and building an element of the same case
    /// sensitivity from it gives the same normalized form.
    pub fn os_compatible(&self) -> (r: &str)
        ensures
            r@ == self.spec_os_compatible(),
            spec_normalize_cs(r@) == Ok::<Seq<char>, ErrorKind>(r@),
            spec_path_normalized(r@, self.spec_case_sensitivity()) == Ok::<Seq<char>, ErrorKind>(
                self.spec_normalized(),
            ),
    {
        proof {
            use_type_invariant(self);
        }
        self.os_compatible.as_ref(cow_as_str(&self.original))
    }

    /// Consumes `self` and returns the OS-compatible form as a [`Cow<str>`](Cow).
    pub fn into_os_compatible(self) -> (r: Cow<'a, str>)
        ensures
            r@ == self.spec_os_compatible(),
            r is Borrowed <==> (self.spec_is_borrowed() && occurs(
                self.spec_os_compatible(),
                self.spec_original(),
            )),
    {
        proof {
            use_type_invariant(&self);
        }
        let PathElementGeneric { original, os_compatible, .. } = self;
        os_compatible.into_cow(original)
    }

    /// Returns `true` if the original string is borrowed (not owned).
    pub fn is_borrowed(&self) -> (r: bool)
        ensures
            r == self.spec_is_borrowed(),
    {
        match &self.original {
            Cow::Borrowed(_) => true,
            Cow::Owned(_) => false,
        }
    }

    /// Returns `true` if the original string is owned (not borrowed).
    pub fn is_owned(&self) -> (r: bool)
        ensures
            r == !self.spec_is_borrowed(),
    {
        match &self.original {
            Cow::Borrowed(_) => false,
            Cow::Owned(_) => true,
        }
    }

    /// Consumes `self` and returns an equivalent `PathElementGeneric` with a `'static`
    /// lifetime by cloning the original string if it was borrowed.
    pub fn into_owned(self) -> (r: PathElementGeneric<'static, S>)
        ensures
            r.spec_original() == self.spec_original(),
            !r.spec_is_borrowed(),
            r.spec_case_sensitivity() == self.spec_case_sensitivity(),
    {
        proof {
            use_type_invariant(&self);
        }
        let PathElementGeneric { original, normalized, os_compatible, case_sensitivity } = self;
        PathElementGeneric {
            original: Cow::Owned(cow_str_into_owned(original)),
            normalized,
            os_compatible,
            case_sensitivity,
        }
    }
}

impl<'a> PathElementGeneric<'a, CaseSensitive> {
    /// Creates a new case-sensitive path element from a string.
    ///
    /// # Errors
    ///
    /// Returns [`Error`] if the name is invalid.
    pub fn new(original: impl IntoCowStr<'a>) -> (r: Result<Self>)
        ensures
            spec_constructed(
                r,
                original.spec_chars(),
                original.spec_is_borrowed(),
                CaseSensitivity::Sensitive,
            ),
    {
        Self::with_case_sensitivity(original, CaseSensitive)
    }

    /// Creates a new case-sensitive path element from a byte slice.
    ///
    /// Invalid UTF-8 is accepted: each invalid sequence becomes U+FFFD.
    ///
    /// # Errors
    ///
    /// Returns [`Error`] if the decoded name is invalid.
    pub fn from_bytes(original: impl IntoCowBytes<'a>) -> (r: Result<Self>)
        ensures
            spec_constructed(
                r,
                spec_utf8_lossy(original.spec_bytes()),
                original.spec_is_borrowed() && valid_utf8(original.spec_bytes()),
                CaseSensitivity::Sensitive,
            ),
            valid_utf8(original.spec_bytes()) ==> spec_utf8_lossy(original.spec_bytes())
                == decode_utf8(original.spec_bytes()),
    {
        Self::from_bytes_with_case_sensitivity(original, CaseSensitive)
    }
}

impl<'a> PathElementGeneric<'a, CaseInsensitive> {
    /// Creates a new case-insensitive path element from a string.
    ///
    /// # Errors
    ///
    /// Returns [`Error`] if the name is invalid.
    pub fn new(original: impl IntoCowStr<'a>) -> (r: Result<Self>)
        ensures
            spec_constructed(
                r,
                original.spec_chars(),
                original.spec_is_borrowed(),
                CaseSensitivity::Insensitive,
            ),
    {
        Self::with_case_sensitivity(original, CaseInsensitive)
    }

    /// Creates a new case-insensitive path element from a byte slice.
    ///
    /// Invalid UTF-8 is accepted: each invalid sequence becomes U+FFFD.
    ///
    /// # Errors
    ///
    /// Returns [`Error`] if the decoded name is invalid.
    pub fn from_bytes(original: impl IntoCowBytes<'a>) -> (r: Result<Self>)
        ensures
            spec_constructed(
                r,
                spec_utf8_lossy(original.spec_bytes()),
                original.spec_is_borrowed() && valid_utf8(original.spec_bytes()),
                CaseSensitivity::Insensitive,
            ),
            valid_utf8(original.spec_bytes()) ==> spec_utf8_lossy(original.spec_bytes())
                == decode_utf8(original.spec_bytes()),
    {
        Self::from_bytes_with_case_sensitivity(original, CaseInsensitive)
    }
}

impl<'a> PathElementGeneric<'a, CaseSensitivity> {
    /// Creates a new path element with runtime-selected case sensitivity.
    ///
    /// # Errors
    ///
    /// Returns [`Error`] if the name is invalid.
    pub fn new(
        original: impl IntoCowStr<'a>,
        case_sensitivity: impl IntoSensitivity<CaseSensitivity>,
    ) -> (r: Result<Self>)
        ensures
            spec_constructed(
                r,
                original.spec_chars(),
                original.spec_is_borrowed(),
                case_sensitivity.spec_target(),
            ),
    {
        Self::with_case_sensitivity(original, case_sensitivity)
    }

    /// Creates a new path element from bytes with runtime-selected case sensitivity.
    ///
    /// Invalid UTF-8 is accepted: each invalid sequence becomes U+FFFD.
    ///
    /// # Errors
    ///
    /// Returns [`Error`] if the decoded name is invalid.
    pub fn from_bytes(
        original: impl IntoCowBytes<'a>,
        case_sensitivity: impl IntoSensitivity<CaseSensitivity>,
    ) -> (r: Result<Self>)
        ensures
            spec_constructed(
                r,
                spec_utf8_lossy(original.spec_bytes()),
                original.spec_is_borrowed() && valid_utf8(original.spec_bytes()),
                case_sensitivity.spec_target(),
            ),
            valid_utf8(original.spec_bytes()) ==> spec_utf8_lossy(original.spec_bytes())
                == decode_utf8(original.spec_bytes()),
    {
        Self::from_bytes_with_case_sensitivity(original, case_sensitivity)
    }

    /// Convenience constructor for a case-sensitive `PathElement`.
    ///
    /// # Errors
    ///
    /// Returns [`Error`] if the name is invalid.
    pub fn new_cs(original: impl IntoCowStr<'a>) -> (r: Result<Self>)
        ensures
            spec_constructed(
                r,
                original.spec_chars(),
                original.spec_is_borrowed(),
                CaseSensitivity::Sensitive,
            ),
    {
        Self::with_case_sensitivity(original, CaseSensitive)
    }

    /// Convenience constructor for a case-insensitive `PathElement`.
    ///
    /// # Errors
    ///
    /// Returns [`Error`] if the name is invalid.
    pub fn new_ci(original: impl IntoCowStr<'a>) -> (r: Result<Self>)
        ensures
            spec_constructed(
                r,
                original.spec_chars(),
                original.spec_is_borrowed(),
                CaseSensitivity::Insensitive,
            ),
    {
        Self::with_case_sensitivity(original, CaseInsensitive)
    }

    /// Convenience constructor for a case-sensitive `PathElement` from bytes.
    ///
    /// # Errors
    ///
    /// Returns [`Error`] if the decoded name is invalid.
    pub fn from_bytes_cs(original: impl IntoCowBytes<'a>) -> (r: Result<Self>)
        ensures
            spec_constructed(
                r,
                spec_utf8_lossy(original.spec_bytes()),
                original.spec_is_borrowed() && valid_utf8(original.spec_bytes()),
                CaseSensitivity::Sensitive,
            ),
            valid_utf8(original.spec_bytes()) ==> spec_utf8_lossy(original.spec_bytes())
                == decode_utf8(original.spec_bytes()),
    {
        Self::from_bytes_with_case_sensitivity(original, CaseSensitive)
    }

    /// Convenience constructor for a case-insensitive `PathElement` from bytes.
    ///
    /// # Errors
    ///
    /// Returns [`Error`] if the decoded name is invalid.
    pub fn from_bytes_ci(original: impl IntoCowBytes<'a>) -> (r: Result<Self>)
        ensures
            spec_constructed(
                r,
                spec_utf8_lossy(original.spec_bytes()),
                original.spec_is_borrowed() && valid_utf8(original.spec_bytes()),
                CaseSensitivity::Insensitive,
            ),
            valid_utf8(original.spec_bytes()) ==> spec_utf8_lossy(original.spec_bytes())
                == decode_utf8(original.spec_bytes()),
    {
        Self::from_bytes_with_case_sensitivity(original, CaseInsensitive)
    }
}

// ---------------------------------------------------------------------------
// Comparisons
// ---------------------------------------------------------------------------

/// Lexicographic comparison of two character sequences by code point (the order of
/// their UTF-8 bytes, as `str` orders): -1 when `a` sorts first, 0 when equal, 1 when
/// `b` sorts first.
pub open spec fn lex_compare(a: Seq<char>, b: Seq<char>) -> int
    decreases a.len(),
{
    if a.len() == 0 {
        if b.len() == 0 {
            0
        } else {
            -1
        }
    } else if b.len() == 0 {
        1
    } else if a[0] < b[0] {
        -1
    } else if a[0] > b[0] {
        1
    } else {
        lex_compare(a.drop_first(), b.drop_first())
    }
}

/// The `Ordering` a comparison result stands for.
pub open spec fn ordering_of(c: int) -> Ordering {
    if c < 0 {
        Ordering::Less
    } else if c == 0 {
        Ordering::Equal
    } else {
        Ordering::Greater
    }
}

/// Length of the longest common prefix of `x` and `y`.
fn common_prefix_len(x: &Vec<char>, y: &Vec<char>) -> (i: usize)
    ensures
        i <= x.len(),
        i <= y.len(),
        forall|k: int| 0 <= k < i ==> x@[k] == y@[k],
        i < x.len() && i < y.len() ==> x@[i as int] != y@[i as int],
{
    let mut i: usize = 0;
    while i < x.len() && i < y.len() && x[i] == y[i]
        invariant
            i <= x.len(),
            i <= y.len(),
            forall|k: int| 0 <= k < i ==> x@[k] == y@[k],
        decreases x.len() - i,
    {
        i += 1;
    }
    i
}

/// After a common prefix of length `i`, the comparison is decided by what follows.
proof fn lemma_lex_compare_after_prefix(a: Seq<char>, b: Seq<char>, i: usize)
    requires
        i <= a.len(),
        i <= b.len(),
        forall|k: int| 0 <= k < i ==> a[k] == b[k],
        i < a.len() && i < b.len() ==> a[i as int] != b[i as int],
    ensures
        lex_compare(a, b) == if i == a.len() {
            if i == b.len() {
                0
            } else {
                -1
            }
        } else if i == b.len() {
            1
        } else if a[i as int] < b[i as int] {
            -1
        } else {
            1
        },
    decreases i,
{
    if i > 0 {
        let a1 = a.drop_first();
        let b1 = b.drop_first();
        assert forall|k: int| 0 <= k < i - 1 implies a1[k] == b1[k] by {
            assert(a[k + 1] == b[k + 1]);
        }
        assert(a[0] == b[0]);
        lemma_lex_compare_after_prefix(a1, b1, (i - 1) as usize);
        if i < a.len() {
            assert(a1[i - 1] == a[i as int]);
        }
        if i < b.len() {
            assert(b1[i - 1] == b[i as int]);
        }
    }
}

/// Compares two strings lexicographically by code point.
fn compare_strs(a: &str, b: &str) -> (r: Ordering)
    ensures
        r == ordering_of(lex_compare(a@, b@)),
{
    let x = str_chars(a);
    let y = str_chars(b);
    let i = common_prefix_len(&x, &y);
    proof {
        lemma_lex_compare_after_prefix(a@, b@, i);
    }
    if i == x.len() {
        if i == y.len() {
            Ordering::Equal
        } else {
            Ordering::Less
        }
    } else if i == y.len() {
        Ordering::Greater
    } else if x[i] < y[i] {
        Ordering::Less
    } else {
        Ordering::Greater
    }
}

/// Whether two strings hold the same characters.
fn strs_equal(a: &str, b: &str) -> (r: bool)
    ensures
        r == (a@ == b@),
{
    let x = str_chars(a);
    let y = str_chars(b);
    if x.len() != y.len() {
        return false;
    }
    let mut i: usize = 0;
    while i < x.len()
        invariant
            i <= x.len(),
            x.len() == y.len(),
            x@ == a@,
            y@ == b@,
            forall|k: int| 0 <= k < i ==> x@[k] == y@[k],
        decreases x.len() - i,
    {
        if x[i] != y[i] {
            return false;
        }
        i += 1;
    }
    assert(a@ =~= b@);
    true
}

/// Compares by `normalized()`. Elements with different case sensitivities are never
/// equal.
impl<'a, 'b, S1: Sensitivity, S2: Sensitivity> PartialEq<PathElementGeneric<'b, S2>> for PathElementGeneric<
    'a,
    S1,
> {
    fn eq(&self, other: &PathElementGeneric<'b, S2>) -> (r: bool) {
        self.case_sensitivity() == other.case_sensitivity() && strs_equal(
            self.normalized(),
            other.normalized(),
        )
    }
}

impl<'a, 'b, S1: Sensitivity, S2: Sensitivity> PartialEqSpecImpl<PathElementGeneric<'b, S2>> for PathElementGeneric<
    'a,
    S1,
> {
    open spec fn obeys_eq_spec() -> bool {
        true
    }

    open spec fn eq_spec(&self, other: &PathElementGeneric<'b, S2>) -> bool {
        self.spec_case_sensitivity() == other.spec_case_sensitivity() && self.spec_normalized()
            == other.spec_normalized()
    }
}

impl<'a, S: Sensitivity> Eq for PathElementGeneric<'a, S> {

}

/// Compares by `normalized()`. Returns `None` if the two elements have different case
/// sensitivities.
impl<'a, 'b, S1: Sensitivity, S2: Sensitivity> PartialOrd<PathElementGeneric<'b, S2>> for PathElementGeneric<
    'a,
    S1,
> {
    fn partial_cmp(&self, other: &PathElementGeneric<'b, S2>) -> (r: Option<Ordering>) {
        if self.case_sensitivity() != other.case_sensitivity() {
            return None;
        }
        Some(compare_strs(self.normalized(), other.normalized()))
    }
}

impl<'a, 'b, S1: Sensitivity, S2: Sensitivity> PartialOrdSpecImpl<PathElementGeneric<'b, S2>> for PathElementGeneric<
    'a,
    S1,
> {
    open spec fn obeys_partial_cmp_spec() -> bool {
        true
    }

    open spec fn partial_cmp_spec(&self, other: &PathElementGeneric<'b, S2>) -> Option<Ordering> {
        if self.spec_case_sensitivity() != other.spec_case_sensitivity() {
            None
        } else {
            Some(ordering_of(lex_compare(self.spec_normalized(), other.spec_normalized())))
        }
    }
}

/// The code point order is consistent with equality: two sequences compare equal
/// exactly when they are equal, and swapping them flips the result.
pub proof fn law_lex_compare_consistent(a: Seq<char>, b: Seq<char>)
    ensures
        lex_compare(a, b) == 0 <==> a == b,
        lex_compare(a, b) == -lex_compare(b, a),
        -1 <= lex_compare(a, b) <= 1,
    decreases a.len(),
{
    if a.len() == 0 || b.len() == 0 {
        if a.len() == 0 && b.len() == 0 {
            assert(a =~= b);
        }
    } else if a[0] == b[0] {
        let (a1, b1) = (a.drop_first(), b.drop_first());
        law_lex_compare_consistent(a1, b1);
        if a1 == b1 {
            assert(a =~= seq![a[0]] + a1);
            assert(b =~= seq![b[0]] + b1);
        }
        if a == b {
            assert(a1 =~= b1);
        }
    }
}

/// The code point order is transitive.
pub proof fn law_lex_compare_transitive(a: Seq<char>, b: Seq<char>, c: Seq<char>)
    requires
        lex_compare(a, b) < 0,
        lex_compare(b, c) < 0,
    ensures
        lex_compare(a, c) < 0,
    decreases a.len(),
{
    if a.len() > 0 && b.len() > 0 && c.len() > 0 && a[0] == b[0] && b[0] == c[0] {
        law_lex_compare_transitive(a.drop_first(), b.drop_first(), c.drop_first());
    }
}

/// Elements of one case sensitivity are ordered by their normalized forms: `partial_cmp`
/// answers `Equal` exactly when the normalized forms are equal (exactly when `==` holds),
/// agrees with `cmp` (code point order of the normalized forms), and flips when its
/// arguments are swapped. Elements of different sensitivities have no order.
pub proof fn law_partial_cmp_orders_normalized_forms<'a, 'b, S1: Sensitivity, S2: Sensitivity>(
    a: PathElementGeneric<'a, S1>,
    b: PathElementGeneric<'b, S2>,
)
    ensures
        a.spec_case_sensitivity() != b.spec_case_sensitivity() ==> PartialOrdSpec::partial_cmp_spec(&a, &b) is None,
        a.spec_case_sensitivity() == b.spec_case_sensitivity() ==> {
            &&& PartialOrdSpec::partial_cmp_spec(&a, &b) == Some(
                ordering_of(lex_compare(a.spec_normalized(), b.spec_normalized())),
            )
            &&& (PartialOrdSpec::partial_cmp_spec(&a, &b) == Some(Ordering::Equal) <==> a.spec_normalized()
                == b.spec_normalized())
            &&& (PartialOrdSpec::partial_cmp_spec(&a, &b) == Some(Ordering::Equal) <==> PartialEqSpec::eq_spec(&a, &b))
            &&& (PartialOrdSpec::partial_cmp_spec(&a, &b) == Some(Ordering::Less) <==> PartialOrdSpec::partial_cmp_spec(&b, &a)
                == Some(Ordering::Greater))
        },
{
    law_lex_compare_consistent(a.spec_normalized(), b.spec_normalized());
}

impl<'a, S: Sensitivity> PathElementGeneric<'a, S> {
    /// Total order by `normalized()` (code point order), for elements of the same case
    /// sensitivity; it agrees with `==` and with `partial_cmp`.
    ///
    /// `PathElement`s of different case sensitivities have no order (comparing them is a
    /// caller error), so `requires` rules them out.
    pub fn cmp(&self, other: &Self) -> (r: Ordering)
        requires
            self.spec_case_sensitivity() == other.spec_case_sensitivity(),
        ensures
            r == ordering_of(lex_compare(self.spec_normalized(), other.spec_normalized())),
    {
        compare_strs(self.normalized(), other.normalized())
    }
}

// ---------------------------------------------------------------------------
// Conversions
// ---------------------------------------------------------------------------

impl<'a, S: Sensitivity> PathElementGeneric<'a, S> {
    /// `self` and `other` hold the same original and forms, and the same borrowing.
    pub closed spec fn same_contents<S2: Sensitivity>(&self, other: &PathElementGeneric<'a, S2>) -> bool {
        &&& self.original == other.original
        &&& self.normalized == other.normalized
        &&& self.os_compatible == other.os_compatible
    }
}

/// Elements with the same contents have the same views.
pub proof fn law_same_contents_same_views<'a, S1: Sensitivity, S2: Sensitivity>(
    x: PathElementGeneric<'a, S1>,
    y: PathElementGeneric<'a, S2>,
)
    requires
        x.same_contents(&y),
    ensures
        x.spec_original() == y.spec_original(),
        x.spec_is_borrowed() == y.spec_is_borrowed(),
        x.spec_case_sensitivity() == y.spec_case_sensitivity() ==> x.spec_normalized()
            == y.spec_normalized(),
        x.spec_os_compatible() == y.spec_os_compatible(),
{
}

/// Converts a compile-time case-sensitive element into a runtime-dynamic [`PathElement`].
impl<'a> From<PathElementGeneric<'a, CaseSensitive>> for PathElementGeneric<'a, CaseSensitivity> {
    fn from(pe: PathElementGeneric<'a, CaseSensitive>) -> (r: Self) {
        proof {
            use_type_invariant(&pe);
        }
        let PathElementGeneric { original, normalized, os_compatible, .. } = pe;
        PathElementGeneric {
            original,
            normalized,
            os_compatible,
            case_sensitivity: CaseSensitivity::Sensitive,
        }
    }
}

impl<'a> FromSpecImpl<PathElementGeneric<'a, CaseSensitive>> for PathElementGeneric<'a, CaseSensitivity> {
    open spec fn obeys_from_spec() -> bool {
        true
    }

    closed spec fn from_spec(v: PathElementGeneric<'a, CaseSensitive>) -> Self {
        PathElementGeneric {
            original: v.original,
            normalized: v.normalized,
            os_compatible: v.os_compatible,
            case_sensitivity: CaseSensitivity::Sensitive,
        }
    }
}

/// Converts a compile-time case-insensitive element into a runtime-dynamic [`PathElement`].
impl<'a> From<PathElementGeneric<'a, CaseInsensitive>> for PathElementGeneric<'a, CaseSensitivity> {
    fn from(pe: PathElementGeneric<'a, CaseInsensitive>) -> (r: Self) {
        proof {
            use_type_invariant(&pe);
        }
        let PathElementGeneric { original, normalized, os_compatible, .. } = pe;
        PathElementGeneric {
            original,
            normalized,
            os_compatible,
            case_sensitivity: CaseSensitivity::Insensitive,
        }
    }
}

impl<'a> FromSpecImpl<PathElementGeneric<'a, CaseInsensitive>> for PathElementGeneric<'a, CaseSensitivity> {
    open spec fn obeys_from_spec() -> bool {
        true
    }

    closed spec fn from_spec(v: PathElementGeneric<'a, CaseInsensitive>) -> Self {
        PathElementGeneric {
            original: v.original,
            normalized: v.normalized,
            os_compatible: v.os_compatible,
            case_sensitivity: CaseSensitivity::Insensitive,
        }
    }
}

/// The conversions into the runtime-dynamic type keep the contents and record the
/// sensitivity.
pub proof fn law_from_typed_keeps_contents<'a>(
    cs: PathElementGeneric<'a, CaseSensitive>,
    ci: PathElementGeneric<'a, CaseInsensitive>,
)
    ensures
        <PathElementGeneric<'a, CaseSensitivity> as FromSpec<PathElementGeneric<'a, CaseSensitive>>>::from_spec(cs).same_contents(&cs),
        <PathElementGeneric<'a, CaseSensitivity> as FromSpec<PathElementGeneric<'a, CaseSensitive>>>::from_spec(cs).spec_case_sensitivity() == CaseSensitivity::Sensitive,
        <PathElementGeneric<'a, CaseSensitivity> as FromSpec<PathElementGeneric<'a, CaseInsensitive>>>::from_spec(ci).same_contents(&ci),
        <PathElementGeneric<'a, CaseSensitivity> as FromSpec<PathElementGeneric<'a, CaseInsensitive>>>::from_spec(ci).spec_case_sensitivity() == CaseSensitivity::Insensitive,
{
}

/// Attempts to convert a runtime-dynamic [`PathElement`] into a [`PathElementCS`].
///
/// Succeeds if the element is case-sensitive. On failure, returns the element
/// re-wrapped as a [`PathElementCI`] in the `Err` variant (no data is lost).
impl<'a> TryFrom<PathElementGeneric<'a, CaseSensitivity>> for PathElementGeneric<
    'a,
    CaseSensitive,
> {
    type Error = PathElementGeneric<'a, CaseInsensitive>;

    fn try_from(pe: PathElementGeneric<'a, CaseSensitivity>) -> (r: core::result::Result<
        Self,
        Self::Error,
    >) {
        proof {
            use_type_invariant(&pe);
        }
        let PathElementGeneric { original, normalized, os_compatible, case_sensitivity } = pe;
        if case_sensitivity == CaseSensitivity::Sensitive {
            Ok(PathElementGeneric { original, normalized, os_compatible, case_sensitivity: CaseSensitive })
        } else {
            Err(
                PathElementGeneric {
                    original,
                    normalized,
                    os_compatible,
                    case_sensitivity: CaseInsensitive,
                },
            )
        }
    }
}

impl<'a> TryFromSpecImpl<PathElementGeneric<'a, CaseSensitivity>> for PathElementGeneric<
    'a,
    CaseSensitive,
> {
    open spec fn obeys_try_from_spec() -> bool {
        true
    }

    closed spec fn try_from_spec(v: PathElementGeneric<'a, CaseSensitivity>) -> core::result::Result<
        Self,
        PathElementGeneric<'a, CaseInsensitive>,
    > {
        if v.case_sensitivity == CaseSensitivity::Sensitive {
            Ok(
                PathElementGeneric {
                    original: v.original,
                    normalized: v.normalized,
                    os_compatible: v.os_compatible,
                    case_sensitivity: CaseSensitive,
                },
            )
        } else {
            Err(
                PathElementGeneric {
                    original: v.original,
                    normalized: v.normalized,
                    os_compatible: v.os_compatible,
                    case_sensitivity: CaseInsensitive,
                },
            )
        }
    }
}

/// Attempts to convert a runtime-dynamic [`PathElement`] into a [`PathElementCI`].
///
/// Succeeds if the element is case-insensitive. On failure, returns the element
/// re-wrapped as a [`PathElementCS`] in the `Err` variant (no data is lost).
impl<'a> TryFrom<PathElementGeneric<'a, CaseSensitivity>> for PathElementGeneric<
    'a,
    CaseInsensitive,
> {
    type Error = PathElementGeneric<'a, CaseSensitive>;

    fn try_from(pe: PathElementGeneric<'a, CaseSensitivity>) -> (r: core::result::Result<
        Self,
        Self::Error,
    >) {
        proof {
            use_type_invariant(&pe);
        }
        let PathElementGeneric { original, normalized, os_compatible, case_sensitivity } = pe;
        if case_sensitivity == CaseSensitivity::Insensitive {
            Ok(PathElementGeneric { original, normalized, os_compatible, case_sensitivity: CaseInsensitive })
        } else {
            Err(
                PathElementGeneric {
                    original,
                    normalized,
                    os_compatible,
                    case_sensitivity: CaseSensitive,
                },
            )
        }
    }
}

impl<'a> TryFromSpecImpl<PathElementGeneric<'a, CaseSensitivity>> for PathElementGeneric<
    'a,
    CaseInsensitive,
> {
    open spec fn obeys_try_from_spec() -> bool {
        true
    }

    closed spec fn try_from_spec(v: PathElementGeneric<'a, CaseSensitivity>) -> core::result::Result<
        Self,
        PathElementGeneric<'a, CaseSensitive>,
    > {
        if v.case_sensitivity == CaseSensitivity::Insensitive {
            Ok(
                PathElementGeneric {
                    original: v.original,
                    normalized: v.normalized,
                    os_compatible: v.os_compatible,
                    case_sensitivity: CaseInsensitive,
                },
            )
        } else {
            Err(
                PathElementGeneric {
                    original: v.original,
                    normalized: v.normalized,
                    os_compatible: v.os_compatible,
                    case_sensitivity: CaseSensitive,
                },
            )
        }
    }
}

/// Converting a runtime-dynamic element succeeds exactly when its sensitivity matches
/// the target type; either way the contents are kept, and the result reports the
/// sensitivity of its type (the element comes back as the other typed variant on
/// failure).
pub proof fn law_try_from_dynamic<'a>(pe: PathElementGeneric<'a, CaseSensitivity>)
    ensures
        (<PathElementGeneric<'a, CaseSensitive> as TryFromSpec<PathElementGeneric<'a, CaseSensitivity>>>::try_from_spec(pe) is Ok)
            <==> pe.spec_case_sensitivity() == CaseSensitivity::Sensitive,
        match <PathElementGeneric<'a, CaseSensitive> as TryFromSpec<PathElementGeneric<'a, CaseSensitivity>>>::try_from_spec(pe) {
            Ok(x) => x.same_contents(&pe) && x.spec_case_sensitivity() == CaseSensitivity::Sensitive,
            Err(y) => y.same_contents(&pe) && y.spec_case_sensitivity() == CaseSensitivity::Insensitive,
        },
        (<PathElementGeneric<'a, CaseInsensitive> as TryFromSpec<PathElementGeneric<'a, CaseSensitivity>>>::try_from_spec(pe) is Ok)
            <==> pe.spec_case_sensitivity() == CaseSensitivity::Insensitive,
        match <PathElementGeneric<'a, CaseInsensitive> as TryFromSpec<PathElementGeneric<'a, CaseSensitivity>>>::try_from_spec(pe) {
            Ok(x) => x.same_contents(&pe) && x.spec_case_sensitivity() == CaseSensitivity::Insensitive,
            Err(y) => y.same_contents(&pe) && y.spec_case_sensitivity() == CaseSensitivity::Sensitive,
        },
{
}

} // verus!
