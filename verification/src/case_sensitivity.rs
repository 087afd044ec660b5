use vstd::prelude::*;
use vstd::std_specs::convert::FromSpecImpl;

verus! {

/// Controls whether path normalization is case-sensitive or case-insensitive.
///
/// This enum is the runtime-dynamic counterpart to the zero-sized marker types
/// [`CaseSensitive`] and [`CaseInsensitive`]. It is used as the type parameter `S`
/// in [`PathElement`](crate::PathElement) when the case sensitivity is not known
/// at compile time.
#[derive(Debug, Clone, Copy, PartialEq, Eq, Hash, Structural)]
pub enum CaseSensitivity {
    /// Names differing only in case are treated as distinct.
    Sensitive,
    /// Names differing only in case produce the same normalized name.
    Insensitive,
}

/// Zero-sized type-level marker for case-sensitive normalization.
#[derive(Debug, Clone, Copy, PartialEq, Eq, Hash, Structural)]
pub struct CaseSensitive;

/// Zero-sized type-level marker for case-insensitive normalization.
#[derive(Debug, Clone, Copy, PartialEq, Eq, Hash, Structural)]
pub struct CaseInsensitive;

/// A type that carries a case sensitivity: the two markers and the runtime enum.
pub trait Sensitivity: Sized {
    /// The case sensitivity this value stands for.
    spec fn spec_sensitivity(&self) -> CaseSensitivity;

    /// Returns the case sensitivity this value stands for.
    fn to_case_sensitivity(&self) -> (r: CaseSensitivity)
        ensures
            r == self.spec_sensitivity(),
    ;
}

impl Sensitivity for CaseSensitivity {
    open spec fn spec_sensitivity(&self) -> CaseSensitivity {
        *self
    }

    fn to_case_sensitivity(&self) -> (r: CaseSensitivity) {
        *self
    }
}

impl Sensitivity for CaseSensitive {
    open spec fn spec_sensitivity(&self) -> CaseSensitivity {
        CaseSensitivity::Sensitive
    }

    fn to_case_sensitivity(&self) -> (r: CaseSensitivity) {
        CaseSensitivity::Sensitive
    }
}

impl Sensitivity for CaseInsensitive {
    open spec fn spec_sensitivity(&self) -> CaseSensitivity {
        CaseSensitivity::Insensitive
    }

    fn to_case_sensitivity(&self) -> (r: CaseSensitivity) {
        CaseSensitivity::Insensitive
    }
}

/// A value that converts into the case-sensitivity carrier `S` (the argument of the
/// path element constructors).
pub trait IntoSensitivity<S: Sensitivity>: Sized {
    /// The case sensitivity of the converted value.
    spec fn spec_target(&self) -> CaseSensitivity;

    /// Converts `self` into `S`.
    fn into_sensitivity(self) -> (r: S)
        ensures
            r.spec_sensitivity() == self.spec_target(),
    ;
}

impl IntoSensitivity<CaseSensitive> for CaseSensitive {
    open spec fn spec_target(&self) -> CaseSensitivity {
        CaseSensitivity::Sensitive
    }

    fn into_sensitivity(self) -> (r: CaseSensitive) {
        self
    }
}

impl IntoSensitivity<CaseInsensitive> for CaseInsensitive {
    open spec fn spec_target(&self) -> CaseSensitivity {
        CaseSensitivity::Insensitive
    }

    fn into_sensitivity(self) -> (r: CaseInsensitive) {
        self
    }
}

impl IntoSensitivity<CaseSensitivity> for CaseSensitivity {
    open spec fn spec_target(&self) -> CaseSensitivity {
        *self
    }

    fn into_sensitivity(self) -> (r: CaseSensitivity) {
        self
    }
}

impl IntoSensitivity<CaseSensitivity> for CaseSensitive {
    open spec fn spec_target(&self) -> CaseSensitivity {
        CaseSensitivity::Sensitive
    }

    fn into_sensitivity(self) -> (r: CaseSensitivity) {
        CaseSensitivity::Sensitive
    }
}

impl IntoSensitivity<CaseSensitivity> for CaseInsensitive {
    open spec fn spec_target(&self) -> CaseSensitivity {
        CaseSensitivity::Insensitive
    }

    fn into_sensitivity(self) -> (r: CaseSensitivity) {
        CaseSensitivity::Insensitive
    }
}

impl From<CaseSensitive> for CaseSensitivity {
    fn from(_s: CaseSensitive) -> (r: Self) {
        CaseSensitivity::Sensitive
    }
}

impl FromSpecImpl<CaseSensitive> for CaseSensitivity {
    open spec fn obeys_from_spec() -> bool {
        true
    }

    open spec fn from_spec(v: CaseSensitive) -> Self {
        CaseSensitivity::Sensitive
    }
}

impl From<CaseInsensitive> for CaseSensitivity {
    fn from(_s: CaseInsensitive) -> (r: Self) {
        CaseSensitivity::Insensitive
    }
}

impl FromSpecImpl<CaseInsensitive> for CaseSensitivity {
    open spec fn obeys_from_spec() -> bool {
        true
    }

    open spec fn from_spec(v: CaseInsensitive) -> Self {
        CaseSensitivity::Insensitive
    }
}

impl<'s> From<&'s CaseSensitive> for CaseSensitivity {
    fn from(_s: &'s CaseSensitive) -> (r: Self) {
        CaseSensitivity::Sensitive
    }
}

impl<'s> FromSpecImpl<&'s CaseSensitive> for CaseSensitivity {
    open spec fn obeys_from_spec() -> bool {
        true
    }

    open spec fn from_spec(v: &'s CaseSensitive) -> Self {
        CaseSensitivity::Sensitive
    }
}

impl<'s> From<&'s CaseInsensitive> for CaseSensitivity {
    fn from(_s: &'s CaseInsensitive) -> (r: Self) {
        CaseSensitivity::Insensitive
    }
}

impl<'s> FromSpecImpl<&'s CaseInsensitive> for CaseSensitivity {
    open spec fn obeys_from_spec() -> bool {
        true
    }

    open spec fn from_spec(v: &'s CaseInsensitive) -> Self {
        CaseSensitivity::Insensitive
    }
}

impl<'s> From<&'s CaseSensitivity> for CaseSensitivity {
    fn from(s: &'s CaseSensitivity) -> (r: Self) {
        *s
    }
}

impl<'s> FromSpecImpl<&'s CaseSensitivity> for CaseSensitivity {
    open spec fn obeys_from_spec() -> bool {
        true
    }

    open spec fn from_spec(v: &'s CaseSensitivity) -> Self {
        *v
    }
}

} // verus!
