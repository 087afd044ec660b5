use std::borrow::Cow;

use icu_casemap::CaseMapper;
use icu_normalizer::{ComposingNormalizer, DecomposingNormalizer};
use icu_properties::props::{CanonicalCombiningClass, GeneralCategory, SoftDotted, WhiteSpace};
use icu_properties::{CodePointMapData, CodePointSetData};
use crate::normalize::spec_map_fullwidth;
use vstd::prelude::*;

verus! {

/// The NFD (canonical decomposition) of a character sequence, as computed by ICU4X.
pub uninterp spec fn spec_nfd(s: Seq<char>) -> Seq<char>;

/// The NFC (canonical composition) of a character sequence, as computed by ICU4X.
pub uninterp spec fn spec_nfc(s: Seq<char>) -> Seq<char>;

/// The Unicode full case folding of one non-ASCII character, per the ICU4X data.
pub uninterp spec fn spec_fold_non_ascii(c: char) -> Seq<char>;

/// The case folding of one character: the ASCII capitals `A`..`Z` become `a`..`z`, other
/// ASCII characters stay, and other characters fold per the Unicode data.
pub open spec fn spec_fold_char(c: char) -> Seq<char> {
    if 'A' <= c && c <= 'Z' {
        seq![((c as u32) + 32) as char]
    } else if (c as u32) < 0x80 {
        seq![c]
    } else {
        spec_fold_non_ascii(c)
    }
}

/// The Unicode `toCasefold()` of a character sequence: context-insensitive, so each
/// character folds on its own.
pub open spec fn spec_case_fold(s: Seq<char>) -> Seq<char>
    decreases s.len(),
{
    if s.len() == 0 {
        Seq::empty()
    } else {
        spec_fold_char(s[0]) + spec_case_fold(s.drop_first())
    }
}

/// The Canonical_Combining_Class of `c` (its ICU4C numeric value), per the ICU4X data.
pub uninterp spec fn spec_canonical_combining_class(c: char) -> u8;

/// The General_Category of `c` as ICU4X's `GeneralCategory` discriminant
/// (`Unassigned` is 0).
pub uninterp spec fn spec_general_category(c: char) -> u8;

/// Canonical Combining Class of `c` is 0 (Not_Reordered).
pub open spec fn spec_is_starter(c: char) -> bool {
    spec_canonical_combining_class(c) == 0
}

/// Canonical Combining Class of `c` is 230 (Above).
pub open spec fn spec_is_above(c: char) -> bool {
    spec_canonical_combining_class(c) == 230
}

/// General_Category of `c` is not Unassigned (Cn); every ASCII character is assigned.
pub open spec fn spec_is_assigned(c: char) -> bool {
    (c as u32) < 0x80 || spec_general_category(c) != 0
}

/// The Unicode `White_Space` property (PropList.txt, Unicode 17.0.0).
pub open spec fn spec_is_white_space(c: char) -> bool {
    let u = c as u32;
    ||| 0x09 <= u <= 0x0D
    ||| u == 0x20
    ||| u == 0x85
    ||| u == 0xA0
    ||| u == 0x1680
    ||| 0x2000 <= u <= 0x200A
    ||| u == 0x2028
    ||| u == 0x2029
    ||| u == 0x202F
    ||| u == 0x205F
    ||| u == 0x3000
}

/// The Unicode `Soft_Dotted` property (PropList.txt, Unicode 17.0.0).
pub open spec fn spec_is_soft_dotted(c: char) -> bool {
    let u = c as u32;
    ||| u == 0x0069 || u == 0x006A
    ||| u == 0x012F
    ||| u == 0x0249
    ||| u == 0x0268
    ||| u == 0x029D
    ||| u == 0x02B2
    ||| u == 0x03F3
    ||| u == 0x0456
    ||| u == 0x0458
    ||| u == 0x1D62
    ||| u == 0x1D96
    ||| u == 0x1DA4
    ||| u == 0x1DA8
    ||| u == 0x1E2D
    ||| u == 0x1ECB
    ||| u == 0x2071
    ||| u == 0x2148 || u == 0x2149
    ||| u == 0x2C7C
    ||| u == 0x1D422 || u == 0x1D423
    ||| u == 0x1D456 || u == 0x1D457
    ||| u == 0x1D48A || u == 0x1D48B
    ||| u == 0x1D4BE || u == 0x1D4BF
    ||| u == 0x1D4F2 || u == 0x1D4F3
    ||| u == 0x1D526 || u == 0x1D527
    ||| u == 0x1D55A || u == 0x1D55B
    ||| u == 0x1D58E || u == 0x1D58F
    ||| u == 0x1D5C2 || u == 0x1D5C3
    ||| u == 0x1D5F6 || u == 0x1D5F7
    ||| u == 0x1D62A || u == 0x1D62B
    ||| u == 0x1D65E || u == 0x1D65F
    ||| u == 0x1D692 || u == 0x1D693
    ||| u == 0x1DF1A
    ||| u == 0x1E04C || u == 0x1E04D
    ||| u == 0x1E068
}

/// NFD normalization (canonical decomposition), by `DecomposingNormalizer::normalize`.
///
/// Trusted: the result is the ICU4X NFD of `s`; NFD is idempotent and the result is
/// canonically equivalent to `s` (so it has the same NFC); a borrowed result is `s`
/// itself (ICU4X borrows only when the whole input is already normalized).
///
/// Also trusted, from Unicode's definitions (UAX #15): every substring of an NFD string
/// is in NFD, and the fullwidth forms U+FF01..U+FF5E and the ASCII characters
/// U+0021..U+007E they map to are all starters (combining class 0) with no canonical
/// decomposition, so replacing the former by the latter inside NFD text leaves it in
/// NFD. Together: the fullwidth mapping of any substring of the result is in NFD.
#[verifier::external_body]
pub fn nfd(s: &str) -> (r: Cow<'_, str>)
    ensures
        r@ == spec_nfd(s@),
        spec_nfd(r@) == r@,
        spec_nfc(r@) == spec_nfc(s@),
        r is Borrowed ==> r@ == s@,
        forall|i: int, j: int|
            0 <= i <= j <= r@.len() ==> spec_nfd(
                #[trigger] spec_map_fullwidth(r@.subrange(i, j)),
            ) == spec_map_fullwidth(r@.subrange(i, j)),
{
    DecomposingNormalizer::new_nfd().normalize(s)
}

/// NFC normalization (canonical composition), by `ComposingNormalizer::normalize`.
///
/// Trusted: the result is the ICU4X NFC of `s`; NFC is idempotent and the result is
/// canonically equivalent to `s` (so it has the same NFD); a borrowed result is `s`
/// itself.
#[verifier::external_body]
pub fn nfc(s: &str) -> (r: Cow<'_, str>)
    ensures
        r@ == spec_nfc(s@),
        spec_nfc(r@) == r@,
        spec_nfd(r@) == spec_nfd(s@),
        r is Borrowed ==> r@ == s@,
{
    ComposingNormalizer::new_nfc().normalize(s)
}

/// Unicode `toCasefold()`, by `CaseMapperBorrowed::fold_string`.
///
/// Trusted: the result is the ICU4X case folding of `s`, which the crate documents as
/// locale-independent and context-insensitive, so it is the concatenation of the
/// foldings of the single characters; of these, the Unicode case folding data maps
/// `A`..`Z` to `a`..`z` and leaves every other ASCII character unchanged (the crate's
/// own example folds "hEllO WorLd" to "hello world"). Nothing is said of when the result
/// borrows (ICU4X borrows whenever the output is a prefix of the input).
#[verifier::external_body]
pub fn case_fold(s: &str) -> (r: Cow<'_, str>)
    ensures
        r@ == spec_case_fold(s@),
        s@.len() == 1 && (s@[0] as u32) >= 0x80 ==> r@ == spec_fold_non_ascii(s@[0]),
{
    CaseMapper::new().fold_string(s)
}

/// Unicode `White_Space` property check, by `CodePointSetDataBorrowed::contains`.
///
/// Trusted: the ICU4X data agrees with the `White_Space` list of Unicode 17.0.0.
#[verifier::external_body]
pub fn is_whitespace(c: char) -> (r: bool)
    ensures
        r == spec_is_white_space(c),
{
    CodePointSetData::new::<WhiteSpace>().contains(c)
}

/// The Canonical_Combining_Class of `c`, by `CodePointMapDataBorrowed::get`
/// (converted with `to_icu4c_value`).
///
/// Trusted: the result is the ICU4X combining class of `c`.
#[verifier::external_body]
fn canonical_combining_class(c: char) -> (r: u8)
    ensures
        r == spec_canonical_combining_class(c),
{
    CodePointMapData::<CanonicalCombiningClass>::new().get(c).to_icu4c_value()
}

/// The General_Category of `c`, by `CodePointMapDataBorrowed::get` (converted to its
/// `#[repr(u8)]` discriminant).
///
/// Trusted: the result is the discriminant of the ICU4X general category of `c`.
#[verifier::external_body]
fn general_category(c: char) -> (r: u8)
    ensures
        r == spec_general_category(c),
{
    CodePointMapData::<GeneralCategory>::new().get(c) as u8
}

/// Whether `c` has Canonical Combining Class 0 (a "starter" -- not a combining mark).
pub fn is_starter(c: char) -> (r: bool)
    ensures
        r == spec_is_starter(c),
{
    canonical_combining_class(c) == 0
}

/// Whether `c` has Canonical Combining Class 230 (Above).
pub fn is_above(c: char) -> (r: bool)
    ensures
        r == spec_is_above(c),
{
    canonical_combining_class(c) == 230
}

/// Whether `c` has the Unicode `Soft_Dotted` property (e.g. i, j, Cyrillic і, ј), by
/// `CodePointSetDataBorrowed::contains`.
///
/// Trusted: the ICU4X data agrees with the `Soft_Dotted` list of Unicode 17.0.0.
#[verifier::external_body]
pub fn is_soft_dotted(c: char) -> (r: bool)
    ensures
        r == spec_is_soft_dotted(c),
{
    CodePointSetData::new::<SoftDotted>().contains(c)
}

/// Whether `c` is an assigned character (not `GeneralCategory::Unassigned`).
pub fn is_assigned(c: char) -> (r: bool)
    ensures
        r == spec_is_assigned(c),
{
    // Every ASCII character is assigned (as a control, space, punctuation, symbol, digit
    // or letter), so the data is consulted only beyond ASCII.
    (c as u32) < 0x80 || general_category(c) != 0
}

/// Unicode general category `Cc` (control): U+0000..U+001F and U+007F..U+009F.
pub open spec fn spec_is_control(c: char) -> bool {
    let u = c as u32;
    u <= 0x1F || (0x7F <= u <= 0x9F)
}

/// Whether `c` is a control character (general category `Cc`).
pub fn is_control(c: char) -> (r: bool)
    ensures
        r == spec_is_control(c),
{
    c <= '\u{1F}' || ('\u{7F}' <= c && c <= '\u{9F}')
}

} // verus!

