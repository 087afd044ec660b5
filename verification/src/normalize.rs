use std::borrow::Cow;

use crate::error::{ErrorKind, ResultKind};
use crate::unicode::{
    case_fold, is_above, is_assigned, is_control, is_soft_dotted, is_starter, is_whitespace, nfc,
    nfd, spec_case_fold, spec_is_above, spec_is_assigned, spec_is_control, spec_is_soft_dotted,
    spec_is_starter, spec_is_white_space, spec_nfc, spec_nfd,
};
use crate::utils::{char_from_u32, cow, cow_as_str, occurs, str_chars};
use vstd::prelude::*;

verus! {

// ---------------------------------------------------------------------------
// Fullwidth mapping
// ---------------------------------------------------------------------------

/// Fullwidth forms U+FF01..U+FF5E map to ASCII U+0021..U+007E; other characters stay.
pub open spec fn spec_fullwidth_char(c: char) -> char {
    if 0xFF01 <= c as u32 <= 0xFF5E {
        (c as u32 - 0xFEE0) as char
    } else {
        c
    }
}

/// [`map_fullwidth`] on a character sequence.
pub open spec fn spec_map_fullwidth(s: Seq<char>) -> Seq<char> {
    s.map_values(|c: char| spec_fullwidth_char(c))
}

/// Printable ASCII U+0021..U+007E map to fullwidth U+FF01..U+FF5E; other characters stay.
pub open spec fn spec_unfullwidth_char(c: char) -> char {
    if 0x21 <= c as u32 <= 0x7E {
        (c as u32 + 0xFEE0) as char
    } else {
        c
    }
}

/// [`unmap_fullwidth`] on a character sequence.
pub open spec fn spec_unmap_fullwidth(s: Seq<char>) -> Seq<char> {
    s.map_values(|c: char| spec_unfullwidth_char(c))
}

fn fullwidth_char(c: char) -> (r: char)
    ensures
        r == spec_fullwidth_char(c),
{
    if '\u{FF01}' <= c && c <= '\u{FF5E}' {
        match char_from_u32(c as u32 - 0xFEE0) {
            Some(a) => {
                proof {
                    vstd::utf8::char_u32_cast(a, a as u32);
                }
                a
            },
            None => c,
        }
    } else {
        c
    }
}

/// Map Fullwidth characters (U+FF01..U+FF5E) to their ASCII equivalents.
pub fn map_fullwidth(s: &str) -> (r: Cow<'_, str>)
    ensures
        r@ == spec_map_fullwidth(s@),
        r is Borrowed <==> occurs(spec_map_fullwidth(s@), s@),
{
    let chars = str_chars(s);
    let mut out: Vec<char> = Vec::new();
    let mut i: usize = 0;
    while i < chars.len()
        invariant
            i <= chars.len(),
            chars@ == s@,
            out@ == spec_map_fullwidth(chars@.take(i as int)),
        decreases chars.len() - i,
    {
        out.push(fullwidth_char(chars[i]));
        assert(spec_map_fullwidth(chars@.take(i + 1)) =~= spec_map_fullwidth(
            chars@.take(i as int),
        ).push(spec_fullwidth_char(chars@[i as int])));
        i += 1;
    }
    assert(chars@.take(chars.len() as int) =~= chars@);
    cow(out, s)
}

fn unfullwidth_char(c: char) -> (r: char)
    ensures
        r == spec_unfullwidth_char(c),
{
    if '!' <= c && c <= '~' {
        match char_from_u32(c as u32 + 0xFEE0) {
            Some(a) => {
                proof {
                    vstd::utf8::char_u32_cast(a, a as u32);
                }
                a
            },
            None => c,
        }
    } else {
        c
    }
}

/// Reverse of [`map_fullwidth`]: map printable ASCII characters to their fullwidth
/// equivalents.
pub fn unmap_fullwidth(s: &str) -> (r: String)
    ensures
        r@ == spec_unmap_fullwidth(s@),
{
    let chars = str_chars(s);
    let mut out: Vec<char> = Vec::new();
    let mut i: usize = 0;
    while i < chars.len()
        invariant
            i <= chars.len(),
            chars@ == s@,
            out@ == spec_unmap_fullwidth(chars@.take(i as int)),
        decreases chars.len() - i,
    {
        out.push(unfullwidth_char(chars[i]));
        assert(spec_unmap_fullwidth(chars@.take(i + 1)) =~= spec_unmap_fullwidth(
            chars@.take(i as int),
        ).push(spec_unfullwidth_char(chars@[i as int])));
        i += 1;
    }
    assert(chars@.take(chars.len() as int) =~= chars@);
    crate::utils::chars_to_string(&out)
}

/// Control Pictures U+2401..U+241F map to C0 controls U+0001..U+001F, and U+2421
/// maps to DEL (U+007F); other characters stay.
pub open spec fn spec_uncontrol_char(c: char) -> char {
    if 0x2401 <= c as u32 <= 0x241F {
        (c as u32 - 0x2400) as char
    } else if c as u32 == 0x2421 {
        '\x7F'
    } else {
        c
    }
}

/// [`unmap_control_chars`] on a character sequence.
pub open spec fn spec_unmap_control_chars(s: Seq<char>) -> Seq<char> {
    s.map_values(|c: char| spec_uncontrol_char(c))
}

fn uncontrol_char(c: char) -> (r: char)
    ensures
        r == spec_uncontrol_char(c),
{
    if '\u{2401}' <= c && c <= '\u{241F}' {
        match char_from_u32(c as u32 - 0x2400) {
            Some(a) => {
                proof {
                    vstd::utf8::char_u32_cast(a, a as u32);
                }
                a
            },
            None => c,
        }
    } else if c == '\u{2421}' {
        '\x7F'
    } else {
        c
    }
}

/// Map Control Pictures back to the control characters they picture.
pub fn unmap_control_chars(s: &str) -> (r: String)
    ensures
        r@ == spec_unmap_control_chars(s@),
{
    let chars = str_chars(s);
    let mut out: Vec<char> = Vec::new();
    let mut i: usize = 0;
    while i < chars.len()
        invariant
            i <= chars.len(),
            chars@ == s@,
            out@ == spec_unmap_control_chars(chars@.take(i as int)),
        decreases chars.len() - i,
    {
        out.push(uncontrol_char(chars[i]));
        assert(spec_unmap_control_chars(chars@.take(i + 1)) =~= spec_unmap_control_chars(
            chars@.take(i as int),
        ).push(spec_uncontrol_char(chars@[i as int])));
        i += 1;
    }
    assert(chars@.take(chars.len() as int) =~= chars@);
    crate::utils::chars_to_string(&out)
}

// ---------------------------------------------------------------------------
// Whitespace trimming
// ---------------------------------------------------------------------------

/// Characters trimmed from both ends: `White_Space` characters that are not controls.
pub open spec fn spec_is_whitespace_like(c: char) -> bool {
    spec_is_white_space(c) && !spec_is_control(c)
}

/// `s` without its leading whitespace-like characters.
pub open spec fn spec_trim_start(s: Seq<char>) -> Seq<char>
    decreases s.len(),
{
    if s.len() > 0 && spec_is_whitespace_like(s[0]) {
        spec_trim_start(s.drop_first())
    } else {
        s
    }
}

/// `s` without its trailing whitespace-like characters.
pub open spec fn spec_trim_end(s: Seq<char>) -> Seq<char>
    decreases s.len(),
{
    if s.len() > 0 && spec_is_whitespace_like(s.last()) {
        spec_trim_end(s.drop_last())
    } else {
        s
    }
}

/// `s` without leading and trailing whitespace-like characters.
pub open spec fn spec_trim_whitespace_like(s: Seq<char>) -> Seq<char> {
    spec_trim_end(spec_trim_start(s))
}

/// Whether `c` is trimmed from the ends of a name: a `White_Space` character that is
/// not a control character.
pub fn is_whitespace_like(c: char) -> (r: bool)
    ensures
        r == spec_is_whitespace_like(c),
{
    is_whitespace(c) && !is_control(c)
}

proof fn lemma_trim_start_at(s: Seq<char>, i: int)
    requires
        0 <= i <= s.len(),
        forall|k: int| 0 <= k < i ==> spec_is_whitespace_like(#[trigger] s[k]),
        i == s.len() || !spec_is_whitespace_like(s[i]),
    ensures
        spec_trim_start(s) == s.subrange(i, s.len() as int),
    decreases i,
{
    if i == 0 {
        assert(s.subrange(0, s.len() as int) =~= s);
    } else {
        let t = s.drop_first();
        assert forall|k: int| 0 <= k < i - 1 implies spec_is_whitespace_like(#[trigger] t[k]) by {
            assert(t[k] == s[k + 1]);
        }
        lemma_trim_start_at(t, i - 1);
        assert(t.subrange(i - 1, t.len() as int) =~= s.subrange(i, s.len() as int));
    }
}

proof fn lemma_trim_end_at(s: Seq<char>, j: int)
    requires
        0 <= j <= s.len(),
        forall|k: int| j <= k < s.len() ==> spec_is_whitespace_like(#[trigger] s[k]),
        j == 0 || !spec_is_whitespace_like(s[j - 1]),
    ensures
        spec_trim_end(s) == s.subrange(0, j),
    decreases s.len() - j,
{
    if j == s.len() {
        assert(s.subrange(0, j) =~= s);
    } else {
        let t = s.drop_last();
        assert forall|k: int| j <= k < t.len() implies spec_is_whitespace_like(#[trigger] t[k]) by {
            assert(t[k] == s[k]);
        }
        lemma_trim_end_at(t, j);
        assert(t.subrange(0, j) =~= s.subrange(0, j));
    }
}

proof fn lemma_trim_start_is_suffix(s: Seq<char>) -> (k: int)
    ensures
        0 <= k <= s.len(),
        spec_trim_start(s) == s.subrange(k, s.len() as int),
    decreases s.len(),
{
    if s.len() > 0 && spec_is_whitespace_like(s[0]) {
        let k1 = lemma_trim_start_is_suffix(s.drop_first());
        assert(s.drop_first().subrange(k1, s.len() - 1) =~= s.subrange(k1 + 1, s.len() as int));
        k1 + 1
    } else {
        assert(s.subrange(0, s.len() as int) =~= s);
        0
    }
}

proof fn lemma_trim_end_is_prefix(s: Seq<char>) -> (m: int)
    ensures
        0 <= m <= s.len(),
        spec_trim_end(s) == s.subrange(0, m),
    decreases s.len(),
{
    if s.len() > 0 && spec_is_whitespace_like(s.last()) {
        let m1 = lemma_trim_end_is_prefix(s.drop_last());
        assert(s.drop_last().subrange(0, m1) =~= s.subrange(0, m1));
        m1
    } else {
        assert(s.subrange(0, s.len() as int) =~= s);
        s.len() as int
    }
}

/// Trimming keeps a contiguous part of the name: the result is `s[i..j]`.
proof fn lemma_trim_is_subrange(s: Seq<char>) -> (ij: (int, int))
    ensures
        0 <= ij.0 <= ij.1 <= s.len(),
        spec_trim_whitespace_like(s) == s.subrange(ij.0, ij.1),
{
    let k = lemma_trim_start_is_suffix(s);
    let t = s.subrange(k, s.len() as int);
    let m = lemma_trim_end_is_prefix(t);
    assert(t.subrange(0, m) =~= s.subrange(k, k + m));
    (k, k + m)
}

/// Strips leading and trailing whitespace-like characters ([`is_whitespace_like`]),
/// borrowing the remaining slice of `s`.
pub fn trim_whitespace_like(s: &str) -> (r: &str)
    ensures
        r@ == spec_trim_whitespace_like(s@),
{
    let chars = str_chars(s);
    let n = chars.len();
    let mut i: usize = 0;
    while i < n && is_whitespace_like(chars[i])
        invariant
            i <= n,
            n == chars@.len(),
            chars@ == s@,
            forall|k: int| 0 <= k < i ==> spec_is_whitespace_like(#[trigger] chars@[k]),
        decreases n - i,
    {
        i += 1;
    }
    proof {
        lemma_trim_start_at(s@, i as int);
    }
    let mut j: usize = n;
    while j > i && is_whitespace_like(chars[j - 1])
        invariant
            i <= j <= n,
            n == chars@.len(),
            chars@ == s@,
            forall|k: int| j <= k < n ==> spec_is_whitespace_like(#[trigger] chars@[k]),
        decreases j,
    {
        j -= 1;
    }
    proof {
        let t = s@.subrange(i as int, n as int);
        assert forall|k: int| j - i <= k < t.len() implies spec_is_whitespace_like(#[trigger] t[k]) by {
            assert(t[k] == s@[k + i]);
        }
        if j > i {
            assert(t[j - i - 1] == s@[j - 1]);
        }
        lemma_trim_end_at(t, j - i);
        assert(t.subrange(0, j - i) =~= s@.subrange(i as int, j as int));
    }
    s.substring_char(i, j)
}

// ---------------------------------------------------------------------------
// Validation
// ---------------------------------------------------------------------------

/// The error a single character of a name raises, if any (checked in this order).
pub open spec fn spec_char_error(c: char) -> Option<ErrorKind> {
    if c == '\0' {
        Some(ErrorKind::ContainsNullByte)
    } else if spec_is_control(c) {
        Some(ErrorKind::ContainsControlCharacter)
    } else if c == '\u{FEFF}' {
        Some(ErrorKind::ContainsBom)
    } else if c == '/' {
        Some(ErrorKind::ContainsForwardSlash)
    } else if !spec_is_assigned(c) {
        Some(ErrorKind::ContainsUnassignedChar)
    } else {
        None
    }
}

/// The error raised by the first offending character of `s`, if any.
pub open spec fn spec_first_char_error(s: Seq<char>) -> Option<ErrorKind>
    decreases s.len(),
{
    if s.len() == 0 {
        None
    } else {
        match spec_char_error(s[0]) {
            Some(k) => Some(k),
            None => spec_first_char_error(s.drop_first()),
        }
    }
}

/// [`validate_path_element`] on a character sequence.
pub open spec fn spec_validate(s: Seq<char>) -> Result<(), ErrorKind> {
    if s.len() == 0 {
        Err(ErrorKind::Empty)
    } else if s == seq!['.'] {
        Err(ErrorKind::CurrentDirectoryMarker)
    } else if s == seq!['.', '.'] {
        Err(ErrorKind::ParentDirectoryMarker)
    } else {
        match spec_first_char_error(s) {
            Some(k) => Err(k),
            None => Ok(()),
        }
    }
}

fn char_error(c: char) -> (r: Option<ErrorKind>)
    ensures
        r == spec_char_error(c),
{
    if c == '\0' {
        Some(ErrorKind::ContainsNullByte)
    } else if is_control(c) {
        Some(ErrorKind::ContainsControlCharacter)
    } else if c == '\u{FEFF}' {
        Some(ErrorKind::ContainsBom)
    } else if c == '/' {
        Some(ErrorKind::ContainsForwardSlash)
    } else if !is_assigned(c) {
        Some(ErrorKind::ContainsUnassignedChar)
    } else {
        None
    }
}

proof fn lemma_first_char_error_skip(s: Seq<char>, i: int)
    requires
        0 <= i <= s.len(),
        forall|k: int| 0 <= k < i ==> spec_char_error(#[trigger] s[k]) is None,
    ensures
        spec_first_char_error(s) == spec_first_char_error(s.subrange(i, s.len() as int)),
    decreases i,
{
    if i == 0 {
        assert(s.subrange(0, s.len() as int) =~= s);
    } else {
        let t = s.drop_first();
        assert forall|k: int| 0 <= k < i - 1 implies spec_char_error(#[trigger] t[k]) is None by {
            assert(t[k] == s[k + 1]);
        }
        lemma_first_char_error_skip(t, i - 1);
        assert(t.subrange(i - 1, t.len() as int) =~= s.subrange(i, s.len() as int));
    }
}

/// Validate a normalized path element name.
///
/// Rejects empty strings, `.`, `..`, and names containing `\0`, Unicode `Control`
/// characters, BOM (U+FEFF), `/`, or unassigned Unicode characters. Characters are
/// checked left to right; the first offending character decides the error.
pub fn validate_path_element(name: &str) -> (r: ResultKind<()>)
    ensures
        r == spec_validate(name@),
{
    let chars = str_chars(name);
    let n = chars.len();
    if n == 0 {
        return Err(ErrorKind::Empty);
    }
    if n == 1 && chars[0] == '.' {
        assert(name@ =~= seq!['.']);
        return Err(ErrorKind::CurrentDirectoryMarker);
    }
    if n == 2 && chars[0] == '.' && chars[1] == '.' {
        assert(name@ =~= seq!['.', '.']);
        return Err(ErrorKind::ParentDirectoryMarker);
    }
    assert(name@ != seq!['.']) by {
        if name@ == seq!['.'] {
            assert(name@[0] == '.');
        }
    }
    assert(name@ != seq!['.', '.']) by {
        if name@ == seq!['.', '.'] {
            assert(name@[0] == '.' && name@[1] == '.');
        }
    }
    let mut i: usize = 0;
    while i < n
        invariant
            i <= n,
            n == chars@.len(),
            chars@ == name@,
            n > 0,
            name@ != seq!['.'],
            name@ != seq!['.', '.'],
            forall|k: int| 0 <= k < i ==> spec_char_error(#[trigger] chars@[k]) is None,
        decreases n - i,
    {
        match char_error(chars[i]) {
            Some(k) => {
                proof {
                    lemma_first_char_error_skip(name@, i as int);
                    let t = name@.subrange(i as int, n as int);
                    assert(t[0] == name@[i as int]);
                    assert(spec_first_char_error(t) == Some(k));
                }
                return Err(k);
            },
            None => {},
        }
        i += 1;
    }
    proof {
        lemma_first_char_error_skip(name@, n as int);
        assert(name@.subrange(n as int, n as int).len() == 0);
    }
    Ok(())
}

// ---------------------------------------------------------------------------
// Post-case-fold fixup
// ---------------------------------------------------------------------------

/// One step of [`fixup_case_fold`]: the character emitted (if any) for `c` and the new
/// "strip a following U+0307" flag.
pub open spec fn spec_fixup_step(strip: bool, c: char) -> (Option<char>, bool) {
    if c == '\u{0131}' {
        (Some('i'), true)
    } else if spec_is_soft_dotted(c) {
        (Some(c), true)
    } else if c == '\u{0307}' && strip {
        (None, strip)
    } else {
        (Some(c), if spec_is_starter(c) || spec_is_above(c) { false } else { strip })
    }
}

/// [`fixup_case_fold`] on a character sequence, starting with flag `strip`.
pub open spec fn spec_fixup_from(strip: bool, s: Seq<char>) -> Seq<char>
    decreases s.len(),
{
    if s.len() == 0 {
        Seq::empty()
    } else {
        let (o, next) = spec_fixup_step(strip, s[0]);
        match o {
            Some(c) => seq![c] + spec_fixup_from(next, s.drop_first()),
            None => spec_fixup_from(next, s.drop_first()),
        }
    }
}

/// [`fixup_case_fold`] on a character sequence.
pub open spec fn spec_fixup_case_fold(s: Seq<char>) -> Seq<char> {
    spec_fixup_from(false, s)
}

/// Post-case-fold fixup for casing inconsistencies.
/// Applied after `toCasefold()` in case-insensitive mode.
///
/// - Maps dotless ı (U+0131) to ASCII i.
/// - Strips U+0307 COMBINING DOT ABOVE after any `Soft_Dotted` character
///   (e.g. i, j, Cyrillic і/ј), blocked by intervening starters or CCC=230
///   Above combiners (matching the Unicode `After_Soft_Dotted` condition).
pub fn fixup_case_fold(s: &str) -> (r: Cow<'_, str>)
    ensures
        r@ == spec_fixup_case_fold(s@),
        r is Borrowed <==> occurs(spec_fixup_case_fold(s@), s@),
{
    let chars = str_chars(s);
    let n = chars.len();
    let mut out: Vec<char> = Vec::new();
    let mut strip = false;
    let mut i: usize = 0;
    assert(s@.subrange(0, n as int) =~= s@);
    assert(out@ + spec_fixup_case_fold(s@) =~= spec_fixup_case_fold(s@));
    while i < n
        invariant
            i <= n,
            n == chars@.len(),
            chars@ == s@,
            out@ + spec_fixup_from(strip, s@.subrange(i as int, n as int)) == spec_fixup_case_fold(
                s@,
            ),
        decreases n - i,
    {
        let c = chars[i];
        let ghost rest = s@.subrange(i as int, n as int);
        assert(rest[0] == c);
        assert(rest.drop_first() =~= s@.subrange(i + 1, n as int));
        let ghost old_out = out@;
        let ghost old_strip = strip;
        if c == '\u{0131}' {
            strip = true;
            out.push('i');
        } else if is_soft_dotted(c) {
            strip = true;
            out.push(c);
        } else if c == '\u{0307}' && strip {
        } else {
            if is_starter(c) || is_above(c) {
                strip = false;
            }
            out.push(c);
        }
        proof {
            let (o, nx) = spec_fixup_step(old_strip, c);
            assert(nx == strip);
            match o {
                Some(d) => {
                    assert(out@ == old_out.push(d));
                    assert(old_out + (seq![d] + spec_fixup_from(nx, rest.drop_first())) =~= out@
                        + spec_fixup_from(nx, rest.drop_first()));
                },
                None => {
                    assert(out@ == old_out);
                },
            }
        }
        i += 1;
    }
    proof {
        assert(s@.subrange(n as int, n as int).len() == 0);
        assert(out@ + Seq::<char>::empty() =~= out@);
    }
    cow(out, s)
}

// ---------------------------------------------------------------------------
// Normalization pipelines
// ---------------------------------------------------------------------------

/// The case-sensitive normalization of `name`: NFD, whitespace trimming, fullwidth
/// mapping, validation, NFC.
pub open spec fn spec_normalize_cs(name: Seq<char>) -> Result<Seq<char>, ErrorKind> {
    let mapped = spec_map_fullwidth(spec_trim_whitespace_like(spec_nfd(name)));
    match spec_validate(mapped) {
        Err(k) => Err(k),
        Ok(_) => Ok(spec_nfc(mapped)),
    }
}

/// The case-insensitive form of a case-sensitively normalized name: NFD, `toCasefold()`,
/// [`fixup_case_fold`], NFC.
pub open spec fn spec_normalize_ci_from_cs(cs: Seq<char>) -> Seq<char> {
    spec_nfc(spec_fixup_case_fold(spec_case_fold(spec_nfd(cs))))
}

/// Normalize a plaintext path element name case-sensitively.
///
/// Pipeline: NFD → whitespace trimming → fullwidth mapping → validation → NFC.
/// The result borrows from `name` whenever it occurs in `name`.
pub fn normalize_cs(name: &str) -> (r: ResultKind<Cow<'_, str>>)
    ensures
        r is Ok <==> spec_normalize_cs(name@) is Ok,
        r matches Ok(n) ==> spec_normalize_cs(name@) == Ok::<Seq<char>, ErrorKind>(n@)
            && spec_nfc(n@) == n@ && (n is Borrowed <==> occurs(n@, name@)),
        r matches Err(k) ==> spec_normalize_cs(name@) == Err::<Seq<char>, ErrorKind>(k),
        r matches Ok(n) ==> spec_normalize_cs(n@) == Ok::<Seq<char>, ErrorKind>(n@),
{
    let decomposed = nfd(name);
    let trimmed = trim_whitespace_like(cow_as_str(&decomposed));
    proof {
        let (a, b) = lemma_trim_is_subrange(decomposed@);
        assert(spec_nfd(spec_map_fullwidth(decomposed@.subrange(a, b))) == spec_map_fullwidth(
            decomposed@.subrange(a, b),
        ));
    }
    let mapped = map_fullwidth(trimmed);
    match validate_path_element(cow_as_str(&mapped)) {
        Err(k) => {
            return Err(k);
        },
        Ok(()) => {},
    }
    let composed = nfc(cow_as_str(&mapped));
    proof {
        crate::laws::law_map_fullwidth_keeps_trimmed(decomposed@);
        crate::laws::law_map_fullwidth_idempotent(trimmed@);
        assert(spec_normalize_cs(composed@) == Ok::<Seq<char>, ErrorKind>(composed@));
    }
    let chars = str_chars(cow_as_str(&composed));
    Ok(cow(chars, name))
}

/// Derive the case-insensitive normalized form from an already case-sensitive
/// normalized name.
///
/// Applies NFD, case folding, post-case-fold fixup ([`fixup_case_fold()`]), and NFC.
/// The result borrows from `cs_normalized` whenever it occurs in it.
pub fn normalize_ci_from_normalized_cs(cs_normalized: &str) -> (r: Cow<'_, str>)
    ensures
        r@ == spec_normalize_ci_from_cs(cs_normalized@),
        spec_nfc(r@) == r@,
        r is Borrowed <==> occurs(r@, cs_normalized@),
{
    let decomposed = nfd(cs_normalized);
    let folded = case_fold(cow_as_str(&decomposed));
    let fixed = fixup_case_fold(cow_as_str(&folded));
    let composed = nfc(cow_as_str(&fixed));
    let chars = str_chars(cow_as_str(&composed));
    cow(chars, cs_normalized)
}

} // verus!
