use std::borrow::Cow;

use crate::error::{ErrorKind, Result};
use crate::java_modified_utf8::{
    cesu8_encodable, cow_str_to_bytes, encode_os_utf8, has_supplementary, spec_encode_cesu8,
    string_into_bytes,
};
use crate::normalize::{
    spec_first_char_error, spec_fullwidth_char, spec_is_whitespace_like, spec_map_fullwidth,
    spec_normalize_cs, spec_trim_start, spec_trim_whitespace_like,
};
use crate::unicode::{case_fold, nfd, spec_case_fold, spec_nfd};
use crate::utils::{
    char_from_u32, chars_to_string, cow, cow_as_str, is_scalar_value, occurs, str_chars,
};
use vstd::prelude::*;
use vstd::utf8::encode_utf8;

verus! {

// ---------------------------------------------------------------------------
// Windows
// ---------------------------------------------------------------------------

/// Windows forbidden characters `< > : " \ | ? *` map to their Fullwidth equivalents.
pub open spec fn spec_windows_forbidden_char(c: char) -> char {
    if c == '<' {
        '\u{FF1C}'
    } else if c == '>' {
        '\u{FF1E}'
    } else if c == ':' {
        '\u{FF1A}'
    } else if c == '"' {
        '\u{FF02}'
    } else if c == '\\' {
        '\u{FF3C}'
    } else if c == '|' {
        '\u{FF5C}'
    } else if c == '?' {
        '\u{FF1F}'
    } else if c == '*' {
        '\u{FF0A}'
    } else {
        c
    }
}

/// Windows forbidden characters mapped to their Fullwidth equivalents.
fn map_windows_forbidden(c: char) -> (r: char)
    ensures
        r == spec_windows_forbidden_char(c),
{
    match c {
        '<' => '\u{FF1C}',
        '>' => '\u{FF1E}',
        ':' => '\u{FF1A}',
        '"' => '\u{FF02}',
        '\\' => '\u{FF3C}',
        '|' => '\u{FF5C}',
        '?' => '\u{FF1F}',
        '*' => '\u{FF0A}',
        _ => c,
    }
}

/// Index of the first `.` in `s`, or its length.
pub open spec fn spec_stem_len(s: Seq<char>) -> int
    decreases s.len(),
{
    if s.len() == 0 {
        0
    } else if s[0] == '.' {
        0
    } else {
        1 + spec_stem_len(s.drop_first())
    }
}

/// The stem of a name: the part before its first `.`.
pub open spec fn spec_stem(s: Seq<char>) -> Seq<char> {
    s.take(spec_stem_len(s))
}

/// A case-folded stem that names a Windows device: `con`, `prn`, `aux`, `nul`,
/// `com0`..`com9`, `lpt0`..`lpt9`, and `com`/`lpt` with a superscript ¹, ² or ³.
pub open spec fn spec_is_reserved_stem(f: Seq<char>) -> bool {
    ||| f.len() == 3 && (f[0] == 'c' && f[1] == 'o' && f[2] == 'n')
    ||| f.len() == 3 && (f[0] == 'p' && f[1] == 'r' && f[2] == 'n')
    ||| f.len() == 3 && (f[0] == 'a' && f[1] == 'u' && f[2] == 'x')
    ||| f.len() == 3 && (f[0] == 'n' && f[1] == 'u' && f[2] == 'l')
    ||| f.len() == 4 && ((f[0] == 'c' && f[1] == 'o' && f[2] == 'm') || (f[0] == 'l' && f[1]
        == 'p' && f[2] == 't')) && (('0' <= f[3] && f[3] <= '9') || f[3] == '\u{B9}' || f[3]
        == '\u{B2}' || f[3] == '\u{B3}')
}

/// Whether the case-folded stem of `name` is a Windows reserved device name.
pub open spec fn spec_is_reserved_on_windows(name: Seq<char>) -> bool {
    spec_is_reserved_stem(spec_case_fold(spec_stem(name)))
}

/// Whether an already case-folded stem names a Windows device ([`spec_is_reserved_stem`]).
pub fn is_reserved_stem(folded: &str) -> (r: bool)
    ensures
        r == spec_is_reserved_stem(folded@),
{
    let f = str_chars(folded);
    if f.len() == 3 {
        (f[0] == 'c' && f[1] == 'o' && f[2] == 'n') || (f[0] == 'p' && f[1] == 'r' && f[2] == 'n')
            || (f[0] == 'a' && f[1] == 'u' && f[2] == 'x') || (f[0] == 'n' && f[1] == 'u' && f[2]
            == 'l')
    } else if f.len() == 4 {
        ((f[0] == 'c' && f[1] == 'o' && f[2] == 'm') || (f[0] == 'l' && f[1] == 'p' && f[2]
            == 't')) && (('0' <= f[3] && f[3] <= '9') || f[3] == '\u{B9}' || f[3] == '\u{B2}'
            || f[3] == '\u{B3}')
    } else {
        false
    }
}

proof fn lemma_stem_len(s: Seq<char>, i: int)
    requires
        0 <= i <= s.len(),
        forall|k: int| 0 <= k < i ==> #[trigger] s[k] != '.',
        i == s.len() || s[i] == '.',
    ensures
        spec_stem_len(s) == i,
    decreases i,
{
    if i > 0 {
        let t = s.drop_first();
        assert forall|k: int| 0 <= k < i - 1 implies #[trigger] t[k] != '.' by {
            assert(t[k] == s[k + 1]);
        }
        lemma_stem_len(t, i - 1);
    }
}

/// A name is reserved exactly when its part before the FIRST `.` is: for a dot-free `x`,
/// `x.y` is reserved exactly when `x` is, whatever `y` holds (so `nul.tar.gz` is reserved
/// like `nul`), and `x` itself is reserved exactly when its case folding is a device name.
pub proof fn law_reserved_by_first_dot(x: Seq<char>, y: Seq<char>)
    requires
        forall|k: int| 0 <= k < x.len() ==> #[trigger] x[k] != '.',
    ensures
        spec_is_reserved_on_windows(x + seq!['.'] + y) == spec_is_reserved_on_windows(x),
        spec_is_reserved_on_windows(x) == spec_is_reserved_stem(spec_case_fold(x)),
{
    let n = x + seq!['.'] + y;
    assert forall|k: int| 0 <= k < x.len() implies #[trigger] n[k] != '.' by {
        assert(n[k] == x[k]);
    }
    assert(n[x.len() as int] == '.');
    lemma_stem_len(n, x.len() as int);
    assert(n.take(x.len() as int) =~= x);
    lemma_stem_len(x, x.len() as int);
    assert(x.take(x.len() as int) =~= x);
}

/// Whether the stem of `name` (the part before the first `.`) is a Windows reserved
/// device name.
///
/// Comparison uses Unicode `toCasefold()` so that e.g. "CON", "con", and "Con" all match.
pub fn is_reserved_on_windows(name: &str) -> (r: bool)
    ensures
        r == spec_is_reserved_on_windows(name@),
{
    let chars = str_chars(name);
    let mut i: usize = 0;
    while i < chars.len() && chars[i] != '.'
        invariant
            i <= chars.len(),
            chars@ == name@,
            forall|k: int| 0 <= k < i ==> #[trigger] chars@[k] != '.',
        decreases chars.len() - i,
    {
        i += 1;
    }
    proof {
        lemma_stem_len(name@, i as int);
    }
    let stem = name.substring_char(0, i);
    assert(stem@ =~= spec_stem(name@));
    let folded = case_fold(stem);
    is_reserved_stem(cow_as_str(&folded))
}

/// The fullwidth form of a character (its code point plus U+FEE0), or the character
/// itself when that is not a valid code point.
pub open spec fn spec_to_fullwidth_or_same(c: char) -> char {
    let u = (c as u32 + 0xFEE0) as u32;
    if is_scalar_value(u) {
        u as char
    } else {
        c
    }
}

/// The name after the forbidden-character step of the Windows mapping.
pub open spec fn spec_windows_forbidden_mapped(s: Seq<char>) -> Seq<char> {
    s.map_values(|c: char| spec_windows_forbidden_char(c))
}

/// The Windows mapping replaces a final trailing `.`.
pub open spec fn spec_windows_has_trailing_dot(s: Seq<char>) -> bool {
    let m = spec_windows_forbidden_mapped(s);
    m.len() > 0 && m.last() == '.'
}

/// The Windows mapping renames a reserved device name.
pub open spec fn spec_windows_renames_reserved(s: Seq<char>) -> bool {
    let d = spec_windows_dotted(s);
    d.len() > 0 && spec_is_reserved_on_windows(d)
}

/// The name after the forbidden-character and trailing-dot steps of the Windows mapping.
pub open spec fn spec_windows_dotted(s: Seq<char>) -> Seq<char> {
    let m = spec_windows_forbidden_mapped(s);
    if m.len() > 0 && m.last() == '.' {
        m.update(m.len() - 1, '\u{FF0E}')
    } else {
        m
    }
}

/// The Windows-compatible characters of a CS-normalized name: forbidden characters to
/// fullwidth, a final trailing `.` to U+FF0E, and the first character of a reserved
/// device name to its fullwidth form.
pub open spec fn spec_windows_compatible(s: Seq<char>) -> Seq<char> {
    let d = spec_windows_dotted(s);
    if d.len() > 0 && spec_is_reserved_on_windows(d) {
        d.update(0, spec_to_fullwidth_or_same(d[0]))
    } else {
        d
    }
}

/// Windows compatibility mapping: forbidden characters, trailing dots, and reserved names.
/// Returns the UTF-8 bytes of the mapped name; they borrow `s` when nothing changed.
pub fn windows_compatible_from_normalized_cs(s: &str) -> (r: Cow<'_, [u8]>)
    ensures
        r@ == encode_utf8(spec_windows_compatible(s@)),
        r is Borrowed <==> (occurs(spec_windows_forbidden_mapped(s@), s@)
            && !spec_windows_has_trailing_dot(s@) && !spec_windows_renames_reserved(s@)),
{
    let chars = str_chars(s);
    let mut mapped: Vec<char> = Vec::new();
    let mut i: usize = 0;
    while i < chars.len()
        invariant
            i <= chars.len(),
            chars@ == s@,
            mapped@ == s@.take(i as int).map_values(|c: char| spec_windows_forbidden_char(c)),
        decreases chars.len() - i,
    {
        mapped.push(map_windows_forbidden(chars[i]));
        assert(s@.take(i + 1).map_values(|c: char| spec_windows_forbidden_char(c))
            =~= s@.take(i as int).map_values(|c: char| spec_windows_forbidden_char(c)).push(
            spec_windows_forbidden_char(s@[i as int]),
        ));
        i += 1;
    }
    assert(s@.take(chars.len() as int) =~= s@);
    // Step 1: map forbidden characters.
    let mut result = cow(mapped, s);
    let mut cur = str_chars(cow_as_str(&result));
    // Step 2: handle a trailing dot.
    let n = cur.len();
    if n > 0 && cur[n - 1] == '.' {
        cur.set(n - 1, '\u{FF0E}');
        result = Cow::Owned(chars_to_string(&cur));
    }
    assert(cur@ == spec_windows_dotted(s@));
    // Step 3: handle reserved names.
    if cur.len() > 0 && is_reserved_on_windows(cow_as_str(&result)) {
        let first = cur[0];
        let fullwidth = match char_from_u32(first as u32 + 0xFEE0) {
            Some(f) => f,
            None => first,
        };
        proof {
            let u = (first as u32 + 0xFEE0) as u32;
            if is_scalar_value(u) {
                assert((u as char) as u32 == u);
                vstd::utf8::char_u32_cast(fullwidth, u);
            }
        }
        cur.set(0, fullwidth);
        result = Cow::Owned(chars_to_string(&cur));
    }
    cow_str_to_bytes(result)
}

// ---------------------------------------------------------------------------
// Apple
// ---------------------------------------------------------------------------

/// `s` without its leading byte order marks (U+FEFF).
pub open spec fn spec_trim_start_bom(s: Seq<char>) -> Seq<char>
    decreases s.len(),
{
    if s.len() > 0 && s[0] == '\u{FEFF}' {
        spec_trim_start_bom(s.drop_first())
    } else {
        s
    }
}

/// The Apple filesystem representation of a CS-normalized name, as characters: NFD with
/// leading byte order marks removed (the portable form of
/// `CFStringGetFileSystemRepresentation`).
pub open spec fn spec_apple_compatible(s: Seq<char>) -> Seq<char> {
    spec_trim_start_bom(spec_nfd(s))
}

proof fn lemma_trim_start_bom_at(s: Seq<char>, i: int)
    requires
        0 <= i <= s.len(),
        forall|k: int| 0 <= k < i ==> #[trigger] s[k] == '\u{FEFF}',
        i == s.len() || s[i] != '\u{FEFF}',
    ensures
        spec_trim_start_bom(s) == s.subrange(i, s.len() as int),
    decreases i,
{
    if i == 0 {
        assert(s.subrange(0, s.len() as int) =~= s);
    } else {
        let t = s.drop_first();
        assert forall|k: int| 0 <= k < i - 1 implies #[trigger] t[k] == '\u{FEFF}' by {
            assert(t[k] == s[k + 1]);
        }
        lemma_trim_start_bom_at(t, i - 1);
        assert(t.subrange(i - 1, t.len() as int) =~= s.subrange(i, s.len() as int));
    }
}

/// `s` without its leading byte order marks (U+FEFF), borrowing the rest of `s`.
pub fn trim_start_bom(s: &str) -> (r: &str)
    ensures
        r@ == spec_trim_start_bom(s@),
{
    let chars = str_chars(s);
    let mut i: usize = 0;
    while i < chars.len() && chars[i] == '\u{FEFF}'
        invariant
            i <= chars.len(),
            chars@ == s@,
            forall|k: int| 0 <= k < i ==> #[trigger] chars@[k] == '\u{FEFF}',
        decreases chars.len() - i,
    {
        i += 1;
    }
    proof {
        lemma_trim_start_bom_at(s@, i as int);
    }
    s.substring_char(i, chars.len())
}

/// A name whose first character is not whitespace-like keeps that character first when
/// trimmed.
proof fn lemma_trim_keeps_first(s: Seq<char>)
    requires
        s.len() > 0,
        !spec_is_whitespace_like(s[0]),
    ensures
        spec_trim_whitespace_like(s).len() > 0,
        spec_trim_whitespace_like(s)[0] == s[0],
    decreases s.len(),
{
    assert(spec_trim_start(s) == s);
    if spec_is_whitespace_like(s.last()) {
        assert(s.len() > 1);
        let t = s.drop_last();
        lemma_trim_keeps_first(t);
        assert(spec_trim_start(t) == t);
    }
}

/// A case-sensitively normalized name's NFD does not start with a byte order mark:
/// validation would have rejected it.
proof fn lemma_normalized_nfd_has_no_leading_bom(s: Seq<char>)
    requires
        spec_normalize_cs(s) is Ok,
    ensures
        spec_trim_start_bom(spec_nfd(s)) == spec_nfd(s),
{
    let d = spec_nfd(s);
    if d.len() > 0 && d[0] == '\u{FEFF}' {
        lemma_trim_keeps_first(d);
        let m = spec_map_fullwidth(spec_trim_whitespace_like(d));
        assert(m[0] == '\u{FEFF}');
        assert(m != seq!['.']);
        assert(m != seq!['.', '.']);
        assert(spec_first_char_error(m) == Some(ErrorKind::ContainsBom));
        assert(false);
    }
}

fn apple_chars(s: &str) -> (r: Vec<char>)
    ensures
        r@ == spec_apple_compatible(s@),
        spec_normalize_cs(s@) == Ok::<Seq<char>, ErrorKind>(s@) ==> spec_normalize_cs(r@) == Ok::<
            Seq<char>,
            ErrorKind,
        >(s@),
{
    let decomposed = nfd(s);
    proof {
        if spec_normalize_cs(s@) == Ok::<Seq<char>, ErrorKind>(s@) {
            lemma_normalized_nfd_has_no_leading_bom(s@);
            assert(spec_nfd(decomposed@) == decomposed@);
        }
    }
    str_chars(trim_start_bom(cow_as_str(&decomposed)))
}

/// Portable form of the Darwin filesystem representation: NFD normalization and leading
/// BOM removal, as UTF-8 bytes.
pub fn apple_file_system_representation(s: &str) -> (r: Result<Vec<u8>>)
    ensures
        r is Ok,
        r matches Ok(v) ==> v@ == encode_utf8(spec_apple_compatible(s@)),
        spec_normalize_cs(s@) == Ok::<Seq<char>, ErrorKind>(s@) ==> spec_normalize_cs(
            spec_apple_compatible(s@),
        ) == Ok::<Seq<char>, ErrorKind>(s@),
{
    let chars = apple_chars(s);
    Ok(string_into_bytes(chars_to_string(&chars)))
}

/// Apple compatibility mapping: NFC to NFD conversion and BOM removal. The bytes borrow
/// `s` when the mapped name occurs in it.
pub fn apple_compatible_from_normalized_cs(s: &str) -> (r: Result<Cow<'_, [u8]>>)
    ensures
        r is Ok,
        r matches Ok(b) ==> b@ == encode_utf8(spec_apple_compatible(s@)) && (b is Borrowed
            <==> occurs(spec_apple_compatible(s@), s@)),
        spec_normalize_cs(s@) == Ok::<Seq<char>, ErrorKind>(s@) ==> spec_normalize_cs(
            spec_apple_compatible(s@),
        ) == Ok::<Seq<char>, ErrorKind>(s@),
{
    let chars = apple_chars(s);
    Ok(cow_str_to_bytes(cow(chars, s)))
}

// ---------------------------------------------------------------------------
// This platform
// ---------------------------------------------------------------------------

/// Apply this platform's compatibility mapping (neither Windows nor Apple): the name is
/// unchanged, encoded for the OS as UTF-8, or as CESU-8 when the runtime uses Java
/// Modified UTF-8 (`use_java_modified_utf8`).
pub fn os_compatible_from_normalized_cs(s: &str, use_java_modified_utf8: bool) -> (r: Result<
    Cow<'_, [u8]>,
>)
    requires
        use_java_modified_utf8 ==> cesu8_encodable(s@),
    ensures
        r is Ok,
        r matches Ok(b) ==> b@ == if use_java_modified_utf8 {
            spec_encode_cesu8(s@)
        } else {
            encode_utf8(s@)
        } && (b is Borrowed <==> !(use_java_modified_utf8 && has_supplementary(s@))),
{
    Ok(encode_os_utf8(Cow::Borrowed(s), use_java_modified_utf8))
}

} // verus!
