use crate::error::ErrorKind;
use crate::normalize::{
    spec_char_error, spec_first_char_error, spec_validate, spec_fixup_case_fold, spec_fixup_from, spec_fixup_step, spec_fullwidth_char,
    spec_is_whitespace_like, spec_map_fullwidth, spec_normalize_ci_from_cs, spec_normalize_cs,
    spec_trim_end, spec_trim_start, spec_trim_whitespace_like, spec_unfullwidth_char,
    spec_unmap_fullwidth,
};
use crate::os::{
    spec_windows_compatible, spec_windows_dotted, spec_windows_forbidden_char,
    spec_windows_forbidden_mapped, spec_windows_renames_reserved, spec_to_fullwidth_or_same,
};
use crate::unicode::{
    spec_case_fold, spec_fold_char, spec_is_above, spec_is_control, spec_is_soft_dotted,
    spec_is_starter, spec_is_white_space, spec_nfd,
};
use vstd::prelude::*;

verus! {

proof fn lemma_fullwidth_char_idempotent(c: char)
    ensures
        spec_fullwidth_char(spec_fullwidth_char(c)) == spec_fullwidth_char(c),
{
    if 0xFF01 <= c as u32 <= 0xFF5E {
        let u = (c as u32 - 0xFEE0) as u32;
        assert((u as char) as u32 == u);
    }
}

/// Fullwidth mapping is idempotent: mapping an already mapped name changes nothing.
pub proof fn law_map_fullwidth_idempotent(s: Seq<char>)
    ensures
        spec_map_fullwidth(spec_map_fullwidth(s)) == spec_map_fullwidth(s),
{
    assert forall|i: int| 0 <= i < s.len() implies #[trigger] spec_map_fullwidth(
        spec_map_fullwidth(s),
    )[i] == spec_map_fullwidth(s)[i] by {
        lemma_fullwidth_char_idempotent(s[i]);
    }
    assert(spec_map_fullwidth(spec_map_fullwidth(s)) =~= spec_map_fullwidth(s));
}

proof fn lemma_unfullwidth_then_fullwidth(c: char)
    ensures
        spec_fullwidth_char(spec_unfullwidth_char(c)) == spec_fullwidth_char(c),
{
    if 0x21 <= c as u32 <= 0x7E {
        let u = (c as u32 + 0xFEE0) as u32;
        assert((u as char) as u32 == u);
        let v = (u - 0xFEE0) as u32;
        assert(v == c as u32);
        vstd::utf8::char_u32_cast(c, v);
    }
}

/// Mapping printable ASCII to fullwidth and back is undone by the fullwidth step:
/// a name and its fullwidth variant map to the same characters.
pub proof fn law_unmap_fullwidth_then_map(s: Seq<char>)
    ensures
        spec_map_fullwidth(spec_unmap_fullwidth(s)) == spec_map_fullwidth(s),
{
    assert forall|i: int| 0 <= i < s.len() implies #[trigger] spec_map_fullwidth(
        spec_unmap_fullwidth(s),
    )[i] == spec_map_fullwidth(s)[i] by {
        lemma_unfullwidth_then_fullwidth(s[i]);
    }
    assert(spec_map_fullwidth(spec_unmap_fullwidth(s)) =~= spec_map_fullwidth(s));
}

proof fn lemma_trim_start_first(s: Seq<char>)
    ensures
        spec_trim_start(s).len() > 0 ==> !spec_is_whitespace_like(spec_trim_start(s)[0]),
        spec_trim_start(spec_trim_start(s)) == spec_trim_start(s),
    decreases s.len(),
{
    if s.len() > 0 && spec_is_whitespace_like(s[0]) {
        lemma_trim_start_first(s.drop_first());
    }
}

proof fn lemma_trim_end_last(s: Seq<char>)
    ensures
        spec_trim_end(s).len() > 0 ==> !spec_is_whitespace_like(spec_trim_end(s).last()),
        spec_trim_end(spec_trim_end(s)) == spec_trim_end(s),
        spec_trim_end(s).len() <= s.len(),
        forall|i: int| 0 <= i < spec_trim_end(s).len() ==> #[trigger] spec_trim_end(s)[i] == s[i],
    decreases s.len(),
{
    if s.len() > 0 && spec_is_whitespace_like(s.last()) {
        lemma_trim_end_last(s.drop_last());
    }
}

/// Whitespace trimming is idempotent, and a trimmed name neither starts nor ends with a
/// whitespace-like character.
pub proof fn law_trim_whitespace_like_idempotent(s: Seq<char>)
    ensures
        spec_trim_whitespace_like(spec_trim_whitespace_like(s)) == spec_trim_whitespace_like(s),
        spec_trim_whitespace_like(s).len() > 0 ==> !spec_is_whitespace_like(
            spec_trim_whitespace_like(s)[0],
        ),
        spec_trim_whitespace_like(s).len() > 0 ==> !spec_is_whitespace_like(
            spec_trim_whitespace_like(s).last(),
        ),
{
    let a = spec_trim_start(s);
    let t = spec_trim_end(a);
    lemma_trim_start_first(s);
    lemma_trim_end_last(a);
    // t is a nonempty prefix of a, so its first character is a's first character.
    if t.len() > 0 {
        assert(t[0] == a[0]);
        assert(spec_trim_start(t) == t);
    } else {
        assert(spec_trim_start(t) == t);
    }
    lemma_trim_end_last(t);
}

proof fn lemma_fullwidth_char_not_whitespace_like(c: char)
    requires
        !spec_is_whitespace_like(c),
    ensures
        !spec_is_whitespace_like(spec_fullwidth_char(c)),
{
    if 0xFF01 <= c as u32 <= 0xFF5E {
        let u = (c as u32 - 0xFEE0) as u32;
        assert((u as char) as u32 == u);
    }
}

/// Mapping fullwidth forms keeps a trimmed name trimmed: the forms become printable
/// ASCII, never whitespace.
pub proof fn law_map_fullwidth_keeps_trimmed(s: Seq<char>)
    ensures
        spec_trim_whitespace_like(spec_map_fullwidth(spec_trim_whitespace_like(s)))
            == spec_map_fullwidth(spec_trim_whitespace_like(s)),
{
    let t = spec_trim_whitespace_like(s);
    let m = spec_map_fullwidth(t);
    law_trim_whitespace_like_idempotent(s);
    if m.len() > 0 {
        lemma_fullwidth_char_not_whitespace_like(t[0]);
        lemma_fullwidth_char_not_whitespace_like(t.last());
        assert(m[0] == spec_fullwidth_char(t[0]));
        assert(m.last() == spec_fullwidth_char(t.last()));
        assert(spec_trim_start(m) == m);
        assert(spec_trim_end(m) == m);
    } else {
        assert(spec_trim_start(m) == m);
        assert(spec_trim_end(m) == m);
    }
}

proof fn lemma_fixup_from_idempotent(strip: bool, s: Seq<char>)
    ensures
        spec_fixup_from(strip, spec_fixup_from(strip, s)) == spec_fixup_from(strip, s),
    decreases s.len(),
{
    if s.len() > 0 {
        let (o, next) = spec_fixup_step(strip, s[0]);
        let rest = spec_fixup_from(next, s.drop_first());
        lemma_fixup_from_idempotent(next, s.drop_first());
        match o {
            Some(c) => {
                let out = seq![c] + rest;
                assert(out[0] == c);
                assert(out.drop_first() =~= rest);
                assert(spec_is_soft_dotted('i'));
                assert(spec_fixup_step(strip, c) == (Some(c), next));
            },
            None => {
                assert(next == strip);
            },
        }
    }
}

/// The post-case-fold fixup is idempotent: applying it to its own output changes
/// nothing.
pub proof fn law_fixup_case_fold_idempotent(s: Seq<char>)
    ensures
        spec_fixup_case_fold(spec_fixup_case_fold(s)) == spec_fixup_case_fold(s),
{
    lemma_fixup_from_idempotent(false, s);
}

/// Canonically equivalent names (same NFD, e.g. an NFC name and its NFD form, as macOS
/// stores it) normalize identically, case-sensitively and case-insensitively.
pub proof fn law_canonically_equivalent_names_normalize_equal(x: Seq<char>, y: Seq<char>)
    requires
        spec_nfd(x) == spec_nfd(y),
    ensures
        spec_normalize_cs(x) == spec_normalize_cs(y),
        spec_normalize_cs(x) matches Ok(n) ==> spec_normalize_cs(y) matches Ok(m)
            && spec_normalize_ci_from_cs(n) == spec_normalize_ci_from_cs(m),
{
}

proof fn lemma_fullwidth_undoes_forbidden(c: char)
    ensures
        spec_fullwidth_char(spec_windows_forbidden_char(c)) == spec_fullwidth_char(c),
        spec_windows_forbidden_char(c) == '.' ==> c == '.',
{
    let f = spec_windows_forbidden_char(c);
    if f != c {
        let u = f as u32;
        assert(0xFF01 <= u <= 0xFF5E);
        let a = (u - 0xFEE0) as u32;
        assert(a == c as u32);
        vstd::utf8::char_u32_cast(c, a);
    }
}

/// The fullwidth step of normalization undoes the Windows compatibility mapping: the
/// Windows-compatible form of a name maps to the same characters as the name itself.
/// (When a reserved device name is renamed, its first character must be printable ASCII,
/// as every reserved name's is, for its fullwidth form to map back.)
pub proof fn law_windows_compatible_maps_back(s: Seq<char>)
    requires
        spec_windows_renames_reserved(s) ==> 0x21 <= spec_windows_dotted(s)[0] as u32 <= 0x7E,
    ensures
        spec_map_fullwidth(spec_windows_compatible(s)) == spec_map_fullwidth(s),
{
    let m = spec_windows_forbidden_mapped(s);
    let d = spec_windows_dotted(s);
    assert forall|i: int| 0 <= i < s.len() implies #[trigger] spec_fullwidth_char(d[i])
        == spec_fullwidth_char(s[i]) by {
        lemma_fullwidth_undoes_forbidden(s[i]);
        if m.len() > 0 && m.last() == '.' && i == m.len() - 1 {
            assert(m[i] == spec_windows_forbidden_char(s[i]));
            assert(s[i] == '.');
            assert(d[i] == '\u{FF0E}');
            assert(spec_fullwidth_char(d[i]) as u32 == 0x2E);
            vstd::utf8::char_u32_cast('.', 0x2E);
        }
    }
    let w = spec_windows_compatible(s);
    assert forall|i: int| 0 <= i < s.len() implies #[trigger] spec_fullwidth_char(w[i])
        == spec_fullwidth_char(s[i]) by {
        if spec_windows_renames_reserved(s) && i == 0 {
            let c = d[0];
            let u = (c as u32 + 0xFEE0) as u32;
            assert((u as char) as u32 == u);
            assert(w[0] == spec_to_fullwidth_or_same(c));
            assert(spec_fullwidth_char(w[0]) as u32 == c as u32);
            vstd::utf8::char_u32_cast(c, c as u32);
            assert(spec_fullwidth_char(c) == c);
        }
    }
    assert(spec_map_fullwidth(w) =~= spec_map_fullwidth(s));
}

/// `c` with an ASCII capital letter replaced by its small letter.
pub open spec fn ascii_lower(c: char) -> char {
    if 'A' <= c && c <= 'Z' {
        ((c as u32) + 32) as char
    } else {
        c
    }
}

/// `x` and `y` differ at most in the case of ASCII letters.
pub open spec fn same_up_to_ascii_case(x: Seq<char>, y: Seq<char>) -> bool {
    &&& x.len() == y.len()
    &&& forall|i: int| 0 <= i < x.len() ==> #[trigger] ascii_lower(x[i]) == ascii_lower(y[i])
}

proof fn lemma_fold_char_ascii_lower(c: char)
    ensures
        spec_fold_char(ascii_lower(c)) == spec_fold_char(c),
{
    if 'A' <= c && c <= 'Z' {
        let u = ((c as u32) + 32) as u32;
        assert((u as char) as u32 == u);
    }
}

/// Names that differ only in the case of ASCII letters case-fold to the same characters.
pub proof fn law_ascii_case_variants_fold_equal(x: Seq<char>, y: Seq<char>)
    requires
        same_up_to_ascii_case(x, y),
    ensures
        spec_case_fold(x) == spec_case_fold(y),
    decreases x.len(),
{
    if x.len() > 0 {
        assert(ascii_lower(x[0]) == ascii_lower(y[0]));
        lemma_fold_char_ascii_lower(x[0]);
        lemma_fold_char_ascii_lower(y[0]);
        let (x1, y1) = (x.drop_first(), y.drop_first());
        assert forall|i: int| 0 <= i < x1.len() implies #[trigger] ascii_lower(x1[i])
            == ascii_lower(y1[i]) by {
            assert(ascii_lower(x[i + 1]) == ascii_lower(y[i + 1]));
        }
        law_ascii_case_variants_fold_equal(x1, y1);
    }
}

/// In case-insensitive mode, case-sensitively normalized names whose decompositions differ
/// only in the case of ASCII letters get the same normalized form.
pub proof fn law_ascii_case_variants_collide(x: Seq<char>, y: Seq<char>)
    requires
        same_up_to_ascii_case(spec_nfd(x), spec_nfd(y)),
    ensures
        spec_normalize_ci_from_cs(x) == spec_normalize_ci_from_cs(y),
{
    law_ascii_case_variants_fold_equal(spec_nfd(x), spec_nfd(y));
}

/// A character after which the case-fold fixup strips a following U+0307: dotless ı or
/// a `Soft_Dotted` character.
pub open spec fn fixup_sets_strip(c: char) -> bool {
    c == '\u{0131}' || spec_is_soft_dotted(c)
}

/// A character that does not block the stripping: U+0307 itself, or a combining mark
/// that is neither a starter nor of class Above.
pub open spec fn fixup_keeps_strip(c: char) -> bool {
    c == '\u{0307}' || (!spec_is_starter(c) && !spec_is_above(c))
}

/// Some character before index `k` sets the stripping, and nothing after it blocks it.
pub open spec fn fixup_pending(s: Seq<char>, k: int) -> bool {
    exists|j: int|
        #![trigger s[j]]
        0 <= j < k && fixup_sets_strip(s[j]) && forall|m: int|
            j < m < k ==> #[trigger] fixup_keeps_strip(s[m])
}

/// The fixup drops the character at `k`: a U+0307 with the stripping pending.
pub open spec fn fixup_drops(s: Seq<char>, k: int) -> bool {
    s[k] == '\u{0307}' && fixup_pending(s, k)
}

/// The character the fixup emits for a kept `c`: dotless ı becomes `i`.
pub open spec fn fixup_emitted(c: char) -> char {
    if c == '\u{0131}' {
        'i'
    } else {
        c
    }
}

/// The fixup in closed form: every character not dropped, in order, with ı as `i`.
pub open spec fn fixup_closed(s: Seq<char>) -> Seq<char>
    decreases s.len(),
{
    if s.len() == 0 {
        Seq::empty()
    } else {
        fixup_closed(s.drop_last()) + if fixup_drops(s, s.len() - 1) {
            Seq::<char>::empty()
        } else {
            seq![fixup_emitted(s.last())]
        }
    }
}

proof fn lemma_fixup_pending_prefix(s: Seq<char>, t: Seq<char>, k: int)
    requires
        0 <= k <= t.len(),
        k <= s.len(),
        forall|i: int| 0 <= i < k ==> t[i] == s[i],
    ensures
        fixup_pending(t, k) == fixup_pending(s, k),
{
    if fixup_pending(s, k) {
        let j = choose|j: int|
            #![trigger s[j]]
            0 <= j < k && fixup_sets_strip(s[j]) && forall|m: int|
                j < m < k ==> #[trigger] fixup_keeps_strip(s[m]);
        assert(t[j] == s[j]);
        assert forall|m: int| j < m < k implies #[trigger] fixup_keeps_strip(t[m]) by {
            assert(t[m] == s[m]);
            assert(fixup_keeps_strip(s[m]));
        }
    }
    if fixup_pending(t, k) {
        let j = choose|j: int|
            #![trigger t[j]]
            0 <= j < k && fixup_sets_strip(t[j]) && forall|m: int|
                j < m < k ==> #[trigger] fixup_keeps_strip(t[m]);
        assert(t[j] == s[j]);
        assert forall|m: int| j < m < k implies #[trigger] fixup_keeps_strip(s[m]) by {
            assert(t[m] == s[m]);
            assert(fixup_keeps_strip(t[m]));
        }
    }
}

/// The fixup's flag after the first `k` characters is `fixup_pending(s, k)`.
proof fn lemma_fixup_step_pending(s: Seq<char>, k: int)
    requires
        0 <= k < s.len(),
    ensures
        spec_fixup_step(fixup_pending(s, k), s[k]).1 == fixup_pending(s, k + 1),
        spec_fixup_step(fixup_pending(s, k), s[k]).0 == if fixup_drops(s, k) {
            None
        } else {
            Some(fixup_emitted(s[k]))
        },
{
    let p = fixup_pending(s, k);
    let c = s[k];
    assert(!spec_is_soft_dotted('\u{0307}'));
    if fixup_sets_strip(c) {
        assert(forall|m: int| k < m < k + 1 ==> #[trigger] fixup_keeps_strip(s[m]));
        assert(fixup_pending(s, k + 1));
    } else if c == '\u{0307}' && p {
        let j = choose|j: int|
            #![trigger s[j]]
            0 <= j < k && fixup_sets_strip(s[j]) && forall|m: int|
                j < m < k ==> #[trigger] fixup_keeps_strip(s[m]);
        assert forall|m: int| j < m < k + 1 implies #[trigger] fixup_keeps_strip(s[m]) by {
            if m < k {
                assert(fixup_keeps_strip(s[m]));
            }
        }
        assert(fixup_pending(s, k + 1));
    } else {
        if fixup_pending(s, k + 1) {
            let j = choose|j: int|
                #![trigger s[j]]
                0 <= j < k + 1 && fixup_sets_strip(s[j]) && forall|m: int|
                    j < m < k + 1 ==> #[trigger] fixup_keeps_strip(s[m]);
            assert(j < k);
            assert(fixup_keeps_strip(s[k]));
            assert forall|m: int| j < m < k implies #[trigger] fixup_keeps_strip(s[m]) by {
                assert(fixup_keeps_strip(s[m]));
            }
            assert(p);
        }
        if p && fixup_keeps_strip(c) {
            let j = choose|j: int|
                #![trigger s[j]]
                0 <= j < k && fixup_sets_strip(s[j]) && forall|m: int|
                    j < m < k ==> #[trigger] fixup_keeps_strip(s[m]);
            assert forall|m: int| j < m < k + 1 implies #[trigger] fixup_keeps_strip(s[m]) by {
                if m < k {
                    assert(fixup_keeps_strip(s[m]));
                }
            }
            assert(fixup_pending(s, k + 1));
        }
    }
}

proof fn lemma_fixup_split(s: Seq<char>, k: int)
    requires
        0 <= k <= s.len(),
    ensures
        spec_fixup_case_fold(s) == fixup_closed(s.take(k)) + spec_fixup_from(
            fixup_pending(s, k),
            s.skip(k),
        ),
    decreases k,
{
    if k == 0 {
        assert(s.skip(0) =~= s);
        assert(!fixup_pending(s, 0));
        assert(fixup_closed(s.take(0)) =~= Seq::<char>::empty());
        assert(Seq::<char>::empty() + spec_fixup_from(false, s) =~= spec_fixup_from(false, s));
    } else {
        lemma_fixup_split(s, k - 1);
        lemma_fixup_step_pending(s, k - 1);
        let p = fixup_pending(s, k - 1);
        let rest = s.skip(k - 1);
        assert(rest[0] == s[k - 1]);
        assert(rest.drop_first() =~= s.skip(k));
        let t = s.take(k);
        assert(t.drop_last() =~= s.take(k - 1));
        assert(t.last() == s[k - 1]);
        lemma_fixup_pending_prefix(s, t, k - 1);
        assert(fixup_drops(t, k - 1) == fixup_drops(s, k - 1));
        let tail = spec_fixup_from(fixup_pending(s, k), s.skip(k));
        if fixup_drops(s, k - 1) {
            assert(fixup_closed(t) =~= fixup_closed(s.take(k - 1)));
        } else {
            let e = fixup_emitted(s[k - 1]);
            assert(fixup_closed(t) =~= fixup_closed(s.take(k - 1)) + seq![e]);
            assert(fixup_closed(s.take(k - 1)) + (seq![e] + tail) =~= fixup_closed(t) + tail);
        }
    }
}

/// The case-fold fixup in closed form: it keeps every character except a U+0307 that
/// follows a dotless ı or a `Soft_Dotted` character with only U+0307 or combining marks
/// of classes other than 0 and Above in between, and it writes ı as `i`.
pub proof fn law_fixup_case_fold_closed_form(s: Seq<char>)
    ensures
        spec_fixup_case_fold(s) == fixup_closed(s),
{
    lemma_fixup_split(s, s.len() as int);
    assert(s.take(s.len() as int) =~= s);
    assert(s.skip(s.len() as int) =~= Seq::<char>::empty());
    assert(fixup_closed(s) + Seq::<char>::empty() =~= fixup_closed(s));
}

// ---------------------------------------------------------------------------
// What the single-character rules accept and change
// ---------------------------------------------------------------------------

/// Only `/` raises `ContainsForwardSlash`, and no printable ASCII character other than `/`
/// raises any error: `\`, `|`, `"`, `:` and the rest are valid in a name.
pub proof fn law_only_slash_is_a_separator(c: char)
    ensures
        spec_char_error(c) == Some(ErrorKind::ContainsForwardSlash) <==> c == '/',
        0x20 <= c as u32 <= 0x7E && c != '/' ==> spec_char_error(c) is None,
{
}

/// A name of printable ASCII characters without `/` is valid unless it is empty, `.` or
/// `..`.
pub proof fn law_printable_ascii_names_validate(s: Seq<char>)
    requires
        forall|i: int| 0 <= i < s.len() ==> 0x20 <= #[trigger] s[i] as u32 <= 0x7E && s[i] != '/',
        s.len() > 0,
        s != seq!['.'],
        s != seq!['.', '.'],
    ensures
        spec_validate(s) is Ok,
{
    lemma_printable_ascii_no_char_error(s);
}

proof fn lemma_printable_ascii_no_char_error(s: Seq<char>)
    requires
        forall|i: int| 0 <= i < s.len() ==> 0x20 <= #[trigger] s[i] as u32 <= 0x7E && s[i] != '/',
    ensures
        spec_first_char_error(s) is None,
    decreases s.len(),
{
    if s.len() > 0 {
        law_only_slash_is_a_separator(s[0]);
        let t = s.drop_first();
        assert forall|i: int| 0 <= i < t.len() implies 0x20 <= #[trigger] t[i] as u32 <= 0x7E
            && t[i] != '/' by {
            assert(t[i] == s[i + 1]);
        }
        lemma_printable_ascii_no_char_error(t);
    }
}

/// Trimming removes only `White_Space` characters that are not controls, and only at the
/// ends: the result is a contiguous part of the name, everything before and after it is
/// such whitespace, and (when not empty) it neither starts nor ends with such whitespace.
pub proof fn law_trim_removes_only_white_space(s: Seq<char>) -> (ij: (int, int))
    ensures
        0 <= ij.0 <= ij.1 <= s.len(),
        spec_trim_whitespace_like(s) == s.subrange(ij.0, ij.1),
        forall|k: int|
            (0 <= k < ij.0 || ij.1 <= k < s.len()) ==> spec_is_white_space(#[trigger] s[k])
                && !spec_is_control(s[k]),
        ij.0 < ij.1 ==> !(spec_is_white_space(s[ij.0]) && !spec_is_control(s[ij.0])),
        ij.0 < ij.1 ==> !(spec_is_white_space(s[ij.1 - 1]) && !spec_is_control(s[ij.1 - 1])),
{
    let i = lemma_trim_start_whitespace(s);
    let t = s.subrange(i, s.len() as int);
    let j = lemma_trim_end_whitespace(t);
    assert(t.subrange(0, j) =~= s.subrange(i, i + j));
    assert forall|k: int| (0 <= k < i || i + j <= k < s.len()) implies spec_is_white_space(
        #[trigger] s[k],
    ) && !spec_is_control(s[k]) by {
        if k >= i + j {
            assert(s[k] == t[k - i]);
        }
    }
    if j > 0 {
        assert(s[i + j - 1] == t[j - 1]);
    }
    (i, i + j)
}

proof fn lemma_trim_start_whitespace(s: Seq<char>) -> (i: int)
    ensures
        0 <= i <= s.len(),
        spec_trim_start(s) == s.subrange(i, s.len() as int),
        forall|k: int| 0 <= k < i ==> spec_is_white_space(#[trigger] s[k]) && !spec_is_control(s[k]),
        i < s.len() ==> !(spec_is_white_space(s[i]) && !spec_is_control(s[i])),
    decreases s.len(),
{
    if s.len() > 0 && spec_is_whitespace_like(s[0]) {
        let t = s.drop_first();
        let i1 = lemma_trim_start_whitespace(t);
        assert(t.subrange(i1, t.len() as int) =~= s.subrange(i1 + 1, s.len() as int));
        assert forall|k: int| 0 <= k < i1 + 1 implies spec_is_white_space(#[trigger] s[k])
            && !spec_is_control(s[k]) by {
            if k > 0 {
                assert(s[k] == t[k - 1]);
            }
        }
        if i1 < t.len() {
            assert(s[i1 + 1] == t[i1]);
        }
        i1 + 1
    } else {
        assert(s.subrange(0, s.len() as int) =~= s);
        0
    }
}

proof fn lemma_trim_end_whitespace(s: Seq<char>) -> (j: int)
    ensures
        0 <= j <= s.len(),
        spec_trim_end(s) == s.subrange(0, j),
        forall|k: int| j <= k < s.len() ==> spec_is_white_space(#[trigger] s[k]) && !spec_is_control(
            s[k],
        ),
        j > 0 ==> !(spec_is_white_space(s[j - 1]) && !spec_is_control(s[j - 1])),
    decreases s.len(),
{
    if s.len() > 0 && spec_is_whitespace_like(s.last()) {
        let t = s.drop_last();
        let j1 = lemma_trim_end_whitespace(t);
        assert(t.subrange(0, j1) =~= s.subrange(0, j1));
        assert forall|k: int| j1 <= k < s.len() implies spec_is_white_space(#[trigger] s[k])
            && !spec_is_control(s[k]) by {
            if k < t.len() {
                assert(s[k] == t[k]);
            }
        }
        if j1 > 0 {
            assert(s[j1 - 1] == t[j1 - 1]);
        }
        j1
    } else {
        assert(s.subrange(0, s.len() as int) =~= s);
        s.len() as int
    }
}

/// The fullwidth mapping changes only the fullwidth forms U+FF01..U+FF5E, each to the
/// character 0xFEE0 below it (U+0021..U+007E); it keeps the length and every other
/// character, U+3000 IDEOGRAPHIC SPACE among them.
pub proof fn law_map_fullwidth_changes_only_fullwidth_forms(s: Seq<char>)
    ensures
        spec_map_fullwidth(s).len() == s.len(),
        forall|i: int|
            0 <= i < s.len() && !(0xFF01 <= s[i] as u32 <= 0xFF5E) ==> #[trigger] spec_map_fullwidth(
                s,
            )[i] == s[i],
        forall|i: int|
            0 <= i < s.len() && 0xFF01 <= s[i] as u32 <= 0xFF5E ==> #[trigger] spec_map_fullwidth(
                s,
            )[i] as u32 == s[i] as u32 - 0xFEE0,
        (forall|i: int| 0 <= i < s.len() ==> !(0xFF01 <= #[trigger] s[i] as u32 <= 0xFF5E))
            ==> spec_map_fullwidth(s) == s,
{
    assert forall|i: int| 0 <= i < s.len() && 0xFF01 <= s[i] as u32 <= 0xFF5E implies #[trigger] spec_map_fullwidth(
        s,
    )[i] as u32 == s[i] as u32 - 0xFEE0 by {
        let u = (s[i] as u32 - 0xFEE0) as u32;
        assert((u as char) as u32 == u);
    }
    if forall|i: int| 0 <= i < s.len() ==> !(0xFF01 <= #[trigger] s[i] as u32 <= 0xFF5E) {
        assert(spec_map_fullwidth(s) =~= s);
    }
}

} // verus!
