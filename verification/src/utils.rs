use std::borrow::Cow;
use vstd::prelude::*;
use vstd::utf8::{
    decode_utf8, encode_scalar, encode_utf8, encode_utf8_decode_utf8, encode_utf8_first_scalar,
    encode_utf8_valid_utf8, is_char_boundary, is_char_boundary_iff_is_leading_byte,
    is_char_boundary_start_end_of_seq, pop_first_scalar, valid_utf8, valid_utf8_split,
};

verus! {

/// `needle` occurs in `hay` starting at char index `i`.
pub open spec fn occurs_at(needle: Seq<char>, hay: Seq<char>, i: int) -> bool {
    &&& 0 <= i
    &&& i + needle.len() <= hay.len()
    &&& hay.subrange(i, i + needle.len()) == needle
}

/// `needle` is a contiguous substring of `hay`.
pub open spec fn occurs(needle: Seq<char>, hay: Seq<char>) -> bool {
    exists|i: int| occurs_at(needle, hay, i)
}

/// `i` is the first position at which `needle` occurs in `hay`.
pub open spec fn first_occurrence(needle: Seq<char>, hay: Seq<char>, i: int) -> bool {
    &&& occurs_at(needle, hay, i)
    &&& forall|j: int| 0 <= j < i ==> !occurs_at(needle, hay, j)
}

/// `u` is a Unicode scalar value (a valid `char`).
pub open spec fn is_scalar_value(u: u32) -> bool {
    u <= 0x10FFFF && !(0xD800 <= u <= 0xDFFF)
}

/// Converts a code point to a `char` (`char::from_u32`).
///
/// Trusted: std documents that the result is `None` exactly when `u` is not a Unicode
/// scalar value.
#[verifier::external_body]
pub(crate) fn char_from_u32(u: u32) -> (r: Option<char>)
    ensures
        r matches Some(c) ==> c as u32 == u,
        r is Some <==> is_scalar_value(u),
{
    char::from_u32(u)
}

/// Appends one character to a `String` (`String::push`).
#[verifier::external_body]
pub(crate) fn push_char(s: &mut String, c: char)
    ensures
        final(s)@ == old(s)@.push(c),
{
    s.push(c);
}

/// The string slice a `Cow<str>` holds.
pub fn cow_as_str<'b, 'a>(c: &'b Cow<'a, str>) -> (r: &'b str)
    ensures
        r@ == c@,
{
    match c {
        Cow::Borrowed(s) => *s,
        Cow::Owned(s) => s.as_str(),
    }
}

/// Collects the characters of `s` into a vector.
pub fn str_chars(s: &str) -> (v: Vec<char>)
    ensures
        v@ == s@,
{
    let mut v: Vec<char> = Vec::new();
    for c in it: s.chars()
        invariant
            v@ == it.seq().take(it.index() as int),
            it.seq() == s@,
    {
        v.push(c);
    }
    v
}

/// Builds an owned `String` holding exactly the characters `chars`.
pub fn chars_to_string(chars: &Vec<char>) -> (s: String)
    ensures
        s@ == chars@,
{
    let mut s = String::new();
    let mut i: usize = 0;
    while i < chars.len()
        invariant
            i <= chars.len(),
            s@ == chars@.take(i as int),
        decreases chars.len() - i,
    {
        push_char(&mut s, chars[i]);
        assert(chars@.take(i as int).push(chars@[i as int]) =~= chars@.take(i + 1));
        i += 1;
    }
    assert(chars@.take(chars.len() as int) =~= chars@);
    s
}

/// Whether `needle` occurs in `hay` at position `i`.
fn matches_at(needle: &Vec<char>, hay: &Vec<char>, i: usize) -> (r: bool)
    requires
        i + needle.len() <= hay.len(),
    ensures
        r == occurs_at(needle@, hay@, i as int),
{
    let mut k: usize = 0;
    while k < needle.len()
        invariant
            k <= needle.len(),
            i + needle.len() <= hay.len(),
            forall|m: int| 0 <= m < k ==> hay@[i + m] == needle@[m],
        decreases needle.len() - k,
    {
        if hay[i + k] != needle[k] {
            assert(hay@.subrange(i as int, i + needle.len())[k as int] != needle@[k as int]);
            return false;
        }
        k += 1;
    }
    assert(hay@.subrange(i as int, i + needle.len()) =~= needle@);
    true
}

/// The first position at which `needle` occurs in `hay` (char-level `str::find`).
pub fn find_chars(needle: &Vec<char>, hay: &Vec<char>) -> (r: Option<usize>)
    ensures
        r matches Some(i) ==> first_occurrence(needle@, hay@, i as int),
        r is None ==> !occurs(needle@, hay@),
{
    if needle.len() > hay.len() {
        return None;
    }
    let last = hay.len() - needle.len();
    let mut i: usize = 0;
    loop
        invariant
            last + needle.len() == hay.len(),
            i <= last,
            forall|j: int| 0 <= j < i ==> !occurs_at(needle@, hay@, j),
        decreases last - i,
    {
        if matches_at(needle, hay, i) {
            return Some(i);
        }
        if i == last {
            assert forall|j: int| !occurs_at(needle@, hay@, j) by {
                if 0 <= j <= i {
                }
            }
            return None;
        }
        i += 1;
    }
}

/// Compare `original` char-by-char against `converted`; return `Cow::Borrowed` when
/// `converted` equals `original`, is a prefix of it, or occurs anywhere inside it
/// (the first occurrence is borrowed). Otherwise the characters are collected into an
/// owned `String`.
pub fn cow<'a>(converted: Vec<char>, original: &'a str) -> (r: Cow<'a, str>)
    ensures
        r@ == converted@,
        r is Borrowed <==> occurs(converted@, original@),
{
    let orig = str_chars(original);
    let mut i: usize = 0;
    while i < converted.len() && i < orig.len() && converted[i] == orig[i]
        invariant
            i <= converted.len(),
            i <= orig.len(),
            orig@ == original@,
            forall|m: int| 0 <= m < i ==> converted@[m] == orig@[m],
        decreases converted.len() - i,
    {
        i += 1;
    }
    if i == converted.len() {
        assert(orig@.subrange(0, i as int) =~= converted@);
        assert(occurs_at(converted@, original@, 0));
        if i == orig.len() {
            assert(original@ =~= converted@);
            return Cow::Borrowed(original);
        }
        let prefix = original.substring_char(0, i);
        return Cow::Borrowed(prefix);
    }
    match find_chars(&converted, &orig) {
        Some(pos) => {
            let slice = original.substring_char(pos, pos + converted.len());
            Cow::Borrowed(slice)
        },
        None => {
            let owned = chars_to_string(&converted);
            Cow::Owned(owned)
        },
    }
}

/// The UTF-8 encoding of a concatenation is the concatenation of the encodings.
pub proof fn lemma_encode_utf8_concat(a: Seq<char>, b: Seq<char>)
    ensures
        encode_utf8(a + b) == encode_utf8(a) + encode_utf8(b),
    decreases a.len(),
{
    if a.len() == 0 {
        assert(a + b =~= b);
        assert(encode_utf8(a) + encode_utf8(b) =~= encode_utf8(b));
    } else {
        lemma_encode_utf8_concat(a.drop_first(), b);
        assert((a + b).drop_first() =~= a.drop_first() + b);
        assert((a + b)[0] == a[0]);
        assert(encode_utf8(a + b) =~= encode_utf8(a) + encode_utf8(b));
    }
}

/// The byte offset of character `i` of `s` (the length of the UTF-8 encoding of the
/// characters before it) is a character boundary of `s`'s encoding.
proof fn lemma_byte_offset_is_boundary(s: Seq<char>, i: int)
    requires
        0 <= i <= s.len(),
    ensures
        valid_utf8(encode_utf8(s)),
        encode_utf8(s.take(i)).len() <= encode_utf8(s).len(),
        is_char_boundary(encode_utf8(s), encode_utf8(s.take(i)).len() as int),
    decreases s.len(),
{
    encode_utf8_valid_utf8(s);
    assert(s =~= s.take(i) + s.skip(i));
    lemma_encode_utf8_concat(s.take(i), s.skip(i));
    if i > 0 {
        let bytes = encode_utf8(s);
        encode_utf8_first_scalar(s);
        assert(pop_first_scalar(bytes) =~= encode_utf8(s.drop_first()));
        lemma_byte_offset_is_boundary(s.drop_first(), i - 1);
        assert(s.take(i).drop_first() =~= s.drop_first().take(i - 1));
        assert(s.take(i)[0] == s[0]);
        assert(encode_utf8(s.take(i)).len() == encode_scalar(s[0] as u32).len() + encode_utf8(
            s.drop_first().take(i - 1),
        ).len());
    }
}

/// The characters `i..j` of `s` occupy the bytes between their byte offsets, which are
/// character boundaries of `s`'s encoding.
proof fn lemma_substring_bytes(s: Seq<char>, i: int, j: int)
    requires
        0 <= i <= j <= s.len(),
    ensures
        valid_utf8(encode_utf8(s)),
        encode_utf8(s.take(i)).len() + encode_utf8(s.subrange(i, j)).len() == encode_utf8(
            s.take(j),
        ).len(),
        encode_utf8(s.take(j)).len() <= encode_utf8(s).len(),
        encode_utf8(s).subrange(
            encode_utf8(s.take(i)).len() as int,
            encode_utf8(s.take(j)).len() as int,
        ) == encode_utf8(s.subrange(i, j)),
        is_char_boundary(encode_utf8(s), encode_utf8(s.take(i)).len() as int),
        is_char_boundary(encode_utf8(s), encode_utf8(s.take(j)).len() as int),
{
    lemma_byte_offset_is_boundary(s, i);
    lemma_byte_offset_is_boundary(s, j);
    assert(s.take(j) =~= s.take(i) + s.subrange(i, j));
    lemma_encode_utf8_concat(s.take(i), s.subrange(i, j));
    assert(s =~= s.take(j) + s.skip(j));
    lemma_encode_utf8_concat(s.take(j), s.skip(j));
    let e = encode_utf8(s);
    let a = encode_utf8(s.take(i)).len() as int;
    let b = encode_utf8(s.take(j)).len() as int;
    assert(e.subrange(a, b) =~= encode_utf8(s.subrange(i, j)));
}

/// A character boundary before another stays a boundary of the prefix that ends at the
/// second one.
proof fn lemma_boundary_in_prefix(b: Seq<u8>, i: int, j: int)
    requires
        valid_utf8(b),
        0 <= i <= j <= b.len(),
        is_char_boundary(b, i),
        is_char_boundary(b, j),
    ensures
        valid_utf8(b.subrange(0, j)),
        is_char_boundary(b.subrange(0, j), i),
{
    valid_utf8_split(b, j);
    let p = b.subrange(0, j);
    if i == j {
        is_char_boundary_start_end_of_seq(p);
    } else if i > 0 {
        is_char_boundary_iff_is_leading_byte(b, i);
        is_char_boundary_iff_is_leading_byte(p, i);
        assert(p[i] == b[i]);
    }
}

/// The part of `s` between byte offsets `start` and `start + len`, both character
/// boundaries (`&s[start..start + len]`).
fn byte_slice<'a>(s: &'a str, start: usize, len: usize) -> (r: &'a str)
    requires
        valid_utf8(encode_utf8(s@)),
        start + len <= encode_utf8(s@).len(),
        is_char_boundary(encode_utf8(s@), start as int),
        is_char_boundary(encode_utf8(s@), start + len),
    ensures
        r@ == decode_utf8(encode_utf8(s@).subrange(start as int, start + len)),
{
    // The encoding's length is that of a byte slice, so `start + len` fits in `usize`.
    let n = s.as_bytes().len();
    assert(start + len <= n);
    let end = start + len;
    let (head, _) = s.split_at(end);
    proof {
        lemma_boundary_in_prefix(encode_utf8(s@), start as int, end as int);
    }
    let (_, mid) = head.split_at(start);
    proof {
        encode_utf8_decode_utf8(mid@);
        assert(encode_utf8(mid@) =~= encode_utf8(s@).subrange(start as int, end as int));
    }
    mid
}

/// Stores a normalized or OS-compatible form either as a substring of the original
/// input (UTF-8 byte offset + byte length) or as an owned `String`, minimizing
/// allocations.
#[derive(Debug)]
pub enum SubstringOrOwned {
    Substring(usize, usize),
    Owned(String),
}

impl Clone for SubstringOrOwned {
    fn clone(&self) -> (r: Self)
        ensures
            r == *self,
    {
        match self {
            SubstringOrOwned::Substring(ofs, len) => SubstringOrOwned::Substring(*ofs, *len),
            SubstringOrOwned::Owned(s) => SubstringOrOwned::Owned(s.clone()),
        }
    }
}

impl SubstringOrOwned {
    /// The stored value lies within `original`: its byte range ends inside the UTF-8
    /// encoding of `original`, and both its ends are character boundaries.
    pub open spec fn wf(&self, original: Seq<char>) -> bool {
        match self {
            SubstringOrOwned::Substring(ofs, len) => {
                &&& *ofs + *len <= encode_utf8(original).len()
                &&& is_char_boundary(encode_utf8(original), *ofs as int)
                &&& is_char_boundary(encode_utf8(original), *ofs + *len)
            },
            SubstringOrOwned::Owned(_) => true,
        }
    }

    /// The characters this value stands for, relative to `original`: for a substring,
    /// the characters encoded by bytes `ofs..ofs + len` of `original`.
    pub open spec fn view_in(&self, original: Seq<char>) -> Seq<char> {
        match self {
            SubstringOrOwned::Substring(ofs, len) => decode_utf8(
                encode_utf8(original).subrange(*ofs as int, *ofs + *len),
            ),
            SubstringOrOwned::Owned(s) => s@,
        }
    }

    /// `self` is what `new` builds for its value: a substring exactly when the value
    /// occurs in `original`, at the byte offset of its first occurrence and with the
    /// value's UTF-8 length.
    pub open spec fn canonical(&self, original: Seq<char>) -> bool {
        let v = self.view_in(original);
        match self {
            SubstringOrOwned::Substring(ofs, len) => exists|i: int|
                #[trigger] first_occurrence(v, original, i) && *ofs == encode_utf8(
                    original.take(i),
                ).len() && *len == encode_utf8(v).len(),
            SubstringOrOwned::Owned(s) => !occurs(s@, original),
        }
    }

    /// If `value` is a substring of `original`, return `Substring` (byte offset of its
    /// first occurrence, byte length); otherwise `Owned`.
    pub fn new(value: &str, original: &str) -> (r: Self)
        ensures
            r.wf(original@),
            r.view_in(original@) == value@,
            r.canonical(original@),
            r is Substring <==> occurs(value@, original@),
            r matches SubstringOrOwned::Substring(_, len) ==> len == encode_utf8(value@).len(),
    {
        let v = str_chars(value);
        let o = str_chars(original);
        match find_chars(&v, &o) {
            Some(i) => {
                let prefix = original.substring_char(0, i);
                let ofs = prefix.as_bytes().len();
                let len = value.as_bytes().len();
                proof {
                    let j = i + v.len();
                    assert(original@.subrange(i as int, j) == value@);
                    assert(prefix@ =~= original@.take(i as int));
                    lemma_substring_bytes(original@, i as int, j);
                    encode_utf8_decode_utf8(value@);
                    let r = SubstringOrOwned::Substring(ofs, len);
                    assert(r.view_in(original@) == value@);
                    assert(first_occurrence(r.view_in(original@), original@, i as int));
                }
                SubstringOrOwned::Substring(ofs, len)
            },
            None => SubstringOrOwned::Owned(value.to_owned()),
        }
    }

    /// Returns `true` if this is a `Substring` spanning the entire original.
    pub fn is_identity(&self, original: &str) -> (r: bool)
        ensures
            r == (self matches SubstringOrOwned::Substring(ofs, len) && ofs == 0 && len
                == encode_utf8(original@).len()),
    {
        match self {
            SubstringOrOwned::Substring(ofs, len) => *ofs == 0 && *len == original.as_bytes().len(),
            SubstringOrOwned::Owned(_) => false,
        }
    }

    /// The stored value as a string slice.
    pub fn as_ref<'a>(&'a self, original: &'a str) -> (r: &'a str)
        requires
            self.wf(original@),
        ensures
            r@ == self.view_in(original@),
    {
        match self {
            SubstringOrOwned::Substring(ofs, len) => {
                proof {
                    encode_utf8_valid_utf8(original@);
                }
                byte_slice(original, *ofs, *len)
            },
            SubstringOrOwned::Owned(s) => s.as_str(),
        }
    }

    /// Consumes `self` and returns the value as a `Cow`: `original` itself when the value
    /// spans all of it, a borrowed slice of it when the value is a substring and
    /// `original` is borrowed, and an owned string otherwise.
    pub fn into_cow<'a>(self, original: Cow<'a, str>) -> (r: Cow<'a, str>)
        requires
            self.wf(original@),
        ensures
            r@ == self.view_in(original@),
            r is Borrowed <==> (self is Substring && original is Borrowed),
            (self matches SubstringOrOwned::Substring(ofs, len) && ofs == 0 && len
                == encode_utf8(original@).len()) ==> r == original,
    {
        proof {
            encode_utf8_valid_utf8(original@);
        }
        match self {
            SubstringOrOwned::Owned(s) => Cow::Owned(s),
            SubstringOrOwned::Substring(ofs, len) => {
                match original {
                    Cow::Borrowed(s) => {
                        if ofs == 0 && len == s.as_bytes().len() {
                            proof {
                                encode_utf8_decode_utf8(s@);
                                assert(encode_utf8(s@).subrange(0, len as int) =~= encode_utf8(
                                    s@,
                                ));
                            }
                            Cow::Borrowed(s)
                        } else {
                            Cow::Borrowed(byte_slice(s, ofs, len))
                        }
                    },
                    Cow::Owned(s) => {
                        if ofs == 0 && len == s.as_str().as_bytes().len() {
                            proof {
                                encode_utf8_decode_utf8(s@);
                                assert(encode_utf8(s@).subrange(0, len as int) =~= encode_utf8(
                                    s@,
                                ));
                            }
                            Cow::Owned(s)
                        } else {
                            let sub = byte_slice(s.as_str(), ofs, len);
                            Cow::Owned(sub.to_owned())
                        }
                    },
                }
            },
        }
    }
}

/// For a canonically stored value: it is a substring exactly when it occurs in
/// `original`, and it spans all of `original` exactly when it equals `original`.
pub proof fn lemma_identity_iff_equal(v: &SubstringOrOwned, original: Seq<char>)
    requires
        v.wf(original),
        v.canonical(original),
    ensures
        *v is Substring <==> occurs(v.view_in(original), original),
        (v matches SubstringOrOwned::Substring(ofs, len) && ofs == 0 && len == encode_utf8(
            original,
        ).len()) <==> v.view_in(original) == original,
{
    match v {
        SubstringOrOwned::Substring(ofs, len) => {
            let w = v.view_in(original);
            let i = choose|i: int|
                #[trigger] first_occurrence(w, original, i) && *ofs == encode_utf8(
                    original.take(i),
                ).len() && *len == encode_utf8(w).len();
            assert(occurs_at(w, original, i));
            let e = encode_utf8(original);
            if *ofs == 0 && *len == e.len() {
                encode_utf8_decode_utf8(original);
                assert(e.subrange(0, e.len() as int) =~= e);
            }
            if w == original {
                assert(i == 0);
                assert(original.take(0) =~= Seq::<char>::empty());
            }
        },
        SubstringOrOwned::Owned(s) => {
            if s@ == original {
                assert(occurs_at(s@, original, 0)) by {
                    assert(original.subrange(0, original.len() as int) =~= original);
                }
            }
        },
    }
}

} // verus!
