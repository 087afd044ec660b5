use std::borrow::Cow;

use simd_cesu8::DecodingError;
use vstd::prelude::*;
use vstd::utf8::{
    decode_utf8, encode_scalar, encode_utf8, last_continuation_byte, leading_byte_width_3,
    second_last_continuation_byte, valid_utf8,
};

verus! {

/// The three-byte UTF-8 style encoding of a 16-bit code unit (used for surrogates).
pub open spec fn spec_encode_unit3(u: u32) -> Seq<u8> {
    seq![leading_byte_width_3(u), second_last_continuation_byte(u), last_continuation_byte(u)]
}

/// The CESU-8 encoding of one character: BMP characters as in UTF-8, supplementary
/// characters as a UTF-16 surrogate pair, each surrogate in three bytes.
pub open spec fn spec_encode_cesu8_char(c: char) -> Seq<u8> {
    let u = c as u32;
    if u < 0x10000 {
        encode_scalar(u)
    } else {
        let v = (u - 0x10000) as u32;
        spec_encode_unit3((0xD800 + (v >> 10)) as u32) + spec_encode_unit3(
            (0xDC00 + (v & 0x3FF)) as u32,
        )
    }
}

/// The CESU-8 encoding of a character sequence.
pub open spec fn spec_encode_cesu8(s: Seq<char>) -> Seq<u8>
    decreases s.len(),
{
    if s.len() == 0 {
        Seq::empty()
    } else {
        spec_encode_cesu8_char(s[0]) + spec_encode_cesu8(s.drop_first())
    }
}

/// `s` holds a supplementary character (U+10000 or above).
pub open spec fn has_supplementary(s: Seq<char>) -> bool {
    exists|i: int| 0 <= i < s.len() && s[i] as u32 >= 0x10000
}

/// Without supplementary characters, CESU-8 and UTF-8 agree.
pub proof fn lemma_cesu8_is_utf8_without_supplementary(s: Seq<char>)
    requires
        !has_supplementary(s),
    ensures
        spec_encode_cesu8(s) == encode_utf8(s),
    decreases s.len(),
{
    if s.len() > 0 {
        assert((s[0] as u32) < 0x10000);
        let t = s.drop_first();
        assert(!has_supplementary(t)) by {
            if has_supplementary(t) {
                let i = choose|i: int| 0 <= i < t.len() && t[i] as u32 >= 0x10000;
                assert(s[i + 1] == t[i]);
            }
        }
        lemma_cesu8_is_utf8_without_supplementary(t);
    }
}

/// What `simd_cesu8::decode` yields: `Some` of the decoded characters, or `None` when
/// the bytes are neither valid UTF-8 nor valid CESU-8.
pub uninterp spec fn spec_cesu8_decode(bytes: Seq<u8>) -> Option<Seq<char>>;

/// What `String::from_utf8_lossy` yields.
pub uninterp spec fn spec_utf8_lossy(bytes: Seq<u8>) -> Seq<char>;

/// The error type of `simd_cesu8::decode`.
#[verifier::external_type_specification]
#[verifier::external_body]
pub struct ExDecodingError(DecodingError);

/// `simd_cesu8::encode` can re-encode `s` without asking for more than `isize::MAX`
/// bytes: it reserves twice the UTF-8 length whenever `s` has a supplementary character.
pub open spec fn cesu8_encodable(s: Seq<char>) -> bool {
    has_supplementary(s) ==> 2 * encode_utf8(s).len() <= isize::MAX
}

/// Encodes `s` as CESU-8 (Java Modified UTF-8 without the NUL special case), by
/// `simd_cesu8::encode`.
///
/// Trusted: the result is the CESU-8 encoding of `s`; it borrows `s`'s own bytes exactly
/// when `s` has no supplementary character (the crate tests for a 4-byte UTF-8 header).
/// The crate documents a panic when the buffer it reserves (twice the input's length)
/// would exceed `isize::MAX` bytes, which `requires` rules out.
#[verifier::external_body]
pub fn encode_java_modified_utf8(s: &str) -> (r: Cow<'_, [u8]>)
    requires
        cesu8_encodable(s@),
    ensures
        r@ == spec_encode_cesu8(s@),
        r is Borrowed <==> !has_supplementary(s@),
{
    simd_cesu8::encode(s)
}

/// Decodes UTF-8 or CESU-8 bytes, by `simd_cesu8::decode`.
///
/// Trusted: the result is `spec_cesu8_decode` of the bytes; valid UTF-8 decodes as UTF-8
/// and borrows (the crate tries `from_utf8` first); the CESU-8 encoding of a string
/// decodes back to that string.
#[verifier::external_body]
fn cesu8_decode(bytes: &[u8]) -> (r: Result<Cow<'_, str>, DecodingError>)
    ensures
        r is Ok <==> spec_cesu8_decode(bytes@) is Some,
        r is Ok ==> Some(r->Ok_0@) == spec_cesu8_decode(bytes@),
        valid_utf8(bytes@) ==> (r is Ok && r->Ok_0@ == decode_utf8(bytes@) && r->Ok_0 is Borrowed),
        forall|s: Seq<char>| bytes@ == spec_encode_cesu8(s) ==> (r is Ok && r->Ok_0@ == s),
{
    simd_cesu8::decode(bytes)
}

/// Decodes bytes as UTF-8, replacing invalid sequences with U+FFFD, by
/// `String::from_utf8_lossy`.
///
/// Trusted: the result is `spec_utf8_lossy` of the bytes; std documents that valid UTF-8
/// is borrowed unchanged and that invalid input (which gains replacement characters)
/// yields an owned `String`.
#[verifier::external_body]
pub(crate) fn utf8_lossy(bytes: &[u8]) -> (r: Cow<'_, str>)
    ensures
        r@ == spec_utf8_lossy(bytes@),
        r is Borrowed <==> valid_utf8(bytes@),
        valid_utf8(bytes@) ==> r@ == decode_utf8(bytes@),
{
    String::from_utf8_lossy(bytes)
}

/// [`decode_utf8_lossy`] on a byte sequence.
pub open spec fn spec_decode_utf8_lossy(bytes: Seq<u8>) -> Seq<char> {
    match spec_cesu8_decode(bytes) {
        Some(s) => s,
        None => spec_utf8_lossy(bytes),
    }
}

/// Decodes UTF-8 or CESU-8 (Java Modified UTF-8) bytes; when they are neither, falls back
/// to lossy UTF-8 decoding.
pub fn decode_utf8_lossy(bytes: &[u8]) -> (r: Cow<'_, str>)
    ensures
        r@ == spec_decode_utf8_lossy(bytes@),
        valid_utf8(bytes@) ==> r@ == decode_utf8(bytes@) && r is Borrowed,
        forall|s: Seq<char>| bytes@ == spec_encode_cesu8(s) ==> r@ == s,
        forall|s: Seq<char>| bytes@ == encode_utf8(s) ==> r@ == s,
{
    proof {
        assert forall|s: Seq<char>| bytes@ == encode_utf8(s) implies valid_utf8(bytes@)
            && decode_utf8(bytes@) == s by {
            vstd::utf8::encode_utf8_valid_utf8(s);
            vstd::utf8::encode_utf8_decode_utf8(s);
        }
    }
    match cesu8_decode(bytes) {
        Ok(s) => s,
        Err(_) => utf8_lossy(bytes),
    }
}

/// Converts `String` into its UTF-8 bytes (`String::into_bytes`).
///
/// Trusted: std documents that the bytes are the string's UTF-8 encoding.
#[verifier::external_body]
pub(crate) fn string_into_bytes(s: String) -> (r: Vec<u8>)
    ensures
        r@ == encode_utf8(s@),
{
    s.into_bytes()
}

/// The UTF-8 bytes of a `Cow<str>`, borrowed when the string is borrowed.
pub fn cow_str_to_bytes(s: Cow<'_, str>) -> (r: Cow<'_, [u8]>)
    ensures
        r@ == encode_utf8(s@),
        r is Borrowed <==> s is Borrowed,
{
    match s {
        Cow::Borrowed(b) => Cow::Borrowed(b.as_bytes()),
        Cow::Owned(o) => Cow::Owned(string_into_bytes(o)),
    }
}

/// Encodes `s` for the OS: CESU-8 when the runtime uses Java Modified UTF-8
/// (`use_java_modified_utf8`), plain UTF-8 otherwise. Borrows when `s` is borrowed
/// and no re-encoding was needed.
pub fn encode_os_utf8(s: Cow<'_, str>, use_java_modified_utf8: bool) -> (r: Cow<'_, [u8]>)
    requires
        use_java_modified_utf8 ==> cesu8_encodable(s@),
    ensures
        r@ == if use_java_modified_utf8 {
            spec_encode_cesu8(s@)
        } else {
            encode_utf8(s@)
        },
        r is Borrowed <==> (s is Borrowed && !(use_java_modified_utf8 && has_supplementary(s@))),
{
    if use_java_modified_utf8 {
        let needs = match encode_java_modified_utf8(crate::utils::cow_as_str(&s)) {
            Cow::Borrowed(_) => None,
            Cow::Owned(v) => Some(v),
        };
        match needs {
            None => {
                proof {
                    lemma_cesu8_is_utf8_without_supplementary(s@);
                }
                cow_str_to_bytes(s)
            },
            Some(v) => Cow::Owned(v),
        }
    } else {
        cow_str_to_bytes(s)
    }
}

/// Whether a runtime uses Java Modified UTF-8, judged from the length of the bytes it
/// produces for the single character U+10000: six bytes (a CESU-8 surrogate pair, as
/// [`spec_encode_cesu8`] gives) mean it does, four bytes (plain UTF-8) mean it does not,
/// and any other length is unexpected (`None`).
pub fn java_modified_utf8_from_probe_len(len: usize) -> (r: Option<bool>)
    ensures
        r == (if len == 6 {
            Some(true)
        } else if len == 4 {
            Some(false)
        } else {
            None::<bool>
        }),
{
    if len == 6 {
        Some(true)
    } else if len == 4 {
        Some(false)
    } else {
        None
    }
}

/// The Java Modified UTF-8 setting in force: a thread's own override when it has one,
/// the process-wide setting otherwise.
pub fn effective_java_modified_utf8(thread_override: Option<bool>, global: bool) -> (r: bool)
    ensures
        r == match thread_override {
            Some(v) => v,
            None => global,
        },
{
    match thread_override {
        Some(v) => v,
        None => global,
    }
}

} // verus!
