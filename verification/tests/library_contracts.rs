use std::borrow::Cow;
use std::cmp::Ordering;

use normalized_path::java_modified_utf8::{
    cow_str_to_bytes, decode_utf8_lossy, effective_java_modified_utf8, encode_java_modified_utf8,
    encode_os_utf8, java_modified_utf8_from_probe_len,
};
use normalized_path::os::{
    apple_compatible_from_normalized_cs, apple_file_system_representation, is_reserved_stem,
    os_compatible_from_normalized_cs, trim_start_bom, windows_compatible_from_normalized_cs,
};
use normalized_path::unicode::{case_fold, is_assigned, is_control, is_starter, nfd};
use normalized_path::utils::{chars_to_string, cow, find_chars, str_chars, SubstringOrOwned};
use normalized_path::{
    fixup_case_fold, is_whitespace_like, map_fullwidth, normalize_ci_from_normalized_cs,
    normalize_cs, trim_whitespace_like, unmap_fullwidth, validate_path_element, CaseSensitivity,
    ErrorKind, PathElement, PathElementCI, PathElementCS,
};

// --- whitespace trimming ---

#[test]
fn whitespace_like_excludes_controls() {
    assert!(is_whitespace_like(' '));
    assert!(is_whitespace_like('\u{00A0}'));
    assert!(is_whitespace_like('\u{3000}'));
    assert!(is_whitespace_like('\u{2028}'));
    assert!(!is_whitespace_like('\t'));
    assert!(!is_whitespace_like('\n'));
    assert!(!is_whitespace_like('\u{85}'));
    assert!(!is_whitespace_like('\u{FEFF}'));
    assert!(!is_whitespace_like('a'));
}

#[test]
fn trim_whitespace_like_ends_only() {
    assert_eq!(trim_whitespace_like("  a b  "), "a b");
    assert_eq!(trim_whitespace_like("\u{3000}x\u{00A0}"), "x");
    assert_eq!(trim_whitespace_like("\tx "), "\tx");
    assert_eq!(trim_whitespace_like("   "), "");
    assert_eq!(trim_whitespace_like(""), "");
}

#[test]
fn trim_whitespace_like_is_idempotent() {
    for s in ["  a  ", "\u{2028} b\u{2029}", "c", " \t "] {
        let once = trim_whitespace_like(s);
        assert_eq!(trim_whitespace_like(once), once);
    }
}

// --- fullwidth ---

#[test]
fn map_fullwidth_is_idempotent() {
    for s in ["\u{FF21}\u{FF01}", "abc", "\u{FF5E}\u{FF5F}"] {
        let once = map_fullwidth(s).into_owned();
        assert_eq!(map_fullwidth(&once), once.as_str());
    }
    assert_eq!(map_fullwidth("\u{FF5F}"), "\u{FF5F}");
    assert_eq!(map_fullwidth("\u{FF00}"), "\u{FF00}");
}

#[test]
fn unmap_fullwidth_maps_printable_ascii() {
    assert_eq!(unmap_fullwidth("A~ \u{7F}"), "\u{FF21}\u{FF5E} \u{7F}");
    assert_eq!(map_fullwidth(&unmap_fullwidth("x<y>")), "x<y>");
}

// --- validation: one input per error ---

#[test]
fn validate_each_error() {
    assert_eq!(validate_path_element(""), Err(ErrorKind::Empty));
    assert_eq!(validate_path_element("."), Err(ErrorKind::CurrentDirectoryMarker));
    assert_eq!(validate_path_element(".."), Err(ErrorKind::ParentDirectoryMarker));
    assert_eq!(validate_path_element("a/b"), Err(ErrorKind::ContainsForwardSlash));
    assert_eq!(validate_path_element("a\0b"), Err(ErrorKind::ContainsNullByte));
    assert_eq!(validate_path_element("a\u{1F}"), Err(ErrorKind::ContainsControlCharacter));
    assert_eq!(validate_path_element("a\u{9F}"), Err(ErrorKind::ContainsControlCharacter));
    assert_eq!(validate_path_element("\u{FEFF}"), Err(ErrorKind::ContainsBom));
    assert_eq!(validate_path_element("\u{E0080}"), Err(ErrorKind::ContainsUnassignedChar));
    assert_eq!(validate_path_element("..."), Ok(()));
    assert_eq!(validate_path_element(" "), Ok(()));
}

#[test]
fn validate_first_offending_character_decides() {
    assert_eq!(validate_path_element("/\0"), Err(ErrorKind::ContainsForwardSlash));
    assert_eq!(validate_path_element("\0/"), Err(ErrorKind::ContainsNullByte));
    assert_eq!(validate_path_element("\u{FEFF}/"), Err(ErrorKind::ContainsBom));
}

// --- error text ---

#[test]
fn error_kind_text_for_new_kinds() {
    assert_eq!(
        ErrorKind::ContainsControlCharacter.to_string(),
        "contains control character"
    );
    assert_eq!(ErrorKind::ContainsBom.to_string(), "contains byte order mark");
    assert_eq!(
        ErrorKind::ContainsUnassignedChar.to_string(),
        "contains unassigned character"
    );
}

#[test]
fn error_text_escapes_original() {
    let err = PathElementCS::new("a\tb").unwrap_err();
    assert_eq!(err.to_string(), "contains control character: \"a\\tb\"");
    let err = PathElementCS::new("q\"/").unwrap_err();
    assert_eq!(err.to_string(), "contains forward slash: \"q\\\"/\"");
}

// --- case folding ---

#[test]
fn fixup_case_fold_dotless_and_dot_above() {
    assert_eq!(fixup_case_fold("\u{0131}"), "i");
    assert_eq!(fixup_case_fold("i\u{0307}"), "i");
    assert_eq!(fixup_case_fold("j\u{0316}\u{0307}"), "j\u{0316}");
    assert_eq!(fixup_case_fold("i\u{0301}\u{0307}"), "i\u{0301}\u{0307}");
    assert_eq!(fixup_case_fold("a\u{0307}"), "a\u{0307}");
    let once = fixup_case_fold("\u{0131}\u{0307}\u{0307}").into_owned();
    assert_eq!(fixup_case_fold(&once), once.as_str());
}

#[test]
fn ci_from_cs_examples() {
    assert_eq!(normalize_ci_from_normalized_cs("Stra\u{00DF}e"), "strasse");
    assert_eq!(normalize_ci_from_normalized_cs("\u{0130}"), "i");
    assert_eq!(normalize_ci_from_normalized_cs("\u{00C9}"), "\u{00E9}");
    assert!(matches!(normalize_ci_from_normalized_cs("abc"), Cow::Borrowed("abc")));
}

#[test]
fn canonically_equivalent_names_normalize_equal() {
    let pairs = [
        ("caf\u{00E9}", "cafe\u{0301}"),
        ("\u{1E69}", "s\u{0323}\u{0307}"),
        ("\u{212B}", "A\u{030A}"),
    ];
    for (x, y) in pairs {
        assert_eq!(nfd(x), nfd(y));
        assert_eq!(normalize_cs(x).unwrap(), normalize_cs(y).unwrap());
        assert_eq!(
            PathElementCI::new(x).unwrap().normalized(),
            PathElementCI::new(y).unwrap().normalized()
        );
    }
}

// --- unicode properties ---

#[test]
fn property_wrappers() {
    assert!(is_starter('a'));
    assert!(!is_starter('\u{0301}'));
    assert!(is_assigned('a'));
    assert!(!is_assigned('\u{0378}'));
    assert!(is_control('\u{7F}'));
    assert!(!is_control('\u{A0}'));
}

// --- Windows and Apple forms ---

#[test]
fn windows_compatible_maps_back_under_normalization() {
    for s in ["a:b", "con", "LPT1.txt", "x.", "a*b?c", "plain"] {
        let w = windows_compatible_from_normalized_cs(s);
        let w = std::str::from_utf8(&w).unwrap();
        assert_eq!(map_fullwidth(w), map_fullwidth(s), "{s:?}");
        assert_eq!(normalize_cs(w).unwrap(), normalize_cs(s).unwrap());
    }
    assert!(matches!(windows_compatible_from_normalized_cs("plain"), Cow::Borrowed(_)));
}

#[test]
fn apple_forms_are_nfd() {
    assert_eq!(
        apple_file_system_representation("caf\u{00E9}").unwrap(),
        "cafe\u{0301}".as_bytes()
    );
    assert_eq!(
        apple_compatible_from_normalized_cs("\u{FEFF}x").unwrap().as_ref(),
        b"x"
    );
    assert!(matches!(
        apple_compatible_from_normalized_cs("abc"),
        Ok(Cow::Borrowed(b"abc"))
    ));
}

#[test]
fn os_compatible_with_java_modified_utf8() {
    let r = os_compatible_from_normalized_cs("\u{1F600}", true).unwrap();
    assert_eq!(r.as_ref(), &[0xED, 0xA0, 0xBD, 0xED, 0xB8, 0x80]);
    assert!(matches!(r, Cow::Owned(_)));
    let r = os_compatible_from_normalized_cs("\u{1F600}", false).unwrap();
    assert_eq!(r.as_ref(), "\u{1F600}".as_bytes());
    assert!(matches!(r, Cow::Borrowed(_)));
    let r = os_compatible_from_normalized_cs("\u{E9}", true).unwrap();
    assert!(matches!(r, Cow::Borrowed(_)));
}

// --- encodings ---

#[test]
fn cesu8_round_trip() {
    for s in ["\u{10000}", "a\u{1F600}b", "plain", "\u{E9}"] {
        let bytes = encode_java_modified_utf8(s);
        assert_eq!(decode_utf8_lossy(&bytes), s);
        let os = encode_os_utf8(Cow::Borrowed(s), true);
        assert_eq!(os.as_ref(), bytes.as_ref());
    }
}

#[test]
fn decode_lossy_replaces_invalid() {
    let r = decode_utf8_lossy(b"a\xFFb");
    assert_eq!(r, "a\u{FFFD}b");
    assert!(matches!(r, Cow::Owned(_)));
}

#[test]
fn cow_str_to_bytes_keeps_borrowing() {
    assert!(matches!(cow_str_to_bytes(Cow::Borrowed("ab")), Cow::Borrowed(b"ab")));
    let owned = cow_str_to_bytes(Cow::Owned(String::from("\u{E9}")));
    assert_eq!(owned.as_ref(), &[0xC3, 0xA9]);
    assert!(matches!(owned, Cow::Owned(_)));
}

#[test]
fn probe_length_decides_java_modified_utf8() {
    assert_eq!(java_modified_utf8_from_probe_len(6), Some(true));
    assert_eq!(java_modified_utf8_from_probe_len(4), Some(false));
    assert_eq!(java_modified_utf8_from_probe_len(0), None);
    assert_eq!(java_modified_utf8_from_probe_len(5), None);
    assert_eq!(encode_java_modified_utf8("\u{10000}").len(), 6);
    assert_eq!("\u{10000}".len(), 4);
}

// --- character-sequence helpers ---

#[test]
fn char_helpers() {
    let v = str_chars("h\u{E9}llo");
    assert_eq!(v, vec!['h', '\u{E9}', 'l', 'l', 'o']);
    assert_eq!(chars_to_string(&v), "h\u{E9}llo");
    assert_eq!(find_chars(&vec!['l', 'o'], &v), Some(3));
    assert_eq!(find_chars(&vec!['l'], &v), Some(2));
    assert_eq!(find_chars(&vec!['x'], &v), None);
    assert_eq!(find_chars(&vec![], &v), Some(0));
    assert!(matches!(cow(vec!['l', 'l'], "hello"), Cow::Borrowed("ll")));
    assert!(matches!(cow(vec!['x'], "hello"), Cow::Owned(_)));
}

// --- path elements ---

#[test]
fn equality_ignores_original() {
    let a = PathElementCS::new("  x.txt").unwrap();
    let b = PathElementCS::new("x.txt").unwrap();
    assert!(a == b);
    assert_ne!(a.original(), b.original());
    let c = PathElement::new("X.TXT", CaseSensitivity::Insensitive).unwrap();
    let d = PathElement::new("x.txt", CaseSensitivity::Insensitive).unwrap();
    assert!(c == d);
}

#[test]
fn from_bytes_borrows_valid_utf8() {
    let pe = PathElementCS::from_bytes(b"abc".as_slice()).unwrap();
    assert!(pe.is_borrowed());
    let pe = PathElementCS::from_bytes(b"a\xFF".as_slice()).unwrap();
    assert!(pe.is_owned());
    assert_eq!(pe.original(), "a\u{FFFD}");
}

// --- idempotence ---

#[test]
fn normalization_is_idempotent() {
    for s in [
        "  Caf\u{00E9}.TXT ",
        "cafe\u{0301}",
        "\u{FF21}\u{FF42}",
        "Stra\u{00DF}e",
        "\u{0130}stanbul",
        "\u{1FC3}",
        "a<b>.",
    ] {
        let cs = normalize_cs(s).unwrap().into_owned();
        assert_eq!(normalize_cs(&cs).unwrap(), cs.as_str(), "{s:?}");
        assert!(PathElementCS::new(cs.as_str()).unwrap().is_normalized());
        let ci = PathElementCI::new(s).unwrap().normalized().to_owned();
        assert_eq!(PathElementCI::new(ci.as_str()).unwrap().normalized(), ci, "{s:?}");
    }
}

#[test]
fn cmp_orders_by_normalized_code_points() {
    let a = PathElementCS::new("  apple").unwrap();
    let b = PathElementCS::new("banana").unwrap();
    let upper = PathElementCS::new("Zebra").unwrap();
    assert_eq!(a.cmp(&b), Ordering::Less);
    assert_eq!(b.cmp(&a), Ordering::Greater);
    assert_eq!(upper.cmp(&a), Ordering::Less);
    assert_eq!(a.partial_cmp(&b), Some(Ordering::Less));
    let ab = PathElementCS::new("ab").unwrap();
    let abc = PathElementCS::new("abc").unwrap();
    assert_eq!(ab.cmp(&abc), Ordering::Less);
    let x = PathElement::new("X", CaseSensitivity::Insensitive).unwrap();
    let y = PathElement::new("x", CaseSensitivity::Insensitive).unwrap();
    assert_eq!(x.cmp(&y), Ordering::Equal);
}

#[test]
fn reserved_stems_after_folding() {
    for stem in ["con", "prn", "aux", "nul", "com0", "lpt9", "com\u{B9}", "lpt\u{B3}"] {
        assert!(is_reserved_stem(stem), "{stem:?}");
    }
    for stem in ["CON", "co", "conx", "com", "com\u{B4}", "lpt10", ""] {
        assert!(!is_reserved_stem(stem), "{stem:?}");
    }
}

#[test]
fn trim_start_bom_leading_only() {
    assert_eq!(trim_start_bom("\u{FEFF}\u{FEFF}a\u{FEFF}"), "a\u{FEFF}");
    assert_eq!(trim_start_bom("a"), "a");
    assert_eq!(trim_start_bom("\u{FEFF}"), "");
}

#[test]
fn substring_offsets_are_utf8_bytes() {
    let original = "\u{E9}ab";
    let soo = SubstringOrOwned::new("b", original);
    assert!(matches!(soo, SubstringOrOwned::Substring(3, 1)));
    assert_eq!(soo.as_ref(original), "b");
    let soo = SubstringOrOwned::new("\u{E9}", "\u{E9}");
    assert!(matches!(soo, SubstringOrOwned::Substring(0, 2)));
    assert!(soo.is_identity("\u{E9}"));
    let a = SubstringOrOwned::Substring(2, 1);
    assert_eq!(a.as_ref(original), "a");
    assert_eq!(a.clone().into_cow(Cow::Borrowed(original)), "a");
    assert!(matches!(
        a.into_cow(Cow::Owned(original.to_string())),
        Cow::Owned(ref s) if s == "a"
    ));
    let pe = PathElementCS::new("  \u{E9}t\u{E9}  ").unwrap();
    assert_eq!(pe.normalized(), "\u{E9}t\u{E9}");
    assert!(matches!(pe.into_normalized(), Cow::Borrowed("\u{E9}t\u{E9}")));
}

#[test]
fn os_form_renormalizes_to_itself() {
    for s in ["  Caf\u{E9}  ", "e\u{301}.TXT", "\u{FF21}b"] {
        let ci = PathElementCI::new(s).unwrap();
        let again = PathElementCI::new(ci.os_compatible()).unwrap();
        assert_eq!(again.normalized(), ci.normalized());
        assert_eq!(normalize_cs(ci.os_compatible()).unwrap(), ci.os_compatible());
    }
}

// A byte order mark or a control character anywhere in a name makes the name invalid:
// neither is trimmed nor replaced by a Control Picture.
#[test]
fn bom_and_controls_are_rejected_not_mapped() {
    let err = PathElementCS::new("\u{FEFF}.").unwrap_err();
    assert_eq!(*err.kind(), ErrorKind::ContainsBom);
    assert_eq!(err.original(), "\u{FEFF}.");
    for cs in [CaseSensitivity::Sensitive, CaseSensitivity::Insensitive] {
        let err = PathElement::new("H\tllo", cs).unwrap_err();
        assert_eq!(*err.kind(), ErrorKind::ContainsControlCharacter);
        assert_eq!(err.original(), "H\tllo");
    }
    assert!(PathElementCS::new("H\u{2409}llo").is_ok());
}

#[test]
fn ascii_case_variants_fold_and_collide() {
    assert_eq!(case_fold("HeLLo.TXT"), case_fold("hEllO.txt"));
    assert_eq!(case_fold("ABC xyz!"), "abc xyz!");
    for (x, y) in [("Hello.TXT", "hELLO.txt"), ("Caf\u{E9}", "CAF\u{E9}"), ("A\u{301}", "a\u{301}")] {
        let a = PathElementCI::new(x).unwrap();
        let b = PathElementCI::new(y).unwrap();
        assert_eq!(a.normalized(), b.normalized(), "{x:?} {y:?}");
    }
}

#[test]
fn apple_form_normalizes_back() {
    for s in ["caf\u{E9}", "\u{1E69}x", "plain"] {
        let n = normalize_cs(s).unwrap().into_owned();
        let apple = apple_compatible_from_normalized_cs(&n).unwrap();
        let apple = std::str::from_utf8(&apple).unwrap();
        assert_eq!(normalize_cs(apple).unwrap(), n.as_str());
    }
}

#[test]
fn effective_flag_prefers_thread_override() {
    assert!(effective_java_modified_utf8(Some(true), false));
    assert!(!effective_java_modified_utf8(Some(false), true));
    assert!(effective_java_modified_utf8(None, true));
    assert!(!effective_java_modified_utf8(None, false));
}

#[test]
fn ci_form_normalizes_to_itself() {
    for s in ["Hello.txt", "Stra\u{DF}e", "\u{130}stanbul", "\u{1FC3}"] {
        let ci = normalize_ci_from_normalized_cs(&normalize_cs(s).unwrap()).into_owned();
        assert!(matches!(normalize_ci_from_normalized_cs(&ci), Cow::Borrowed(_)));
        assert_eq!(normalize_ci_from_normalized_cs(&ci), ci.as_str());
        assert_eq!(normalize_cs(&ci).unwrap(), ci.as_str());
    }
}
