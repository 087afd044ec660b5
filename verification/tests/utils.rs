use std::borrow::Cow;

use normalized_path::utils::{cow, SubstringOrOwned};

#[test]
fn cow_identical_borrows() {
    let s = "hello";
    let result = cow(s.chars().collect(), s);
    assert!(matches!(result, Cow::Borrowed(_)));
    assert_eq!(result, "hello");
}

#[test]
fn cow_empty_borrows() {
    let s = "";
    let result = cow(s.chars().collect(), s);
    assert!(matches!(result, Cow::Borrowed(_)));
}

#[test]
fn cow_first_char_differs() {
    let result = cow("Hello".chars().collect(), "hello");
    assert!(matches!(result, Cow::Owned(_)));
    assert_eq!(result, "Hello");
}

#[test]
fn cow_last_char_differs() {
    let result = cow("hello".chars().collect(), "hellO");
    assert!(matches!(result, Cow::Owned(_)));
    assert_eq!(result, "hello");
}

#[test]
fn cow_middle_char_differs() {
    let result = cow("hello".chars().collect(), "heLlo");
    assert!(matches!(result, Cow::Owned(_)));
    assert_eq!(result, "hello");
}

#[test]
fn cow_converted_longer() {
    let result = cow("abcde".chars().collect(), "abc");
    assert!(matches!(result, Cow::Owned(_)));
    assert_eq!(result, "abcde");
}

#[test]
fn cow_converted_shorter_prefix_borrows() {
    let s = "abcde";
    let result = cow("abc".chars().collect(), s);
    assert!(matches!(result, Cow::Borrowed(_)));
    assert_eq!(result, "abc");
    assert!(core::ptr::eq(result.as_ptr(), s.as_ptr()));
}

#[test]
fn cow_converted_shorter_mismatch_owns() {
    let result = cow("aXc".chars().collect(), "abcde");
    assert!(matches!(result, Cow::Owned(_)));
    assert_eq!(result, "aXc");
}

#[test]
fn cow_unicode_identical_borrows() {
    let s = "日本語";
    let result = cow(s.chars().collect(), s);
    assert!(matches!(result, Cow::Borrowed(_)));
    assert_eq!(result, "日本語");
}

#[test]
fn cow_unicode_differs() {
    let result = cow("日本人".chars().collect(), "日本語");
    assert!(matches!(result, Cow::Owned(_)));
    assert_eq!(result, "日本人");
}

#[test]
fn cow_single_char_identical() {
    let s = "x";
    let result = cow(s.chars().collect(), s);
    assert!(matches!(result, Cow::Borrowed(_)));
}

#[test]
fn cow_single_char_differs() {
    let result = cow("y".chars().collect(), "x");
    assert!(matches!(result, Cow::Owned(_)));
    assert_eq!(result, "y");
}

#[test]
fn cow_original_empty_converted_nonempty() {
    let result = cow("abc".chars().collect(), "");
    assert!(matches!(result, Cow::Owned(_)));
    assert_eq!(result, "abc");
}

#[test]
fn cow_original_nonempty_converted_empty() {
    let s = "abc";
    let result = cow("".chars().collect(), s);
    assert!(matches!(result, Cow::Borrowed(_)));
    assert_eq!(result, "");
}

#[test]
fn cow_multibyte_expansion() {
    // Control char (1 byte) mapped to control picture (3 bytes)
    let result = cow("\u{2401}".chars().collect(), "\x01");
    assert!(matches!(result, Cow::Owned(_)));
    assert_eq!(result, "\u{2401}");
}

#[test]
fn cow_suffix_substring_borrows() {
    // Converted drops leading char, result is a suffix of original.
    let s = "abc";
    let result = cow("bc".chars().collect(), s);
    assert!(matches!(result, Cow::Borrowed(_)));
    assert_eq!(result, "bc");
    assert!(core::ptr::eq(result.as_ptr(), s[1..].as_ptr()));
}

#[test]
fn cow_middle_substring_borrows() {
    // Converted is a middle substring of original.
    let s = "abcde";
    let result = cow("bcd".chars().collect(), s);
    assert!(matches!(result, Cow::Borrowed(_)));
    assert_eq!(result, "bcd");
    assert!(core::ptr::eq(result.as_ptr(), s[1..].as_ptr()));
}

#[test]
fn cow_not_a_substring_owns() {
    let result = cow("xyz".chars().collect(), "abc");
    assert!(matches!(result, Cow::Owned(_)));
    assert_eq!(result, "xyz");
}

#[test]
fn cow_empty_converted_empty_original_borrows() {
    let s = "";
    let result = cow("".chars().collect(), s);
    assert!(matches!(result, Cow::Borrowed(_)));
}

#[test]
fn soo_new_substring() {
    let original = "hello world";
    let soo = SubstringOrOwned::new(&original[6..], original);
    assert!(matches!(soo, SubstringOrOwned::Substring(6, 5)));
    assert_eq!(soo.as_ref(original), "world");
}

#[test]
fn soo_new_full() {
    let original = "hello";
    let soo = SubstringOrOwned::new(original, original);
    assert!(matches!(soo, SubstringOrOwned::Substring(0, 5)));
    assert_eq!(soo.as_ref(original), "hello");
}

#[test]
fn soo_new_not_in_parent() {
    let original = "hello";
    let soo = SubstringOrOwned::new("xyz", original);
    assert!(matches!(soo, SubstringOrOwned::Owned(_)));
    assert_eq!(soo.as_ref(original), "xyz");
}

#[test]
fn soo_new_different_allocation_content_matches() {
    let original = "hello";
    let other = "hello".to_string();
    let soo = SubstringOrOwned::new(&other, original);
    assert!(matches!(soo, SubstringOrOwned::Substring(0, 5)));
    assert_eq!(soo.as_ref(original), "hello");
}

#[test]
fn soo_new_content_is_substring_of_parent() {
    let original = "hello world";
    let other = "world".to_string();
    let soo = SubstringOrOwned::new(&other, original);
    assert!(matches!(soo, SubstringOrOwned::Substring(6, 5)));
    assert_eq!(soo.as_ref(original), "world");
}

#[test]
fn soo_into_cow_owned() {
    let soo = SubstringOrOwned::Owned("world".to_string());
    let result = soo.into_cow(Cow::Borrowed("hello"));
    assert!(matches!(result, Cow::Owned(_)));
    assert_eq!(result, "world");
}

#[test]
fn soo_into_cow_substring_full_borrowed() {
    let original = "hello";
    let soo = SubstringOrOwned::Substring(0, 5);
    let result = soo.into_cow(Cow::Borrowed(original));
    assert!(matches!(result, Cow::Borrowed(_)));
    assert_eq!(result, "hello");
}

#[test]
fn soo_into_cow_substring_partial_borrowed() {
    let original = "hello world";
    let soo = SubstringOrOwned::Substring(6, 5);
    let result = soo.into_cow(Cow::Borrowed(original));
    assert!(matches!(result, Cow::Borrowed(_)));
    assert_eq!(result, "world");
}

#[test]
fn soo_into_cow_substring_from_owned_parent() {
    let soo = SubstringOrOwned::Substring(6, 5);
    let result = soo.into_cow(Cow::Owned("hello world".to_string()));
    assert!(matches!(result, Cow::Owned(_)));
    assert_eq!(result, "world");
}

#[test]
fn soo_is_identity() {
    let original = "hello";
    let soo = SubstringOrOwned::Substring(0, 5);
    assert!(soo.is_identity(original));
    let soo2 = SubstringOrOwned::Substring(1, 4);
    assert!(!soo2.is_identity(original));
}
