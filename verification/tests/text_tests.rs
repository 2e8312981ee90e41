use order_tracker::text::{
    chars_eq, chars_vec, contains_pat, find_pat, i64_chars, string_of, trim_vec, u64_chars,
};

#[test]
fn trims_ascii_whitespace_both_ends() {
    let t = string_of(&trim_vec(&chars_vec("  \t hello world \r\n")));
    assert_eq!(t, "hello world");
    assert_eq!(string_of(&trim_vec(&chars_vec("   "))), "");
    assert_eq!(string_of(&trim_vec(&chars_vec("x"))), "x");
}

#[test]
fn substring_search_finds_first_occurrence() {
    let hay = chars_vec("abracadabra");
    assert_eq!(find_pat(&hay, &chars_vec("abra")), Some(0));
    assert_eq!(find_pat(&hay, &chars_vec("cad")), Some(4));
    assert_eq!(find_pat(&hay, &chars_vec("zzz")), None);
    assert!(contains_pat(&hay, &chars_vec("dab")));
    assert!(!contains_pat(&hay, &chars_vec("bard")));
    assert_eq!(find_pat(&hay, &chars_vec("")), Some(0));
}

#[test]
fn character_vectors_compare_by_content() {
    assert!(chars_eq(&chars_vec("abc"), &chars_vec("abc")));
    assert!(!chars_eq(&chars_vec("abc"), &chars_vec("abd")));
    assert!(!chars_eq(&chars_vec("abc"), &chars_vec("ab")));
}

#[test]
fn decimal_rendering_of_integers() {
    assert_eq!(string_of(&u64_chars(0)), "0");
    assert_eq!(string_of(&u64_chars(42)), "42");
    assert_eq!(string_of(&u64_chars(18446744073709551615)), "18446744073709551615");
    assert_eq!(string_of(&i64_chars(-7)), "-7");
    assert_eq!(string_of(&i64_chars(9007)), "9007");
    assert_eq!(string_of(&i64_chars(i64::MIN)), "-9223372036854775808");
    assert_eq!(string_of(&i64_chars(i64::MAX)), "9223372036854775807");
}
