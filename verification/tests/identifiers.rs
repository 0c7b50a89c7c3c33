use flatcfg::normalize::{
    key_to_backing_field, key_to_camelcase, path_to_name, uppercase_first_letter,
};

#[test]
fn title_cases_a_word() {
    assert_eq!(uppercase_first_letter("hello"), "Hello");
}

#[test]
fn title_casing_lowercases_the_tail() {
    assert_eq!(uppercase_first_letter("hELLO"), "Hello");
}

#[test]
fn title_casing_keeps_the_empty_word() {
    assert_eq!(uppercase_first_letter(""), "");
}

#[test]
fn title_casing_keeps_non_letters() {
    assert_eq!(uppercase_first_letter("1st"), "1st");
}

#[test]
fn camelcase_of_a_spaced_key() {
    assert_eq!(key_to_camelcase("My Key"), "MyKey");
}

#[test]
fn backing_field_of_a_spaced_key() {
    assert_eq!(key_to_backing_field("My Key"), "_myKey");
}

#[test]
fn camelcase_escapes_a_leading_digit() {
    let token = key_to_camelcase("1stValue");
    assert_eq!(token, "M1stvalue");
    assert!(token.starts_with('M'));
    assert!(!token.chars().next().unwrap().is_ascii_digit());
}

#[test]
fn backing_field_of_a_leading_digit_key() {
    assert_eq!(key_to_backing_field("1stValue"), "_m1stvalue");
}

#[test]
fn camelcase_is_stable_on_a_normalized_token() {
    assert_eq!(key_to_camelcase("Hello"), "Hello");
    assert_eq!(key_to_camelcase(&key_to_camelcase("hello")), "Hello");
}

#[test]
fn camelcase_splits_on_every_delimiter() {
    assert_eq!(key_to_camelcase("a/b~c_d-e.f(g)h+i j"), "ABCDEFGHIJ");
}

#[test]
fn camelcase_skips_empty_words() {
    assert_eq!(key_to_camelcase("a__b"), "AB");
    assert_eq!(key_to_camelcase("two  spaces"), "TwoSpaces");
}

#[test]
fn camelcase_of_only_delimiters_is_empty() {
    assert_eq!(key_to_camelcase("~._- "), "");
}

#[test]
fn camelcase_of_empty_is_empty() {
    assert_eq!(key_to_camelcase(""), "");
}

#[test]
fn backing_field_of_empty_is_the_sentinel() {
    assert_eq!(key_to_backing_field(""), "_");
}

#[test]
fn path_name_joins_the_whole_path() {
    assert_eq!(path_to_name("My File~Main Section"), "MyFileMainSection");
}

#[test]
fn path_name_does_not_escape_digits() {
    assert_eq!(path_to_name("1a~b"), "1aB");
}

#[test]
fn path_name_keeps_parentheses_and_plus() {
    assert_eq!(path_to_name("a(b)+c"), "A(b)+c");
}
