use balance_sync::{KeyError, chars_of, contains_text, fold_case, principal_key};

#[test]
fn principal_key_of_canonical_text() {
    assert_eq!(principal_key("aaaaa-aa"), Ok("aaaaa-aa".to_string()));
    assert_eq!(
        principal_key("ryjl3-tyaaa-aaaaa-aaaba-cai"),
        Ok("ryjl3-tyaaa-aaaaa-aaaba-cai".to_string())
    );
}

#[test]
fn principal_key_lowercases() {
    assert_eq!(principal_key("AAAAA-AA"), Ok("aaaaa-aa".to_string()));
}

#[test]
fn principal_key_refuses_bad_text() {
    assert_eq!(principal_key(""), Err(KeyError::MalformedPrincipal));
    assert_eq!(principal_key("alice"), Err(KeyError::MalformedPrincipal));
    assert_eq!(principal_key("aaaaaaa"), Err(KeyError::MalformedPrincipal));
}

#[test]
fn fold_case_lowers_letters() {
    assert_eq!(fold_case("AbC-Ü"), "abc-ü");
    assert_eq!(fold_case(""), "");
}

#[test]
fn chars_of_keeps_order() {
    assert_eq!(chars_of("aé1"), vec!['a', 'é', '1']);
}

#[test]
fn contains_text_cases() {
    assert!(contains_text("hello", "ell"));
    assert!(contains_text("hello", "hello"));
    assert!(contains_text("hello", ""));
    assert!(contains_text("", ""));
    assert!(!contains_text("hello", "lx"));
    assert!(!contains_text("hel", "hello"));
    assert!(contains_text("aab", "ab"));
}
