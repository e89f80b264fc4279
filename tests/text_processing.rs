use opensafe::text::{contains_str, preprocess_text};

#[test]
fn test_text_preprocessing() {
    let text = "Hello, World! 123";
    let processed = preprocess_text(text);
    assert_eq!(processed, "hello world 123");
}

#[test]
fn preprocess_collapses_and_trims_whitespace() {
    assert_eq!(preprocess_text("  Many\t\tSPACES \n here!  "), "many spaces here");
}

#[test]
fn preprocess_of_punctuation_only_is_empty() {
    assert_eq!(preprocess_text("?!.,;"), "");
    assert_eq!(preprocess_text(""), "");
}

#[test]
fn preprocess_lowercases_letters() {
    assert_eq!(preprocess_text("EDUCATIONAL Context"), "educational context");
}

#[test]
fn substring_search() {
    assert!(contains_str("for educational use", "educational"));
    assert!(contains_str("abc", ""));
    assert!(!contains_str("educa", "educational"));
    assert!(!contains_str("medic al", "medical"));
    assert!(contains_str("research", "research"));
}
