use transjlc::regexp::{captures, compiles, is_match};

#[test]
fn patterns_are_compiled_by_the_engine() {
    assert!(compiles("(?i)\\.drl$"));
    assert!(compiles(""));
    assert!(!compiles("(unclosed"));
    assert!(!compiles("a{2,1}"));
    assert!(!compiles("(?=ahead)"));
}

#[test]
fn texts_are_matched_by_the_engine() {
    assert_eq!(is_match("(?i)\\.drl$", "board.DRL"), Some(true));
    assert_eq!(is_match("(?i)\\.drl$", "board.drl.txt"), Some(false));
    assert_eq!(is_match("^$", ""), Some(true));
    assert_eq!(is_match("(unclosed", "(unclosed"), None);
    assert_eq!(is_match("\\d", "\u{663}"), Some(true));
}

#[test]
fn groups_are_taken_from_the_leftmost_match() {
    assert_eq!(
        captures("-In(\\d+)_Cu", "a-In1_Cu-In22_Cu"),
        Some(vec![Some("-In1_Cu".to_string()), Some("1".to_string())])
    );
    assert_eq!(
        captures("(a)|(b)", "b"),
        Some(vec![Some("b".to_string()), None, Some("b".to_string())])
    );
    assert_eq!(captures("x", "abc"), None);
    assert_eq!(captures("(unclosed", "abc"), None);
    assert_eq!(captures("", "abc"), Some(vec![Some(String::new())]));
}
