use selection_list::keys::parse_key;
use selection_list::keys::str_eq;
use selection_list::keys::Key;

#[test]
fn parse_recognized_codes() {
    assert_eq!(parse_key("ArrowDown"), Key::ArrowDown);
    assert_eq!(parse_key("ArrowUp"), Key::ArrowUp);
    assert_eq!(parse_key("Enter"), Key::Enter);
}

#[test]
fn parse_unrecognized_codes() {
    assert_eq!(parse_key("Space"), Key::Other);
    assert_eq!(parse_key(""), Key::Other);
    assert_eq!(parse_key("arrowdown"), Key::Other);
    assert_eq!(parse_key("ArrowLeft"), Key::Other);
    assert_eq!(parse_key("Enter "), Key::Other);
}

#[test]
fn str_eq_equal_strings() {
    assert!(str_eq("", ""));
    assert!(str_eq("a", "a"));
    assert!(str_eq("ArrowDown", "ArrowDown"));
}

#[test]
fn str_eq_different_lengths() {
    assert!(!str_eq("Arrow", "ArrowDown"));
    assert!(!str_eq("ArrowDown", "Arrow"));
    assert!(!str_eq("", "x"));
}

#[test]
fn str_eq_same_length_different_chars() {
    assert!(!str_eq("ArrowDown", "ArrowDawn"));
    assert!(!str_eq("abc", "abd"));
    assert!(!str_eq("Xbc", "abc"));
}
