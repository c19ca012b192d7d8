use tui_bridge::text_width;

#[test]
fn test_ascii_width() {
    assert_eq!(text_width("hello"), 5);
    assert_eq!(text_width("Hello, World!"), 13);
}

#[test]
fn test_emoji_width() {
    assert_eq!(text_width("\u{1f44d}"), 2);
    assert_eq!(text_width("\u{1f30d}"), 2);
    assert_eq!(text_width("Hello \u{1f44d}"), 8);
}

#[test]
fn test_cjk_width() {
    assert_eq!(text_width("\u{4f60}"), 2);
    assert_eq!(text_width("\u{597d}"), 2);
    assert_eq!(text_width("\u{4f60}\u{597d}"), 4);
}

#[test]
fn test_mixed_width() {
    assert_eq!(text_width("a\u{4f60}b\u{597d}"), 6);
}

#[test]
fn test_empty_string() {
    assert_eq!(text_width(""), 0);
}

#[test]
fn test_spaces_and_punctuation() {
    assert_eq!(text_width("a b c"), 5);
    assert_eq!(text_width("!!!"), 3);
}

#[test]
fn test_combining_marks() {
    let combining = "a\u{0301}";
    assert_eq!(text_width(combining), 1);
}
