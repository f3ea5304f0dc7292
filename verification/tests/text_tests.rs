use paintboard::match_input;
use paintboard::TextData;

#[test]
fn match_input_accepts_single_letters_digits_and_space() {
    assert!(match_input("a"));
    assert!(match_input("Z"));
    assert!(match_input("5"));
    assert!(match_input(" "));
}

#[test]
fn match_input_rejects_everything_else() {
    assert!(!match_input(""));
    assert!(!match_input("ab"));
    assert!(!match_input("!"));
    assert!(!match_input("_"));
    assert!(!match_input("^"));
    assert!(!match_input("Enter"));
    assert!(!match_input("Backspace"));
    assert!(!match_input("é"));
}

#[test]
fn format_font_renders_size_and_family() {
    let t = TextData {
        content: String::new(),
        position: (0, 0),
        font_size: 48,
        font_type: "serif".to_string(),
    };
    assert_eq!(t.format_font(), "48px serif");
    let t2 = TextData {
        content: String::new(),
        position: (0, 0),
        font_size: 105,
        font_type: "monospace".to_string(),
    };
    assert_eq!(t2.format_font(), "105px monospace");
}

#[test]
fn append_replaces_content_and_keeps_the_rest() {
    let t = TextData {
        content: "old".to_string(),
        position: (3, 4),
        font_size: 48,
        font_type: "serif".to_string(),
    };
    let t2 = t.append("new".to_string());
    assert_eq!(t2.content, "new");
    assert_eq!(t2.position, (3, 4));
    assert_eq!(t2.font_size, 48);
    assert_eq!(t2.font_type, "serif");
}
