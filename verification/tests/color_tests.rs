use paintboard::Color;

#[test]
fn resolve_is_deterministic() {
    let colors = [
        Color::White,
        Color::Black,
        Color::Gray,
        Color::Red,
        Color::Blue,
        Color::WaterBlue,
        Color::Yellow,
        Color::Orange,
        Color::Green,
        Color::Jade,
        Color::Brown,
        Color::Purple,
        Color::Violet,
        Color::Pink,
        Color::Custom(1, 2, 3, 4),
    ];
    for c in colors.iter() {
        assert_eq!(c.value(), c.value());
    }
}

#[test]
fn named_color_table() {
    assert_eq!(Color::White.value(), (255, 255, 255, 255));
    assert_eq!(Color::Black.value(), (0, 0, 0, 255));
    assert_eq!(Color::Gray.value(), (128, 128, 128, 255));
    assert_eq!(Color::Red.value(), (255, 0, 0, 255));
    assert_eq!(Color::Blue.value(), (0, 0, 255, 255));
    assert_eq!(Color::WaterBlue.value(), (0, 191, 255, 255));
    assert_eq!(Color::Yellow.value(), (255, 255, 0, 255));
    assert_eq!(Color::Orange.value(), (255, 165, 0, 255));
    assert_eq!(Color::Green.value(), (0, 128, 0, 255));
    assert_eq!(Color::Jade.value(), (0, 168, 107, 255));
    assert_eq!(Color::Brown.value(), (165, 42, 42, 255));
    assert_eq!(Color::Purple.value(), (128, 0, 128, 255));
    assert_eq!(Color::Violet.value(), (238, 130, 238, 255));
    assert_eq!(Color::Pink.value(), (255, 192, 203, 255));
    assert_eq!(Color::Custom(9, 8, 7, 6).value(), (9, 8, 7, 6));
}

#[test]
fn to_hex_renders_lowercase_pairs() {
    assert_eq!(Color::White.to_hex(), "#ffffff");
    assert_eq!(Color::Black.to_hex(), "#000000");
    assert_eq!(Color::Red.to_hex(), "#ff0000");
    assert_eq!(Color::Custom(231, 107, 44, 9).to_hex(), "#e76b2c");
    assert_eq!(Color::Custom(0, 12, 7, 255).to_hex(), "#000c07");
}

#[test]
fn from_str_named_colors() {
    assert_eq!(Color::from_str("white".to_string()), Color::White);
    assert_eq!(Color::from_str("black".to_string()), Color::Black);
    assert_eq!(Color::from_str("gray".to_string()), Color::Gray);
    assert_eq!(Color::from_str("water-blue".to_string()), Color::WaterBlue);
    assert_eq!(Color::from_str("pink".to_string()), Color::Pink);
}

#[test]
fn from_str_hex_spellings() {
    assert_eq!(
        Color::from_str("#e76B2c".to_string()),
        Color::Custom(231, 107, 44, 255)
    );
    assert_eq!(
        Color::from_str("e76b2c".to_string()),
        Color::Custom(231, 107, 44, 255)
    );
    assert_eq!(
        Color::from_str("fc0".to_string()),
        Color::Custom(255, 204, 0, 255)
    );
    assert_eq!(
        Color::from_str("#0C7".to_string()),
        Color::Custom(0, 204, 119, 255)
    );
}

#[test]
fn from_str_falls_back_to_black() {
    assert_eq!(Color::from_str(String::new()), Color::Black);
    assert_eq!(Color::from_str("cyanish".to_string()), Color::Black);
    assert_eq!(Color::from_str("#12".to_string()), Color::Black);
}
