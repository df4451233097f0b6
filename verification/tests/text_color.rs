use opencut::text::color::Color;

#[test]
fn color_parses_web_hex_formats() {
    assert_eq!(Color::parse("#ff0000"), Some(Color::rgb(255, 0, 0)));
    assert_eq!(Color::parse("#f00"), Some(Color::rgb(255, 0, 0)));
    assert_eq!(
        Color::parse("#ff000080"),
        Some(Color::rgba(255, 0, 0, 128))
    );
    assert_eq!(Color::parse("transparent"), Some(Color::transparent()));
    assert_eq!(Color::parse("red"), None);
    assert_eq!(Color::parse(""), None);
}
