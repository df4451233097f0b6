use opencut::graphics::gradient::parser::{parse_gradient, parse_gradient_panics};
use opencut::graphics::gradient::raster::{background_panics, gradient_layer_panics};
use opencut::text::color::Color;

#[test]
fn gradient_reading_that_would_split_a_character() {
    assert!(parse_gradient_panics("linear-gradient(éé)"));
    assert!(!parse_gradient_panics("linear-gradient(é)"));
    let err = parse_gradient("linear-gradient(é)").unwrap_err();
    assert_eq!(err.message, "Expected color definition");
    assert_eq!(err.input, "é)");
}

#[test]
fn ascii_inputs_never_panic() {
    for code in [
        "",
        "linear-gradient(",
        "radial-gradient(circle at, red)",
        "calc((((",
        "-webkit-",
        "to left top",
        "linear-gradient(to  right, red, blue)",
        "))))(((( ,,,, ;;",
    ] {
        assert!(!parse_gradient_panics(code));
        assert!(!background_panics(code));
        assert!(!gradient_layer_panics(code));
    }
}

#[test]
fn background_and_layer_panics() {
    assert!(background_panics("red, linear-gradient(éé)"));
    assert!(!background_panics("rébeccapurple, linear-gradient(é)"));
    assert!(gradient_layer_panics("-éééé"));
    assert!(gradient_layer_panics("-éé"));
    assert!(!gradient_layer_panics("-é"));
}

#[test]
fn color_parse_panics_on_split_hex() {
    assert!(Color::parse_panics("#é0"));
    assert!(!Color::parse_panics("#é"));
    assert!(!Color::parse_panics("#ff0000"));
    assert!(!Color::parse_panics("transparent"));
}
