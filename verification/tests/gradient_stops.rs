use opencut::graphics::gradient::parser::parse_gradient;
use opencut::graphics::gradient::ast::Color;
use opencut::graphics::gradient::stops::color_to_string;

fn literal(name: &str) -> Color {
    Color::Literal(name.to_string())
}

#[test]
fn color_string_round_trip() {
    assert_eq!(color_to_string(&Color::Hex("abc".into())), "#abc");
    assert_eq!(color_to_string(&literal("red")), "red");
    assert_eq!(
        color_to_string(&Color::Rgb(vec!["1".into(), "2".into(), "3".into()])),
        "rgb(1,2,3)"
    );
    assert_eq!(
        color_to_string(&Color::Rgba(vec!["1".into(), "2".into(), "3".into(), "0.5".into()])),
        "rgba(1,2,3,0.5)"
    );
    assert_eq!(
        color_to_string(&Color::Hsl(["120".into(), "50".into(), "50".into()])),
        "hsl(120,50,50)"
    );
    assert_eq!(
        color_to_string(&Color::Hsla(["120".into(), "50".into(), "50".into(), "0.5".into()])),
        "hsla(120,50,50,0.5)"
    );
    assert_eq!(color_to_string(&Color::Var("--x".into())), "var(--x)");
}

#[test]
fn color_to_string_of_empty_argument_lists() {
    assert_eq!(color_to_string(&Color::Rgb(vec![])), "rgb()");
    assert_eq!(color_to_string(&Color::Rgba(vec!["7".into()])), "rgba(7)");
}

#[test]
fn written_colors_read_back() {
    let list = parse_gradient(
        "linear-gradient(#a1B2c3, rgb(1,2.5,.3), rgba(0, 0, 0, 5.), var(--brand-1), RebeccaPurple)",
    )
    .unwrap();
    for stop in &list[0].color_stops {
        let text = format!("linear-gradient({})", color_to_string(&stop.color));
        let again = parse_gradient(&text).unwrap();
        assert_eq!(again[0].color_stops[0].color, stop.color);
    }
}

#[test]
fn hsl_colors_lose_their_percent_signs() {
    let list = parse_gradient("linear-gradient(hsl(120, 50%, 25%))").unwrap();
    let text = color_to_string(&list[0].color_stops[0].color);
    assert_eq!(text, "hsl(120,50,25)");
    let err = parse_gradient(&format!("linear-gradient({text})")).unwrap_err();
    assert_eq!(err.message, "Expected percentage value for saturation and lightness in HSL");
}
