use opencut::graphics::gradient::ast::{
    Color, ColorStop, Distance, GradientKind, GradientOrientation, LinearOrientation, Position,
};
use opencut::graphics::gradient::parser::parse_gradient;
use opencut::graphics::gradient::raster::{
    is_gradient_layer, normalize_position_keywords, order_position_keywords,
    parse_background_layers, split_css_layers, BackgroundLayer,
};

#[test]
fn whitespace_and_semicolon_around_a_value_are_ignored() {
    let plain = parse_gradient("linear-gradient(red, blue)").unwrap();
    assert_eq!(parse_gradient("\t linear-gradient(red, blue) \n").unwrap(), plain);
    assert_eq!(parse_gradient("  linear-gradient(red, blue);  ").unwrap(), plain);
    let err_plain = parse_gradient("foo(red)").unwrap_err();
    let err_padded = parse_gradient("  foo(red);\n").unwrap_err();
    assert_eq!(err_plain, err_padded);
}

#[test]
fn whitespace_only_input_is_empty_list() {
    assert_eq!(parse_gradient(" \t\n ").unwrap(), vec![]);
    assert_eq!(parse_gradient(";").unwrap(), vec![]);
}

#[test]
fn every_parsed_gradient_has_stops_and_a_fitting_orientation() {
    let list = parse_gradient(
        "linear-gradient(45deg, red, blue), radial-gradient(circle, ellipse, red), repeating-radial-gradient(at left, red)",
    )
    .unwrap();
    assert_eq!(list.len(), 3);
    for g in &list {
        assert!(!g.color_stops.is_empty());
    }
    assert!(matches!(list[0].orientation, Some(GradientOrientation::Linear(_))));
    match &list[1].orientation {
        Some(GradientOrientation::Radial(items)) => assert_eq!(items.len(), 2),
        other => panic!("unexpected orientation: {other:?}"),
    }
    match &list[2].orientation {
        Some(GradientOrientation::Radial(items)) => assert_eq!(items.len(), 1),
        other => panic!("unexpected orientation: {other:?}"),
    }
}

#[test]
fn error_missing_open_paren_reports_rest() {
    let err = parse_gradient("linear-gradient red").unwrap_err();
    assert_eq!(err.message, "Missing (");
    assert_eq!(err.input, "red");
}

#[test]
fn error_one_extra_comma_between_gradients() {
    let err = parse_gradient("linear-gradient(red, blue),").unwrap_err();
    assert_eq!(err.message, "One extra comma");
    assert_eq!(err.input, "");
}

#[test]
fn error_hsla_missing_percentages() {
    let err = parse_gradient("linear-gradient(hsla(120, 50, 50, 0.5), red)").unwrap_err();
    assert_eq!(
        err.message,
        "Expected percentage value for saturation and lightness in HSLA"
    );
}

#[test]
fn hsl_commas_may_be_left_out() {
    let list = parse_gradient("linear-gradient(hsl(120 50% 25%), red)").unwrap();
    assert_eq!(
        list[0].color_stops[0].color,
        Color::Hsl(["120".into(), "50".into(), "25".into()])
    );
}

#[test]
fn calc_keeps_nested_parentheses() {
    let list = parse_gradient("linear-gradient(red calc(100% - (2 * 5px)), blue)").unwrap();
    assert_eq!(
        list[0].color_stops[0],
        ColorStop {
            color: Color::Literal("red".into()),
            length: Some(Distance::Calc("100% - (2 * 5px)".into())),
        }
    );
}

#[test]
fn vendor_prefix_needs_a_known_vendor() {
    let err = parse_gradient("-foo-linear-gradient(red)").unwrap_err();
    assert_eq!(err.message, "Invalid input not EOF");
    assert_eq!(
        parse_gradient("-O-linear-gradient(to top, red)").unwrap()[0].orientation,
        Some(GradientOrientation::Linear(LinearOrientation::Directional("top".into())))
    );
}

#[test]
fn layers_split_only_outside_parentheses_and_are_trimmed() {
    assert_eq!(
        split_css_layers("  rgb(1, 2, 3) ,linear-gradient(to right, red, blue)  , "),
        vec!["rgb(1, 2, 3)", "linear-gradient(to right, red, blue)"]
    );
    assert_eq!(split_css_layers(",a"), vec!["", "a"]);
    assert_eq!(split_css_layers("   "), Vec::<String>::new());
    assert_eq!(split_css_layers(") , x"), vec![") , x"]);
}

#[test]
fn gradient_layer_test_reads_names_and_vendor_prefixes() {
    assert!(is_gradient_layer("linear-gradient(red, blue)"));
    assert!(is_gradient_layer("-WEBKIT-Radial-Gradient(red)"));
    assert!(is_gradient_layer("repeating-linear-gradient"));
    assert!(!is_gradient_layer("-x-linear-gradient(red)"));
    assert!(!is_gradient_layer("red"));
}

#[test]
fn broken_gradient_layers_are_kept_as_colors() {
    let layers = parse_background_layers("linear-gradient(red, , blue), #fff, ");
    assert_eq!(
        layers,
        vec![
            BackgroundLayer::Color("linear-gradient(red, , blue)".to_string()),
            BackgroundLayer::Color("#fff".to_string()),
        ]
    );
}

#[test]
fn position_keywords_are_put_horizontal_first() {
    let p = Position {
        x: Some(Distance::PositionKeyword("TOP".into())),
        y: Some(Distance::PositionKeyword("Left".into())),
    };
    assert_eq!(
        normalize_position_keywords(&p),
        Position {
            x: Some(Distance::PositionKeyword("left".into())),
            y: Some(Distance::PositionKeyword("top".into())),
        }
    );
    let kept = Position {
        x: Some(Distance::PositionKeyword("Left".into())),
        y: Some(Distance::PositionKeyword("TOP".into())),
    };
    assert_eq!(normalize_position_keywords(&kept), kept);
    let mixed = Position { x: Some(Distance::Percent("10".into())), y: None };
    assert_eq!(normalize_position_keywords(&mixed), mixed);
    assert_eq!(
        order_position_keywords("bottom".into(), "right".into(), &kept),
        Position {
            x: Some(Distance::PositionKeyword("right".into())),
            y: Some(Distance::PositionKeyword("bottom".into())),
        }
    );
}

#[test]
fn gradient_kind_names() {
    assert_eq!(GradientKind::RepeatingRadial.as_str(), "repeating-radial-gradient");
    assert!(GradientKind::RepeatingLinear.is_linear());
    assert!(!GradientKind::Radial.is_linear());
}

#[test]
fn gradient_names_ignore_case_and_vendor_prefix() {
    let kinds = [
        GradientKind::Linear,
        GradientKind::RepeatingLinear,
        GradientKind::Radial,
        GradientKind::RepeatingRadial,
    ];
    for kind in kinds {
        for vendor in ["", "-webkit-", "-moz-", "-o-", "-ms-"] {
            let name = format!("{vendor}{}", kind.as_str());
            for written in [name.clone(), name.to_ascii_uppercase()] {
                let list = parse_gradient(&format!("{written}(red, blue)")).unwrap();
                assert_eq!(list.len(), 1);
                assert_eq!(list[0].kind, kind);
                assert_eq!(list[0].orientation, None);
                let colors: Vec<Color> =
                    list[0].color_stops.iter().map(|stop| stop.color.clone()).collect();
                assert_eq!(
                    colors,
                    vec![Color::Literal("red".to_string()), Color::Literal("blue".to_string())]
                );
                assert!(list[0].color_stops.iter().all(|stop| stop.length.is_none()));
            }
        }
    }
}
