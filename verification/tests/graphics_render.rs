use opencut::graphics::gradient::ast::GradientKind;
use opencut::graphics::gradient::raster::{
    is_gradient_layer, parse_background_layers, split_css_layers, BackgroundLayer,
};

#[test]
fn layer_splitting() {
    assert_eq!(
        split_css_layers("#00ff00, linear-gradient(red, blue), rgba(1,2,3,0.5)"),
        vec!["#00ff00", "linear-gradient(red, blue)", "rgba(1,2,3,0.5)"]
    );

    let layers = parse_background_layers("linear-gradient(red, blue)");
    assert!(matches!(
        &layers[0],
        BackgroundLayer::Gradient(ast) if ast.kind == GradientKind::Linear
    ));

    let layers = parse_background_layers("rebeccapurple");
    assert_eq!(layers, vec![BackgroundLayer::Color("rebeccapurple".to_string())]);
}
