use opencut::graphics::color::{css_form, rgb_form, rgb_form_of_lowered, CssForm, RgbForm};
use opencut::graphics::color::{comma_parts, hex_rgba};
use opencut::graphics::named_colors::named_color_rgb;
use opencut::graphics::color::{
    is_digits_and_dots, split_function_args, transparency_of, transparency_of_lowered,
    Transparency,
};
use opencut::graphics::definitions::StrokeAlign;
use opencut::graphics::error::GraphicsError;
use opencut::graphics::gradient::parser::parse_gradient;
use opencut::graphics::params::ParamGroup;

#[test]
fn digits_and_dots() {
    assert!(is_digits_and_dots("0.5"));
    assert!(is_digits_and_dots(".."));
    assert!(!is_digits_and_dots(""));
    assert!(!is_digits_and_dots("1e3"));
    assert!(!is_digits_and_dots("-1"));
}

#[test]
fn function_args_split_at_commas_or_spaces() {
    assert_eq!(split_function_args(" 1 , 2,3 "), vec!["1", "2", "3"]);
    assert_eq!(split_function_args("1,,2"), vec!["1", "", "2"]);
    assert_eq!(split_function_args("255 0 0 / 50%"), vec!["255", "0", "0", "50%"]);
    assert_eq!(split_function_args("255 0 0 /0.5"), vec!["255", "0", "0", "0.5"]);
    assert_eq!(split_function_args("1 2 3 /"), vec!["1", "2", "3"]);
    assert_eq!(split_function_args("/1 2 /3"), vec!["2", "3"]);
    assert_eq!(split_function_args("   "), Vec::<String>::new());
}

#[test]
fn transparency_reads_keyword_and_rgba() {
    assert_eq!(transparency_of("  TRANSPARENT "), Transparency::Keyword);
    assert_eq!(transparency_of("RGBA(1, 2, 3, 0)"), Transparency::Alpha("0".into()));
    assert_eq!(transparency_of("rgba(1,2,3)"), Transparency::Opaque);
    assert_eq!(transparency_of("rgba(1,2,x,0)"), Transparency::Opaque);
    assert_eq!(transparency_of("rgb(1,2,3,0)"), Transparency::Opaque);
    assert_eq!(transparency_of_lowered("TRANSPARENT"), Transparency::Opaque);
    assert_eq!(transparency_of_lowered("rgba( 0 , 0 , 0 , 0.00 )"), Transparency::Alpha("0.00".into()));
}

#[test]
fn stroke_align_parse() {
    assert_eq!(StrokeAlign::parse("inside"), StrokeAlign::Inside);
    assert_eq!(StrokeAlign::parse("outside"), StrokeAlign::Outside);
    assert_eq!(StrokeAlign::parse("center"), StrokeAlign::Center);
    assert_eq!(StrokeAlign::parse("Inside"), StrokeAlign::Center);
    assert_eq!(StrokeAlign::parse(""), StrokeAlign::Center);
}

#[test]
fn param_group_key() {
    assert_eq!(ParamGroup::Stroke.as_str(), "stroke");
}

#[test]
fn graphics_error_messages() {
    assert_eq!(GraphicsError::UnknownGraphic("blob".into()).to_string(), "Unknown graphic: blob");
    assert_eq!(GraphicsError::InvalidColor("nope".into()).to_string(), "Invalid color: nope");
    let parse = parse_gradient("foo()").unwrap_err();
    let err: GraphicsError = parse.into();
    assert_eq!(err.to_string(), "foo(): Invalid input not EOF");
}

#[test]
fn named_colors_and_hex_digits() {
    assert_eq!(named_color_rgb("rebeccapurple"), Some((102, 51, 153)));
    assert_eq!(named_color_rgb("aliceblue"), Some((240, 248, 255)));
    assert_eq!(named_color_rgb("yellowgreen"), Some((154, 205, 50)));
    assert_eq!(named_color_rgb("Red"), None);
    assert_eq!(named_color_rgb("transparent"), None);
    assert_eq!(hex_rgba("abc"), Some((0xaa, 0xbb, 0xcc, 255)));
    assert_eq!(hex_rgba("abcd"), Some((0xaa, 0xbb, 0xcc, 0xdd)));
    assert_eq!(hex_rgba("A1b2C3"), Some((0xa1, 0xb2, 0xc3, 255)));
    assert_eq!(hex_rgba("a1b2c3d4"), Some((0xa1, 0xb2, 0xc3, 0xd4)));
    assert_eq!(hex_rgba("+bc"), None);
    assert_eq!(hex_rgba("abcde"), None);
    assert_eq!(hex_rgba(""), None);
    assert_eq!(comma_parts(" a ,b,, c "), vec!["a", "b", "", "c"]);
    assert_eq!(comma_parts(""), vec![""]);
}

#[test]
fn rgb_forms() {
    assert_eq!(rgb_form(" #FF8000 "), RgbForm::Hex(255, 128, 0, 255));
    assert_eq!(rgb_form("#abc"), RgbForm::Hex(0xaa, 0xbb, 0xcc, 255));
    assert_eq!(rgb_form("#abcd"), RgbForm::Unknown);
    assert_eq!(rgb_form("#11223344"), RgbForm::Hex(0x11, 0x22, 0x33, 0x44));
    assert_eq!(
        rgb_form("RGB( 1, 2.5 ,3 )"),
        RgbForm::Numbers(vec!["1".into(), "2.5".into(), "3".into()])
    );
    assert_eq!(rgb_form("rgb(1,2,3,4)"), RgbForm::Unknown);
    assert_eq!(
        rgb_form("rgba(1,2,3,0.5)"),
        RgbForm::Numbers(vec!["1".into(), "2".into(), "3".into(), "0.5".into()])
    );
    assert_eq!(rgb_form("rgba(1,2,3,50%)"), RgbForm::Unknown);
    assert_eq!(rgb_form("red"), RgbForm::Unknown);
    assert_eq!(rgb_form_of_lowered("RGB(1,2,3)"), RgbForm::Unknown);
}

#[test]
fn css_forms() {
    assert_eq!(css_form("  #F00  "), CssForm::Hex(Some((255, 0, 0, 255))));
    assert_eq!(css_form("#ff00"), CssForm::Hex(Some((255, 255, 0, 0))));
    assert_eq!(css_form("#ff0"), CssForm::Hex(Some((255, 255, 0, 255))));
    assert_eq!(css_form("#ff000"), CssForm::Hex(None));
    assert_eq!(
        css_form("RGBA(255 0 0 / 50%)"),
        CssForm::Rgb(vec!["255".into(), "0".into(), "0".into(), "50%".into()])
    );
    assert_eq!(
        css_form("rgb(1, 2, 3)"),
        CssForm::Rgb(vec!["1".into(), "2".into(), "3".into()])
    );
    assert_eq!(
        css_form("hsla(120deg 50% 50%)"),
        CssForm::Hsl(vec!["120deg".into(), "50%".into(), "50%".into()])
    );
    assert_eq!(css_form("rgba(1,2,3"), CssForm::Named("rgba(1,2,3".into()));
    assert_eq!(css_form(" RebeccaPurple "), CssForm::Named("rebeccapurple".into()));
}

#[test]
fn ascii_case_is_ignored_by_the_color_readers() {
    assert_eq!(rgb_form("RGB(1, 2, 3)"), rgb_form("rgb(1, 2, 3)"));
    assert_eq!(rgb_form("#ABCDEF"), rgb_form("#abcdef"));
    assert_eq!(transparency_of("TRANSPARENT"), Transparency::Keyword);
    assert_eq!(transparency_of("RGBA(1, 2, 3, 0)"), transparency_of("rgba(1, 2, 3, 0)"));
    assert_eq!(css_form(" HSL(120, 50%, 25%) "), css_form("hsl(120, 50%, 25%)"));
    assert_eq!(css_form("RebeccaPurple"), CssForm::Named("rebeccapurple".to_string()));
}
