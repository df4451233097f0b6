use opencut::effect_defs::js_number::{scan_js_number, JsNumber};

fn decimal(negative: bool, literal: &str) -> JsNumber {
    JsNumber::Decimal { negative, literal: literal.to_string() }
}

#[test]
fn numbers_are_read_as_javascript_coerces_them() {
    assert_eq!(scan_js_number("25"), decimal(false, "25"));
    assert_eq!(scan_js_number("25abc"), decimal(false, "25"));
    assert_eq!(scan_js_number("true"), JsNumber::NotANumber);
    assert_eq!(scan_js_number("false"), JsNumber::NotANumber);
    assert_eq!(scan_js_number("undefined"), JsNumber::NotANumber);
    assert_eq!(scan_js_number("abc"), JsNumber::NotANumber);
}

#[test]
fn signs_and_whitespace_come_first() {
    assert_eq!(scan_js_number("  \t-12.5px"), decimal(true, "12.5"));
    assert_eq!(scan_js_number("\u{3000}+.5"), decimal(false, ".5"));
    assert_eq!(scan_js_number("-+5"), JsNumber::NotANumber);
    assert_eq!(scan_js_number("+-5"), JsNumber::NotANumber);
    assert_eq!(scan_js_number(""), JsNumber::NotANumber);
    assert_eq!(scan_js_number("   "), JsNumber::NotANumber);
}

#[test]
fn one_dot_at_most() {
    assert_eq!(scan_js_number("1.2.3"), decimal(false, "1.2"));
    assert_eq!(scan_js_number("5."), decimal(false, "5."));
    assert_eq!(scan_js_number("."), JsNumber::NotANumber);
    assert_eq!(scan_js_number("..5"), JsNumber::NotANumber);
}

#[test]
fn exponents_need_digits() {
    assert_eq!(scan_js_number("1e3x"), decimal(false, "1e3"));
    assert_eq!(scan_js_number("1.5E-2"), decimal(false, "1.5E-2"));
    assert_eq!(scan_js_number("2e+"), decimal(false, "2"));
    assert_eq!(scan_js_number("2e"), decimal(false, "2"));
    assert_eq!(scan_js_number("7E+10"), decimal(false, "7E+10"));
}

#[test]
fn infinity_is_a_word() {
    assert_eq!(scan_js_number("Infinity"), JsNumber::Infinite { negative: false });
    assert_eq!(scan_js_number(" -Infinityx"), JsNumber::Infinite { negative: true });
    assert_eq!(scan_js_number("infinity"), JsNumber::NotANumber);
    assert_eq!(scan_js_number("Infinit"), JsNumber::NotANumber);
}

#[test]
fn leading_whitespace_does_not_change_the_number() {
    for text in ["25abc", "-1.5e3", "Infinity", "x", ".", "+7"] {
        let padded = format!(" \n\t{text}");
        assert_eq!(scan_js_number(&padded), scan_js_number(text));
    }
}

#[test]
fn text_after_a_whole_number_is_ignored() {
    for (number, tail) in [("25", "abc"), ("-1.5e3", "px"), (" .5", " 7"), ("Infinity", "5")] {
        let joined = format!("{number}{tail}");
        assert_eq!(scan_js_number(&joined), scan_js_number(number));
    }
    assert_ne!(scan_js_number("25e1"), scan_js_number("25"));
}
