//! The meaning of the gradient grammar: a functional parser over the sequence of
//! characters of the input. Each function reads from a position and gives the
//! value read with the position after it, or an error with the position where it
//! arose, or `Crash` where the byte-offset slicing of a keyword test would split a
//! character.

use vstd::prelude::*;
use crate::chars::skip_ws;
use super::ast::{
    kind_is_linear, kind_name, ColorStopV, ColorV, DistanceV, GradientAstV, GradientKind,
    GradientOrientationV, LinearOrientationV, PositionV, RadialOrientationV, ShapeKind, ShapeStyleV,
    ShapeV,
};
use super::scan::{
    ci_prefix_model, extent_keyword_model, gradient_prefix_model, hex_color_model,
    literal_color_model, number_token_model, position_keyword_model, side_or_corner_model,
    signed_unit_model, variable_name_model, Scan,
};

verus! {

/// The errors of the gradient grammar.
#[derive(Debug, Clone, Copy, PartialEq, Eq)]
pub enum GradientErrorKind {
    MissingOpenParen,
    MissingCloseParen,
    OneExtraComma,
    MissingCommaBeforeStops,
    ExpectedColor,
    ExpectedVariableName,
    HueIsPercentage,
    HslPercentages,
    HslaPercentages,
    ExpectedNumber,
    UnclosedCalc,
    MissingPositioning,
    NotAtEnd,
}

/// The message of each error.
pub open spec fn error_message(kind: GradientErrorKind) -> Seq<char> {
    match kind {
        GradientErrorKind::MissingOpenParen => "Missing ("@,
        GradientErrorKind::MissingCloseParen => "Missing )"@,
        GradientErrorKind::OneExtraComma => "One extra comma"@,
        GradientErrorKind::MissingCommaBeforeStops => "Missing comma before color stops"@,
        GradientErrorKind::ExpectedColor => "Expected color definition"@,
        GradientErrorKind::ExpectedVariableName => "Expected CSS variable name"@,
        GradientErrorKind::HueIsPercentage =>
            "HSL hue value must be a number in degrees (0-360) or normalized (-360 to 360), not a percentage"@,
        GradientErrorKind::HslPercentages =>
            "Expected percentage value for saturation and lightness in HSL"@,
        GradientErrorKind::HslaPercentages =>
            "Expected percentage value for saturation and lightness in HSLA"@,
        GradientErrorKind::ExpectedNumber => "Expected number"@,
        GradientErrorKind::UnclosedCalc => "Missing closing parenthesis in calc() expression"@,
        GradientErrorKind::MissingPositioning => "Missing positioning value"@,
        GradientErrorKind::NotAtEnd => "Invalid input not EOF"@,
    }
}

/// The outcome of reading from a position.
pub enum Step<T> {
    Done(T, int),
    Fail(int, GradientErrorKind),
    Crash,
}

/// A step that did not finish, carried over to another value type.
pub open spec fn halt<T, U>(st: Step<T>) -> Step<U> {
    match st {
        Step::Fail(q, k) => Step::Fail(q, k),
        _ => Step::Crash,
    }
}

/// Keywords that open a function call or start a shape.
#[derive(Debug, Clone, Copy, PartialEq, Eq)]
pub enum Word {
    Circle,
    Ellipse,
    At,
    Rgb,
    Rgba,
    Var,
    Hsl,
    Hsla,
    Calc,
}

pub open spec fn word_text(w: Word) -> Seq<char> {
    match w {
        Word::Circle => "circle"@,
        Word::Ellipse => "ellipse"@,
        Word::At => "at"@,
        Word::Rgb => "rgb"@,
        Word::Rgba => "rgba"@,
        Word::Var => "var"@,
        Word::Hsl => "hsl"@,
        Word::Hsla => "hsla"@,
        Word::Calc => "calc"@,
    }
}

/// The token patterns of the grammar.
#[derive(Debug, Clone, Copy, PartialEq, Eq)]
pub enum Pattern {
    SideOrCorner,
    PositionKeyword,
    Deg,
    Rad,
    Percentage,
    Px,
    Em,
    NumberToken,
    HexColor,
    LiteralColor,
    VariableName,
    ExtentKeyword,
    Word(Word),
    Gradient(GradientKind),
}

#[verifier::opaque]
pub open spec fn pattern_model(pat: Pattern, s: Seq<char>, p: int) -> Scan {
    match pat {
        Pattern::SideOrCorner => side_or_corner_model(s, p),
        Pattern::PositionKeyword => position_keyword_model(s, p),
        Pattern::Deg => signed_unit_model(s, p, "deg"@),
        Pattern::Rad => signed_unit_model(s, p, "rad"@),
        Pattern::Percentage => signed_unit_model(s, p, "%"@),
        Pattern::Px => signed_unit_model(s, p, "px"@),
        Pattern::Em => signed_unit_model(s, p, "em"@),
        Pattern::NumberToken => number_token_model(s, p),
        Pattern::HexColor => hex_color_model(s, p),
        Pattern::LiteralColor => literal_color_model(s, p),
        Pattern::VariableName => variable_name_model(s, p),
        Pattern::ExtentKeyword => extent_keyword_model(s, p),
        Pattern::Word(w) => ci_prefix_model(s, p, word_text(w)),
        Pattern::Gradient(kind) => gradient_prefix_model(s, p, kind_name(kind)),
    }
}

/// Skip whitespace, then read a token: its captured text, or nothing (having
/// skipped the whitespace).
pub open spec fn token_model(s: Seq<char>, p: int, pat: Pattern) -> Step<Option<Seq<char>>> {
    let q = skip_ws(s, p);
    match pattern_model(pat, s, q) {
        Scan::Hit(t, a, b) => Step::Done(Some(s.subrange(q + a, q + b)), q + t),
        Scan::Miss => Step::Done(None, q),
        Scan::Crash => Step::Crash,
    }
}

/// Skip whitespace, then read the character `c` if it is there.
pub open spec fn char_model(s: Seq<char>, p: int, c: char) -> (bool, int) {
    let q = skip_ws(s, p);
    if 0 <= q < s.len() && s[q] == c {
        (true, q + 1)
    } else {
        (false, q)
    }
}

/// The name of a function and its `(`: `false` where the name is not there.
pub open spec fn call_open_model(s: Seq<char>, p: int, pat: Pattern) -> Step<bool> {
    let q = skip_ws(s, p);
    match pattern_model(pat, s, q) {
        Scan::Hit(t, _, _) => {
            let (found, r) = char_model(s, q + t, '(');
            if found {
                Step::Done(true, r)
            } else {
                Step::Fail(r, GradientErrorKind::MissingOpenParen)
            }
        },
        Scan::Miss => Step::Done(false, q),
        Scan::Crash => Step::Crash,
    }
}

/// The `)` that closes a function call.
pub open spec fn call_close_model(s: Seq<char>, p: int) -> Step<()> {
    let (found, q) = char_model(s, p, ')');
    if found {
        Step::Done((), q)
    } else {
        Step::Fail(q, GradientErrorKind::MissingCloseParen)
    }
}

/// A length in `px` or `em`.
#[verifier::opaque]
pub open spec fn length_model(s: Seq<char>, p: int) -> Step<Option<DistanceV>> {
    match token_model(s, p, Pattern::Px) {
        Step::Done(Some(v), q) => Step::Done(Some(DistanceV::Px(v)), q),
        Step::Done(None, q) => match token_model(s, q, Pattern::Em) {
            Step::Done(Some(v), q2) => Step::Done(Some(DistanceV::Em(v)), q2),
            Step::Done(None, q2) => Step::Done(None, q2),
            other => halt(other),
        },
        other => halt(other),
    }
}

/// From position `i` with `open` parentheses unclosed: the position just after
/// the parenthesis that closes them all (`Hit(end, 0, 0)`), or `Miss` where the
/// text ends first. The count is an `i32`: one more `(` past its maximum crashes.
pub open spec fn calc_close(s: Seq<char>, i: int, open: int) -> Scan
    decreases s.len() - i,
{
    if open <= 0 {
        Scan::Hit(i, 0, 0)
    } else if i < 0 || i >= s.len() {
        Scan::Miss
    } else if s[i] == '(' {
        if open >= i32::MAX {
            Scan::Crash
        } else {
            calc_close(s, i + 1, open + 1)
        }
    } else if s[i] == ')' {
        calc_close(s, i + 1, open - 1)
    } else {
        calc_close(s, i + 1, open)
    }
}

/// Where the parentheses of a `calc(` crash, so does the `calc()`.
pub proof fn lemma_calc_crash(s: Seq<char>, p: int, q: int)
    requires
        call_open_model(s, p, Pattern::Word(Word::Calc)) == Step::<bool>::Done(true, q),
        calc_close(s, q, 1) is Crash,
    ensures
        calc_model(s, p) is Crash,
{
    reveal(calc_model);
}

/// `calc( ... )`: the text between the parentheses, kept as it is.
#[verifier::opaque]
pub open spec fn calc_model(s: Seq<char>, p: int) -> Step<Option<DistanceV>> {
    match call_open_model(s, p, Pattern::Word(Word::Calc)) {
        Step::Done(false, q) => Step::Done(None, q),
        Step::Done(true, q) => match calc_close(s, q, 1) {
            Scan::Hit(e, _, _) => match call_close_model(s, e - 1) {
                Step::Done(_, r) => Step::Done(Some(DistanceV::Calc(s.subrange(q, e - 1))), r),
                other => halt(other),
            },
            Scan::Miss => Step::Fail(q, GradientErrorKind::UnclosedCalc),
            Scan::Crash => Step::Crash,
        },
        other => halt(other),
    }
}

/// A distance: a percentage, a position keyword, a `calc()`, or a length.
#[verifier::opaque]
pub open spec fn distance_model(s: Seq<char>, p: int) -> Step<Option<DistanceV>> {
    match token_model(s, p, Pattern::Percentage) {
        Step::Done(Some(v), q) => Step::Done(Some(DistanceV::Percent(v)), q),
        Step::Done(None, q) => match token_model(s, q, Pattern::PositionKeyword) {
            Step::Done(Some(v), q2) => Step::Done(Some(DistanceV::PositionKeyword(v)), q2),
            Step::Done(None, q2) => match calc_model(s, q2) {
                Step::Done(None, q3) => length_model(s, q3),
                other => other,
            },
            other => halt(other),
        },
        other => halt(other),
    }
}

/// Up to two distances; nothing where neither is there.
#[verifier::opaque]
pub open spec fn positioning_model(s: Seq<char>, p: int) -> Step<Option<PositionV>> {
    match distance_model(s, p) {
        Step::Done(x, q) => match distance_model(s, q) {
            Step::Done(y, q2) => if x is None && y is None {
                Step::Done(None, q2)
            } else {
                Step::Done(Some(PositionV { x, y }), q2)
            },
            other => halt(other),
        },
        other => halt(other),
    }
}

/// `at` followed by a positioning, which must be there.
#[verifier::opaque]
pub open spec fn at_position_model(s: Seq<char>, p: int) -> Step<Option<PositionV>> {
    match token_model(s, p, Pattern::Word(Word::At)) {
        Step::Done(None, q) => Step::Done(None, q),
        Step::Done(Some(_), q) => match positioning_model(s, q) {
            Step::Done(None, q2) => Step::Fail(q2, GradientErrorKind::MissingPositioning),
            other => other,
        },
        other => halt(other),
    }
}

/// `circle`, optionally followed by a length or an extent keyword.
#[verifier::opaque]
pub open spec fn circle_model(s: Seq<char>, p: int) -> Step<Option<ShapeV>> {
    match token_model(s, p, Pattern::Word(Word::Circle)) {
        Step::Done(None, q) => Step::Done(None, q),
        Step::Done(Some(_), q) => match length_model(s, q) {
            Step::Done(Some(d), q2) => Step::Done(
                Some(
                    ShapeV {
                        value: ShapeKind::Circle,
                        style: Some(ShapeStyleV::Distance(d)),
                        at: None,
                    },
                ),
                q2,
            ),
            Step::Done(None, q2) => match token_model(s, q2, Pattern::ExtentKeyword) {
                Step::Done(v, q3) => Step::Done(
                    Some(
                        ShapeV {
                            value: ShapeKind::Circle,
                            style: match v {
                                Some(k) => Some(ShapeStyleV::ExtentKeyword(k)),
                                None => None,
                            },
                            at: None,
                        },
                    ),
                    q3,
                ),
                other => halt(other),
            },
            other => halt(other),
        },
        other => halt(other),
    }
}

/// The extent keyword that may close an `ellipse` shape.
#[verifier::opaque]
pub open spec fn ellipse_extent_model(s: Seq<char>, q: int) -> Step<Option<ShapeV>> {
    match token_model(s, q, Pattern::ExtentKeyword) {
        Step::Done(v, r) => Step::Done(
            Some(
                ShapeV {
                    value: ShapeKind::Ellipse,
                    style: match v {
                        Some(k) => Some(ShapeStyleV::ExtentKeyword(k)),
                        None => None,
                    },
                    at: None,
                },
            ),
            r,
        ),
        other => halt(other),
    }
}

/// `ellipse`, optionally followed by a positioning, a distance or an extent
/// keyword. An error in the distance is dropped: reading goes on where it arose.
#[verifier::opaque]
pub open spec fn ellipse_model(s: Seq<char>, p: int) -> Step<Option<ShapeV>> {
    match token_model(s, p, Pattern::Word(Word::Ellipse)) {
        Step::Done(None, q) => Step::Done(None, q),
        Step::Done(Some(_), q) => match positioning_model(s, q) {
            Step::Done(Some(pos), q2) => Step::Done(
                Some(
                    ShapeV {
                        value: ShapeKind::Ellipse,
                        style: Some(ShapeStyleV::Position(pos)),
                        at: None,
                    },
                ),
                q2,
            ),
            Step::Done(None, q2) => match distance_model(s, q2) {
                Step::Done(Some(d), q3) => Step::Done(
                    Some(
                        ShapeV {
                            value: ShapeKind::Ellipse,
                            style: Some(ShapeStyleV::Distance(d)),
                            at: None,
                        },
                    ),
                    q3,
                ),
                Step::Done(None, q3) => ellipse_extent_model(s, q3),
                Step::Fail(q3, _) => ellipse_extent_model(s, q3),
                Step::Crash => Step::Crash,
            },
            other => halt(other),
        },
        other => halt(other),
    }
}

/// Two distances and an `at` position, read as an ellipse; where any of the three
/// is missing, nothing is read and reading resumes at `p`.
#[verifier::opaque]
pub open spec fn implicit_ellipse_model(s: Seq<char>, p: int) -> Step<Option<ShapeV>> {
    match distance_model(s, p) {
        Step::Done(None, q) => Step::Done(None, q),
        Step::Done(Some(w), q) => match distance_model(s, q) {
            Step::Done(None, _) => Step::Done(None, p),
            Step::Done(Some(h), q2) => match at_position_model(s, q2) {
                Step::Done(None, _) => Step::Done(None, p),
                Step::Done(Some(at), q3) => Step::Done(
                    Some(
                        ShapeV {
                            value: ShapeKind::Ellipse,
                            style: Some(ShapeStyleV::Position(PositionV { x: Some(w), y: Some(h) })),
                            at: Some(at),
                        },
                    ),
                    q3,
                ),
                other => halt(other),
            },
            other => halt(other),
        },
        other => halt(other),
    }
}

/// A radial orientation that is not a `circle` or `ellipse` shape.
#[verifier::opaque]
pub open spec fn radial_without_shape_model(s: Seq<char>, q: int) -> Step<Option<RadialOrientationV>> {
    match token_model(s, q, Pattern::ExtentKeyword) {
        Step::Done(Some(v), q2) => match at_position_model(s, q2) {
            Step::Done(at, q3) => Step::Done(
                Some(RadialOrientationV::ExtentKeyword { value: v, at }),
                q3,
            ),
            other => halt(other),
        },
        Step::Done(None, q2) => match implicit_ellipse_model(s, q2) {
            Step::Done(Some(shape), q3) => Step::Done(Some(RadialOrientationV::Shape(shape)), q3),
            Step::Done(None, q3) => match at_position_model(s, q3) {
                Step::Done(Some(at), q4) => Step::Done(
                    Some(RadialOrientationV::DefaultRadial { at }),
                    q4,
                ),
                Step::Done(None, q4) => match positioning_model(s, q4) {
                    Step::Done(Some(at), q5) => Step::Done(
                        Some(RadialOrientationV::DefaultRadial { at }),
                        q5,
                    ),
                    Step::Done(None, q5) => Step::Done(None, q5),
                    other => halt(other),
                },
                other => halt(other),
            },
            other => halt(other),
        },
        other => halt(other),
    }
}

/// One radial orientation. Both `circle` and `ellipse` are read, one after the
/// other; a circle wins over an ellipse.
#[verifier::opaque]
pub open spec fn radial_orientation_model(s: Seq<char>, p: int) -> Step<Option<RadialOrientationV>> {
    match circle_model(s, p) {
        Step::Done(circle, q) => match ellipse_model(s, q) {
            Step::Done(ellipse, q2) => {
                let shape = if circle is Some {
                    circle
                } else {
                    ellipse
                };
                match shape {
                    Some(sh) => match at_position_model(s, q2) {
                        Step::Done(at, q3) => Step::Done(
                            Some(
                                RadialOrientationV::Shape(
                                    ShapeV { value: sh.value, style: sh.style, at },
                                ),
                            ),
                            q3,
                        ),
                        other => halt(other),
                    },
                    None => radial_without_shape_model(s, q2),
                }
            },
            other => halt(other),
        },
        other => halt(other),
    }
}

/// One or two radial orientations, separated by a comma. Where no second one
/// follows the comma, the comma is left for the color stops.
#[verifier::opaque]
pub open spec fn radial_list_model(s: Seq<char>, p: int) -> Step<Option<GradientOrientationV>> {
    match radial_orientation_model(s, p) {
        Step::Done(None, q) => Step::Done(None, q),
        Step::Done(Some(first), q) => {
            let (comma, q2) = char_model(s, q, ',');
            if !comma {
                Step::Done(Some(GradientOrientationV::Radial(seq![first])), q2)
            } else {
                match radial_orientation_model(s, q2) {
                    Step::Done(None, _) => Step::Done(
                        Some(GradientOrientationV::Radial(seq![first])),
                        q,
                    ),
                    Step::Done(Some(next), q3) => Step::Done(
                        Some(GradientOrientationV::Radial(seq![first, next])),
                        q3,
                    ),
                    other => halt(other),
                }
            }
        },
        other => halt(other),
    }
}

/// A linear orientation: a side or corner, a position keyword, or an angle.
#[verifier::opaque]
pub open spec fn linear_orientation_model(s: Seq<char>, p: int) -> Step<Option<GradientOrientationV>> {
    match token_model(s, p, Pattern::SideOrCorner) {
        Step::Done(Some(v), q) => Step::Done(
            Some(GradientOrientationV::Linear(LinearOrientationV::Directional(v))),
            q,
        ),
        Step::Done(None, q) => match token_model(s, q, Pattern::PositionKeyword) {
            Step::Done(Some(v), q2) => Step::Done(
                Some(GradientOrientationV::Linear(LinearOrientationV::Directional(v))),
                q2,
            ),
            Step::Done(None, q2) => match token_model(s, q2, Pattern::Deg) {
                Step::Done(Some(v), q3) => Step::Done(
                    Some(GradientOrientationV::Linear(LinearOrientationV::Angular(v))),
                    q3,
                ),
                Step::Done(None, q3) => match token_model(s, q3, Pattern::Rad) {
                    Step::Done(Some(v), q4) => Step::Done(
                        Some(GradientOrientationV::Linear(LinearOrientationV::Angular(v))),
                        q4,
                    ),
                    Step::Done(None, q4) => Step::Done(None, q4),
                    other => halt(other),
                },
                other => halt(other),
            },
            other => halt(other),
        },
        other => halt(other),
    }
}

/// A number, which must be there.
#[verifier::opaque]
pub open spec fn number_model(s: Seq<char>, p: int) -> Step<Seq<char>> {
    match token_model(s, p, Pattern::NumberToken) {
        Step::Done(Some(v), q) => Step::Done(v, q),
        Step::Done(None, q) => Step::Fail(q, GradientErrorKind::ExpectedNumber),
        Step::Fail(q, k) => Step::Fail(q, k),
        Step::Crash => Step::Crash,
    }
}

/// More numbers, each after a comma, appended to `acc`. Reading only moves
/// forward, so the guard on `q2` always holds; it carries the termination argument.
#[verifier::opaque]
pub open spec fn numbers_rest_model(s: Seq<char>, p: int, acc: Seq<Seq<char>>) -> Step<Seq<Seq<char>>>
    decreases s.len() - p,
{
    let (comma, q) = char_model(s, p, ',');
    if !comma {
        Step::Done(acc, q)
    } else {
        match number_model(s, q) {
            Step::Done(v, q2) => if p < q2 <= s.len() {
                numbers_rest_model(s, q2, acc.push(v))
            } else {
                Step::Done(acc.push(v), q2)
            },
            other => halt(other),
        }
    }
}

/// A comma-separated list of at least one number.
#[verifier::opaque]
pub open spec fn numbers_model(s: Seq<char>, p: int) -> Step<Seq<Seq<char>>> {
    match number_model(s, p) {
        Step::Done(v, q) => numbers_rest_model(s, q, seq![v]),
        other => halt(other),
    }
}

/// `rgb(...)` or `rgba(...)` with a list of numbers.
#[verifier::opaque]
pub open spec fn rgb_like_model(s: Seq<char>, p: int, alpha: bool) -> Step<Option<ColorV>> {
    let w = if alpha {
        Word::Rgba
    } else {
        Word::Rgb
    };
    match call_open_model(s, p, Pattern::Word(w)) {
        Step::Done(false, q) => Step::Done(None, q),
        Step::Done(true, q) => match numbers_model(s, q) {
            Step::Done(values, q2) => match call_close_model(s, q2) {
                Step::Done(_, q3) => Step::Done(
                    Some(
                        if alpha {
                            ColorV::Rgba(values)
                        } else {
                            ColorV::Rgb(values)
                        },
                    ),
                    q3,
                ),
                other => halt(other),
            },
            other => halt(other),
        },
        other => halt(other),
    }
}

/// `var(--name)`.
#[verifier::opaque]
pub open spec fn var_model(s: Seq<char>, p: int) -> Step<Option<ColorV>> {
    match call_open_model(s, p, Pattern::Word(Word::Var)) {
        Step::Done(false, q) => Step::Done(None, q),
        Step::Done(true, q) => match token_model(s, q, Pattern::VariableName) {
            Step::Done(None, q2) => Step::Fail(q2, GradientErrorKind::ExpectedVariableName),
            Step::Done(Some(name), q2) => match call_close_model(s, q2) {
                Step::Done(_, q3) => Step::Done(Some(ColorV::Var(name)), q3),
                other => halt(other),
            },
            other => halt(other),
        },
        other => halt(other),
    }
}

/// `hsl(hue, saturation%, lightness%)`; the commas may be left out, and a hue in
/// percent is an error.
#[verifier::opaque]
pub open spec fn hsl_model(s: Seq<char>, p: int) -> Step<Option<ColorV>> {
    match call_open_model(s, p, Pattern::Word(Word::Hsl)) {
        Step::Done(false, q) => Step::Done(None, q),
        Step::Done(true, q) => match token_model(s, q, Pattern::Percentage) {
            Step::Done(Some(_), q2) => Step::Fail(q2, GradientErrorKind::HueIsPercentage),
            Step::Done(None, q2) => match number_model(s, q2) {
                Step::Done(hue, q3) => {
                    let q4 = char_model(s, q3, ',').1;
                    match token_model(s, q4, Pattern::Percentage) {
                        Step::Done(sat, q5) => {
                            let q6 = char_model(s, q5, ',').1;
                            match token_model(s, q6, Pattern::Percentage) {
                                Step::Done(light, q7) => if sat is None || light is None {
                                    Step::Fail(q7, GradientErrorKind::HslPercentages)
                                } else {
                                    match call_close_model(s, q7) {
                                        Step::Done(_, q8) => Step::Done(
                                            Some(ColorV::Hsl(seq![hue, sat->0, light->0])),
                                            q8,
                                        ),
                                        other => halt(other),
                                    }
                                },
                                other => halt(other),
                            }
                        },
                        other => halt(other),
                    }
                },
                other => halt(other),
            },
            other => halt(other),
        },
        other => halt(other),
    }
}

/// `hsla(hue, saturation%, lightness%, alpha)`; the commas may be left out.
#[verifier::opaque]
pub open spec fn hsla_model(s: Seq<char>, p: int) -> Step<Option<ColorV>> {
    match call_open_model(s, p, Pattern::Word(Word::Hsla)) {
        Step::Done(false, q) => Step::Done(None, q),
        Step::Done(true, q) => match number_model(s, q) {
            Step::Done(hue, q2) => {
                let q3 = char_model(s, q2, ',').1;
                match token_model(s, q3, Pattern::Percentage) {
                    Step::Done(sat, q4) => {
                        let q5 = char_model(s, q4, ',').1;
                        match token_model(s, q5, Pattern::Percentage) {
                            Step::Done(light, q6) => {
                                let q7 = char_model(s, q6, ',').1;
                                match number_model(s, q7) {
                                    Step::Done(alpha, q8) => if sat is None || light is None {
                                        Step::Fail(q8, GradientErrorKind::HslaPercentages)
                                    } else {
                                        match call_close_model(s, q8) {
                                            Step::Done(_, q9) => Step::Done(
                                                Some(
                                                    ColorV::Hsla(
                                                        seq![hue, sat->0, light->0, alpha],
                                                    ),
                                                ),
                                                q9,
                                            ),
                                            other => halt(other),
                                        }
                                    },
                                    other => halt(other),
                                }
                            },
                            other => halt(other),
                        }
                    },
                    other => halt(other),
                }
            },
            other => halt(other),
        },
        other => halt(other),
    }
}

/// The last alternative of a color: a named color, as a run of letters.
#[verifier::opaque]
pub open spec fn literal_model(s: Seq<char>, p: int) -> Step<Option<ColorV>> {
    match token_model(s, p, Pattern::LiteralColor) {
        Step::Done(v, q) => Step::Done(
            match v {
                Some(name) => Some(ColorV::Literal(name)),
                None => None,
            },
            q,
        ),
        other => halt(other),
    }
}

#[verifier::opaque]
pub open spec fn color_after_rgb_model(s: Seq<char>, p: int) -> Step<Option<ColorV>> {
    match var_model(s, p) {
        Step::Done(None, q) => literal_model(s, q),
        other => other,
    }
}

#[verifier::opaque]
pub open spec fn color_after_rgba_model(s: Seq<char>, p: int) -> Step<Option<ColorV>> {
    match rgb_like_model(s, p, false) {
        Step::Done(None, q) => color_after_rgb_model(s, q),
        other => other,
    }
}

#[verifier::opaque]
pub open spec fn color_after_hsl_model(s: Seq<char>, p: int) -> Step<Option<ColorV>> {
    match rgb_like_model(s, p, true) {
        Step::Done(None, q) => color_after_rgba_model(s, q),
        other => other,
    }
}

#[verifier::opaque]
pub open spec fn color_after_hsla_model(s: Seq<char>, p: int) -> Step<Option<ColorV>> {
    match hsl_model(s, p) {
        Step::Done(None, q) => color_after_hsl_model(s, q),
        other => other,
    }
}

#[verifier::opaque]
pub open spec fn color_after_hex_model(s: Seq<char>, p: int) -> Step<Option<ColorV>> {
    match hsla_model(s, p) {
        Step::Done(None, q) => color_after_hsla_model(s, q),
        other => other,
    }
}

/// A color, tried in this order: hex, `hsla()`, `hsl()`, `rgba()`, `rgb()`,
/// `var()`, named.
#[verifier::opaque]
pub open spec fn color_model(s: Seq<char>, p: int) -> Step<Option<ColorV>> {
    match token_model(s, p, Pattern::HexColor) {
        Step::Done(Some(v), q) => Step::Done(Some(ColorV::Hex(v)), q),
        Step::Done(None, q) => color_after_hex_model(s, q),
        other => halt(other),
    }
}

/// A color stop: a color, which must be there, and an optional distance.
#[verifier::opaque]
pub open spec fn color_stop_model(s: Seq<char>, p: int) -> Step<Option<ColorStopV>> {
    match color_model(s, p) {
        Step::Done(None, q) => Step::Fail(q, GradientErrorKind::ExpectedColor),
        Step::Done(Some(color), q) => match distance_model(s, q) {
            Step::Done(length, q2) => Step::Done(Some(ColorStopV { color, length }), q2),
            other => halt(other),
        },
        other => halt(other),
    }
}

/// More color stops, each after a comma (the guard on `q2` always holds).
#[verifier::opaque]
pub open spec fn stops_rest_model(s: Seq<char>, p: int, acc: Seq<ColorStopV>) -> Step<Seq<ColorStopV>>
    decreases s.len() - p,
{
    let (comma, q) = char_model(s, p, ',');
    if !comma {
        Step::Done(acc, q)
    } else {
        match color_stop_model(s, q) {
            Step::Done(None, q2) => Step::Fail(q2, GradientErrorKind::OneExtraComma),
            Step::Done(Some(stop), q2) => if p < q2 <= s.len() {
                stops_rest_model(s, q2, acc.push(stop))
            } else {
                Step::Done(acc.push(stop), q2)
            },
            other => halt(other),
        }
    }
}

/// A comma-separated list of color stops.
#[verifier::opaque]
pub open spec fn stops_model(s: Seq<char>, p: int) -> Step<Seq<ColorStopV>> {
    match color_stop_model(s, p) {
        Step::Done(None, q) => Step::Done(Seq::empty(), q),
        Step::Done(Some(first), q) => stops_rest_model(s, q, seq![first]),
        other => halt(other),
    }
}

/// A gradient function of the given kind: an optional orientation, then the
/// color stops, inside parentheses.
#[verifier::opaque]
pub open spec fn gradient_model(s: Seq<char>, p: int, kind: GradientKind) -> Step<Option<GradientAstV>> {
    match call_open_model(s, p, Pattern::Gradient(kind)) {
        Step::Done(false, q) => Step::Done(None, q),
        Step::Done(true, q) => {
            let orientation = if kind_is_linear(kind) {
                linear_orientation_model(s, q)
            } else {
                radial_list_model(s, q)
            };
            match orientation {
                Step::Done(o, q2) => {
                    let (comma, q3) = char_model(s, q2, ',');
                    if o is Some && !comma {
                        Step::Fail(q3, GradientErrorKind::MissingCommaBeforeStops)
                    } else {
                        let q4 = if o is Some {
                            q3
                        } else {
                            q2
                        };
                        match stops_model(s, q4) {
                            Step::Done(stops, q5) => match call_close_model(s, q5) {
                                Step::Done(_, q6) => Step::Done(
                                    Some(
                                        GradientAstV {
                                            kind,
                                            orientation: o,
                                            color_stops: stops,
                                        },
                                    ),
                                    q6,
                                ),
                                other => halt(other),
                            },
                            other => halt(other),
                        }
                    }
                },
                other => halt(other),
            }
        },
        other => halt(other),
    }
}

/// A gradient of any kind, tried in this order: linear, repeating linear,
/// radial, repeating radial.
#[verifier::opaque]
pub open spec fn definition_model(s: Seq<char>, p: int) -> Step<Option<GradientAstV>> {
    match gradient_model(s, p, GradientKind::Linear) {
        Step::Done(None, q) => match gradient_model(s, q, GradientKind::RepeatingLinear) {
            Step::Done(None, q2) => match gradient_model(s, q2, GradientKind::Radial) {
                Step::Done(None, q3) => gradient_model(s, q3, GradientKind::RepeatingRadial),
                other => other,
            },
            other => other,
        },
        other => other,
    }
}

/// More gradients, each after a comma (the guard on `q2` always holds).
#[verifier::opaque]
pub open spec fn definitions_rest_model(s: Seq<char>, p: int, acc: Seq<GradientAstV>) -> Step<Seq<GradientAstV>>
    decreases s.len() - p,
{
    let (comma, q) = char_model(s, p, ',');
    if !comma {
        Step::Done(acc, q)
    } else {
        match definition_model(s, q) {
            Step::Done(None, q2) => Step::Fail(q2, GradientErrorKind::OneExtraComma),
            Step::Done(Some(g), q2) => if p < q2 <= s.len() {
                definitions_rest_model(s, q2, acc.push(g))
            } else {
                Step::Done(acc.push(g), q2)
            },
            other => halt(other),
        }
    }
}

/// A comma-separated list of gradients, possibly empty.
#[verifier::opaque]
pub open spec fn definitions_model(s: Seq<char>, p: int) -> Step<Seq<GradientAstV>> {
    match definition_model(s, p) {
        Step::Done(None, q) => Step::Done(Seq::empty(), q),
        Step::Done(Some(first), q) => definitions_rest_model(s, q, seq![first]),
        other => halt(other),
    }
}

/// The whole source: a list of gradients that must reach the end.
#[verifier::opaque]
pub open spec fn source_model(s: Seq<char>) -> Step<Seq<GradientAstV>> {
    match definitions_model(s, 0) {
        Step::Done(list, q) => if q == s.len() {
            Step::Done(list, q)
        } else {
            Step::Fail(q, GradientErrorKind::NotAtEnd)
        },
        other => other,
    }
}

} // verus!
