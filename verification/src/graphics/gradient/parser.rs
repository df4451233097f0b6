//! The gradient parser. Every function of it is proved to compute what its
//! counterpart in `model` says, on every input whose reading does not crash.

use vstd::prelude::*;
use vstd::string::*;
use crate::chars::{chars_in_range, chars_of, skip_whitespace_from, string_from_range, trim_end_from, trim_ws};
use super::ast::{
    kind_name, Color, ColorStop, ColorStopV, GradientAstV, Distance, GradientAst, GradientKind, GradientOrientation,
    LinearOrientation, Position, RadialOrientation, Shape, ShapeKind, ShapeStyle,
};
use super::model::{
    call_close_model, call_open_model, calc_close, calc_model, lemma_calc_crash, char_model, distance_model,
    error_message, length_model, positioning_model, at_position_model, circle_model, ellipse_model, implicit_ellipse_model, radial_without_shape_model, ellipse_extent_model, radial_orientation_model, radial_list_model, linear_orientation_model, number_model, numbers_model, numbers_rest_model, rgb_like_model, var_model, hsl_model, hsla_model, color_model, color_after_hex_model, color_after_hsla_model, color_after_hsl_model, color_after_rgba_model, color_after_rgb_model, literal_model, color_stop_model, stops_model, stops_rest_model, source_model, gradient_model, definition_model, definitions_model, definitions_rest_model, pattern_model, token_model, word_text, GradientErrorKind,
    Pattern, Step, Word,
};
use super::scan::{
    gradient_prefix, match_ci_prefix, scan_agrees, scan_deg, scan_em, scan_extent_keyword,
    scan_hex_color, scan_in_bounds, scan_literal_color, scan_number_token, scan_percentage,
    scan_position_keyword, scan_px, scan_rad, scan_side_or_corner, scan_variable_name, whole,
    ci_prefix_cut, gradient_prefix_cut, position_keyword_cut, side_or_corner_cut, Scan,
};

verus! {

/// A gradient that could not be parsed: the input that was left where the error
/// arose, and what went wrong.
#[derive(Debug, Clone, PartialEq)]
pub struct GradientParseError {
    pub input: String,
    pub message: String,
}

impl GradientParseError {
    /// The error as text: `"{input}: {message}"`.
    pub fn to_string(&self) -> (s: String)
        ensures
            s@ == self.input@ + ": "@ + self.message@,
    {
        let mut s = self.input.clone();
        s.append(": ");
        s.append(self.message.as_str());
        s
    }
}

/// The message of an error kind.
pub fn error_text(kind: GradientErrorKind) -> (s: String)
    ensures
        s@ == error_message(kind),
{
    let text: &str = match kind {
        GradientErrorKind::MissingOpenParen => "Missing (",
        GradientErrorKind::MissingCloseParen => "Missing )",
        GradientErrorKind::OneExtraComma => "One extra comma",
        GradientErrorKind::MissingCommaBeforeStops => "Missing comma before color stops",
        GradientErrorKind::ExpectedColor => "Expected color definition",
        GradientErrorKind::ExpectedVariableName => "Expected CSS variable name",
        GradientErrorKind::HueIsPercentage =>
            "HSL hue value must be a number in degrees (0-360) or normalized (-360 to 360), not a percentage",
        GradientErrorKind::HslPercentages =>
            "Expected percentage value for saturation and lightness in HSL",
        GradientErrorKind::HslaPercentages =>
            "Expected percentage value for saturation and lightness in HSLA",
        GradientErrorKind::ExpectedNumber => "Expected number",
        GradientErrorKind::UnclosedCalc => "Missing closing parenthesis in calc() expression",
        GradientErrorKind::MissingPositioning => "Missing positioning value",
        GradientErrorKind::NotAtEnd => "Invalid input not EOF",
    };
    text.to_owned()
}

/// The executable result of a reading agrees with its model: the value and the
/// position after it, or the error with the input left where it arose.
pub open spec fn agrees<T: DeepView>(
    model: Step<T::V>,
    r: Result<T, GradientParseError>,
    s: Seq<char>,
    pos: int,
) -> bool {
    match model {
        Step::Crash => true,
        Step::Done(v, q) => r matches Ok(x) && x.deep_view() == v && pos == q,
        Step::Fail(q, k) => r matches Err(e) && pos == q && e.input@ == s.subrange(
            q,
            s.len() as int,
        ) && e.message@ == error_message(k),
    }
}

/// The same, for a reading that cannot fail.
pub open spec fn value_agrees<T: DeepView>(model: Step<T::V>, r: T, pos: int) -> bool {
    match model {
        Step::Done(v, q) => r.deep_view() == v && pos == q,
        _ => true,
    }
}

struct Parser {
    src: Vec<char>,
    pos: usize,
    /// Set once a reading has met a text on which the byte-offset slicing of
    /// a keyword test, or the counting of `calc()` parentheses, panics.
    panicked: bool,
}

/// The reader has met a panic where it had before, or where the reading just
/// done panics.
spec fn marks_panic(before: Parser, after: Parser, panics: bool) -> bool {
    after.panicked == (before.panicked || panics)
}

/// A call leaves the source alone and only moves forward.
spec fn advances(before: Parser, after: Parser) -> bool {
    &&& after.src@ == before.src@
    &&& before.pos <= after.pos <= after.src.len()
}

/// Scans for the parenthesis that closes a `calc(` whose body starts at `start`:
/// the position just after it, or nothing where the text ends first (or where
/// the count of open parentheses would overflow, on which the model crashes).
fn calc_end(s: &Vec<char>, start: usize) -> (r: (Option<usize>, bool))
    requires
        start <= s.len(),
    ensures
        match r.0 {
            Some(e) => start < e <= s.len() && calc_close(s@, start as int, 1) == Scan::Hit(
                e as int,
                0,
                0,
            ),
            None => calc_close(s@, start as int, 1) is Miss || calc_close(
                s@,
                start as int,
                1,
            ) is Crash,
        },
        r.1 == calc_close(s@, start as int, 1) is Crash,
{
    let mut open_parens: i32 = 1;
    let mut index: usize = start;
    while open_parens > 0 && index < s.len()
        invariant
            start <= index <= s.len(),
            0 <= open_parens,
            index == start ==> open_parens == 1,
            calc_close(s@, start as int, 1) == calc_close(s@, index as int, open_parens as int),
        decreases s.len() - index,
    {
        let c = s[index];
        if c == '(' {
            if open_parens == i32::MAX {
                return (None, true);
            }
            open_parens += 1;
        } else if c == ')' {
            open_parens -= 1;
        }
        index += 1;
    }
    if open_parens > 0 {
        return (None, false);
    }
    (Some(index), false)
}

fn pattern_str(w: Word) -> (s: &'static str)
    ensures
        s@ == word_text(w),
{
    match w {
        Word::Circle => "circle",
        Word::Ellipse => "ellipse",
        Word::At => "at",
        Word::Rgb => "rgb",
        Word::Rgba => "rgba",
        Word::Var => "var",
        Word::Hsl => "hsl",
        Word::Hsla => "hsla",
        Word::Calc => "calc",
    }
}

/// Runs a pattern at position `p`.
fn run_pattern(pat: Pattern, s: &Vec<char>, p: usize) -> (r: Option<(usize, usize, usize)>)
    requires
        p <= s.len(),
    ensures
        scan_agrees(pattern_model(pat, s@, p as int), r),
        scan_in_bounds(s.len() as int, p as int, r),
{
    proof {
        reveal(pattern_model);
    }
    match pat {
        Pattern::SideOrCorner => scan_side_or_corner(s, p),
        Pattern::PositionKeyword => scan_position_keyword(s, p),
        Pattern::Deg => scan_deg(s, p),
        Pattern::Rad => scan_rad(s, p),
        Pattern::Percentage => scan_percentage(s, p),
        Pattern::Px => scan_px(s, p),
        Pattern::Em => scan_em(s, p),
        Pattern::NumberToken => scan_number_token(s, p),
        Pattern::HexColor => scan_hex_color(s, p),
        Pattern::LiteralColor => scan_literal_color(s, p),
        Pattern::VariableName => scan_variable_name(s, p),
        Pattern::ExtentKeyword => scan_extent_keyword(s, p),
        Pattern::Word(w) => match match_ci_prefix(s, p, pattern_str(w)) {
            Some(n) => whole(n),
            None => None,
        },
        Pattern::Gradient(kind) => gradient_prefix(s, p, kind.as_str()),
    }
}

/// Whether running a pattern at position `p` panics.
fn pattern_cut(pat: Pattern, s: &Vec<char>, p: usize) -> (b: bool)
    requires
        p <= s.len(),
    ensures
        b == (pattern_model(pat, s@, p as int) is Crash),
{
    proof {
        reveal(pattern_model);
    }
    match pat {
        Pattern::SideOrCorner => side_or_corner_cut(s, p),
        Pattern::PositionKeyword => position_keyword_cut(s, p),
        Pattern::Word(w) => ci_prefix_cut(s, p, pattern_str(w)),
        Pattern::Gradient(kind) => gradient_prefix_cut(s, p, kind.as_str()),
        _ => false,
    }
}

impl Parser {
    fn error(&self, kind: GradientErrorKind) -> (e: GradientParseError)
        requires
            self.pos <= self.src.len(),
        ensures
            e.input@ == self.src@.subrange(self.pos as int, self.src.len() as int),
            e.message@ == error_message(kind),
    {
        GradientParseError {
            input: string_from_range(&self.src, self.pos, self.src.len()),
            message: error_text(kind),
        }
    }

    fn skip_whitespace(&mut self)
        requires
            old(self).pos <= old(self).src.len(),
        ensures
            advances(*old(self), *final(self)),
            final(self).panicked == old(self).panicked,
            final(self).pos == crate::chars::skip_ws(old(self).src@, old(self).pos as int),
    {
        self.pos = skip_whitespace_from(&self.src, self.pos);
    }

    fn consume(&mut self, size: usize)
        requires
            old(self).pos + size <= old(self).src.len(),
        ensures
            advances(*old(self), *final(self)),
            final(self).panicked == old(self).panicked,
            final(self).pos == old(self).pos + size,
    {
        self.pos = self.pos + size;
    }

    fn scan_token(&mut self, pat: Pattern) -> (r: Option<String>)
        requires
            old(self).pos <= old(self).src.len(),
        ensures
            advances(*old(self), *final(self)),
            value_agrees(
                token_model(old(self).src@, old(self).pos as int, pat),
                r,
                final(self).pos as int,
            ),
            marks_panic(*old(self), *final(self), token_model(old(self).src@, old(self).pos as int, pat) is Crash),
    {
        self.skip_whitespace();
        if pattern_cut(pat, &self.src, self.pos) {
            self.panicked = true;
            return None;
        }
        let (total, capture_start, capture_end) = run_pattern(pat, &self.src, self.pos)?;
        let capture = string_from_range(&self.src, self.pos + capture_start, self.pos + capture_end);
        self.consume(total);
        Some(capture)
    }

    fn scan_char(&mut self, target: char) -> (found: bool)
        requires
            old(self).pos <= old(self).src.len(),
        ensures
            advances(*old(self), *final(self)),
            final(self).panicked == old(self).panicked,
            (found, final(self).pos as int) == char_model(old(self).src@, old(self).pos as int, target),
    {
        self.skip_whitespace();
        if self.pos < self.src.len() && self.src[self.pos] == target {
            self.consume(1);
            return true;
        }
        false
    }

    fn scan_comma(&mut self) -> (found: bool)
        requires
            old(self).pos <= old(self).src.len(),
        ensures
            advances(*old(self), *final(self)),
            final(self).panicked == old(self).panicked,
            (found, final(self).pos as int) == char_model(old(self).src@, old(self).pos as int, ','),
    {
        self.scan_char(',')
    }

    /// The name of a function and its `(`.
    fn match_call(&mut self, pat: Pattern) -> (r: Result<bool, GradientParseError>)
        requires
            old(self).pos <= old(self).src.len(),
        ensures
            advances(*old(self), *final(self)),
            agrees(
                call_open_model(old(self).src@, old(self).pos as int, pat),
                r,
                final(self).src@,
                final(self).pos as int,
            ),
            marks_panic(*old(self), *final(self), call_open_model(old(self).src@, old(self).pos as int, pat) is Crash),
    {
        self.skip_whitespace();
        if pattern_cut(pat, &self.src, self.pos) {
            self.panicked = true;
            return Ok(false);
        }
        let Some((total, _, _)) = run_pattern(pat, &self.src, self.pos) else {
            return Ok(false);
        };
        self.consume(total);
        if !self.scan_char('(') {
            return Err(self.error(GradientErrorKind::MissingOpenParen));
        }
        Ok(true)
    }

    /// The `)` that closes a function call.
    fn close_call(&mut self) -> (r: Result<(), GradientParseError>)
        requires
            old(self).pos <= old(self).src.len(),
        ensures
            advances(*old(self), *final(self)),
            agrees(
                call_close_model(old(self).src@, old(self).pos as int),
                r,
                final(self).src@,
                final(self).pos as int,
            ),
            final(self).panicked == old(self).panicked,
    {
        if !self.scan_char(')') {
            return Err(self.error(GradientErrorKind::MissingCloseParen));
        }
        Ok(())
    }

    fn match_length(&mut self) -> (r: Option<Distance>)
        requires
            old(self).pos <= old(self).src.len(),
        ensures
            advances(*old(self), *final(self)),
            value_agrees(length_model(old(self).src@, old(self).pos as int), r, final(self).pos as int),
            marks_panic(*old(self), *final(self), length_model(old(self).src@, old(self).pos as int) is Crash),
            length_model(old(self).src@, old(self).pos as int) is Done,
    {
        proof {
            reveal(length_model);
            reveal(pattern_model);
        }
        if let Some(value) = self.scan_token(Pattern::Px) {
            return Some(Distance::Px(value));
        }
        match self.scan_token(Pattern::Em) {
            Some(value) => Some(Distance::Em(value)),
            None => None,
        }
    }

    fn match_calc(&mut self) -> (r: Result<Option<Distance>, GradientParseError>)
        requires
            old(self).pos <= old(self).src.len(),
        ensures
            advances(*old(self), *final(self)),
            agrees(calc_model(old(self).src@, old(self).pos as int), r, final(self).src@, final(self).pos as int),
            marks_panic(*old(self), *final(self), calc_model(old(self).src@, old(self).pos as int) is Crash),
    {
        proof {
            reveal(calc_model);
        }
        let ghost p0 = self.pos as int;
        if !self.match_call(Pattern::Word(Word::Calc))? {
            return Ok(None);
        }
        let start = self.pos;
        let (end, overflow) = calc_end(&self.src, start);
        if overflow {
            self.panicked = true;
        }
        match end {
            None => {
                proof {
                    if calc_close(self.src@, start as int, 1) is Crash {
                        if !(calc_model(self.src@, p0) is Crash) {
                            lemma_calc_crash(self.src@, p0, start as int);
                        }
                    }
                }
                Err(self.error(GradientErrorKind::UnclosedCalc))
            },
            Some(index) => {
                let content = string_from_range(&self.src, start, index - 1);
                self.pos = index - 1;
                self.close_call()?;
                Ok(Some(Distance::Calc(content)))
            },
        }
    }

    fn match_distance(&mut self) -> (r: Result<Option<Distance>, GradientParseError>)
        requires
            old(self).pos <= old(self).src.len(),
        ensures
            advances(*old(self), *final(self)),
            agrees(distance_model(old(self).src@, old(self).pos as int), r, final(self).src@, final(self).pos as int),
            marks_panic(*old(self), *final(self), distance_model(old(self).src@, old(self).pos as int) is Crash),
    {
        proof {
            reveal(distance_model);
        }
        if let Some(value) = self.scan_token(Pattern::Percentage) {
            return Ok(Some(Distance::Percent(value)));
        }
        if let Some(value) = self.scan_token(Pattern::PositionKeyword) {
            return Ok(Some(Distance::PositionKeyword(value)));
        }
        if let Some(calc) = self.match_calc()? {
            return Ok(Some(calc));
        }
        Ok(self.match_length())
    }

    fn match_positioning(&mut self) -> (r: Result<Option<Position>, GradientParseError>)
        requires
            old(self).pos <= old(self).src.len(),
        ensures
            advances(*old(self), *final(self)),
            agrees(positioning_model(old(self).src@, old(self).pos as int), r, final(self).src@, final(self).pos as int),
            marks_panic(*old(self), *final(self), positioning_model(old(self).src@, old(self).pos as int) is Crash),
    {
        proof {
            reveal(positioning_model);
        }
        let x = self.match_distance()?;
        let y = self.match_distance()?;
        if x.is_none() && y.is_none() {
            return Ok(None);
        }
        Ok(Some(Position { x, y }))
    }

    fn match_at_position(&mut self) -> (r: Result<Option<Position>, GradientParseError>)
        requires
            old(self).pos <= old(self).src.len(),
        ensures
            advances(*old(self), *final(self)),
            agrees(at_position_model(old(self).src@, old(self).pos as int), r, final(self).src@, final(self).pos as int),
            marks_panic(*old(self), *final(self), at_position_model(old(self).src@, old(self).pos as int) is Crash),
    {
        proof {
            reveal(at_position_model);
        }
        if self.scan_token(Pattern::Word(Word::At)).is_none() {
            return Ok(None);
        }
        let Some(position) = self.match_positioning()? else {
            return Err(self.error(GradientErrorKind::MissingPositioning));
        };
        Ok(Some(position))
    }

    fn match_circle(&mut self) -> (r: Result<Option<Shape>, GradientParseError>)
        requires
            old(self).pos <= old(self).src.len(),
        ensures
            advances(*old(self), *final(self)),
            agrees(circle_model(old(self).src@, old(self).pos as int), r, final(self).src@, final(self).pos as int),
            marks_panic(*old(self), *final(self), circle_model(old(self).src@, old(self).pos as int) is Crash),
    {
        proof {
            reveal(circle_model);
        }
        if self.scan_token(Pattern::Word(Word::Circle)).is_none() {
            return Ok(None);
        }
        let style = match self.match_length() {
            Some(d) => Some(ShapeStyle::Distance(d)),
            None => match self.scan_token(Pattern::ExtentKeyword) {
                Some(k) => Some(ShapeStyle::ExtentKeyword(k)),
                None => None,
            },
        };
        Ok(Some(Shape { value: ShapeKind::Circle, style, at: None }))
    }

    fn match_ellipse(&mut self) -> (r: Result<Option<Shape>, GradientParseError>)
        requires
            old(self).pos <= old(self).src.len(),
        ensures
            advances(*old(self), *final(self)),
            agrees(ellipse_model(old(self).src@, old(self).pos as int), r, final(self).src@, final(self).pos as int),
            marks_panic(*old(self), *final(self), ellipse_model(old(self).src@, old(self).pos as int) is Crash),
    {
        proof {
            reveal(ellipse_model);
            reveal(ellipse_extent_model);
        }
        if self.scan_token(Pattern::Word(Word::Ellipse)).is_none() {
            return Ok(None);
        }
        let style = match self.match_positioning()? {
            Some(position) => Some(ShapeStyle::Position(position)),
            None => {
                let distance = match self.match_distance() {
                    Ok(d) => d,
                    Err(_) => None,
                };
                match distance {
                    Some(d) => Some(ShapeStyle::Distance(d)),
                    None => match self.scan_token(Pattern::ExtentKeyword) {
                        Some(k) => Some(ShapeStyle::ExtentKeyword(k)),
                        None => None,
                    },
                }
            },
        };
        Ok(Some(Shape { value: ShapeKind::Ellipse, style, at: None }))
    }

    fn match_implicit_ellipse(&mut self) -> (r: Result<Option<Shape>, GradientParseError>)
        requires
            old(self).pos <= old(self).src.len(),
        ensures
            advances(*old(self), *final(self)),
            agrees(implicit_ellipse_model(old(self).src@, old(self).pos as int), r, final(self).src@, final(self).pos as int),
            marks_panic(*old(self), *final(self), implicit_ellipse_model(old(self).src@, old(self).pos as int) is Crash),
    {
        proof {
            reveal(implicit_ellipse_model);
        }
        let lookahead = self.pos;
        let Some(width) = self.match_distance()? else {
            return Ok(None);
        };
        let Some(height) = self.match_distance()? else {
            self.pos = lookahead;
            return Ok(None);
        };
        let Some(at) = self.match_at_position()? else {
            self.pos = lookahead;
            return Ok(None);
        };
        Ok(
            Some(
                Shape {
                    value: ShapeKind::Ellipse,
                    style: Some(ShapeStyle::Position(Position { x: Some(width), y: Some(height) })),
                    at: Some(at),
                },
            ),
        )
    }

    fn match_radial_without_shape(&mut self) -> (r: Result<Option<RadialOrientation>, GradientParseError>)
        requires
            old(self).pos <= old(self).src.len(),
        ensures
            advances(*old(self), *final(self)),
            agrees(radial_without_shape_model(old(self).src@, old(self).pos as int), r, final(self).src@, final(self).pos as int),
            marks_panic(*old(self), *final(self), radial_without_shape_model(old(self).src@, old(self).pos as int) is Crash),
    {
        proof {
            reveal(radial_without_shape_model);
        }
        if let Some(value) = self.scan_token(Pattern::ExtentKeyword) {
            let at = self.match_at_position()?;
            return Ok(Some(RadialOrientation::ExtentKeyword { value, at }));
        }
        if let Some(implicit) = self.match_implicit_ellipse()? {
            return Ok(Some(RadialOrientation::Shape(implicit)));
        }
        if let Some(at) = self.match_at_position()? {
            return Ok(Some(RadialOrientation::DefaultRadial { at }));
        }
        if let Some(at) = self.match_positioning()? {
            return Ok(Some(RadialOrientation::DefaultRadial { at }));
        }
        Ok(None)
    }

    fn match_radial_orientation(&mut self) -> (r: Result<Option<RadialOrientation>, GradientParseError>)
        requires
            old(self).pos <= old(self).src.len(),
        ensures
            advances(*old(self), *final(self)),
            agrees(radial_orientation_model(old(self).src@, old(self).pos as int), r, final(self).src@, final(self).pos as int),
            marks_panic(*old(self), *final(self), radial_orientation_model(old(self).src@, old(self).pos as int) is Crash),
    {
        proof {
            reveal(radial_orientation_model);
        }
        let circle = self.match_circle()?;
        let ellipse = self.match_ellipse()?;
        let shape = match circle {
            Some(c) => Some(c),
            None => ellipse,
        };
        if let Some(shape) = shape {
            let at = self.match_at_position()?;
            return Ok(Some(RadialOrientation::Shape(Shape { value: shape.value, style: shape.style, at })));
        }
        self.match_radial_without_shape()
    }

    fn match_list_radial_orientations(&mut self) -> (r: Result<Option<GradientOrientation>, GradientParseError>)
        requires
            old(self).pos <= old(self).src.len(),
        ensures
            advances(*old(self), *final(self)),
            agrees(radial_list_model(old(self).src@, old(self).pos as int), r, final(self).src@, final(self).pos as int),
            marks_panic(*old(self), *final(self), radial_list_model(old(self).src@, old(self).pos as int) is Crash),
    {
        proof {
            reveal(radial_list_model);
        }
        let Some(first) = self.match_radial_orientation()? else {
            return Ok(None);
        };
        let mut orientations = vec![first];
        let lookahead = self.pos;
        if !self.scan_comma() {
            proof {
                assert(orientations.deep_view() =~= seq![first.deep_view()]);
            }
            return Ok(Some(GradientOrientation::Radial(orientations)));
        }
        let Some(next) = self.match_radial_orientation()? else {
            self.pos = lookahead;
            proof {
                assert(orientations.deep_view() =~= seq![first.deep_view()]);
            }
            return Ok(Some(GradientOrientation::Radial(orientations)));
        };
        let ghost first_view = orientations@[0].deep_view();
        orientations.push(next);
        proof {
            assert(orientations.deep_view() =~= seq![first_view, next.deep_view()]);
        }
        Ok(Some(GradientOrientation::Radial(orientations)))
    }

    fn match_linear_orientation(&mut self) -> (r: Result<Option<GradientOrientation>, GradientParseError>)
        requires
            old(self).pos <= old(self).src.len(),
        ensures
            advances(*old(self), *final(self)),
            agrees(linear_orientation_model(old(self).src@, old(self).pos as int), r, final(self).src@, final(self).pos as int),
            marks_panic(*old(self), *final(self), linear_orientation_model(old(self).src@, old(self).pos as int) is Crash),
    {
        proof {
            reveal(linear_orientation_model);
        }
        if let Some(value) = self.scan_token(Pattern::SideOrCorner) {
            return Ok(Some(GradientOrientation::Linear(LinearOrientation::Directional(value))));
        }
        if let Some(value) = self.scan_token(Pattern::PositionKeyword) {
            return Ok(Some(GradientOrientation::Linear(LinearOrientation::Directional(value))));
        }
        let angular = match self.scan_token(Pattern::Deg) {
            Some(v) => Some(v),
            None => self.scan_token(Pattern::Rad),
        };
        match angular {
            Some(value) => Ok(Some(GradientOrientation::Linear(LinearOrientation::Angular(value)))),
            None => Ok(None),
        }
    }

    fn match_number(&mut self) -> (r: Result<String, GradientParseError>)
        requires
            old(self).pos <= old(self).src.len(),
        ensures
            advances(*old(self), *final(self)),
            agrees(number_model(old(self).src@, old(self).pos as int), r, final(self).src@, final(self).pos as int),
            marks_panic(*old(self), *final(self), number_model(old(self).src@, old(self).pos as int) is Crash),
    {
        proof {
            reveal(number_model);
        }
        match self.scan_token(Pattern::NumberToken) {
            Some(v) => Ok(v),
            None => Err(self.error(GradientErrorKind::ExpectedNumber)),
        }
    }

    /// A comma-separated list of numbers (the listing of `rgb()` and `rgba()`).
    fn match_number_listing(&mut self) -> (r: Result<Vec<String>, GradientParseError>)
        requires
            old(self).pos <= old(self).src.len(),
        ensures
            advances(*old(self), *final(self)),
            agrees(numbers_model(old(self).src@, old(self).pos as int), r, final(self).src@, final(self).pos as int),
            marks_panic(*old(self), *final(self), numbers_model(old(self).src@, old(self).pos as int) is Crash),
    {
        proof {
            reveal(numbers_model);
        }
        let ghost s = self.src@;
        let ghost whole_model = numbers_model(s, self.pos as int);
        let ghost p0 = self.pos as int;
        let first = self.match_number()?;
        let ghost mut crashed = number_model(s, p0) is Crash;
        let mut result: Vec<String> = Vec::new();
        result.push(first);
        proof {
            assert(result.deep_view() =~= seq![first@]);
        }
        loop
            invariant
                self.src@ == s,
                s == old(self).src@,
                whole_model == numbers_model(s, old(self).pos as int),
                advances(*old(self), *self),
                crashed ==> whole_model is Crash,
                !crashed ==> whole_model == numbers_rest_model(s, self.pos as int, result.deep_view()),
                self.panicked == (old(self).panicked || crashed),
            decreases s.len() - self.pos,
        {
            let ghost before = self.pos as int;
            let ghost acc = result.deep_view();
            proof {
                reveal_with_fuel(numbers_rest_model, 1);
            }
            if !self.scan_comma() {
                return Ok(result);
            }
            proof {
                crate::chars::lemma_skip_ws_bounds(s, before);
            }
            let ghost q = self.pos as int;
            let next = self.match_number()?;
            proof {
                crashed = crashed || number_model(s, q) is Crash;
            }
            result.push(next);
            proof {
                assert(result.deep_view() =~= acc.push(next@));
            }
        }
    }

    fn match_rgb_like(&mut self, alpha: bool) -> (r: Result<Option<Color>, GradientParseError>)
        requires
            old(self).pos <= old(self).src.len(),
        ensures
            advances(*old(self), *final(self)),
            agrees(rgb_like_model(old(self).src@, old(self).pos as int, alpha), r, final(self).src@, final(self).pos as int),
            marks_panic(*old(self), *final(self), rgb_like_model(old(self).src@, old(self).pos as int, alpha) is Crash),
    {
        proof {
            reveal(rgb_like_model);
        }
        let word = if alpha {
            Word::Rgba
        } else {
            Word::Rgb
        };
        if !self.match_call(Pattern::Word(word))? {
            return Ok(None);
        }
        let values = self.match_number_listing()?;
        self.close_call()?;
        if alpha {
            Ok(Some(Color::Rgba(values)))
        } else {
            Ok(Some(Color::Rgb(values)))
        }
    }

    fn match_rgb_color(&mut self) -> (r: Result<Option<Color>, GradientParseError>)
        requires
            old(self).pos <= old(self).src.len(),
        ensures
            advances(*old(self), *final(self)),
            agrees(rgb_like_model(old(self).src@, old(self).pos as int, false), r, final(self).src@, final(self).pos as int),
            marks_panic(*old(self), *final(self), rgb_like_model(old(self).src@, old(self).pos as int, false) is Crash),
    {
        self.match_rgb_like(false)
    }

    fn match_rgba_color(&mut self) -> (r: Result<Option<Color>, GradientParseError>)
        requires
            old(self).pos <= old(self).src.len(),
        ensures
            advances(*old(self), *final(self)),
            agrees(rgb_like_model(old(self).src@, old(self).pos as int, true), r, final(self).src@, final(self).pos as int),
            marks_panic(*old(self), *final(self), rgb_like_model(old(self).src@, old(self).pos as int, true) is Crash),
    {
        self.match_rgb_like(true)
    }

    fn match_var_color(&mut self) -> (r: Result<Option<Color>, GradientParseError>)
        requires
            old(self).pos <= old(self).src.len(),
        ensures
            advances(*old(self), *final(self)),
            agrees(var_model(old(self).src@, old(self).pos as int), r, final(self).src@, final(self).pos as int),
            marks_panic(*old(self), *final(self), var_model(old(self).src@, old(self).pos as int) is Crash),
    {
        proof {
            reveal(var_model);
        }
        if !self.match_call(Pattern::Word(Word::Var))? {
            return Ok(None);
        }
        let Some(name) = self.scan_token(Pattern::VariableName) else {
            return Err(self.error(GradientErrorKind::ExpectedVariableName));
        };
        self.close_call()?;
        Ok(Some(Color::Var(name)))
    }
    fn match_hsl_color(&mut self) -> (r: Result<Option<Color>, GradientParseError>)
        requires
            old(self).pos <= old(self).src.len(),
        ensures
            advances(*old(self), *final(self)),
            agrees(hsl_model(old(self).src@, old(self).pos as int), r, final(self).src@, final(self).pos as int),
            marks_panic(*old(self), *final(self), hsl_model(old(self).src@, old(self).pos as int) is Crash),
    {
        proof {
            reveal(hsl_model);
        }
        if !self.match_call(Pattern::Word(Word::Hsl))? {
            return Ok(None);
        }
        if self.scan_token(Pattern::Percentage).is_some() {
            return Err(self.error(GradientErrorKind::HueIsPercentage));
        }
        let hue = self.match_number()?;
        self.scan_comma();
        let sat = self.scan_token(Pattern::Percentage);
        self.scan_comma();
        let light = self.scan_token(Pattern::Percentage);
        let Some(sat) = sat else {
            return Err(self.error(GradientErrorKind::HslPercentages));
        };
        let Some(light) = light else {
            return Err(self.error(GradientErrorKind::HslPercentages));
        };
        self.close_call()?;
        let ghost parts = seq![hue@, sat@, light@];
        let values = [hue, sat, light];
        proof {
            assert(values.deep_view() =~= parts);
        }
        Ok(Some(Color::Hsl(values)))
    }

    fn match_hsla_color(&mut self) -> (r: Result<Option<Color>, GradientParseError>)
        requires
            old(self).pos <= old(self).src.len(),
        ensures
            advances(*old(self), *final(self)),
            agrees(hsla_model(old(self).src@, old(self).pos as int), r, final(self).src@, final(self).pos as int),
            marks_panic(*old(self), *final(self), hsla_model(old(self).src@, old(self).pos as int) is Crash),
    {
        proof {
            reveal(hsla_model);
        }
        if !self.match_call(Pattern::Word(Word::Hsla))? {
            return Ok(None);
        }
        let hue = self.match_number()?;
        self.scan_comma();
        let sat = self.scan_token(Pattern::Percentage);
        self.scan_comma();
        let light = self.scan_token(Pattern::Percentage);
        self.scan_comma();
        let alpha = self.match_number()?;
        let Some(sat) = sat else {
            return Err(self.error(GradientErrorKind::HslaPercentages));
        };
        let Some(light) = light else {
            return Err(self.error(GradientErrorKind::HslaPercentages));
        };
        self.close_call()?;
        let ghost parts = seq![hue@, sat@, light@, alpha@];
        let values = [hue, sat, light, alpha];
        proof {
            assert(values.deep_view() =~= parts);
        }
        Ok(Some(Color::Hsla(values)))
    }
    fn match_color(&mut self) -> (r: Result<Option<Color>, GradientParseError>)
        requires
            old(self).pos <= old(self).src.len(),
        ensures
            advances(*old(self), *final(self)),
            agrees(color_model(old(self).src@, old(self).pos as int), r, final(self).src@, final(self).pos as int),
            marks_panic(*old(self), *final(self), color_model(old(self).src@, old(self).pos as int) is Crash),
    {
        proof {
            reveal(color_model);
            reveal(color_after_hex_model);
            reveal(color_after_hsla_model);
            reveal(color_after_hsl_model);
            reveal(color_after_rgba_model);
            reveal(color_after_rgb_model);
            reveal(literal_model);
        }
        if let Some(hex) = self.scan_token(Pattern::HexColor) {
            return Ok(Some(Color::Hex(hex)));
        }
        if let Some(hsla) = self.match_hsla_color()? {
            return Ok(Some(hsla));
        }
        if let Some(hsl) = self.match_hsl_color()? {
            return Ok(Some(hsl));
        }
        if let Some(rgba) = self.match_rgba_color()? {
            return Ok(Some(rgba));
        }
        if let Some(rgb) = self.match_rgb_color()? {
            return Ok(Some(rgb));
        }
        if let Some(var) = self.match_var_color()? {
            return Ok(Some(var));
        }
        match self.scan_token(Pattern::LiteralColor) {
            Some(name) => Ok(Some(Color::Literal(name))),
            None => Ok(None),
        }
    }

    fn match_color_stop(&mut self) -> (r: Result<Option<ColorStop>, GradientParseError>)
        requires
            old(self).pos <= old(self).src.len(),
        ensures
            advances(*old(self), *final(self)),
            agrees(color_stop_model(old(self).src@, old(self).pos as int), r, final(self).src@, final(self).pos as int),
            marks_panic(*old(self), *final(self), color_stop_model(old(self).src@, old(self).pos as int) is Crash),
    {
        proof {
            reveal(color_stop_model);
        }
        let Some(color) = self.match_color()? else {
            return Err(self.error(GradientErrorKind::ExpectedColor));
        };
        let length = self.match_distance()?;
        Ok(Some(ColorStop { color, length }))
    }
    /// A comma-separated list of color stops, possibly empty.
    fn match_stop_listing(&mut self) -> (r: Result<Vec<ColorStop>, GradientParseError>)
        requires
            old(self).pos <= old(self).src.len(),
        ensures
            advances(*old(self), *final(self)),
            agrees(stops_model(old(self).src@, old(self).pos as int), r, final(self).src@, final(self).pos as int),
            marks_panic(*old(self), *final(self), stops_model(old(self).src@, old(self).pos as int) is Crash),
    {
        proof {
            reveal(stops_model);
        }
        let ghost s = self.src@;
        let ghost whole_model = stops_model(s, self.pos as int);
        let ghost p0 = self.pos as int;
        let mut result: Vec<ColorStop> = Vec::new();
        let first_stop = self.match_color_stop()?;
        let ghost mut crashed = color_stop_model(s, p0) is Crash;
        let Some(first) = first_stop else {
            proof {
                assert(result.deep_view() =~= Seq::<ColorStopV>::empty());
            }
            return Ok(result);
        };
        result.push(first);
        proof {
            assert(result.deep_view() =~= seq![first.deep_view()]);
        }
        loop
            invariant
                self.src@ == s,
                s == old(self).src@,
                whole_model == stops_model(s, old(self).pos as int),
                advances(*old(self), *self),
                crashed ==> whole_model is Crash,
                !crashed ==> whole_model == stops_rest_model(s, self.pos as int, result.deep_view()),
                self.panicked == (old(self).panicked || crashed),
            decreases s.len() - self.pos,
        {
            let ghost before = self.pos as int;
            let ghost acc = result.deep_view();
            proof {
                reveal_with_fuel(stops_rest_model, 1);
            }
            if !self.scan_comma() {
                return Ok(result);
            }
            proof {
                crate::chars::lemma_skip_ws_bounds(s, before);
            }
            let ghost q = self.pos as int;
            let next_stop = self.match_color_stop()?;
            proof {
                crashed = crashed || color_stop_model(s, q) is Crash;
            }
            let Some(next) = next_stop else {
                return Err(self.error(GradientErrorKind::OneExtraComma));
            };
            result.push(next);
            proof {
                assert(result.deep_view() =~= acc.push(next.deep_view()));
            }
        }
    }

    fn match_gradient(&mut self, kind: GradientKind) -> (r: Result<Option<GradientAst>, GradientParseError>)
        requires
            old(self).pos <= old(self).src.len(),
        ensures
            advances(*old(self), *final(self)),
            agrees(gradient_model(old(self).src@, old(self).pos as int, kind), r, final(self).src@, final(self).pos as int),
            marks_panic(*old(self), *final(self), gradient_model(old(self).src@, old(self).pos as int, kind) is Crash),
    {
        proof {
            reveal(gradient_model);
        }
        if !self.match_call(Pattern::Gradient(kind))? {
            return Ok(None);
        }
        let orientation = if kind.is_linear() {
            self.match_linear_orientation()?
        } else {
            self.match_list_radial_orientations()?
        };
        if orientation.is_some() && !self.scan_comma() {
            return Err(self.error(GradientErrorKind::MissingCommaBeforeStops));
        }
        let color_stops = self.match_stop_listing()?;
        self.close_call()?;
        Ok(Some(GradientAst { kind, orientation, color_stops }))
    }

    fn match_definition(&mut self) -> (r: Result<Option<GradientAst>, GradientParseError>)
        requires
            old(self).pos <= old(self).src.len(),
        ensures
            advances(*old(self), *final(self)),
            agrees(definition_model(old(self).src@, old(self).pos as int), r, final(self).src@, final(self).pos as int),
            marks_panic(*old(self), *final(self), definition_model(old(self).src@, old(self).pos as int) is Crash),
    {
        proof {
            reveal(definition_model);
        }
        if let Some(ast) = self.match_gradient(GradientKind::Linear)? {
            return Ok(Some(ast));
        }
        if let Some(ast) = self.match_gradient(GradientKind::RepeatingLinear)? {
            return Ok(Some(ast));
        }
        if let Some(ast) = self.match_gradient(GradientKind::Radial)? {
            return Ok(Some(ast));
        }
        self.match_gradient(GradientKind::RepeatingRadial)
    }

    /// A comma-separated list of gradients, possibly empty.
    fn match_definition_listing(&mut self) -> (r: Result<Vec<GradientAst>, GradientParseError>)
        requires
            old(self).pos <= old(self).src.len(),
        ensures
            advances(*old(self), *final(self)),
            agrees(definitions_model(old(self).src@, old(self).pos as int), r, final(self).src@, final(self).pos as int),
            marks_panic(*old(self), *final(self), definitions_model(old(self).src@, old(self).pos as int) is Crash),
    {
        proof {
            reveal(definitions_model);
        }
        let ghost s = self.src@;
        let ghost whole_model = definitions_model(s, self.pos as int);
        let ghost p0 = self.pos as int;
        let mut result: Vec<GradientAst> = Vec::new();
        let first_def = self.match_definition()?;
        let ghost mut crashed = definition_model(s, p0) is Crash;
        let Some(first) = first_def else {
            proof {
                assert(result.deep_view() =~= Seq::<GradientAstV>::empty());
            }
            return Ok(result);
        };
        result.push(first);
        proof {
            assert(result.deep_view() =~= seq![first.deep_view()]);
        }
        loop
            invariant
                self.src@ == s,
                s == old(self).src@,
                whole_model == definitions_model(s, old(self).pos as int),
                advances(*old(self), *self),
                crashed ==> whole_model is Crash,
                !crashed ==> whole_model == definitions_rest_model(s, self.pos as int, result.deep_view()),
                self.panicked == (old(self).panicked || crashed),
            decreases s.len() - self.pos,
        {
            let ghost before = self.pos as int;
            let ghost acc = result.deep_view();
            proof {
                reveal_with_fuel(definitions_rest_model, 1);
            }
            if !self.scan_comma() {
                return Ok(result);
            }
            proof {
                crate::chars::lemma_skip_ws_bounds(s, before);
            }
            let ghost q = self.pos as int;
            let next_def = self.match_definition()?;
            proof {
                crashed = crashed || definition_model(s, q) is Crash;
            }
            let Some(next) = next_def else {
                return Err(self.error(GradientErrorKind::OneExtraComma));
            };
            result.push(next);
            proof {
                assert(result.deep_view() =~= acc.push(next.deep_view()));
            }
        }
    }
}

/// The text that is read as gradients: the input trimmed of whitespace at both
/// ends, and of one `;` at its end.
pub open spec fn gradient_source(code: Seq<char>) -> Seq<char> {
    let t = trim_ws(code);
    if t.len() > 0 && t.last() == ';' {
        t.drop_last()
    } else {
        t
    }
}

/// What `parse_gradient` gives for an input.
pub open spec fn parse_gradient_model(code: Seq<char>) -> Step<Seq<GradientAstV>> {
    source_model(gradient_source(code))
}

/// A reader at the start of the text that `code` is read as.
fn source_parser(code: &str) -> (p: Parser)
    ensures
        p.src@ == gradient_source(code@),
        p.pos == 0,
        !p.panicked,
{
    let chars = chars_of(code);
    let start = skip_whitespace_from(&chars, 0);
    let end = trim_end_from(&chars, chars.len());
    let mut source: Vec<char> = if start < end {
        chars_in_range(&chars, start, end)
    } else {
        Vec::new()
    };
    if source.len() > 0 && source[source.len() - 1] == ';' {
        source.pop();
    }
    proof {
        assert(source@ =~= gradient_source(code@));
    }
    Parser { src: source, pos: 0, panicked: false }
}

/// Whether reading `code` as gradients panics (where the byte-offset slicing of
/// a keyword test would split a character, or `calc()` nests deeper than an
/// `i32` counts): exactly the texts that `parse_gradient` does not accept.
pub fn parse_gradient_panics(code: &str) -> (b: bool)
    ensures
        b == parse_gradient_model(code@) is Crash,
{
    proof {
        reveal(source_model);
    }
    let mut parser = source_parser(code);
    let _ = parser.match_definition_listing();
    parser.panicked
}

/// Parses a CSS background value made of gradients: `linear-gradient`,
/// `repeating-linear-gradient`, `radial-gradient` and `repeating-radial-gradient`
/// (each with an optional vendor prefix), separated by commas.
pub fn parse_gradient(code: &str) -> (r: Result<Vec<GradientAst>, GradientParseError>)
    requires
        !(parse_gradient_model(code@) is Crash),
    ensures
        match parse_gradient_model(code@) {
            Step::Done(list, _) => r matches Ok(v) && v.deep_view() == list,
            Step::Fail(q, k) => r matches Err(e) && e.input@ == gradient_source(code@).subrange(
                q,
                gradient_source(code@).len() as int,
            ) && e.message@ == error_message(k),
            Step::Crash => false,
        },
{
    proof {
        reveal(source_model);
    }
    let mut parser = source_parser(code);
    let ast = parser.match_definition_listing()?;
    if parser.pos != parser.src.len() {
        return Err(parser.error(GradientErrorKind::NotAtEnd));
    }
    Ok(ast)
}

} // verus!
