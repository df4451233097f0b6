//! Which inputs the gradient reader goes through without panicking: every
//! ASCII text shorter than `i32::MAX - 1` characters.

use vstd::prelude::*;
use crate::chars::{lemma_skip_ws_bounds, lemma_trim_end_bounds, skip_ws, trim_end_ws, trim_ws};
use super::ast::GradientKind;
use super::model::{
    at_position_model, calc_close, calc_model, char_model, circle_model, color_after_hex_model,
    color_after_hsl_model, color_after_hsla_model, color_after_rgb_model, color_after_rgba_model,
    color_model, color_stop_model, definition_model, definitions_model, definitions_rest_model,
    distance_model, ellipse_extent_model, ellipse_model, gradient_model, hsl_model, hsla_model,
    implicit_ellipse_model, length_model, linear_orientation_model, literal_model, number_model,
    numbers_model, numbers_rest_model, pattern_model, positioning_model, radial_list_model,
    radial_orientation_model, radial_without_shape_model, rgb_like_model, source_model,
    stops_model, stops_rest_model, token_model, var_model, Pattern, Step,
};
use super::parser::{gradient_source, parse_gradient_model};
use super::scan::{cuts_char, utf8_width, Scan};

verus! {

/// Every character is ASCII.
pub open spec fn ascii_text(s: Seq<char>) -> bool {
    forall|i: int| 0 <= i < s.len() ==> (#[trigger] s[i] as u32) < 0x80
}

/// The texts that the reader goes through without panicking.
pub open spec fn readable_text(s: Seq<char>) -> bool {
    ascii_text(s) && s.len() < i32::MAX - 1
}

pub proof fn lemma_ascii_no_cut(s: Seq<char>, p: int, n: int)
    requires
        ascii_text(s),
    ensures
        !cuts_char(s, p, n),
    decreases s.len() - p,
{
    if n > 0 && 0 <= p < s.len() {
        assert(utf8_width(s[p]) == 1);
        lemma_ascii_no_cut(s, p + 1, n - 1);
    }
}

proof fn lemma_calc_close_total(s: Seq<char>, i: int, open: int)
    requires
        open + (s.len() - i) < i32::MAX,
        0 <= i,
    ensures
        !(calc_close(s, i, open) is Crash),
    decreases s.len() - i,
{
    if open > 0 && i < s.len() {
        lemma_calc_close_total(s, i + 1, if s[i] == '(' { open + 1 } else if s[i] == ')' { open - 1 } else { open });
    }
}

proof fn lemma_patterns(s: Seq<char>)
    requires
        readable_text(s),
    ensures
        forall|pat: Pattern, p: int| !(#[trigger] pattern_model(pat, s, p) is Crash),
        forall|i: int| !(#[trigger] calc_close(s, i, 1) is Crash),
{
    assert forall|p: int, n: int| !(#[trigger] cuts_char(s, p, n)) by {
        lemma_ascii_no_cut(s, p, n);
    }
    assert forall|pat: Pattern, p: int| !(#[trigger] pattern_model(pat, s, p) is Crash) by {
        reveal(pattern_model);
    }
    assert forall|i: int| !(#[trigger] calc_close(s, i, 1) is Crash) by {
        if i >= 0 {
            lemma_calc_close_total(s, i, 1);
        }
    }
}

proof fn lemma_distances(s: Seq<char>)
    requires
        readable_text(s),
    ensures
        forall|p: int| !(#[trigger] length_model(s, p) is Crash),
        forall|p: int| !(#[trigger] calc_model(s, p) is Crash),
        forall|p: int| !(#[trigger] distance_model(s, p) is Crash),
        forall|p: int| !(#[trigger] positioning_model(s, p) is Crash),
        forall|p: int| !(#[trigger] at_position_model(s, p) is Crash),
{
    lemma_patterns(s);
    assert forall|p: int| !(#[trigger] length_model(s, p) is Crash) by {
        reveal(length_model);
        assert(!(token_model(s, p, Pattern::Px) is Crash));
    }
    assert forall|p: int| !(#[trigger] calc_model(s, p) is Crash) by {
        reveal(calc_model);
    }
    assert forall|p: int| !(#[trigger] distance_model(s, p) is Crash) by {
        reveal(distance_model);
    }
    assert forall|p: int| !(#[trigger] positioning_model(s, p) is Crash) by {
        reveal(positioning_model);
    }
    assert forall|p: int| !(#[trigger] at_position_model(s, p) is Crash) by {
        reveal(at_position_model);
    }
}

proof fn lemma_orientations(s: Seq<char>)
    requires
        readable_text(s),
    ensures
        forall|p: int| !(#[trigger] radial_list_model(s, p) is Crash),
        forall|p: int| !(#[trigger] linear_orientation_model(s, p) is Crash),
{
    lemma_patterns(s);
    lemma_distances(s);
    assert forall|p: int| !(#[trigger] circle_model(s, p) is Crash) by {
        reveal(circle_model);
    }
    assert forall|p: int| !(#[trigger] ellipse_extent_model(s, p) is Crash) by {
        reveal(ellipse_extent_model);
    }
    assert forall|p: int| !(#[trigger] ellipse_model(s, p) is Crash) by {
        reveal(ellipse_model);
    }
    assert forall|p: int| !(#[trigger] implicit_ellipse_model(s, p) is Crash) by {
        reveal(implicit_ellipse_model);
    }
    assert forall|p: int| !(#[trigger] radial_without_shape_model(s, p) is Crash) by {
        reveal(radial_without_shape_model);
    }
    assert forall|p: int| !(#[trigger] radial_orientation_model(s, p) is Crash) by {
        reveal(radial_orientation_model);
    }
    assert forall|p: int| !(#[trigger] radial_list_model(s, p) is Crash) by {
        reveal(radial_list_model);
    }
    assert forall|p: int| !(#[trigger] linear_orientation_model(s, p) is Crash) by {
        reveal(linear_orientation_model);
    }
}

proof fn lemma_numbers_rest(s: Seq<char>, p: int, acc: Seq<Seq<char>>)
    requires
        readable_text(s),
        forall|q: int| !(#[trigger] number_model(s, q) is Crash),
    ensures
        !(numbers_rest_model(s, p, acc) is Crash),
    decreases s.len() - p,
{
    reveal_with_fuel(numbers_rest_model, 1);
    let (comma, q) = char_model(s, p, ',');
    if comma {
        match number_model(s, q) {
            Step::Done(v, q2) => {
                if p < q2 <= s.len() {
                    lemma_numbers_rest(s, q2, acc.push(v));
                }
            },
            _ => {},
        }
    }
}

proof fn lemma_colors(s: Seq<char>)
    requires
        readable_text(s),
    ensures
        forall|p: int| !(#[trigger] color_stop_model(s, p) is Crash),
{
    lemma_patterns(s);
    lemma_distances(s);
    assert forall|p: int| !(#[trigger] number_model(s, p) is Crash) by {
        reveal(number_model);
    }
    assert forall|p: int| !(#[trigger] numbers_model(s, p) is Crash) by {
        reveal(numbers_model);
        match number_model(s, p) {
            Step::Done(v, q) => lemma_numbers_rest(s, q, seq![v]),
            _ => {},
        }
    }
    assert forall|p: int, alpha: bool| !(#[trigger] rgb_like_model(s, p, alpha) is Crash) by {
        reveal(rgb_like_model);
    }
    assert forall|p: int| !(#[trigger] var_model(s, p) is Crash) by {
        reveal(var_model);
    }
    assert forall|p: int| !(#[trigger] hsl_model(s, p) is Crash) by {
        reveal(hsl_model);
    }
    assert forall|p: int| !(#[trigger] hsla_model(s, p) is Crash) by {
        reveal(hsla_model);
    }
    assert forall|p: int| !(#[trigger] literal_model(s, p) is Crash) by {
        reveal(literal_model);
    }
    assert forall|p: int| !(#[trigger] color_after_rgb_model(s, p) is Crash) by {
        reveal(color_after_rgb_model);
    }
    assert forall|p: int| !(#[trigger] color_after_rgba_model(s, p) is Crash) by {
        reveal(color_after_rgba_model);
        assert(!(rgb_like_model(s, p, false) is Crash));
    }
    assert forall|p: int| !(#[trigger] color_after_hsl_model(s, p) is Crash) by {
        reveal(color_after_hsl_model);
        assert(!(rgb_like_model(s, p, true) is Crash));
    }
    assert forall|p: int| !(#[trigger] color_after_hsla_model(s, p) is Crash) by {
        reveal(color_after_hsla_model);
    }
    assert forall|p: int| !(#[trigger] color_after_hex_model(s, p) is Crash) by {
        reveal(color_after_hex_model);
    }
    assert forall|p: int| !(#[trigger] color_model(s, p) is Crash) by {
        reveal(color_model);
    }
    assert forall|p: int| !(#[trigger] color_stop_model(s, p) is Crash) by {
        reveal(color_stop_model);
    }
}

proof fn lemma_stops_rest(s: Seq<char>, p: int, acc: Seq<super::ast::ColorStopV>)
    requires
        forall|q: int| !(#[trigger] color_stop_model(s, q) is Crash),
    ensures
        !(stops_rest_model(s, p, acc) is Crash),
    decreases s.len() - p,
{
    reveal_with_fuel(stops_rest_model, 1);
    let (comma, q) = char_model(s, p, ',');
    if comma {
        match color_stop_model(s, q) {
            Step::Done(Some(stop), q2) => {
                if p < q2 <= s.len() {
                    lemma_stops_rest(s, q2, acc.push(stop));
                }
            },
            _ => {},
        }
    }
}

proof fn lemma_gradients(s: Seq<char>)
    requires
        readable_text(s),
    ensures
        forall|p: int| !(#[trigger] definition_model(s, p) is Crash),
{
    lemma_patterns(s);
    lemma_orientations(s);
    lemma_colors(s);
    assert forall|p: int| !(#[trigger] stops_model(s, p) is Crash) by {
        reveal(stops_model);
        match color_stop_model(s, p) {
            Step::Done(Some(first), q) => lemma_stops_rest(s, q, seq![first]),
            _ => {},
        }
    }
    assert forall|p: int, kind: GradientKind| !(#[trigger] gradient_model(s, p, kind) is Crash) by {
        reveal(gradient_model);
    }
    assert forall|p: int| !(#[trigger] definition_model(s, p) is Crash) by {
        reveal(definition_model);
        assert(!(gradient_model(s, p, GradientKind::Linear) is Crash));
    }
}

proof fn lemma_definitions_rest(s: Seq<char>, p: int, acc: Seq<super::ast::GradientAstV>)
    requires
        forall|q: int| !(#[trigger] definition_model(s, q) is Crash),
    ensures
        !(definitions_rest_model(s, p, acc) is Crash),
    decreases s.len() - p,
{
    reveal_with_fuel(definitions_rest_model, 1);
    let (comma, q) = char_model(s, p, ',');
    if comma {
        match definition_model(s, q) {
            Step::Done(Some(g), q2) => {
                if p < q2 <= s.len() {
                    lemma_definitions_rest(s, q2, acc.push(g));
                }
            },
            _ => {},
        }
    }
}

/// The trimmed text, with or without its last character, keeps the characters
/// it is cut from, and so stays readable.
proof fn lemma_source_readable(code: Seq<char>)
    requires
        readable_text(code),
    ensures
        readable_text(gradient_source(code)),
{
    lemma_skip_ws_bounds(code, 0);
    lemma_trim_end_bounds(code, code.len() as int);
    let t = trim_ws(code);
    assert(ascii_text(t)) by {
        let start = skip_ws(code, 0);
        let end = trim_end_ws(code, code.len() as int);
        if start < end {
            assert forall|i: int| 0 <= i < t.len() implies (#[trigger] t[i] as u32) < 0x80 by {
                assert(t[i] == code[start + i]);
            }
        }
    }
    let g = gradient_source(code);
    assert forall|i: int| 0 <= i < g.len() implies (#[trigger] g[i] as u32) < 0x80 by {
        assert(g[i] == t[i]);
    }
}

/// An ASCII text shorter than `i32::MAX - 1` characters is read by
/// `parse_gradient` without panicking: its `requires` holds of it.
pub proof fn ascii_gradients_are_readable(code: Seq<char>)
    requires
        readable_text(code),
    ensures
        !(parse_gradient_model(code) is Crash),
{
    lemma_source_readable(code);
    let s = gradient_source(code);
    lemma_gradients(s);
    reveal(source_model);
    reveal(definitions_model);
    match definition_model(s, 0) {
        Step::Done(Some(first), q) => lemma_definitions_rest(s, q, seq![first]),
        _ => {},
    }
}

/// A piece of a readable text is readable.
pub proof fn lemma_readable_subrange(s: Seq<char>, a: int, b: int)
    requires
        readable_text(s),
        0 <= a <= b <= s.len(),
    ensures
        readable_text(s.subrange(a, b)),
{
    let t = s.subrange(a, b);
    assert forall|i: int| 0 <= i < t.len() implies (#[trigger] t[i] as u32) < 0x80 by {
        assert(t[i] == s[a + i]);
    }
}

/// A readable text trimmed is readable.
pub proof fn lemma_readable_trim(s: Seq<char>)
    requires
        readable_text(s),
    ensures
        readable_text(trim_ws(s)),
{
    lemma_skip_ws_bounds(s, 0);
    lemma_trim_end_bounds(s, s.len() as int);
    let start = skip_ws(s, 0);
    let end = trim_end_ws(s, s.len() as int);
    if start < end {
        lemma_readable_subrange(s, start, end);
    }
}

} // verus!
