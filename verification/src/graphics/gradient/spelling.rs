//! How a gradient's name may be spelled: in any ASCII case, after any vendor
//! prefix, it gives the same gradient.

use vstd::prelude::*;
use vstd::string::*;
use crate::chars::{is_trimmed, is_ws, lemma_trim_padded, skip_ws};
use super::ast::kind_name;
use super::laws::{gradient_names_ignore_case_and_vendor, lemma_name_scan, vendor_prefix};
use super::parser::{gradient_source, parse_gradient_model};
use super::raster::{gradient_layer_test, segment_layers, BackgroundLayerV};
use crate::chars::trim_ws;
use super::ast::{ColorStopV, ColorV, GradientAstV, GradientKind};
use super::model::{
    char_model as char_step, linear_orientation_model as linear_orientation,
    color_after_hex_model, color_after_hsl_model, color_after_hsla_model, color_after_rgb_model,
    color_after_rgba_model, color_model, hsl_model, hsla_model, literal_model, rgb_like_model,
    var_model, at_position_model, call_close_model, char_model, color_stop_model,
    definition_model, definitions_model, definitions_rest_model, gradient_model, source_model,
    stops_model, stops_rest_model, calc_model, call_open_model, circle_model, distance_model,
    ellipse_model, implicit_ellipse_model, length_model, linear_orientation_model,
    pattern_model, positioning_model, radial_list_model, radial_orientation_model,
    radial_without_shape_model, token_model, word_text, Pattern, Step, Word,
};
use super::scan::{is_alpha, side_or_corner_model, corner_model, corner_second_model, side_model, ci_matches, ci_prefix_model, cuts_char, lower_code, run_len, starts_at, CharClass, Scan};
use super::safety::{ascii_text, lemma_ascii_no_cut};

verus! {

/// A position where no token but a gradient's name can start: a `,` or a
/// `)`, or the start of `re...` or `bl...` (as in `red` and `blue`), in an
/// ASCII text.
pub open spec fn inert_at(s: Seq<char>, q: int) -> bool {
    &&& ascii_text(s)
    &&& 0 <= q < s.len()
    &&& {
        ||| s[q] == ','
        ||| s[q] == ')'
        ||| q + 1 < s.len() && s[q] == 'r' && s[q + 1] == 'e'
        ||| q + 1 < s.len() && s[q] == 'b' && s[q + 1] == 'l'
    }
}

/// A keyword that differs from the text at `q` in its first or second
/// character is no match.
proof fn lemma_ci_miss(s: Seq<char>, q: int, kw: Seq<char>)
    requires
        ascii_text(s),
        0 <= q < s.len(),
        kw.len() >= 1,
        lower_code(s[q]) != lower_code(kw[0]) || (kw.len() >= 2 && q + 1 < s.len() && lower_code(
            s[q + 1],
        ) != lower_code(kw[1])),
    ensures
        ci_prefix_model(s, q, kw) == Scan::Miss,
{
    lemma_ascii_no_cut(s, q, kw.len() as int);
    if ci_matches(s, q, kw) {
        assert(lower_code(s[q + 0]) == lower_code(kw[0]));
        if kw.len() >= 2 {
            assert(lower_code(s[q + 1]) == lower_code(kw[1]));
        }
    }
}

/// No exact keyword that starts with another character matches.
proof fn lemma_exact_miss(s: Seq<char>, q: int, kw: Seq<char>)
    requires
        0 <= q < s.len(),
        kw.len() >= 1,
        s[q] != kw[0],
    ensures
        !starts_at(s, q, kw),
{
    if starts_at(s, q, kw) {
        assert(s[q + 0] == kw[0]);
    }
}

/// At an inert position every token pattern misses, but for a run of letters
/// and a gradient's name.
proof fn lemma_inert_miss(s: Seq<char>, q: int, pat: Pattern)
    requires
        inert_at(s, q),
        !(pat is LiteralColor),
        !(pat is Gradient),
    ensures
        pattern_model(pat, s, q) == Scan::Miss,
{
    reveal(pattern_model);
    reveal_strlit("to ");
    reveal_strlit("left");
    reveal_strlit("center");
    reveal_strlit("right");
    reveal_strlit("top");
    reveal_strlit("bottom");
    reveal_strlit("closest-side");
    reveal_strlit("closest-corner");
    reveal_strlit("farthest-side");
    reveal_strlit("farthest-corner");
    reveal_strlit("contain");
    reveal_strlit("cover");
    reveal_strlit("--");
    reveal_strlit("circle");
    reveal_strlit("ellipse");
    reveal_strlit("at");
    reveal_strlit("rgb");
    reveal_strlit("rgba");
    reveal_strlit("var");
    reveal_strlit("hsl");
    reveal_strlit("hsla");
    reveal_strlit("calc");
    assert(run_len(s, q, CharClass::Digit) == 0);
    assert(run_len(s, q, CharClass::HexDigit) == 0 || s[q] != '#');
    match pat {
        Pattern::SideOrCorner => lemma_ci_miss(s, q, "to "@),
        Pattern::PositionKeyword => {
            lemma_ci_miss(s, q, "left"@);
            lemma_ci_miss(s, q, "center"@);
            lemma_ci_miss(s, q, "right"@);
            lemma_ci_miss(s, q, "top"@);
            lemma_ci_miss(s, q, "bottom"@);
        },
        Pattern::ExtentKeyword => {
            lemma_exact_miss(s, q, "closest-side"@);
            lemma_exact_miss(s, q, "closest-corner"@);
            lemma_exact_miss(s, q, "farthest-side"@);
            lemma_exact_miss(s, q, "farthest-corner"@);
            lemma_exact_miss(s, q, "contain"@);
            lemma_exact_miss(s, q, "cover"@);
        },
        Pattern::VariableName => lemma_exact_miss(s, q, "--"@),
        Pattern::Word(w) => lemma_ci_miss(s, q, word_text(w)),
        _ => {},
    }
}

/// The text at `q` starts with no whitespace, so reading whitespace from
/// there stays.
proof fn lemma_inert_stays(s: Seq<char>, q: int)
    requires
        inert_at(s, q),
    ensures
        skip_ws(s, q) == q,
{
    assert(!is_ws(s[q]));
}

/// From `x`, whitespace then an inert position: every token but a run of
/// letters or a gradient name is absent.
proof fn lemma_inert_tokens(s: Seq<char>, x: int)
    requires
        inert_at(s, skip_ws(s, x)),
    ensures
        forall|pat: Pattern|
            !(pat is LiteralColor) && !(pat is Gradient) ==> #[trigger] token_model(s, x, pat)
                == Step::<Option<Seq<char>>>::Done(None, skip_ws(s, x)),
{
    assert forall|pat: Pattern| !(pat is LiteralColor) && !(pat is Gradient) implies #[trigger] token_model(
        s,
        x,
        pat,
    ) == Step::<Option<Seq<char>>>::Done(None, skip_ws(s, x)) by {
        lemma_inert_miss(s, skip_ws(s, x), pat);
    }
}

/// No distance starts at an inert position.
proof fn lemma_inert_distance(s: Seq<char>, x: int)
    requires
        inert_at(s, skip_ws(s, x)),
    ensures
        distance_model(s, x) == Step::<Option<super::ast::DistanceV>>::Done(None, skip_ws(s, x)),
{
    let q = skip_ws(s, x);
    lemma_inert_stays(s, q);
    lemma_inert_tokens(s, x);
    lemma_inert_tokens(s, q);
    assert(call_open_model(s, q, Pattern::Word(Word::Calc)) == Step::Done(false, q)) by {
        lemma_inert_miss(s, q, Pattern::Word(Word::Calc));
    }
    assert(calc_model(s, q) == Step::<Option<super::ast::DistanceV>>::Done(None, q)) by {
        reveal(calc_model);
    }
    assert(length_model(s, q) == Step::<Option<super::ast::DistanceV>>::Done(None, q)) by {
        reveal(length_model);
        assert(token_model(s, q, Pattern::Px) == Step::<Option<Seq<char>>>::Done(None, q));
        assert(token_model(s, q, Pattern::Em) == Step::<Option<Seq<char>>>::Done(None, q));
    }
    reveal(distance_model);
    assert(token_model(s, x, Pattern::Percentage) == Step::<Option<Seq<char>>>::Done(None, q));
    assert(token_model(s, q, Pattern::PositionKeyword) == Step::<Option<Seq<char>>>::Done(None, q));
}

/// At an inert position no orientation of either kind is read; reading stays
/// there.
proof fn lemma_inert_orientations(s: Seq<char>, x: int)
    requires
        inert_at(s, skip_ws(s, x)),
    ensures
        linear_orientation_model(s, x) == Step::<Option<super::ast::GradientOrientationV>>::Done(
            None,
            skip_ws(s, x),
        ),
        radial_list_model(s, x) == Step::<Option<super::ast::GradientOrientationV>>::Done(
            None,
            skip_ws(s, x),
        ),
{
    let q = skip_ws(s, x);
    lemma_inert_stays(s, q);
    lemma_inert_tokens(s, x);
    lemma_inert_tokens(s, q);
    lemma_inert_distance(s, x);
    lemma_inert_distance(s, q);
    assert(linear_orientation_model(s, x) == Step::<Option<super::ast::GradientOrientationV>>::Done(
        None,
        q,
    )) by {
        reveal(linear_orientation_model);
        assert(token_model(s, x, Pattern::SideOrCorner) == Step::<Option<Seq<char>>>::Done(None, q));
        assert(token_model(s, q, Pattern::PositionKeyword) == Step::<Option<Seq<char>>>::Done(None, q));
        assert(token_model(s, q, Pattern::Deg) == Step::<Option<Seq<char>>>::Done(None, q));
        assert(token_model(s, q, Pattern::Rad) == Step::<Option<Seq<char>>>::Done(None, q));
    }
    assert(positioning_model(s, q) == Step::<Option<super::ast::PositionV>>::Done(None, q)) by {
        reveal(positioning_model);
    }
    assert(at_position_model(s, q) == Step::<Option<super::ast::PositionV>>::Done(None, q)) by {
        reveal(at_position_model);
        assert(token_model(s, q, Pattern::Word(Word::At)) == Step::<Option<Seq<char>>>::Done(None, q));
    }
    assert(circle_model(s, x) == Step::<Option<super::ast::ShapeV>>::Done(None, q)) by {
        reveal(circle_model);
        assert(token_model(s, x, Pattern::Word(Word::Circle)) == Step::<Option<Seq<char>>>::Done(None, q));
    }
    assert(ellipse_model(s, q) == Step::<Option<super::ast::ShapeV>>::Done(None, q)) by {
        reveal(ellipse_model);
        assert(token_model(s, q, Pattern::Word(Word::Ellipse)) == Step::<Option<Seq<char>>>::Done(None, q));
    }
    assert(implicit_ellipse_model(s, q) == Step::<Option<super::ast::ShapeV>>::Done(None, q)) by {
        reveal(implicit_ellipse_model);
    }
    assert(radial_without_shape_model(s, q) == Step::<Option<super::ast::RadialOrientationV>>::Done(
        None,
        q,
    )) by {
        reveal(radial_without_shape_model);
        assert(token_model(s, q, Pattern::ExtentKeyword) == Step::<Option<Seq<char>>>::Done(None, q));
    }
    assert(radial_orientation_model(s, x) == Step::<Option<super::ast::RadialOrientationV>>::Done(
        None,
        q,
    )) by {
        reveal(radial_orientation_model);
    }
    reveal(radial_list_model);
}

proof fn lemma_letter_run(s: Seq<char>, q: int, n: int)
    requires
        0 <= q,
        0 <= n,
        q + n <= s.len(),
        forall|i: int| q <= i < q + n ==> is_alpha(#[trigger] s[i]),
        q + n == s.len() || !is_alpha(s[q + n]),
    ensures
        run_len(s, q, CharClass::Alpha) == n,
    decreases n,
{
    if n > 0 {
        lemma_letter_run(s, q + 1, n - 1);
    }
}

/// A run of `n` letters at an inert position (after whitespace from `x`) is
/// read as the named color it spells.
proof fn lemma_named_color(s: Seq<char>, x: int, n: int)
    requires
        inert_at(s, skip_ws(s, x)),
        n > 0,
        skip_ws(s, x) + n <= s.len(),
        forall|i: int| skip_ws(s, x) <= i < skip_ws(s, x) + n ==> is_alpha(#[trigger] s[i]),
        skip_ws(s, x) + n == s.len() || !is_alpha(s[skip_ws(s, x) + n]),
    ensures
        color_model(s, x) == Step::Done(
            Some(ColorV::Literal(s.subrange(skip_ws(s, x), skip_ws(s, x) + n))),
            skip_ws(s, x) + n,
        ),
{
    let q = skip_ws(s, x);
    lemma_inert_stays(s, q);
    lemma_inert_tokens(s, x);
    lemma_inert_tokens(s, q);
    lemma_inert_miss(s, q, Pattern::Word(Word::Hsla));
    lemma_inert_miss(s, q, Pattern::Word(Word::Hsl));
    lemma_inert_miss(s, q, Pattern::Word(Word::Rgba));
    lemma_inert_miss(s, q, Pattern::Word(Word::Rgb));
    lemma_inert_miss(s, q, Pattern::Word(Word::Var));
    assert(hsla_model(s, q) == Step::<Option<ColorV>>::Done(None, q)) by {
        reveal(hsla_model);
    }
    assert(hsl_model(s, q) == Step::<Option<ColorV>>::Done(None, q)) by {
        reveal(hsl_model);
    }
    assert(rgb_like_model(s, q, true) == Step::<Option<ColorV>>::Done(None, q)) by {
        reveal(rgb_like_model);
    }
    assert(rgb_like_model(s, q, false) == Step::<Option<ColorV>>::Done(None, q)) by {
        reveal(rgb_like_model);
    }
    assert(var_model(s, q) == Step::<Option<ColorV>>::Done(None, q)) by {
        reveal(var_model);
    }
    lemma_letter_run(s, q, n);
    assert(literal_model(s, q) == Step::Done(Some(ColorV::Literal(s.subrange(q, q + n))), q + n))
        by {
        reveal(literal_model);
        reveal(pattern_model);
    }
    reveal(color_model);
    reveal(color_after_hex_model);
    reveal(color_after_hsla_model);
    reveal(color_after_hsl_model);
    reveal(color_after_rgba_model);
    reveal(color_after_rgb_model);
    assert(token_model(s, x, Pattern::HexColor) == Step::<Option<Seq<char>>>::Done(None, q));
}

/// The two-stop gradient `red, blue` of the given kind.
pub open spec fn red_blue(kind: GradientKind) -> GradientAstV {
    GradientAstV {
        kind,
        orientation: None,
        color_stops: seq![
            ColorStopV { color: ColorV::Literal("red"@), length: None },
            ColorStopV { color: ColorV::Literal("blue"@), length: None },
        ],
    }
}

/// The characters of `(red, blue)` at `l`, ending the text.
pub open spec fn red_blue_at(s: Seq<char>, l: int) -> bool {
    &&& 0 <= l
    &&& s.len() == l + 11
    &&& s[l] == '(' && s[l + 1] == 'r' && s[l + 2] == 'e' && s[l + 3] == 'd'
    &&& s[l + 4] == ',' && s[l + 5] == ' ' && s[l + 6] == 'b' && s[l + 7] == 'l'
    &&& s[l + 8] == 'u' && s[l + 9] == 'e' && s[l + 10] == ')'
}

/// After the `(` of `(red, blue)`: no orientation, the two stops, and the
/// `)` that ends the text.
proof fn lemma_red_blue_body(s: Seq<char>, l: int, g: GradientAstV)
    requires
        ascii_text(s),
        red_blue_at(s, l),
    ensures
        linear_orientation_model(s, l + 1) == Step::<Option<super::ast::GradientOrientationV>>::Done(
            None,
            l + 1,
        ),
        radial_list_model(s, l + 1) == Step::<Option<super::ast::GradientOrientationV>>::Done(
            None,
            l + 1,
        ),
        stops_model(s, l + 1) == Step::Done(red_blue(g.kind).color_stops, l + 10),
        call_close_model(s, l + 10) == Step::Done((), l + 11),
        definitions_rest_model(s, l + 11, seq![g]) == Step::Done(seq![g], l + 11),
{
    reveal_strlit("red");
    reveal_strlit("blue");
    assert(skip_ws(s, l + 1) == l + 1);
    lemma_inert_orientations(s, l + 1);
    assert(skip_ws(s, l + 4) == l + 4);
    assert(s.subrange(l + 1, l + 4) =~= "red"@);
    lemma_named_color(s, l + 1, 3);
    lemma_inert_distance(s, l + 4);
    let red = ColorStopV { color: ColorV::Literal("red"@), length: None };
    assert(color_stop_model(s, l + 1) == Step::Done(Some(red), l + 4)) by {
        reveal(color_stop_model);
    }
    assert(skip_ws(s, l + 6) == l + 6);
    assert(skip_ws(s, l + 5) == l + 6);
    assert(skip_ws(s, l + 10) == l + 10);
    assert(s.subrange(l + 6, l + 10) =~= "blue"@);
    lemma_named_color(s, l + 5, 4);
    lemma_inert_distance(s, l + 10);
    let blue = ColorStopV { color: ColorV::Literal("blue"@), length: None };
    assert(color_stop_model(s, l + 5) == Step::Done(Some(blue), l + 10)) by {
        reveal(color_stop_model);
    }
    assert(stops_rest_model(s, l + 10, seq![red, blue]) == Step::Done(seq![red, blue], l + 10)) by {
        reveal_with_fuel(stops_rest_model, 1);
    }
    assert(seq![red].push(blue) =~= seq![red, blue]);
    assert(stops_rest_model(s, l + 4, seq![red]) == Step::Done(seq![red, blue], l + 10)) by {
        reveal_with_fuel(stops_rest_model, 1);
    }
    assert(stops_model(s, l + 1) == Step::Done(seq![red, blue], l + 10)) by {
        reveal(stops_model);
    }
    assert(skip_ws(s, l + 11) == l + 11);
    assert(definitions_rest_model(s, l + 11, seq![g]) == Step::Done(seq![g], l + 11)) by {
        reveal_with_fuel(definitions_rest_model, 1);
    }
}

/// A name spelled as `vendor` and the name of `kind`, in any ASCII case,
/// followed by `(red, blue)`: an ASCII text that is read whole, and whose
/// name is read as `kind`'s.
proof fn lemma_spelled_text(name: Seq<char>, vendor: Seq<char>, kind: GradientKind)
    requires
        vendor_prefix(vendor),
        name.len() == vendor.len() + kind_name(kind).len(),
        ci_matches(name, 0, vendor + kind_name(kind)),
    ensures
        ascii_text(name + "(red, blue)"@),
        red_blue_at(name + "(red, blue)"@, name.len() as int),
        ci_matches(name + "(red, blue)"@, 0, vendor + kind_name(kind)),
        gradient_source(name + "(red, blue)"@) == name + "(red, blue)"@,
        skip_ws(name + "(red, blue)"@, 0) == 0,
        !cuts_char(name + "(red, blue)"@, vendor.len() as int, 25),
{
    reveal_strlit("(red, blue)");
    reveal_strlit("");
    reveal_strlit("-webkit-");
    reveal_strlit("-o-");
    reveal_strlit("-ms-");
    reveal_strlit("-moz-");
    reveal_strlit("linear-gradient");
    reveal_strlit("repeating-linear-gradient");
    reveal_strlit("radial-gradient");
    reveal_strlit("repeating-radial-gradient");
    let t = "(red, blue)"@;
    let s = name + t;
    let l = name.len() as int;
    let w = vendor + kind_name(kind);
    assert forall|i: int| 0 <= i < 11 implies s[l + i] == #[trigger] t[i] by {}
    assert(red_blue_at(s, l));
    assert forall|i: int| 0 <= i < w.len() implies (#[trigger] w[i] as u32) < 0x80 by {
        if i < vendor.len() {
            assert(w[i] == vendor[i]);
        } else {
            assert(w[i] == kind_name(kind)[i - vendor.len()]);
        }
    }
    assert forall|i: int| 0 <= i < s.len() implies (#[trigger] s[i] as u32) < 0x80 by {
        if i < l {
            assert(s[i] == name[i]);
            assert(lower_code(name[0 + i]) == lower_code(w[i]));
        } else {
            assert(s[i] == t[i - l]);
        }
    }
    assert forall|i: int| 0 <= i < w.len() implies lower_code(s[0 + i]) == lower_code(w[i]) by {
        assert(s[i] == name[i]);
        assert(lower_code(name[0 + i]) == lower_code(w[i]));
    }
    assert(lower_code(s[0]) == lower_code(w[0]));
    assert(!is_ws(s[0]));
    assert(is_trimmed(s));
    lemma_trim_padded(Seq::empty(), s, Seq::empty());
    assert(Seq::<char>::empty() + s + Seq::<char>::empty() =~= s);
    lemma_ascii_no_cut(s, vendor.len() as int, 25);
}

/// However a gradient's name is spelled, in any ASCII case and after any
/// vendor prefix (`-webkit-`, `-moz-`, `-o-`, `-ms-`), `name(red, blue)` is
/// read as one gradient of that kind, with no orientation and the two stops
/// `red` and `blue`.
pub proof fn spellings_of_a_name_read_alike(name: Seq<char>, vendor: Seq<char>, kind: GradientKind)
    requires
        vendor_prefix(vendor),
        name.len() == vendor.len() + kind_name(kind).len(),
        ci_matches(name, 0, vendor + kind_name(kind)),
    ensures
        parse_gradient_model(name + "(red, blue)"@) == Step::Done(
            seq![red_blue(kind)],
            (name.len() + 11) as int,
        ),
{
    let s = name + "(red, blue)"@;
    let l = name.len() as int;
    lemma_spelled_text(name, vendor, kind);
    gradient_names_ignore_case_and_vendor(s, 0, vendor, kind);
    lemma_name_scan(s, 0, vendor, kind, kind);
    assert(call_open_model(s, 0, Pattern::Gradient(kind)) == Step::Done(true, l + 1)) by {
        reveal(pattern_model);
        assert(skip_ws(s, l) == l);
    }
    lemma_red_blue_body(s, l, red_blue(kind));
    assert(gradient_model(s, 0, kind) == Step::Done(Some(red_blue(kind)), l + 11)) by {
        reveal(gradient_model);
    }
    assert(definitions_model(s, 0) == Step::Done(seq![red_blue(kind)], l + 11)) by {
        reveal(definitions_model);
    }
    reveal(source_model);
}

/// A background layer that calls a gradient, however its name is spelled (any
/// ASCII case, any vendor prefix), is read as that gradient, never kept as a
/// color: `name(red, blue)` gives the one gradient of that kind with the stops
/// `red` and `blue`.
pub proof fn gradient_layers_are_read_as_gradients(name: Seq<char>, vendor: Seq<char>, kind: GradientKind)
    requires
        vendor_prefix(vendor),
        name.len() == vendor.len() + kind_name(kind).len(),
        ci_matches(name, 0, vendor + kind_name(kind)),
    ensures
        segment_layers(name + "(red, blue)"@) == seq![BackgroundLayerV::Gradient(red_blue(kind))],
{
    let s = name + "(red, blue)"@;
    lemma_spelled_text(name, vendor, kind);
    spellings_of_a_name_read_alike(name, vendor, kind);
    let l = GradientKind::Linear;
    let rl = GradientKind::RepeatingLinear;
    let r = GradientKind::Radial;
    let rr = GradientKind::RepeatingRadial;
    lemma_name_scan(s, 0, vendor, kind, kind);
    if kind != l {
        lemma_name_scan(s, 0, vendor, kind, l);
        if kind != rl {
            lemma_name_scan(s, 0, vendor, kind, rl);
            if kind != r {
                lemma_name_scan(s, 0, vendor, kind, r);
            }
        }
    }
    reveal_strlit("linear-gradient");
    reveal_strlit("repeating-linear-gradient");
    reveal_strlit("radial-gradient");
    reveal_strlit("repeating-radial-gradient");
    assert(gradient_layer_test(s) is Hit);
    assert(s.len() > 0);
    assert(s.last() == ')');
    assert(trim_ws(s) == gradient_source(s));
    let list = seq![red_blue(kind)];
    assert(list.map_values(|g: GradientAstV| BackgroundLayerV::Gradient(g)) =~= seq![
        BackgroundLayerV::Gradient(red_blue(kind)),
    ]);
}

/// The four sides that `to ` may name.
pub open spec fn side_word(i: int) -> Seq<char> {
    if i == 0 {
        "left"@
    } else if i == 1 {
        "right"@
    } else if i == 2 {
        "top"@
    } else {
        "bottom"@
    }
}

/// `red, blue)` from `r`, ending the text.
pub open spec fn red_blue_tail(s: Seq<char>, r: int) -> bool {
    &&& 0 <= r
    &&& s.len() == r + 10
    &&& s[r] == 'r' && s[r + 1] == 'e' && s[r + 2] == 'd' && s[r + 3] == ','
    &&& s[r + 4] == ' ' && s[r + 5] == 'b' && s[r + 6] == 'l' && s[r + 7] == 'u'
    &&& s[r + 8] == 'e' && s[r + 9] == ')'
}

/// From `x`, whitespace then `red, blue)`: the two stops, the `)`, and the end.
proof fn lemma_red_blue_tail(s: Seq<char>, x: int, r: int, g: GradientAstV)
    requires
        ascii_text(s),
        red_blue_tail(s, r),
        0 <= x <= r,
        skip_ws(s, x) == r,
    ensures
        stops_model(s, x) == Step::Done(red_blue(g.kind).color_stops, r + 9),
        call_close_model(s, r + 9) == Step::Done((), r + 10),
        definitions_rest_model(s, r + 10, seq![g]) == Step::Done(seq![g], r + 10),
{
    reveal_strlit("red");
    reveal_strlit("blue");
    assert(skip_ws(s, r + 3) == r + 3);
    assert(s.subrange(r, r + 3) =~= "red"@);
    lemma_named_color(s, x, 3);
    lemma_inert_distance(s, r + 3);
    let red = ColorStopV { color: ColorV::Literal("red"@), length: None };
    assert(color_stop_model(s, x) == Step::Done(Some(red), r + 3)) by {
        reveal(color_stop_model);
    }
    assert(skip_ws(s, r + 5) == r + 5);
    assert(skip_ws(s, r + 4) == r + 5);
    assert(skip_ws(s, r + 9) == r + 9);
    assert(s.subrange(r + 5, r + 9) =~= "blue"@);
    lemma_named_color(s, r + 4, 4);
    lemma_inert_distance(s, r + 9);
    let blue = ColorStopV { color: ColorV::Literal("blue"@), length: None };
    assert(color_stop_model(s, r + 4) == Step::Done(Some(blue), r + 9)) by {
        reveal(color_stop_model);
    }
    assert(stops_rest_model(s, r + 9, seq![red, blue]) == Step::Done(seq![red, blue], r + 9)) by {
        reveal_with_fuel(stops_rest_model, 1);
    }
    assert(seq![red].push(blue) =~= seq![red, blue]);
    assert(stops_rest_model(s, r + 3, seq![red]) == Step::Done(seq![red, blue], r + 9)) by {
        reveal_with_fuel(stops_rest_model, 1);
    }
    assert(stops_model(s, x) == Step::Done(seq![red, blue], r + 9)) by {
        reveal(stops_model);
    }
    assert(skip_ws(s, r + 10) == r + 10);
    assert(definitions_rest_model(s, r + 10, seq![g]) == Step::Done(seq![g], r + 10)) by {
        reveal_with_fuel(definitions_rest_model, 1);
    }
}

/// After `to `, at `q`, a side word `w` (of side `i`) followed by `,`: read as
/// that side, the capture being `w`.
proof fn lemma_side_scan(s: Seq<char>, p: int, i: int, w: Seq<char>)
    requires
        ascii_text(s),
        0 <= i < 4,
        0 <= p,
        p + 3 + w.len() < s.len(),
        w.len() == side_word(i).len(),
        ci_matches(w, 0, side_word(i)),
        s.subrange(p + 3, p + 3 + w.len()) == w,
        ci_matches(s, p, "to "@),
        s[p + 3 + w.len()] == ',',
    ensures
        side_or_corner_model(s, p) == Scan::Hit(3 + w.len() as int, 3, 3 + w.len() as int),
{
    reveal_strlit("to ");
    reveal_strlit("left");
    reveal_strlit("right");
    reveal_strlit("top");
    reveal_strlit("bottom");
    reveal_strlit(" top");
    reveal_strlit(" bottom");
    reveal_strlit(" left");
    reveal_strlit(" right");
    let q = p + 3;
    let n = w.len() as int;
    assert forall|a: int, b: int| !cuts_char(s, a, b) by {
        lemma_ascii_no_cut(s, a, b);
    }
    assert(ci_matches(s, q, side_word(i))) by {
        assert forall|k: int| 0 <= k < side_word(i).len() implies lower_code(s[q + k]) == lower_code(side_word(i)[k]) by {
            assert(s[q + k] == w[k]);
            assert(lower_code(w[0 + k]) == lower_code(side_word(i)[k]));
        }
    }
    assert(lower_code(s[q]) == lower_code(side_word(i)[0]));
    // The other sides differ in their first letter.
    assert forall|j: int| 0 <= j < 4 && j != i implies !ci_matches(s, q, #[trigger] side_word(j)) by {
        if ci_matches(s, q, side_word(j)) {
            assert(lower_code(s[q + 0]) == lower_code(side_word(j)[0]));
        }
    }
    // After the side comes `,`, so no corner follows it.
    assert forall|second: Seq<char>| second.len() > 0 && second[0] == ' ' implies !ci_matches(s, q + n, second) by {
        if ci_matches(s, q + n, second) {
            assert(lower_code(s[q + n + 0]) == lower_code(second[0]));
        }
    }
    assert(" top"@[0] == ' ' && " bottom"@[0] == ' ' && " left"@[0] == ' ' && " right"@[0] == ' ');
    assert(ci_prefix_model(s, q, side_word(i)) == Scan::Hit(n, 0, n));
    assert(side_word(0) == "left"@ && side_word(1) == "right"@ && side_word(2) == "top"@ && side_word(3) == "bottom"@);
    assert(!ci_matches(s, q + n, " top"@));
    assert(!ci_matches(s, q + n, " bottom"@));
    assert(!ci_matches(s, q + n, " left"@));
    assert(!ci_matches(s, q + n, " right"@));
    assert(corner_model(s, q, "left"@, " top"@, " bottom"@) == Scan::Miss);
    assert(corner_model(s, q, "right"@, " top"@, " bottom"@) == Scan::Miss);
    assert(corner_model(s, q, "top"@, " left"@, " right"@) == Scan::Miss);
    assert(corner_model(s, q, "bottom"@, " left"@, " right"@) == Scan::Miss);
}

/// The text `linear-gradient(to w, red, blue)`.
pub open spec fn directed_text(w: Seq<char>) -> Seq<char> {
    "linear-gradient(to "@ + w + ", red, blue)"@
}

/// Where `to w` is read as a direction capturing `w` (an ASCII text), the
/// gradient is directed to `w`, with the stops `red` and `blue`.
proof fn lemma_directed_parse(w: Seq<char>)
    requires
        forall|k: int| 0 <= k < w.len() ==> (#[trigger] w[k] as u32) < 0x80,
        w.len() > 0,
        side_or_corner_model(directed_text(w), 16) == Scan::Hit(3 + w.len() as int, 3, 3 + w.len() as int),
    ensures
        parse_gradient_model("linear-gradient(to "@ + w + ", red, blue)"@) == Step::Done(
            seq![
                GradientAstV {
                    kind: GradientKind::Linear,
                    orientation: Some(
                        super::ast::GradientOrientationV::Linear(
                            super::ast::LinearOrientationV::Directional(w),
                        ),
                    ),
                    color_stops: red_blue(GradientKind::Linear).color_stops,
                },
            ],
            (w.len() + 31) as int,
        ),
{
    reveal_strlit("linear-gradient(to ");
    reveal_strlit(", red, blue)");
    reveal_strlit("linear-gradient");
    reveal_strlit("");
    reveal_strlit("to ");
    reveal_strlit("left");
    reveal_strlit("right");
    reveal_strlit("top");
    reveal_strlit("bottom");
    let head = "linear-gradient(to "@;
    let tail = ", red, blue)"@;
    let s = head + w + tail;
    let n = w.len() as int;
    assert(s.len() == 19 + n + 12);
    assert forall|k: int| 0 <= k < 19 implies s[k] == #[trigger] head[k] by {}
    assert forall|k: int| 0 <= k < n implies s[19 + k] == #[trigger] w[k] by {}
    assert forall|k: int| 0 <= k < 12 implies s[19 + n + k] == #[trigger] tail[k] by {}
    assert(ascii_text(s)) by {
        assert forall|k: int| 0 <= k < s.len() implies (#[trigger] s[k] as u32) < 0x80 by {
            if k < 19 {
                assert(s[k] == head[k]);
            } else if k < 19 + n {
                assert(s[k] == w[k - 19]);
            } else {
                assert(s[k] == tail[k - 19 - n]);
            }
        }
    }
    // The whole text is read.
    assert(!is_ws(s[0]));
    assert(s.last() == ')');
    assert(is_trimmed(s));
    lemma_trim_padded(Seq::empty(), s, Seq::empty());
    assert(Seq::<char>::empty() + s + Seq::<char>::empty() =~= s);
    assert(gradient_source(s) == s);
    assert(skip_ws(s, 0) == 0);
    // The name and `(`.
    let v = ""@;
    assert(v + kind_name(GradientKind::Linear) =~= "linear-gradient"@);
    assert(ci_matches(s, 0, v + kind_name(GradientKind::Linear)));
    lemma_name_scan(s, 0, v, GradientKind::Linear, GradientKind::Linear);
    assert(skip_ws(s, 15) == 15);
    assert(call_open_model(s, 0, Pattern::Gradient(GradientKind::Linear)) == Step::Done(true, 16)) by {
        reveal(pattern_model);
    }
    // `to w`.
    assert(skip_ws(s, 16) == 16);
    assert(s.subrange(19, 19 + n) =~= w);
    assert(s == directed_text(w));
    assert(linear_orientation(s, 16) == Step::Done(
        Some(super::ast::GradientOrientationV::Linear(super::ast::LinearOrientationV::Directional(w))),
        19 + n,
    )) by {
        reveal(linear_orientation_model);
        reveal(pattern_model);
    }
    // `,` then the stops.
    assert(skip_ws(s, 19 + n) == 19 + n);
    assert(char_step(s, 19 + n, ',') == (true, 20 + n));
    assert(red_blue_tail(s, 21 + n));
    assert(skip_ws(s, 21 + n) == 21 + n);
    assert(skip_ws(s, 20 + n) == 21 + n);
    let g = GradientAstV {
        kind: GradientKind::Linear,
        orientation: Some(
            super::ast::GradientOrientationV::Linear(super::ast::LinearOrientationV::Directional(w)),
        ),
        color_stops: red_blue(GradientKind::Linear).color_stops,
    };
    lemma_red_blue_tail(s, 20 + n, 21 + n, g);
    assert(gradient_model(s, 0, GradientKind::Linear) == Step::Done(Some(g), 31 + n)) by {
        reveal(gradient_model);
    }
    assert(definition_model(s, 0) == Step::Done(Some(g), 31 + n)) by {
        reveal(definition_model);
    }
    assert(definitions_model(s, 0) == Step::Done(seq![g], 31 + n)) by {
        reveal(definitions_model);
    }
    reveal(source_model);
}

/// `to` and a side word (in any ASCII case) orient a linear gradient toward
/// that side: `linear-gradient(to w, red, blue)` is read as one linear
/// gradient directed to `w`, with the stops `red` and `blue`.
pub proof fn sides_orient_linear_gradients(i: int, w: Seq<char>)
    requires
        0 <= i < 4,
        w.len() == side_word(i).len(),
        ci_matches(w, 0, side_word(i)),
    ensures
        parse_gradient_model("linear-gradient(to "@ + w + ", red, blue)"@) == Step::Done(
            seq![
                GradientAstV {
                    kind: GradientKind::Linear,
                    orientation: Some(
                        super::ast::GradientOrientationV::Linear(
                            super::ast::LinearOrientationV::Directional(w),
                        ),
                    ),
                    color_stops: red_blue(GradientKind::Linear).color_stops,
                },
            ],
            (w.len() + 31) as int,
        ),
{
    reveal_strlit("linear-gradient(to ");
    reveal_strlit(", red, blue)");
    reveal_strlit("to ");
    reveal_strlit("left");
    reveal_strlit("right");
    reveal_strlit("top");
    reveal_strlit("bottom");
    let s = directed_text(w);
    let n = w.len() as int;
    assert forall|k: int| 0 <= k < n implies (#[trigger] w[k] as u32) < 0x80 by {
        assert(lower_code(w[0 + k]) == lower_code(side_word(i)[k]));
    }
    assert forall|k: int| 0 <= k < n implies s[19 + k] == #[trigger] w[k] by {}
    assert(ascii_text(s)) by {
        assert forall|k: int| 0 <= k < s.len() implies (#[trigger] s[k] as u32) < 0x80 by {
            if 19 <= k < 19 + n {
                assert(s[k] == w[k - 19]);
            }
        }
    }
    assert(s.subrange(19, 19 + n) =~= w);
    assert(ci_matches(s, 16, "to "@));
    lemma_side_scan(s, 16, i, w);
    lemma_directed_parse(w);
}

/// The corners that `to` may name: a horizontal side then a vertical one, or
/// a vertical side then a horizontal one.
pub open spec fn corner_pair(i: int, j: int) -> bool {
    ||| 0 <= i < 2 && 2 <= j < 4
    ||| 2 <= i < 4 && 0 <= j < 2
}

/// After `to `, at `q`, a corner `w1 w2` (sides `i` and `j`) followed by `,`:
/// read as that corner, the capture being `w1 w2`.
proof fn lemma_corner_scan(s: Seq<char>, p: int, i: int, j: int, w1: Seq<char>, w2: Seq<char>)
    requires
        ascii_text(s),
        corner_pair(i, j),
        0 <= p,
        w1.len() == side_word(i).len(),
        ci_matches(w1, 0, side_word(i)),
        w2.len() == side_word(j).len(),
        ci_matches(w2, 0, side_word(j)),
        p + 3 + w1.len() + 1 + w2.len() < s.len(),
        s.subrange(p + 3, p + 3 + w1.len() + 1 + w2.len()) == w1 + seq![' '] + w2,
        ci_matches(s, p, "to "@),
        s[p + 3 + w1.len() + 1 + w2.len()] == ',',
    ensures
        side_or_corner_model(s, p) == Scan::Hit(
            3 + w1.len() as int + 1 + w2.len() as int,
            3,
            3 + w1.len() as int + 1 + w2.len() as int,
        ),
{
    reveal_strlit("to ");
    reveal_strlit("left");
    reveal_strlit("right");
    reveal_strlit("top");
    reveal_strlit("bottom");
    reveal_strlit(" top");
    reveal_strlit(" bottom");
    reveal_strlit(" left");
    reveal_strlit(" right");
    let q = p + 3;
    let n1 = w1.len() as int;
    let n2 = w2.len() as int;
    let body = w1 + seq![' '] + w2;
    assert forall|a: int, b: int| !cuts_char(s, a, b) by {
        lemma_ascii_no_cut(s, a, b);
    }
    assert forall|k: int| 0 <= k < body.len() implies s[q + k] == #[trigger] body[k] by {
        assert(s.subrange(q, q + n1 + 1 + n2)[k] == body[k]);
    }
    assert(ci_matches(s, q, side_word(i))) by {
        assert forall|k: int| 0 <= k < side_word(i).len() implies lower_code(s[q + k]) == lower_code(side_word(i)[k]) by {
            assert(body[k] == w1[k]);
            assert(lower_code(w1[0 + k]) == lower_code(side_word(i)[k]));
        }
    }
    assert(lower_code(s[q]) == lower_code(side_word(i)[0]));
    assert forall|m: int| 0 <= m < 4 && m != i implies !ci_matches(s, q, #[trigger] side_word(m)) by {
        if ci_matches(s, q, side_word(m)) {
            assert(lower_code(s[q + 0]) == lower_code(side_word(m)[0]));
        }
    }
    let r = q + n1;
    assert(body[n1] == ' ');
    assert(s[r] == ' ');
    assert(ci_matches(s, r, seq![' '] + side_word(j))) by {
        assert forall|k: int| 0 <= k < 1 + side_word(j).len() implies lower_code(s[r + k]) == lower_code((seq![' '] + side_word(j))[k]) by {
            if k > 0 {
                assert(body[n1 + k] == w2[k - 1]);
                assert(lower_code(w2[0 + (k - 1)]) == lower_code(side_word(j)[k - 1]));
            }
        }
    }
    assert(lower_code(s[r + 1]) == lower_code(side_word(j)[0])) by {
        assert(body[n1 + 1] == w2[0]);
        assert(lower_code(w2[0int + 0int]) == lower_code(side_word(j)[0]));
    }
    assert forall|m: int| 0 <= m < 4 && m != j implies !ci_matches(s, r, seq![' '] + #[trigger] side_word(m)) by {
        if ci_matches(s, r, seq![' '] + side_word(m)) {
            assert(lower_code(s[r + 1]) == lower_code((seq![' '] + side_word(m))[1]));
        }
    }
    assert(" top"@ =~= seq![' '] + side_word(2));
    assert(" bottom"@ =~= seq![' '] + side_word(3));
    assert(" left"@ =~= seq![' '] + side_word(0));
    assert(" right"@ =~= seq![' '] + side_word(1));
    assert(side_word(0) == "left"@ && side_word(1) == "right"@ && side_word(2) == "top"@ && side_word(3) == "bottom"@);
}

/// `to` and a corner (in any ASCII case) orient a linear gradient toward that
/// corner: `linear-gradient(to w1 w2, red, blue)` is read as one linear
/// gradient directed to `w1 w2`, with the stops `red` and `blue`.
pub proof fn corners_orient_linear_gradients(i: int, j: int, w1: Seq<char>, w2: Seq<char>)
    requires
        corner_pair(i, j),
        w1.len() == side_word(i).len(),
        ci_matches(w1, 0, side_word(i)),
        w2.len() == side_word(j).len(),
        ci_matches(w2, 0, side_word(j)),
    ensures
        parse_gradient_model("linear-gradient(to "@ + (w1 + seq![' '] + w2) + ", red, blue)"@) == Step::Done(
            seq![
                GradientAstV {
                    kind: GradientKind::Linear,
                    orientation: Some(
                        super::ast::GradientOrientationV::Linear(
                            super::ast::LinearOrientationV::Directional(w1 + seq![' '] + w2),
                        ),
                    ),
                    color_stops: red_blue(GradientKind::Linear).color_stops,
                },
            ],
            (w1.len() + w2.len() + 32) as int,
        ),
{
    reveal_strlit("linear-gradient(to ");
    reveal_strlit(", red, blue)");
    reveal_strlit("to ");
    reveal_strlit("left");
    reveal_strlit("right");
    reveal_strlit("top");
    reveal_strlit("bottom");
    let w = w1 + seq![' '] + w2;
    let s = directed_text(w);
    let n = w.len() as int;
    let n1 = w1.len() as int;
    assert forall|k: int| 0 <= k < n implies (#[trigger] w[k] as u32) < 0x80 by {
        if k < n1 {
            assert(w[k] == w1[k]);
            assert(lower_code(w1[0 + k]) == lower_code(side_word(i)[k]));
        } else if k > n1 {
            assert(w[k] == w2[k - n1 - 1]);
            assert(lower_code(w2[0 + (k - n1 - 1)]) == lower_code(side_word(j)[k - n1 - 1]));
        }
    }
    assert forall|k: int| 0 <= k < n implies s[19 + k] == #[trigger] w[k] by {}
    assert(ascii_text(s)) by {
        assert forall|k: int| 0 <= k < s.len() implies (#[trigger] s[k] as u32) < 0x80 by {
            if 19 <= k < 19 + n {
                assert(s[k] == w[k - 19]);
            }
        }
    }
    assert(s.subrange(19, 19 + n) =~= w);
    assert(ci_matches(s, 16, "to "@));
    lemma_corner_scan(s, 16, i, j, w1, w2);
    lemma_directed_parse(w);
}

} // verus!
