//! What holds of every gradient that the parser accepts.

use vstd::prelude::*;
use super::ast::{
    kind_is_linear, kind_name, ColorStopV, GradientAstV, GradientKind, GradientOrientationV,
};
use super::model::{
    call_open_model, color_stop_model, definition_model, definitions_model,
    definitions_rest_model, gradient_model, linear_orientation_model, pattern_model,
    radial_list_model, source_model, stops_model, stops_rest_model, Pattern, Step,
};
use super::scan::{
    ci_matches, ci_prefix_model, cuts_char, gradient_prefix_model, lower_code, utf8_width, Scan,
};
use vstd::string::*;
use crate::chars::{all_ws, is_trimmed, is_ws, lemma_skip_ws_bounds, lemma_trim_padded, skip_ws};
use super::parser::parse_gradient_model;


verus! {

/// A gradient has at least one color stop, and its orientation (if any) fits
/// its kind: a linear one for a linear gradient, one or two radial ones for a
/// radial gradient.
pub open spec fn well_shaped(g: GradientAstV) -> bool {
    &&& g.color_stops.len() >= 1
    &&& match g.orientation {
        None => true,
        Some(GradientOrientationV::Linear(_)) => kind_is_linear(g.kind),
        Some(GradientOrientationV::Radial(list)) => !kind_is_linear(g.kind) && 1 <= list.len() <= 2,
    }
}

proof fn lemma_color_stop_present(s: Seq<char>, p: int)
    ensures
        color_stop_model(s, p) matches Step::Done(v, _) ==> v is Some,
{
    reveal(color_stop_model);
}

proof fn lemma_stops_rest_grow(s: Seq<char>, p: int, acc: Seq<ColorStopV>)
    ensures
        stops_rest_model(s, p, acc) matches Step::Done(v, _) ==> v.len() >= acc.len(),
    decreases s.len() - p,
{
    reveal_with_fuel(stops_rest_model, 1);
    let (comma, q) = super::model::char_model(s, p, ',');
    if comma {
        match color_stop_model(s, q) {
            Step::Done(Some(stop), q2) => {
                if p < q2 <= s.len() {
                    lemma_stops_rest_grow(s, q2, acc.push(stop));
                }
            },
            _ => {},
        }
    }
}

proof fn lemma_stops_nonempty(s: Seq<char>, p: int)
    ensures
        stops_model(s, p) matches Step::Done(v, _) ==> v.len() >= 1,
{
    reveal(stops_model);
    lemma_color_stop_present(s, p);
    match color_stop_model(s, p) {
        Step::Done(Some(first), q) => lemma_stops_rest_grow(s, q, seq![first]),
        _ => {},
    }
}

proof fn lemma_linear_orientation(s: Seq<char>, p: int)
    ensures
        linear_orientation_model(s, p) matches Step::Done(Some(o), _) ==> o is Linear,
{
    reveal(linear_orientation_model);
}

proof fn lemma_radial_list(s: Seq<char>, p: int)
    ensures
        radial_list_model(s, p) matches Step::Done(Some(o), _) ==> (o matches GradientOrientationV::Radial(list) && 1 <= list.len() <= 2),
{
    reveal(radial_list_model);
}

proof fn lemma_gradient_shape(s: Seq<char>, p: int, kind: GradientKind)
    ensures
        gradient_model(s, p, kind) matches Step::Done(Some(g), _) ==> g.kind == kind && well_shaped(g),
{
    reveal(gradient_model);
    lemma_linear_orientation(s, p);
    let q = super::model::call_open_model(s, p, super::model::Pattern::Gradient(kind));
    match q {
        Step::Done(true, q1) => {
            lemma_linear_orientation(s, q1);
            lemma_radial_list(s, q1);
            let orientation = if kind_is_linear(kind) {
                linear_orientation_model(s, q1)
            } else {
                radial_list_model(s, q1)
            };
            match orientation {
                Step::Done(o, q2) => {
                    let (comma, q3) = super::model::char_model(s, q2, ',');
                    let q4 = if o is Some {
                        q3
                    } else {
                        q2
                    };
                    lemma_stops_nonempty(s, q4);
                },
                _ => {},
            }
        },
        _ => {},
    }
}

proof fn lemma_definition_shape(s: Seq<char>, p: int)
    ensures
        definition_model(s, p) matches Step::Done(Some(g), _) ==> well_shaped(g),
{
    reveal(definition_model);
    lemma_gradient_shape(s, p, GradientKind::Linear);
    match gradient_model(s, p, GradientKind::Linear) {
        Step::Done(None, q) => {
            lemma_gradient_shape(s, q, GradientKind::RepeatingLinear);
            match gradient_model(s, q, GradientKind::RepeatingLinear) {
                Step::Done(None, q2) => {
                    lemma_gradient_shape(s, q2, GradientKind::Radial);
                    match gradient_model(s, q2, GradientKind::Radial) {
                        Step::Done(None, q3) => {
                            lemma_gradient_shape(s, q3, GradientKind::RepeatingRadial);
                        },
                        _ => {},
                    }
                },
                _ => {},
            }
        },
        _ => {},
    }
}

proof fn lemma_definitions_rest_shape(s: Seq<char>, p: int, acc: Seq<GradientAstV>)
    requires
        forall|i: int| 0 <= i < acc.len() ==> well_shaped(#[trigger] acc[i]),
    ensures
        definitions_rest_model(s, p, acc) matches Step::Done(v, _) ==> forall|i: int|
            0 <= i < v.len() ==> well_shaped(#[trigger] v[i]),
    decreases s.len() - p,
{
    reveal_with_fuel(definitions_rest_model, 1);
    let (comma, q) = super::model::char_model(s, p, ',');
    if comma {
        lemma_definition_shape(s, q);
        match definition_model(s, q) {
            Step::Done(Some(g), q2) => {
                let next = acc.push(g);
                assert forall|i: int| 0 <= i < next.len() implies well_shaped(#[trigger] next[i]) by {
                    if i < acc.len() {
                        assert(next[i] == acc[i]);
                    }
                }
                if p < q2 <= s.len() {
                    lemma_definitions_rest_shape(s, q2, next);
                }
            },
            _ => {},
        }
    }
}

/// Every gradient that `parse_gradient` returns has at least one color stop,
/// and an orientation that fits its kind: linear for the linear kinds; one or
/// two radial orientations for the radial kinds.
pub proof fn parsed_gradients_are_well_shaped(code: Seq<char>)
    ensures
        parse_gradient_model(code) matches Step::Done(list, _) ==> forall|i: int|
            0 <= i < list.len() ==> well_shaped(#[trigger] list[i]),
{
    reveal(source_model);
    reveal(definitions_model);
    let s = super::parser::gradient_source(code);
    lemma_definition_shape(s, 0);
    match definition_model(s, 0) {
        Step::Done(Some(first), q) => {
            assert(seq![first][0] == first);
            lemma_definitions_rest_shape(s, q, seq![first]);
        },
        _ => {},
    }
}

/// Whitespace around a gradient value, and one `;` after it, do not change
/// what `parse_gradient` reads (errors included: their input is counted from
/// the value itself).
pub proof fn surrounding_whitespace_is_ignored(pre: Seq<char>, value: Seq<char>, post: Seq<char>)
    requires
        all_ws(pre),
        all_ws(post),
        is_trimmed(value),
    ensures
        parse_gradient_model(pre + value + post) == parse_gradient_model(value),
        parse_gradient_model(pre + value + ";"@ + post) == source_model(value),
{
    lemma_trim_padded(pre, value, post);
    lemma_trim_padded(Seq::empty(), value, Seq::empty());
    assert(Seq::<char>::empty() + value + Seq::<char>::empty() =~= value);
    reveal_strlit(";");
    let with_semi = value + ";"@;
    assert(with_semi.last() == ';');
    assert(is_trimmed(with_semi)) by {
        if value.len() > 0 {
            assert(with_semi[0] == value[0]);
        }
    }
    assert(pre + value + ";"@ + post =~= pre + with_semi + post);
    lemma_trim_padded(pre, with_semi, post);
    assert(with_semi.drop_last() =~= value);
}


proof fn lemma_dash(c: char)
    requires
        c as u32 == 45,
    ensures
        c == '-',
{
    assert(c as int == (c as u32) as int);
}

/// The vendor prefixes that may stand before a gradient's name, and none.
pub open spec fn vendor_prefix(v: Seq<char>) -> bool {
    ||| v == ""@
    ||| v == "-webkit-"@
    ||| v == "-o-"@
    ||| v == "-ms-"@
    ||| v == "-moz-"@
}

/// The order in which the kinds are tried.
pub open spec fn kind_rank(k: GradientKind) -> int {
    match k {
        GradientKind::Linear => 0,
        GradientKind::RepeatingLinear => 1,
        GradientKind::Radial => 2,
        GradientKind::RepeatingRadial => 3,
    }
}

proof fn lemma_ascii_run_no_cut(s: Seq<char>, q: int, m: int, n: int)
    requires
        0 <= q,
        q + m <= s.len(),
        n <= m,
        forall|i: int| q <= i < q + m ==> (#[trigger] s[i] as u32) < 0x80,
    ensures
        !cuts_char(s, q, n),
    decreases n,
{
    if n > 0 && q < s.len() {
        assert(utf8_width(s[q]) == 1);
        lemma_ascii_run_no_cut(s, q + 1, m - 1, n - 1);
    }
}

/// Reading the name of kind `j` where a vendor prefix `v` and the name of kind
/// `k` (in any ASCII case) stand: a hit for `k`, a miss for the kinds tried
/// before it.
pub(crate) proof fn lemma_name_scan(s: Seq<char>, q: int, v: Seq<char>, k: GradientKind, j: GradientKind)
    requires
        vendor_prefix(v),
        ci_matches(s, q, v + kind_name(k)),
        j == k || kind_rank(j) < kind_rank(k),
        k == GradientKind::Radial ==> !cuts_char(s, q + v.len(), 25),
    ensures
        gradient_prefix_model(s, q, kind_name(j)) == (if j == k {
            Scan::Hit((v.len() + kind_name(k).len()) as int, 0, (v.len() + kind_name(k).len()) as int)
        } else {
            Scan::Miss
        }),
{
    reveal_strlit("");
    reveal_strlit("-webkit-");
    reveal_strlit("-o-");
    reveal_strlit("-ms-");
    reveal_strlit("-moz-");
    reveal_strlit("linear-gradient");
    reveal_strlit("repeating-linear-gradient");
    reveal_strlit("radial-gradient");
    reveal_strlit("repeating-radial-gradient");
    let w = v + kind_name(k);
    let nk = kind_name(k);
    let nj = kind_name(j);
    let off = v.len() as int;
    assert forall|i: int| 0 <= i < w.len() implies (#[trigger] w[i] as u32) < 0x80 by {
        if i < off {
            assert(w[i] == v[i]);
        } else {
            assert(w[i] == nk[i - off]);
        }
    }
    assert forall|i: int| q <= i < q + w.len() implies (#[trigger] s[i] as u32) < 0x80 by {
        assert(lower_code(s[q + (i - q)]) == lower_code(w[i - q]));
        assert((w[i - q] as u32) < 0x80);
    }
    assert(w.len() >= 15);
    // The vendor prefix.
    assert(lower_code(s[q]) == lower_code(w[0]));
    assert(lower_code(s[q + 1]) == lower_code(w[1]));
    assert(lower_code(s[q + 2]) == lower_code(w[2]));
    lemma_ascii_run_no_cut(s, q, w.len() as int, 8);
    lemma_ascii_run_no_cut(s, q, w.len() as int, 3);
    lemma_ascii_run_no_cut(s, q, w.len() as int, 4);
    lemma_ascii_run_no_cut(s, q, w.len() as int, 5);
    assert(ci_matches(s, q, v)) by {
        assert forall|i: int| 0 <= i < v.len() implies lower_code(s[q + i]) == lower_code(v[i]) by {
            assert(w[i] == v[i]);
        }
    }
    if v.len() > 0 {
        assert(v[0] == '-');
        assert(s[q] as u32 == 45);
        lemma_dash(s[q]);
        assert(s[q] == '-');
        assert(ci_prefix_model(s, q, v) == Scan::Hit(v.len() as int, 0, v.len() as int));
        if v != "-webkit-"@ {
            assert(!ci_matches(s, q, "-webkit-"@)) by {
                if ci_matches(s, q, "-webkit-"@) {
                    assert(lower_code(s[q + 1]) == lower_code("-webkit-"@[1]));
                }
            }
            assert(ci_prefix_model(s, q, "-webkit-"@) == Scan::Miss);
            if v != "-o-"@ {
                assert(!ci_matches(s, q, "-o-"@)) by {
                    if ci_matches(s, q, "-o-"@) {
                        assert(lower_code(s[q + 1]) == lower_code("-o-"@[1]));
                    }
                }
                assert(ci_prefix_model(s, q, "-o-"@) == Scan::Miss);
                if v != "-ms-"@ {
                    assert(!ci_matches(s, q, "-ms-"@)) by {
                        if ci_matches(s, q, "-ms-"@) {
                            assert(lower_code(s[q + 2]) == lower_code("-ms-"@[2]));
                        }
                    }
                    assert(ci_prefix_model(s, q, "-ms-"@) == Scan::Miss);
                }
            }
        }
    } else {
        assert(s[q] != '-');
    }
    // The name.
    let qn = q + off;
    assert(ci_matches(s, qn, nk)) by {
        assert forall|i: int| 0 <= i < nk.len() implies lower_code(s[qn + i]) == lower_code(nk[i]) by {
            assert(w[off + i] == nk[i]);
            assert(lower_code(s[q + (off + i)]) == lower_code(w[off + i]));
        }
    }
    assert(lower_code(s[qn]) == lower_code(nk[0]));
    assert(lower_code(s[qn + 1]) == lower_code(nk[1]));
    if j != k {
        // The two names differ at `d`, within both.
        let d: int = match (j, k) {
            (GradientKind::Linear, _) => 0,
            (GradientKind::RepeatingLinear, GradientKind::RepeatingRadial) => 10,
            (_, _) => 1,
        };
        assert(d < 15 && lower_code(nj[d]) != lower_code(nk[d])) by {
            match (j, k) {
                (GradientKind::Linear, _) => assert(nj[0] == 'l' && nk[0] == 'r'),
                (GradientKind::RepeatingLinear, GradientKind::RepeatingRadial) => assert(
                    nj[10] == 'l' && nk[10] == 'r'
                ),
                (GradientKind::RepeatingLinear, _) => assert(nj[1] == 'e' && nk[1] == 'a'),
                (_, _) => assert(nj[1] == 'a' && nk[1] == 'e'),
            }
        }
        assert(lower_code(s[qn + d]) == lower_code(nk[d]));
        assert(!ci_matches(s, qn, nj)) by {
            if ci_matches(s, qn, nj) {
                assert(lower_code(s[qn + d]) == lower_code(nj[d]));
            }
        }
        if nj.len() <= nk.len() {
            lemma_ascii_run_no_cut(s, q, w.len() as int, off + nj.len());
            assert forall|i: int| qn <= i < qn + nk.len() implies (#[trigger] s[i] as u32) < 0x80 by {
            }
            lemma_ascii_run_no_cut(s, qn, nk.len() as int, nj.len() as int);
        }
    }
}

/// A gradient's name is read ignoring ASCII case and after any vendor
/// prefix (`-webkit-`, `-o-`, `-ms-`, `-moz-`): where the text (after
/// whitespace) starts with one of them and the name of a kind, the gradient
/// is read as that kind, and a gradient it gives back is of that kind. This
/// holds except where a longer name tried first would cut a character (a
/// panic): before `radial-gradient`, the 25-byte test of
/// `repeating-linear-gradient`.
pub proof fn gradient_names_ignore_case_and_vendor(
    s: Seq<char>,
    p: int,
    vendor: Seq<char>,
    kind: GradientKind,
)
    requires
        0 <= p <= s.len(),
        vendor_prefix(vendor),
        ci_matches(s, skip_ws(s, p), vendor + kind_name(kind)),
        kind == GradientKind::Radial ==> !cuts_char(s, skip_ws(s, p) + vendor.len(), 25),
    ensures
        definition_model(s, p) == gradient_model(s, p, kind),
        definition_model(s, p) matches Step::Done(g, _) ==> (g matches Some(a) && a.kind == kind),
{
    let q = skip_ws(s, p);
    lemma_skip_ws_bounds(s, p);
    reveal_strlit("linear-gradient");
    reveal_strlit("repeating-linear-gradient");
    reveal_strlit("radial-gradient");
    reveal_strlit("repeating-radial-gradient");
    assert(kind_name(kind).len() >= 15);
    assert(q < s.len());
    assert(!is_ws(s[q]));
    assert(skip_ws(s, q) == q);
    reveal(gradient_model);
    reveal(pattern_model);
    reveal(definition_model);
    let l = GradientKind::Linear;
    let rl = GradientKind::RepeatingLinear;
    let r = GradientKind::Radial;
    let rr = GradientKind::RepeatingRadial;
    if kind != l {
        lemma_name_scan(s, q, vendor, kind, l);
        assert(call_open_model(s, p, Pattern::Gradient(l)) == Step::Done(false, q));
        if kind != rl {
            lemma_name_scan(s, q, vendor, kind, rl);
            assert(call_open_model(s, q, Pattern::Gradient(rl)) == Step::Done(false, q));
            if kind != r {
                lemma_name_scan(s, q, vendor, kind, r);
                assert(call_open_model(s, q, Pattern::Gradient(r)) == Step::Done(false, q));
            }
        }
    }
    lemma_name_scan(s, q, vendor, kind, kind);
    assert(call_open_model(s, q, Pattern::Gradient(kind)) == call_open_model(s, p, Pattern::Gradient(kind)));
}

} // verus!
