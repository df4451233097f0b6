//! Splitting a CSS `background` value into its layers, and telling gradient
//! layers from color layers.

use vstd::prelude::*;
use vstd::string::*;
use crate::chars::{chars_of, is_ws, lowercase, skip_ws, same_text, to_lowercase, trim_ws, trimmed_range};
use super::ast::{kind_name, Distance, DistanceV, GradientAst, GradientAstV, GradientKind, Position, PositionV};
use super::model::{
    char_model, definition_model, definitions_model, definitions_rest_model, gradient_model,
    pattern_model, source_model, Pattern, Step,
};
use super::parser::{gradient_source, parse_gradient, parse_gradient_model, parse_gradient_panics};
use super::scan::{
    ci_matches, ci_prefix_model, cuts_char, gradient_prefix, gradient_prefix_cut,
    gradient_prefix_model, lower_code, or_else, utf8_width, Scan,
};
use super::safety::{ascii_gradients_are_readable, lemma_ascii_no_cut, lemma_readable_subrange, lemma_readable_trim, readable_text};

verus! {

/// The nesting depth after the first `n` characters of `s`: `(` opens, `)`
/// closes, and the count stays at the least `i32` where it would go below it.
pub open spec fn depth_after(s: Seq<char>, n: int) -> int
    decreases n,
{
    if n <= 0 || n > s.len() {
        0
    } else {
        let d = depth_after(s, n - 1);
        if s[n - 1] == '(' {
            d + 1
        } else if s[n - 1] == ')' {
            if d > i32::MIN {
                d - 1
            } else {
                d
            }
        } else {
            d
        }
    }
}

/// The depth never needs to pass the greatest `i32` (where counting panics).
pub open spec fn depth_fits(s: Seq<char>) -> bool {
    forall|n: int| 0 <= n < s.len() && s[n] == '(' ==> depth_after(s, n) < i32::MAX
}

/// The character at `i` is a comma outside every parenthesis.
pub open spec fn splits_at(s: Seq<char>, i: int) -> bool {
    s[i] == ',' && depth_after(s, i) == 0
}

/// The layers closed by the splitting commas among the first `n` characters,
/// and where the layer that is still open starts.
pub open spec fn closed_layers(s: Seq<char>, n: int) -> (Seq<Seq<char>>, int)
    decreases n,
{
    if n <= 0 || n > s.len() {
        (Seq::empty(), 0)
    } else {
        let (layers, start) = closed_layers(s, n - 1);
        if splits_at(s, n - 1) {
            (layers.push(trim_ws(s.subrange(start, n - 1))), n)
        } else {
            (layers, start)
        }
    }
}

/// The layers of `s`: the trimmed pieces between its splitting commas; the last
/// piece only where it is not blank.
pub open spec fn css_layers(s: Seq<char>) -> Seq<Seq<char>> {
    let (layers, start) = closed_layers(s, s.len() as int);
    let last = trim_ws(s.subrange(start, s.len() as int));
    if last.len() > 0 {
        layers.push(last)
    } else {
        layers
    }
}

/// Splits a CSS background value at the commas that stand outside parentheses,
/// trimming each layer.
pub fn split_css_layers(css: &str) -> (layers: Vec<String>)
    requires
        depth_fits(css@),
    ensures
        layers.deep_view() == css_layers(css@),
{
    let s = chars_of(css);
    let mut layers: Vec<String> = Vec::new();
    let mut start: usize = 0;
    let mut depth: i32 = 0;
    let mut i: usize = 0;
    while i < s.len()
        invariant
            s@ == css@,
            depth_fits(s@),
            i <= s.len(),
            depth == depth_after(s@, i as int),
            (layers.deep_view(), start as int) == closed_layers(s@, i as int),
            start <= i,
        decreases s.len() - i,
    {
        let ch = s[i];
        if ch == '(' {
            depth += 1;
        }
        if ch == ')' {
            if depth > i32::MIN {
                depth -= 1;
            }
        }
        if ch == ',' && depth == 0 {
            let ghost before = layers.deep_view();
            let piece = trimmed_range(&s, start, i);
            layers.push(piece);
            proof {
                assert(layers.deep_view() =~= before.push(piece@));
            }
            start = i + 1;
        }
        i += 1;
    }
    let last = trimmed_range(&s, start, s.len());
    if !last.as_str().is_empty() {
        let ghost before = layers.deep_view();
        layers.push(last);
        proof {
            assert(layers.deep_view() =~= before.push(last@));
        }
    }
    layers
}

/// Whether a layer starts with the name of a gradient function (with an optional
/// vendor prefix, in any ASCII case): `Hit` where it does, and `Crash` where the
/// byte-offset slicing of the test would split a character.
pub open spec fn gradient_layer_test(s: Seq<char>) -> Scan {
    or_else(
        gradient_prefix_model(s, 0, "linear-gradient"@),
        or_else(
            gradient_prefix_model(s, 0, "repeating-linear-gradient"@),
            or_else(
                gradient_prefix_model(s, 0, "radial-gradient"@),
                gradient_prefix_model(s, 0, "repeating-radial-gradient"@),
            ),
        ),
    )
}

/// Whether a background layer is a gradient function rather than a color.
pub fn is_gradient_layer(segment: &str) -> (b: bool)
    requires
        !(gradient_layer_test(segment@) is Crash),
    ensures
        b == gradient_layer_test(segment@) is Hit,
{
    let s = chars_of(segment);
    if gradient_prefix(&s, 0, "linear-gradient").is_some() {
        return true;
    }
    if gradient_prefix(&s, 0, "repeating-linear-gradient").is_some() {
        return true;
    }
    if gradient_prefix(&s, 0, "radial-gradient").is_some() {
        return true;
    }
    gradient_prefix(&s, 0, "repeating-radial-gradient").is_some()
}

/// One layer of a CSS background: a color, kept as its text, or a gradient.
#[derive(Debug, Clone, PartialEq)]
pub enum BackgroundLayer {
    Color(String),
    Gradient(GradientAst),
}

pub enum BackgroundLayerV {
    Color(Seq<char>),
    Gradient(GradientAstV),
}

impl DeepView for BackgroundLayer {
    type V = BackgroundLayerV;

    open spec fn deep_view(&self) -> BackgroundLayerV {
        match self {
            BackgroundLayer::Color(s) => BackgroundLayerV::Color(s@),
            BackgroundLayer::Gradient(g) => BackgroundLayerV::Gradient(g.deep_view()),
        }
    }
}

/// A layer can be read without panicking: its gradient test does not split a
/// character, and where it names a gradient, neither does the gradient parser.
pub open spec fn layer_readable(seg: Seq<char>) -> bool {
    &&& !(gradient_layer_test(seg) is Crash)
    &&& gradient_layer_test(seg) is Hit ==> !(parse_gradient_model(trim_ws(seg)) is Crash)
}

/// What one (trimmed) layer gives: nothing where it is empty; the gradients it
/// holds where it names a gradient and parses; else the layer as a color.
pub open spec fn segment_layers(seg: Seq<char>) -> Seq<BackgroundLayerV> {
    if seg.len() == 0 {
        Seq::empty()
    } else if gradient_layer_test(seg) is Hit {
        match parse_gradient_model(trim_ws(seg)) {
            Step::Done(list, _) => list.map_values(|g: GradientAstV| BackgroundLayerV::Gradient(g)),
            _ => seq![BackgroundLayerV::Color(seg)],
        }
    } else {
        seq![BackgroundLayerV::Color(seg)]
    }
}

/// The layers that a list of layer texts gives, in order.
pub open spec fn layers_of(segs: Seq<Seq<char>>) -> Seq<BackgroundLayerV>
    decreases segs.len(),
{
    if segs.len() == 0 {
        Seq::empty()
    } else {
        layers_of(segs.drop_last()) + segment_layers(segs.last())
    }
}

/// The whole value can be read without panicking.
pub open spec fn background_readable(css: Seq<char>) -> bool {
    &&& depth_fits(css)
    &&& forall|i: int| 0 <= i < css_layers(css).len() ==> layer_readable(#[trigger] css_layers(css)[i])
}

fn trim_str(s: &str) -> (t: String)
    ensures
        t@ == trim_ws(s@),
{
    let chars = chars_of(s);
    let t = trimmed_range(&chars, 0, chars.len());
    proof {
        assert(chars@.subrange(0, chars@.len() as int) =~= chars@);
    }
    t
}

/// Reads a CSS background value into its layers: each gradient layer that
/// parses gives its gradients; every other layer is kept as a color.
pub fn parse_background_layers(css: &str) -> (layers: Vec<BackgroundLayer>)
    requires
        background_readable(css@),
    ensures
        layers.deep_view() == layers_of(css_layers(css@)),
{
    let segments = split_css_layers(css);
    let ghost segs = segments.deep_view();
    let mut layers: Vec<BackgroundLayer> = Vec::new();
    let mut i: usize = 0;
    while i < segments.len()
        invariant
            segs == segments.deep_view(),
            segs == css_layers(css@),
            background_readable(css@),
            i <= segments.len(),
            layers.deep_view() == layers_of(segs.take(i as int)),
        decreases segments.len() - i,
    {
        let segment = &segments[i];
        let ghost seg = segment@;
        proof {
            assert(segs.take(i as int + 1).drop_last() =~= segs.take(i as int));
            assert(segs[i as int] == seg);
            assert(layer_readable(css_layers(css@)[i as int]));
        }
        let ghost before = layers.deep_view();
        if segment.as_str().is_empty() {
            assert(segment_layers(seg) =~= Seq::<BackgroundLayerV>::empty());
            assert(layers.deep_view() =~= before + segment_layers(seg));
        } else if is_gradient_layer(segment.as_str()) {
            let trimmed = trim_str(segment.as_str());
            match parse_gradient(trimmed.as_str()) {
                Ok(parsed) => {
                    let ghost parsed_view = parsed.deep_view();
                    for g in it: parsed.into_iter()
                        invariant
                            it.seq().len() == parsed_view.len(),
                            forall|k: int| 0 <= k < parsed_view.len() ==> #[trigger] it.seq()[k].deep_view() == parsed_view[k],
                            layers.deep_view() =~= before + Seq::new(
                                it.index() as nat,
                                |k: int| BackgroundLayerV::Gradient(parsed_view[k]),
                            ),
                    {
                        let ghost prev = layers.deep_view();
                        layers.push(BackgroundLayer::Gradient(g));
                        proof {
                            assert(layers.deep_view() =~= prev.push(BackgroundLayerV::Gradient(g.deep_view())));
                        }
                    }
                    proof {
                        assert(segment_layers(seg) =~= Seq::new(
                            parsed_view.len(),
                            |k: int| BackgroundLayerV::Gradient(parsed_view[k]),
                        ));
                    }
                },
                Err(_) => {
                    let ghost prev = layers.deep_view();
                    layers.push(BackgroundLayer::Color(segment.clone()));
                    proof {
                        assert(layers.deep_view() =~= before + segment_layers(seg));
                    }
                },
            }
        } else {
            layers.push(BackgroundLayer::Color(segment.clone()));
            proof {
                assert(layers.deep_view() =~= before + segment_layers(seg));
            }
        }
        i += 1;
    }
    proof {
        assert(segs.take(segs.len() as int) =~= segs);
    }
    layers
}

/// `top` or `bottom`.
pub open spec fn vertical_keyword(k: Seq<char>) -> bool {
    k == "top"@ || k == "bottom"@
}

/// `left` or `right`.
pub open spec fn horizontal_keyword(k: Seq<char>) -> bool {
    k == "left"@ || k == "right"@
}

/// A position whose keywords, already lower-cased, are given the wrong way
/// round (a vertical one first, a horizontal one second) is swapped; any other
/// is kept.
pub open spec fn ordered_keywords(x_lower: Seq<char>, y_lower: Seq<char>, p: PositionV) -> PositionV {
    if vertical_keyword(x_lower) && horizontal_keyword(y_lower) {
        PositionV {
            x: Some(DistanceV::PositionKeyword(y_lower)),
            y: Some(DistanceV::PositionKeyword(x_lower)),
        }
    } else {
        p
    }
}

/// A position of two keywords in the order horizontal, vertical.
pub open spec fn normalized_position(p: PositionV) -> PositionV {
    match (p.x, p.y) {
        (Some(DistanceV::PositionKeyword(xk)), Some(DistanceV::PositionKeyword(yk))) =>
            ordered_keywords(lowercase(xk), lowercase(yk), p),
        _ => p,
    }
}

fn copy_distance(d: &Distance) -> (r: Distance)
    ensures
        r.deep_view() == d.deep_view(),
{
    match d {
        Distance::Percent(s) => Distance::Percent(s.clone()),
        Distance::PositionKeyword(s) => Distance::PositionKeyword(s.clone()),
        Distance::Calc(s) => Distance::Calc(s.clone()),
        Distance::Px(s) => Distance::Px(s.clone()),
        Distance::Em(s) => Distance::Em(s.clone()),
    }
}

fn copy_position(p: &Position) -> (r: Position)
    ensures
        r.deep_view() == p.deep_view(),
{
    let x = match &p.x {
        Some(d) => Some(copy_distance(d)),
        None => None,
    };
    let y = match &p.y {
        Some(d) => Some(copy_distance(d)),
        None => None,
    };
    Position { x, y }
}

/// Puts two lower-cased keywords of `position` in the order horizontal,
/// vertical.
pub fn order_position_keywords(x_keyword: String, y_keyword: String, position: &Position) -> (r: Position)
    ensures
        r.deep_view() == ordered_keywords(x_keyword@, y_keyword@, position.deep_view()),
{
    let x_is_vertical = same_text(x_keyword.as_str(), "top") || same_text(x_keyword.as_str(), "bottom");
    let y_is_horizontal = same_text(y_keyword.as_str(), "left") || same_text(y_keyword.as_str(), "right");
    if x_is_vertical && y_is_horizontal {
        return Position {
            x: Some(Distance::PositionKeyword(y_keyword)),
            y: Some(Distance::PositionKeyword(x_keyword)),
        };
    }
    copy_position(position)
}

/// A position given as two keywords, in any case, becomes horizontal then
/// vertical (`top left` reads as `left top`), lower-cased where swapped.
pub fn normalize_position_keywords(position: &Position) -> (r: Position)
    ensures
        r.deep_view() == normalized_position(position.deep_view()),
{
    if let (Some(Distance::PositionKeyword(x_kw)), Some(Distance::PositionKeyword(y_kw))) = (&position.x, &position.y) {
        let x_keyword = to_lowercase(x_kw.as_str());
        let y_keyword = to_lowercase(y_kw.as_str());
        return order_position_keywords(x_keyword, y_keyword, position);
    }
    copy_position(position)
}

/// The commas among the first `n` characters that split layers.
pub open spec fn splitting_commas(s: Seq<char>, n: int) -> nat
    decreases n,
{
    if n <= 0 || n > s.len() {
        0
    } else if splits_at(s, n - 1) {
        splitting_commas(s, n - 1) + 1
    } else {
        splitting_commas(s, n - 1)
    }
}

proof fn lemma_closed_layers(s: Seq<char>, n: int)
    requires
        0 <= n <= s.len(),
    ensures
        closed_layers(s, n).0.len() == splitting_commas(s, n),
        0 <= closed_layers(s, n).1 <= n,
        forall|i: int| 0 <= i < closed_layers(s, n).0.len() ==> trim_ws(#[trigger] closed_layers(s, n).0[i]) == closed_layers(s, n).0[i],
    decreases n,
{
    if n > 0 {
        lemma_closed_layers(s, n - 1);
        let (layers, start) = closed_layers(s, n - 1);
        if splits_at(s, n - 1) {
            let piece = trim_ws(s.subrange(start, n - 1));
            crate::chars::lemma_trim_idempotent(s.subrange(start, n - 1));
            let next = layers.push(piece);
            assert forall|i: int| 0 <= i < next.len() implies trim_ws(#[trigger] next[i]) == next[i] by {
                if i < layers.len() {
                    assert(next[i] == layers[i]);
                }
            }
        }
    }
}

/// Every layer that `split_css_layers` gives is trimmed, and there is one for
/// each comma outside parentheses, plus one for the text after the last such
/// comma where it is not blank.
pub proof fn split_layers_are_trimmed(s: Seq<char>)
    ensures
        forall|i: int| 0 <= i < css_layers(s).len() ==> trim_ws(#[trigger] css_layers(s)[i]) == css_layers(s)[i],
        css_layers(s).len() == splitting_commas(s, s.len() as int) + (if trim_ws(
            s.subrange(closed_layers(s, s.len() as int).1, s.len() as int),
        ).len() > 0 {
            1int
        } else {
            0int
        }),
{
    lemma_closed_layers(s, s.len() as int);
    let (layers, start) = closed_layers(s, s.len() as int);
    let last = trim_ws(s.subrange(start, s.len() as int));
    crate::chars::lemma_trim_idempotent(s.subrange(start, s.len() as int));
    if last.len() > 0 {
        let all = layers.push(last);
        assert forall|i: int| 0 <= i < all.len() implies trim_ws(#[trigger] all[i]) == all[i] by {
            if i < layers.len() {
                assert(all[i] == layers[i]);
            }
        }
    }
}

proof fn lemma_depth_bound(s: Seq<char>, n: int)
    ensures
        depth_after(s, n) <= if n > 0 { n } else { 0 },
    decreases n,
{
    if n > 0 && n <= s.len() {
        lemma_depth_bound(s, n - 1);
    }
}

proof fn lemma_layers_readable(s: Seq<char>, n: int)
    requires
        readable_text(s),
        0 <= n <= s.len(),
    ensures
        0 <= closed_layers(s, n).1 <= n,
        forall|i: int| 0 <= i < closed_layers(s, n).0.len() ==> readable_text(#[trigger] closed_layers(s, n).0[i]),
    decreases n,
{
    if n > 0 {
        lemma_layers_readable(s, n - 1);
        let (layers, start) = closed_layers(s, n - 1);
        if splits_at(s, n - 1) {
            lemma_readable_subrange(s, start, n - 1);
            lemma_readable_trim(s.subrange(start, n - 1));
            let next = layers.push(trim_ws(s.subrange(start, n - 1)));
            assert forall|i: int| 0 <= i < next.len() implies readable_text(#[trigger] next[i]) by {
                if i < layers.len() {
                    assert(next[i] == layers[i]);
                }
            }
        }
    }
}

proof fn lemma_layer_readable(seg: Seq<char>)
    requires
        readable_text(seg),
    ensures
        layer_readable(seg),
{
    assert forall|p: int, n: int| !(#[trigger] cuts_char(seg, p, n)) by {
        lemma_ascii_no_cut(seg, p, n);
    }
    lemma_readable_trim(seg);
    ascii_gradients_are_readable(trim_ws(seg));
}

/// An ASCII background value shorter than `i32::MAX - 1` characters is read by
/// `parse_background_layers` without panicking: its `requires` holds of it.
pub proof fn ascii_backgrounds_are_readable(css: Seq<char>)
    requires
        readable_text(css),
    ensures
        background_readable(css),
{
    assert forall|n: int| 0 <= n < css.len() && css[n] == '(' implies depth_after(css, n) < i32::MAX by {
        lemma_depth_bound(css, n);
    }
    lemma_layers_readable(css, css.len() as int);
    let (layers, start) = closed_layers(css, css.len() as int);
    lemma_readable_subrange(css, start, css.len() as int);
    lemma_readable_trim(css.subrange(start, css.len() as int));
    let all = css_layers(css);
    assert forall|i: int| 0 <= i < all.len() implies layer_readable(#[trigger] all[i]) by {
        if i < layers.len() {
            assert(all[i] == layers[i]);
        }
        lemma_layer_readable(all[i]);
    }
}

/// Whether the gradient test of a layer panics: exactly the texts that
/// `is_gradient_layer` does not accept.
pub fn gradient_layer_panics(segment: &str) -> (b: bool)
    ensures
        b == gradient_layer_test(segment@) is Crash,
{
    let s = chars_of(segment);
    if gradient_prefix_cut(&s, 0, "linear-gradient") {
        return true;
    }
    if gradient_prefix(&s, 0, "linear-gradient").is_some() {
        return false;
    }
    if gradient_prefix_cut(&s, 0, "repeating-linear-gradient") {
        return true;
    }
    if gradient_prefix(&s, 0, "repeating-linear-gradient").is_some() {
        return false;
    }
    if gradient_prefix_cut(&s, 0, "radial-gradient") {
        return true;
    }
    if gradient_prefix(&s, 0, "radial-gradient").is_some() {
        return false;
    }
    gradient_prefix_cut(&s, 0, "repeating-radial-gradient")
}

/// Whether reading a background value panics: exactly the values that
/// `parse_background_layers` does not accept.
pub fn background_panics(css: &str) -> (b: bool)
    ensures
        b == !background_readable(css@),
{
    let s = chars_of(css);
    let mut depth: i32 = 0;
    let mut i: usize = 0;
    while i < s.len()
        invariant
            s@ == css@,
            i <= s.len(),
            depth == depth_after(s@, i as int),
            forall|n: int| 0 <= n < i && s@[n] == '(' ==> depth_after(s@, n) < i32::MAX,
        decreases s.len() - i,
    {
        let ch = s[i];
        if ch == '(' {
            if depth == i32::MAX {
                return true;
            }
            depth += 1;
        }
        if ch == ')' {
            if depth > i32::MIN {
                depth -= 1;
            }
        }
        i += 1;
    }
    let layers = split_css_layers(css);
    let ghost all = layers.deep_view();
    let mut k: usize = 0;
    while k < layers.len()
        invariant
            all == layers.deep_view(),
            all == css_layers(css@),
            depth_fits(css@),
            k <= layers.len(),
            forall|j: int| 0 <= j < k ==> layer_readable(#[trigger] all[j]),
        decreases layers.len() - k,
    {
        let segment = layers[k].as_str();
        proof {
            assert(all[k as int] == segment@);
        }
        if gradient_layer_panics(segment) {
            return true;
        }
        if is_gradient_layer(segment) {
            let trimmed = trim_str(segment);
            if parse_gradient_panics(trimmed.as_str()) {
                return true;
            }
        }
        k += 1;
    }
    false
}

proof fn lemma_cuts_semicolon(t: Seq<char>, p: int, n: int)
    requires
        0 <= p,
    ensures
        cuts_char(t + seq![';'], p, n) == cuts_char(t, p, n),
    decreases t.len() + 1 - p,
{
    let s = t + seq![';'];
    if n > 0 && p < s.len() {
        if p < t.len() {
            assert(s[p] == t[p]);
            lemma_cuts_semicolon(t, p + 1, n - utf8_width(t[p]));
        } else {
            assert(s[p] == ';');
            assert(utf8_width(s[p]) == 1);
            assert(!cuts_char(s, p + 1, n - 1));
        }
    }
}

proof fn lemma_lower_semicolon(c: char)
    requires
        lower_code(c) == lower_code(';'),
    ensures
        c == ';',
{
    assert(c as u32 == 59);
}

proof fn lemma_ci_prefix_semicolon(t: Seq<char>, p: int, kw: Seq<char>)
    requires
        0 <= p,
        kw.len() > 0,
        forall|i: int| 0 <= i < kw.len() ==> #[trigger] kw[i] != ';',
    ensures
        ci_prefix_model(t + seq![';'], p, kw) == ci_prefix_model(t, p, kw),
{
    let s = t + seq![';'];
    lemma_cuts_semicolon(t, p, kw.len() as int);
    if ci_matches(s, p, kw) {
        if p + kw.len() == s.len() {
            let i = kw.len() - 1;
            assert(lower_code(s[p + i]) == lower_code(kw[i]));
            assert(s[p + i] == ';');
            lemma_lower_semicolon(kw[i]);
        }
        assert forall|i: int| 0 <= i < kw.len() implies lower_code(t[p + i]) == lower_code(kw[i]) by {
            assert(t[p + i] == s[p + i]);
        }
    }
    if ci_matches(t, p, kw) {
        assert forall|i: int| 0 <= i < kw.len() implies lower_code(s[p + i]) == lower_code(kw[i]) by {
            assert(s[p + i] == t[p + i]);
        }
    }
}

/// Dropping a `;` at the end of a text changes no gradient name test at its
/// start.
proof fn lemma_gradient_prefix_semicolon(t: Seq<char>, name: Seq<char>)
    requires
        name.len() > 0,
        forall|i: int| 0 <= i < name.len() ==> #[trigger] name[i] != ';',
    ensures
        gradient_prefix_model(t + seq![';'], 0, name) == gradient_prefix_model(t, 0, name),
{
    reveal_strlit("-webkit-");
    reveal_strlit("-o-");
    reveal_strlit("-ms-");
    reveal_strlit("-moz-");
    let s = t + seq![';'];
    if t.len() > 0 {
        assert(s[0] == t[0]);
    }
    lemma_ci_prefix_semicolon(t, 0, "-webkit-"@);
    lemma_ci_prefix_semicolon(t, 0, "-o-"@);
    lemma_ci_prefix_semicolon(t, 0, "-ms-"@);
    lemma_ci_prefix_semicolon(t, 0, "-moz-"@);
    lemma_ci_prefix_semicolon(t, 0, name);
    lemma_ci_prefix_semicolon(t, 8, name);
    lemma_ci_prefix_semicolon(t, 3, name);
    lemma_ci_prefix_semicolon(t, 4, name);
    lemma_ci_prefix_semicolon(t, 5, name);
}

/// The gradient names, none of which holds a `;`.
proof fn lemma_names_without_semicolon()
    ensures
        forall|k: GradientKind, i: int| 0 <= i < kind_name(k).len() ==> #[trigger] kind_name(k)[i] != ';',
        forall|k: GradientKind| kind_name(k).len() > 0,
{
    reveal_strlit("linear-gradient");
    reveal_strlit("repeating-linear-gradient");
    reveal_strlit("radial-gradient");
    reveal_strlit("repeating-radial-gradient");
    assert forall|k: GradientKind, i: int| 0 <= i < kind_name(k).len() implies #[trigger] kind_name(k)[i] != ';' by {
        match k {
            GradientKind::Linear => {},
            GradientKind::RepeatingLinear => {},
            GradientKind::Radial => {},
            GradientKind::RepeatingRadial => {},
        }
    }
}

/// The gradient test of a layer and the name test that the gradient reader
/// makes at the start of it agree, with or without a final `;`.
proof fn lemma_source_tests(seg: Seq<char>, kind: GradientKind)
    requires
        seg.len() > 0,
        trim_ws(seg) == seg,
    ensures
        pattern_model(Pattern::Gradient(kind), gradient_source(seg), 0) == gradient_prefix_model(seg, 0, kind_name(kind)),
{
    reveal(pattern_model);
    lemma_names_without_semicolon();
    crate::chars::lemma_trim_idempotent(seg);
    if trim_ws(seg).len() > 0 && trim_ws(seg).last() == ';' {
        let t = trim_ws(seg).drop_last();
        assert(t + seq![';'] =~= trim_ws(seg));
        lemma_gradient_prefix_semicolon(t, kind_name(kind));
    }
}

/// Where the text to read starts with no whitespace, the reading of each
/// gradient kind at its start follows the layer's name test for that kind.
proof fn lemma_gradient_at_start(seg: Seq<char>, kind: GradientKind)
    requires
        seg.len() > 0,
        trim_ws(seg) == seg,
        gradient_source(seg).len() > 0,
        !is_ws(gradient_source(seg)[0]),
    ensures
        gradient_prefix_model(seg, 0, kind_name(kind)) is Miss ==> gradient_model(gradient_source(seg), 0, kind) == Step::<Option<GradientAstV>>::Done(None, 0),
        gradient_prefix_model(seg, 0, kind_name(kind)) is Hit ==> !(gradient_model(gradient_source(seg), 0, kind) matches Step::Done(None, _)),
{
    reveal(gradient_model);
    lemma_source_tests(seg, kind);
    assert(skip_ws(gradient_source(seg), 0) == 0);
}

/// A nonblank layer that names a gradient is read into at least one gradient,
/// unless reading it fails (then it is kept as a color).
proof fn lemma_gradient_layer_not_empty(seg: Seq<char>)
    requires
        seg.len() > 0,
        trim_ws(seg) == seg,
        gradient_layer_test(seg) is Hit,
        !(parse_gradient_model(seg) is Crash),
    ensures
        parse_gradient_model(seg) matches Step::Done(list, _) ==> list.len() >= 1,
{
    let src = gradient_source(seg);
    crate::chars::lemma_skip_ws_bounds(seg, 0);
    crate::chars::lemma_trim_end_bounds(seg, seg.len() as int);
    assert(!is_ws(seg[0])) by {
        if is_ws(seg[0]) {
            assert(skip_ws(seg, 0) >= 1);
            assert(trim_ws(seg).len() < seg.len());
        }
    }
    let names = gradient_layer_test(seg);
    assert(seg.len() >= 2) by {
        lemma_hit_is_long(seg);
    }
    assert(src.len() > 0 && src[0] == seg[0]);
    lemma_gradient_at_start(seg, GradientKind::Linear);
    lemma_gradient_at_start(seg, GradientKind::RepeatingLinear);
    lemma_gradient_at_start(seg, GradientKind::Radial);
    lemma_gradient_at_start(seg, GradientKind::RepeatingRadial);
    assert(!(definition_model(src, 0) matches Step::Done(None, _))) by {
        reveal(definition_model);
    }
    reveal(source_model);
    reveal(definitions_model);
    match definition_model(src, 0) {
        Step::Done(Some(first), q) => {
            lemma_definitions_rest_grow(src, q, seq![first]);
        },
        _ => {},
    }
}

proof fn lemma_definitions_rest_grow(s: Seq<char>, p: int, acc: Seq<GradientAstV>)
    ensures
        definitions_rest_model(s, p, acc) matches Step::Done(v, _) ==> v.len() >= acc.len(),
    decreases s.len() - p,
{
    reveal_with_fuel(definitions_rest_model, 1);
    let (comma, q) = char_model(s, p, ',');
    if comma {
        match definition_model(s, q) {
            Step::Done(Some(g), q2) => {
                if p < q2 <= s.len() {
                    lemma_definitions_rest_grow(s, q2, acc.push(g));
                }
            },
            _ => {},
        }
    }
}

/// A layer whose gradient test hits is at least two characters long.
proof fn lemma_hit_is_long(seg: Seq<char>)
    requires
        gradient_layer_test(seg) is Hit,
    ensures
        seg.len() >= 2,
{
    lemma_names_without_semicolon();
    reveal_strlit("linear-gradient");
    reveal_strlit("repeating-linear-gradient");
    reveal_strlit("radial-gradient");
    reveal_strlit("repeating-radial-gradient");
}

/// Every nonblank layer gives at least one background layer: a layer that
/// names a gradient is read into its gradients (there is at least one) or,
/// where reading fails, kept as a color; any other layer is kept as a color.
pub proof fn no_layer_is_lost(seg: Seq<char>)
    requires
        seg.len() > 0,
        trim_ws(seg) == seg,
        layer_readable(seg),
    ensures
        segment_layers(seg).len() >= 1,
{
    crate::chars::lemma_trim_idempotent(seg);
    if gradient_layer_test(seg) is Hit {
        lemma_gradient_layer_not_empty(seg);
    }
}

/// Any text shorter than `i32::MAX` characters nests parentheses shallowly
/// enough: `split_css_layers` accepts it.
pub proof fn short_texts_fit(s: Seq<char>)
    requires
        s.len() < i32::MAX,
    ensures
        depth_fits(s),
{
    assert forall|n: int| 0 <= n < s.len() && s[n] == '(' implies depth_after(s, n) < i32::MAX by {
        lemma_depth_bound(s, n);
    }
}

} // verus!
