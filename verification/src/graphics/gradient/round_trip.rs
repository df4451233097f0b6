//! Colors that `color_to_string` writes read back as the same colors: hex
//! colors, `var()` colors, and `rgb()`/`rgba()` colors of plain numbers.

use vstd::prelude::*;
use vstd::string::*;
use crate::chars::skip_ws;
use super::ast::ColorV;
use super::model::{
    call_close_model, call_open_model, char_model, color_after_hex_model, color_after_hsl_model,
    color_after_hsla_model, color_after_rgb_model, color_after_rgba_model, color_model, hsl_model,
    hsla_model, number_model, numbers_model, numbers_rest_model, pattern_model, rgb_like_model,
    literal_model, token_model, var_model, Pattern, Step, Word,
};
use super::scan::{
    ci_matches, cuts_char, in_class, is_alpha, is_digit, is_hex_digit, lower_code, number_len,
    run_len, starts_at, CharClass,
};
use super::safety::{ascii_text, lemma_ascii_no_cut};
use crate::chars::is_ws;
use super::stops::{color_text, joined};

verus! {

proof fn lemma_hex_run(s: Seq<char>, i: int)
    requires
        1 <= i <= s.len(),
        forall|k: int| 1 <= k < s.len() ==> is_hex_digit(#[trigger] s[k]),
    ensures
        run_len(s, i, CharClass::HexDigit) == s.len() - i,
    decreases s.len() - i,
{
    if i < s.len() {
        lemma_hex_run(s, i + 1);
    }
}

/// A hex color that `color_to_string` writes reads back as the same color,
/// with nothing left: `#v` reads as `Hex(v)` for any nonempty hexadecimal `v`.
pub proof fn hex_color_reads_back(v: Seq<char>)
    requires
        v.len() > 0,
        forall|i: int| 0 <= i < v.len() ==> is_hex_digit(#[trigger] v[i]),
    ensures
        color_model(color_text(ColorV::Hex(v)), 0) == Step::Done(Some(ColorV::Hex(v)), v.len() as int + 1),
{
    reveal(color_model);
    reveal(pattern_model);
    reveal_strlit("#");
    let s = color_text(ColorV::Hex(v));
    assert(s =~= seq!['#'] + v);
    assert(s[0] == '#');
    assert(skip_ws(s, 0) == 0);
    assert forall|k: int| 1 <= k < s.len() implies is_hex_digit(#[trigger] s[k]) by {
        assert(s[k] == v[k - 1]);
    }
    lemma_hex_run(s, 1);
    assert(s.subrange(1, 1 + v.len() as int) =~= v);
}

proof fn lemma_name_run(s: Seq<char>, i: int, end: int)
    requires
        0 <= i <= end < s.len(),
        forall|k: int| i <= k < end ==> in_class(CharClass::VariableName, #[trigger] s[k]),
        s[end] == ')',
    ensures
        run_len(s, i, CharClass::VariableName) == end - i,
    decreases end - i,
{
    if i < end {
        lemma_name_run(s, i + 1, end);
    }
}

/// The text `var(name)` of a name `--...` made of name characters.
spec fn var_text(name: Seq<char>) -> Seq<char> {
    color_text(ColorV::Var(name))
}

/// None of the function names before `var` matches at the start of `var(`.
proof fn lemma_var_text_misses(s: Seq<char>)
    requires
        s.len() >= 5,
        s[0] == 'v' && s[1] == 'a' && s[2] == 'r' && s[3] == '(',
    ensures
        skip_ws(s, 0) == 0,
        token_model(s, 0, Pattern::HexColor) == Step::<Option<Seq<char>>>::Done(None, 0),
        hsla_model(s, 0) == Step::<Option<ColorV>>::Done(None, 0),
        hsl_model(s, 0) == Step::<Option<ColorV>>::Done(None, 0),
        rgb_like_model(s, 0, true) == Step::<Option<ColorV>>::Done(None, 0),
        rgb_like_model(s, 0, false) == Step::<Option<ColorV>>::Done(None, 0),
{
    assert(!cuts_char(s, 0, 4)) by {
        reveal_with_fuel(cuts_char, 5);
    }
    assert(!cuts_char(s, 0, 3)) by {
        reveal_with_fuel(cuts_char, 4);
    }
    assert(skip_ws(s, 0) == 0);
    assert(token_model(s, 0, Pattern::HexColor) == Step::<Option<Seq<char>>>::Done(None, 0)) by {
        reveal(pattern_model);
    }
    assert(hsla_model(s, 0) == Step::<Option<ColorV>>::Done(None, 0)) by {
        reveal(hsla_model);
        reveal(pattern_model);
        reveal_strlit("hsla");
        assert(lower_code(s[0]) != lower_code("hsla"@[0]));
    }
    assert(hsl_model(s, 0) == Step::<Option<ColorV>>::Done(None, 0)) by {
        reveal(hsl_model);
        reveal(pattern_model);
        reveal_strlit("hsl");
        assert(lower_code(s[0]) != lower_code("hsl"@[0]));
    }
    assert(rgb_like_model(s, 0, true) == Step::<Option<ColorV>>::Done(None, 0)) by {
        reveal(rgb_like_model);
        reveal(pattern_model);
        reveal_strlit("rgba");
        assert(lower_code(s[0]) != lower_code("rgba"@[0]));
    }
    assert(rgb_like_model(s, 0, false) == Step::<Option<ColorV>>::Done(None, 0)) by {
        reveal(rgb_like_model);
        reveal(pattern_model);
        reveal_strlit("rgb");
        assert(lower_code(s[0]) != lower_code("rgb"@[0]));
    }
}

/// `var(name)` reads as the variable `name`.
#[verifier::rlimit(40)]
proof fn lemma_var_text_reads(name: Seq<char>)
    requires
        name.len() >= 3,
        name[0] == '-',
        name[1] == '-',
        forall|i: int| 2 <= i < name.len() ==> in_class(CharClass::VariableName, #[trigger] name[i]),
    ensures
        var_model(var_text(name), 0) == Step::Done(Some(ColorV::Var(name)), name.len() as int + 5),
{
    reveal(var_model);
    reveal(pattern_model);
    reveal_strlit("var(");
    reveal_strlit(")");
    reveal_strlit("var");
    reveal_strlit("--");
    let s = var_text(name);
    let n = name.len() as int;
    assert(s =~= seq!['v', 'a', 'r', '('] + name + seq![')']);
    assert(s[0] == 'v' && s[1] == 'a' && s[2] == 'r' && s[3] == '(');
    assert(s[n + 4] == ')');
    assert(skip_ws(s, 0) == 0);
    assert(skip_ws(s, 3) == 3);
    assert(s[4] == '-' && s[5] == '-');
    assert(skip_ws(s, 4) == 4);
    assert(skip_ws(s, n + 4) == n + 4);
    assert(ci_matches(s, 0, "var"@));
    assert forall|k: int| 6 <= k < n + 4 implies in_class(CharClass::VariableName, #[trigger] s[k]) by {
        assert(s[k] == name[k - 4]);
    }
    lemma_name_run(s, 6, n + 4);
    assert(starts_at(s, 4, "--"@));
    assert(s.subrange(4, 4 + n) =~= name);
}

/// A `var()` color that `color_to_string` writes reads back as the same color,
/// with nothing left: `var(--name)` reads as `Var(--name)` for any name of at
/// least one name character after the `--`.
pub proof fn var_color_reads_back(name: Seq<char>)
    requires
        name.len() >= 3,
        name[0] == '-',
        name[1] == '-',
        forall|i: int| 2 <= i < name.len() ==> in_class(CharClass::VariableName, #[trigger] name[i]),
    ensures
        color_model(color_text(ColorV::Var(name)), 0) == Step::Done(
            Some(ColorV::Var(name)),
            name.len() as int + 5,
        ),
{
    let s = var_text(name);
    reveal_strlit("var(");
    reveal_strlit(")");
    assert(s =~= seq!['v', 'a', 'r', '('] + name + seq![')']);
    assert(s[0] == 'v' && s[1] == 'a' && s[2] == 'r' && s[3] == '(');
    lemma_var_text_misses(s);
    lemma_var_text_reads(name);
    reveal(color_model);
    reveal(color_after_hex_model);
    reveal(color_after_hsla_model);
    reveal(color_after_hsl_model);
    reveal(color_after_rgba_model);
    reveal(color_after_rgb_model);
}

/// A number as the grammar reads it: digits and at most one dot, with at
/// least one digit (`5`, `5.`, `.5`, `5.25`).
pub open spec fn number_text(v: Seq<char>) -> bool {
    &&& v.len() > 0
    &&& forall|i: int| 0 <= i < v.len() ==> is_digit(#[trigger] v[i]) || v[i] == '.'
    &&& forall|i: int, j: int| 0 <= i < j < v.len() ==> !(#[trigger] v[i] == '.' && #[trigger] v[j] == '.')
    &&& exists|i: int| 0 <= i < v.len() && is_digit(#[trigger] v[i])
}

proof fn lemma_digit_run(s: Seq<char>, i: int, j: int)
    requires
        0 <= i <= j <= s.len(),
        forall|k: int| i <= k < j ==> is_digit(#[trigger] s[k]),
        j < s.len() ==> !is_digit(s[j]),
    ensures
        run_len(s, i, CharClass::Digit) == j - i,
    decreases j - i,
{
    if i < j {
        lemma_digit_run(s, i + 1, j);
    }
}

/// A number followed by a character that is neither a digit nor a dot reads
/// as the whole number.
proof fn lemma_number_len(s: Seq<char>, p: int, v: Seq<char>)
    requires
        0 <= p,
        p + v.len() < s.len(),
        s.subrange(p, p + v.len()) == v,
        number_text(v),
        !is_digit(s[p + v.len()]),
        s[p + v.len()] != '.',
    ensures
        number_len(s, p) == Some(v.len() as int),
{
    let n = v.len() as int;
    assert forall|k: int| 0 <= k < n implies s[p + k] == #[trigger] v[k] by {
        assert(s.subrange(p, p + n)[k] == s[p + k]);
    }
    if exists|d: int| 0 <= d < n && v[d] == '.' {
        let d = choose|d: int| 0 <= d < n && v[d] == '.';
        assert forall|k: int| p <= k < p + d implies is_digit(#[trigger] s[k]) by {
            assert(v[k - p] != '.' || k - p == d);
            assert(s[k] == v[k - p]);
        }
        assert(s[p + d] == v[d]);
        lemma_digit_run(s, p, p + d);
        assert forall|k: int| p + d + 1 <= k < p + n implies is_digit(#[trigger] s[k]) by {
            assert(s[k] == v[k - p]);
            assert(!(v[d] == '.' && v[k - p] == '.'));
        }
        lemma_digit_run(s, p + d + 1, p + n);
        if d == 0 && n == 1 {
            let w = choose|i: int| 0 <= i < v.len() && is_digit(#[trigger] v[i]);
            assert(w == 0);
        }
        if d == 0 && n > 1 {
            assert(p + n > p + d + 1);
        }
    } else {
        assert forall|k: int| p <= k < p + n implies is_digit(#[trigger] s[k]) by {
            assert(s[k] == v[k - p]);
        }
        lemma_digit_run(s, p, p + n);
    }
}

/// `joined` splits after its first part.
proof fn lemma_joined_concat(a: Seq<Seq<char>>, b: Seq<Seq<char>>)
    requires
        a.len() > 0,
        b.len() > 0,
    ensures
        joined(a + b) == joined(a) + ","@ + joined(b),
    decreases b.len(),
{
    if b.len() == 1 {
        assert((a + b).drop_last() =~= a);
        assert((a + b).last() == b[0]);
    } else {
        lemma_joined_concat(a, b.drop_last());
        assert((a + b).drop_last() =~= a + b.drop_last());
        assert((a + b).last() == b.last());
    }
}

proof fn lemma_joined_first(parts: Seq<Seq<char>>)
    requires
        parts.len() > 1,
    ensures
        joined(parts) == parts[0] + ","@ + joined(parts.drop_first()),
{
    lemma_joined_concat(seq![parts[0]], parts.drop_first());
    assert(seq![parts[0]] + parts.drop_first() =~= parts);
}

/// The text after the numbers read so far: a comma and the numbers still to
/// read, joined by commas (nothing where none are left), then `)`.
spec fn numbers_tail(rest: Seq<Seq<char>>) -> Seq<char> {
    if rest.len() > 0 {
        ","@ + joined(rest) + ")"@
    } else {
        ")"@
    }
}

/// A number followed by a comma or `)` reads as itself.
proof fn lemma_number_read(s: Seq<char>, q: int, v: Seq<char>)
    requires
        0 <= q,
        q + v.len() < s.len(),
        s.subrange(q, q + v.len()) == v,
        number_text(v),
        s[q + v.len()] == ',' || s[q + v.len()] == ')',
    ensures
        number_model(s, q) == Step::Done(v, q + v.len()),
{
    reveal(number_model);
    reveal(pattern_model);
    assert(s[q] == v[0]) by {
        assert(s.subrange(q, q + v.len())[0] == s[q]);
    }
    assert(skip_ws(s, q) == q);
    lemma_number_len(s, q, v);
}

proof fn lemma_numbers_rest_read(s: Seq<char>, q: int, acc: Seq<Seq<char>>, rest: Seq<Seq<char>>)
    requires
        0 <= q <= s.len(),
        forall|i: int| 0 <= i < rest.len() ==> number_text(#[trigger] rest[i]),
        s.subrange(q, s.len() as int) == numbers_tail(rest),
    ensures
        numbers_rest_model(s, q, acc) == Step::Done(acc + rest, s.len() - 1),
    decreases rest.len(),
{
    reveal_with_fuel(numbers_rest_model, 1);
    reveal_strlit(",");
    reveal_strlit(")");
    let tail = numbers_tail(rest);
    assert(s[q] == tail[0]) by {
        assert(s.subrange(q, s.len() as int)[0] == s[q]);
    }
    assert(skip_ws(s, q) == q);
    if rest.len() == 0 {
        assert(tail =~= seq![')']);
        assert(acc + rest =~= acc);
    } else {
        let v = rest[0];
        let q1 = q + 1;
        let more = rest.drop_first();
        let after = if more.len() > 0 {
            ","@ + joined(more) + ")"@
        } else {
            ")"@
        };
        if rest.len() > 1 {
            lemma_joined_first(rest);
        } else {
            assert(rest =~= seq![v]);
        }
        assert(tail =~= seq![','] + v + after);
        assert(after =~= numbers_tail(more));
        assert(after[0] == ',' || after[0] == ')');
        assert(s.subrange(q1, q1 + v.len()) =~= v) by {
            assert forall|k: int| 0 <= k < v.len() implies s.subrange(q1, q1 + v.len())[k] == v[k] by {
                assert(s[q1 + k] == s.subrange(q, s.len() as int)[1 + k]);
                assert(tail[1 + k] == v[k]);
            }
        }
        assert(s[q1 + v.len()] == after[0]) by {
            assert(s[q1 + v.len()] == s.subrange(q, s.len() as int)[1 + v.len() as int]);
            assert(tail[1 + v.len() as int] == after[0]);
        }
        lemma_number_read(s, q1, v);
        let q2 = q1 + v.len();
        assert(s.subrange(q2, s.len() as int) =~= after) by {
            assert forall|k: int| 0 <= k < after.len() implies s.subrange(q2, s.len() as int)[k] == after[k] by {
                assert(s[q2 + k] == s.subrange(q, s.len() as int)[1 + v.len() + k]);
                assert(tail[1 + v.len() + k] == after[k]);
            }
        }
        assert forall|i: int| 0 <= i < more.len() implies number_text(#[trigger] more[i]) by {
            assert(more[i] == rest[i + 1]);
        }
        lemma_numbers_rest_read(s, q2, acc.push(v), more);
        assert(acc.push(v) + more =~= acc + rest);
    }
}

/// The numbers of an `rgb(`/`rgba(` call read from `open` on, up to the `)`
/// that ends the text.
proof fn lemma_numbers_read(s: Seq<char>, open: int, values: Seq<Seq<char>>)
    requires
        0 <= open,
        values.len() > 0,
        forall|i: int| 0 <= i < values.len() ==> number_text(#[trigger] values[i]),
        open <= s.len(),
        s.subrange(open, s.len() as int) == joined(values) + ")"@,
    ensures
        numbers_model(s, open) == Step::Done(values, s.len() - 1),
{
    reveal(numbers_model);
    reveal_strlit(")");
    reveal_strlit(",");
    let v = values[0];
    let more = values.drop_first();
    let after = numbers_tail(more);
    if values.len() > 1 {
        lemma_joined_first(values);
    } else {
        assert(values =~= seq![v]);
    }
    assert(joined(values) + ")"@ =~= v + after);
    let rest = s.subrange(open, s.len() as int);
    assert(rest == v + after);
    assert(rest.len() == v.len() + after.len());
    assert(after.len() > 0);
    assert(after[0] == ',' || after[0] == ')');
    assert(s.subrange(open, open + v.len()) =~= v) by {
        assert forall|k: int| 0 <= k < v.len() implies s.subrange(open, open + v.len())[k] == v[k] by {
            assert(rest[k] == (v + after)[k]);
            assert(s[open + k] == rest[k]);
        }
    }
    assert(s[open + v.len()] == after[0]) by {
        assert(rest[v.len() as int] == (v + after)[v.len() as int]);
        assert(s[open + v.len()] == rest[v.len() as int]);
    }
    lemma_number_read(s, open, v);
    let q = open + v.len();
    assert(s.subrange(q, s.len() as int) =~= after) by {
        assert forall|k: int| 0 <= k < after.len() implies s.subrange(q, s.len() as int)[k] == after[k] by {
            assert(rest[v.len() + k] == (v + after)[v.len() + k]);
            assert(s[q + k] == rest[v.len() + k]);
        }
    }
    assert forall|i: int| 0 <= i < more.len() implies number_text(#[trigger] more[i]) by {
        assert(more[i] == values[i + 1]);
    }
    lemma_numbers_rest_read(s, q, seq![v], more);
    assert(seq![v] + more =~= values);
}

/// `rgb(` or `rgba(`, then numbers joined by commas, then `)`: the numbers
/// read as themselves, and the call ends the text.
proof fn lemma_rgb_like_read(s: Seq<char>, values: Seq<Seq<char>>, alpha: bool)
    requires
        values.len() > 0,
        forall|i: int| 0 <= i < values.len() ==> number_text(#[trigger] values[i]),
        s == (if alpha { "rgba("@ } else { "rgb("@ }) + joined(values) + ")"@,
    ensures
        rgb_like_model(s, 0, alpha) == Step::Done(
            Some(if alpha { ColorV::Rgba(values) } else { ColorV::Rgb(values) }),
            s.len() as int,
        ),
{
    reveal_strlit("rgba(");
    reveal_strlit("rgb(");
    reveal_strlit(")");
    let open: int = if alpha { 5 } else { 4 };
    let word = if alpha { Word::Rgba } else { Word::Rgb };
    assert(s.subrange(open, s.len() as int) =~= joined(values) + ")"@);
    assert(call_open_model(s, 0, Pattern::Word(word)) == Step::Done(true, open)) by {
        reveal(pattern_model);
        reveal_strlit("rgba");
        reveal_strlit("rgb");
        assert(skip_ws(s, 0) == 0);
        assert(skip_ws(s, open - 1) == open - 1);
        assert(s[open - 1] == '(');
        assert(ci_matches(s, 0, if alpha { "rgba"@ } else { "rgb"@ }));
    }
    lemma_numbers_read(s, open, values);
    let last = s.len() - 1;
    assert(call_close_model(s, last) == Step::Done((), s.len() as int)) by {
        assert(s[last] == ')');
        assert(skip_ws(s, last) == last);
    }
    reveal(rgb_like_model);
}

/// An `rgb()` color of plain numbers that `color_to_string` writes reads back
/// as the same color, with nothing left.
pub proof fn rgb_color_reads_back(values: Seq<Seq<char>>)
    requires
        values.len() > 0,
        forall|i: int| 0 <= i < values.len() ==> number_text(#[trigger] values[i]),
    ensures
        color_model(color_text(ColorV::Rgb(values)), 0) == Step::Done(
            Some(ColorV::Rgb(values)),
            color_text(ColorV::Rgb(values)).len() as int,
        ),
{
    let s = color_text(ColorV::Rgb(values));
    reveal_strlit("rgb(");
    assert(s[0] == 'r' && s[1] == 'g' && s[2] == 'b' && s[3] == '(');
    lemma_rgb_like_read(s, values, false);
    assert(!cuts_char(s, 0, 4)) by {
        reveal_with_fuel(cuts_char, 5);
    }
    assert(!cuts_char(s, 0, 3)) by {
        reveal_with_fuel(cuts_char, 4);
    }
    assert(skip_ws(s, 0) == 0);
    assert(token_model(s, 0, Pattern::HexColor) == Step::<Option<Seq<char>>>::Done(None, 0)) by {
        reveal(pattern_model);
    }
    assert(hsla_model(s, 0) == Step::<Option<ColorV>>::Done(None, 0)) by {
        reveal(hsla_model);
        reveal(pattern_model);
        reveal_strlit("hsla");
        assert(lower_code(s[0]) != lower_code("hsla"@[0]));
    }
    assert(hsl_model(s, 0) == Step::<Option<ColorV>>::Done(None, 0)) by {
        reveal(hsl_model);
        reveal(pattern_model);
        reveal_strlit("hsl");
        assert(lower_code(s[0]) != lower_code("hsl"@[0]));
    }
    assert(rgb_like_model(s, 0, true) == Step::<Option<ColorV>>::Done(None, 0)) by {
        reveal(rgb_like_model);
        reveal(pattern_model);
        reveal_strlit("rgba");
        assert(lower_code(s[3]) != lower_code("rgba"@[3]));
    }
    reveal(color_model);
    reveal(color_after_hex_model);
    reveal(color_after_hsla_model);
    reveal(color_after_hsl_model);
    reveal(color_after_rgba_model);
}

/// An `rgba()` color of plain numbers that `color_to_string` writes reads
/// back as the same color, with nothing left.
pub proof fn rgba_color_reads_back(values: Seq<Seq<char>>)
    requires
        values.len() > 0,
        forall|i: int| 0 <= i < values.len() ==> number_text(#[trigger] values[i]),
    ensures
        color_model(color_text(ColorV::Rgba(values)), 0) == Step::Done(
            Some(ColorV::Rgba(values)),
            color_text(ColorV::Rgba(values)).len() as int,
        ),
{
    let s = color_text(ColorV::Rgba(values));
    reveal_strlit("rgba(");
    assert(s[0] == 'r' && s[1] == 'g' && s[2] == 'b' && s[3] == 'a' && s[4] == '(');
    lemma_rgb_like_read(s, values, true);
    assert(!cuts_char(s, 0, 4)) by {
        reveal_with_fuel(cuts_char, 5);
    }
    assert(!cuts_char(s, 0, 3)) by {
        reveal_with_fuel(cuts_char, 4);
    }
    assert(skip_ws(s, 0) == 0);
    assert(token_model(s, 0, Pattern::HexColor) == Step::<Option<Seq<char>>>::Done(None, 0)) by {
        reveal(pattern_model);
    }
    assert(hsla_model(s, 0) == Step::<Option<ColorV>>::Done(None, 0)) by {
        reveal(hsla_model);
        reveal(pattern_model);
        reveal_strlit("hsla");
        assert(lower_code(s[0]) != lower_code("hsla"@[0]));
    }
    assert(hsl_model(s, 0) == Step::<Option<ColorV>>::Done(None, 0)) by {
        reveal(hsl_model);
        reveal(pattern_model);
        reveal_strlit("hsl");
        assert(lower_code(s[0]) != lower_code("hsl"@[0]));
    }
    reveal(color_model);
    reveal(color_after_hex_model);
    reveal(color_after_hsla_model);
    reveal(color_after_hsl_model);
}

proof fn lemma_alpha_run(s: Seq<char>, i: int)
    requires
        0 <= i <= s.len(),
        forall|k: int| 0 <= k < s.len() ==> is_alpha(#[trigger] s[k]),
    ensures
        run_len(s, i, CharClass::Alpha) == s.len() - i,
    decreases s.len() - i,
{
    if i < s.len() {
        lemma_alpha_run(s, i + 1);
    }
}

/// A name that does not start with `kw`, ignoring case, does not start with
/// any longer word that begins with `kw` either.
proof fn lemma_no_longer_match(s: Seq<char>, kw: Seq<char>, longer: Seq<char>)
    requires
        !ci_matches(s, 0, kw),
        kw.len() <= longer.len(),
        longer.subrange(0, kw.len() as int) == kw,
    ensures
        !ci_matches(s, 0, longer),
{
    if ci_matches(s, 0, longer) {
        assert forall|i: int| 0 <= i < kw.len() implies lower_code(s[0 + i]) == lower_code(kw[i]) by {
            assert(kw[i] == longer.subrange(0, kw.len() as int)[i]);
        }
    }
}

/// A named color that `color_to_string` writes reads back as the same color,
/// with nothing left, where the name is ASCII letters that do not start,
/// ignoring case, with `hsl`, `rgb` or `var` (which read as calls).
pub proof fn named_color_reads_back(name: Seq<char>)
    requires
        name.len() > 0,
        forall|i: int| 0 <= i < name.len() ==> is_alpha(#[trigger] name[i]),
        !ci_matches(name, 0, "hsl"@),
        !ci_matches(name, 0, "rgb"@),
        !ci_matches(name, 0, "var"@),
    ensures
        color_model(color_text(ColorV::Literal(name)), 0) == Step::Done(
            Some(ColorV::Literal(name)),
            name.len() as int,
        ),
{
    let s = name;
    reveal_strlit("hsla");
    reveal_strlit("hsl");
    reveal_strlit("rgba");
    reveal_strlit("rgb");
    reveal_strlit("var");
    assert(ascii_text(s)) by {
        assert forall|i: int| 0 <= i < s.len() implies (#[trigger] s[i] as u32) < 0x80 by {
            assert(is_alpha(s[i]));
        }
    }
    assert forall|p: int, n: int| !(#[trigger] cuts_char(s, p, n)) by {
        lemma_ascii_no_cut(s, p, n);
    }
    assert("hsla"@.subrange(0, 3) =~= "hsl"@);
    assert("rgba"@.subrange(0, 3) =~= "rgb"@);
    lemma_no_longer_match(s, "hsl"@, "hsla"@);
    lemma_no_longer_match(s, "rgb"@, "rgba"@);
    assert(!is_ws(s[0])) by {
        assert(is_alpha(s[0]));
    }
    assert(skip_ws(s, 0) == 0);
    assert(token_model(s, 0, Pattern::HexColor) == Step::<Option<Seq<char>>>::Done(None, 0)) by {
        reveal(pattern_model);
        assert(s[0] != '#');
    }
    assert(hsla_model(s, 0) == Step::<Option<ColorV>>::Done(None, 0)) by {
        reveal(hsla_model);
        reveal(pattern_model);
    }
    assert(hsl_model(s, 0) == Step::<Option<ColorV>>::Done(None, 0)) by {
        reveal(hsl_model);
        reveal(pattern_model);
    }
    assert(rgb_like_model(s, 0, true) == Step::<Option<ColorV>>::Done(None, 0)) by {
        reveal(rgb_like_model);
        reveal(pattern_model);
    }
    assert(rgb_like_model(s, 0, false) == Step::<Option<ColorV>>::Done(None, 0)) by {
        reveal(rgb_like_model);
        reveal(pattern_model);
    }
    assert(var_model(s, 0) == Step::<Option<ColorV>>::Done(None, 0)) by {
        reveal(var_model);
        reveal(pattern_model);
    }
    assert(literal_model(s, 0) == Step::Done(Some(ColorV::Literal(name)), name.len() as int)) by {
        reveal(literal_model);
        reveal(pattern_model);
        lemma_alpha_run(s, 0);
        assert(s.subrange(0, s.len() as int) =~= s);
    }
    reveal(color_model);
    reveal(color_after_hex_model);
    reveal(color_after_hsla_model);
    reveal(color_after_hsl_model);
    reveal(color_after_rgba_model);
    reveal(color_after_rgb_model);
}

} // verus!
