//! The text-level part of reading CSS colors: arguments of color functions and
//! what a color's text says of its transparency.

use vstd::prelude::*;
use vstd::string::*;
use crate::mask_defs::paint::hex_value;
use super::gradient::scan::{starts_at, starts_with_at};
use crate::chars::{
    ascii_lowercase, chars_of, is_ascii_text, is_whitespace, is_ws, lemma_skip_ws_bounds,
    lemma_trim_end_bounds, lowercase, same_text, skip_ws, string_from_range, to_lowercase,
    trim_end_ws, trim_ws, trimmed_range,
};

verus! {

/// A digit or a dot.
pub open spec fn is_digit_or_dot(c: char) -> bool {
    ('0' <= c <= '9') || c == '.'
}

/// A nonempty text of digits and dots only.
pub open spec fn digits_and_dots(s: Seq<char>) -> bool {
    s.len() > 0 && forall|i: int| 0 <= i < s.len() ==> is_digit_or_dot(#[trigger] s[i])
}

/// Whether `text` is nonempty and made of ASCII digits and dots only.
pub fn is_digits_and_dots(text: &str) -> (b: bool)
    ensures
        b == digits_and_dots(text@),
{
    let n = text.unicode_len();
    if n == 0 {
        return false;
    }
    let mut i: usize = 0;
    while i < n
        invariant
            n == text@.len(),
            i <= n,
            forall|j: int| 0 <= j < i ==> is_digit_or_dot(#[trigger] text@[j]),
        decreases n - i,
    {
        let c = text.get_char(i);
        if !(('0' <= c && c <= '9') || c == '.') {
            return false;
        }
        i += 1;
    }
    true
}

/// The pieces of `s.subrange(0, n)` that commas have closed, and where the open
/// piece starts.
pub open spec fn comma_pieces(s: Seq<char>, n: int) -> (Seq<Seq<char>>, int)
    decreases n,
{
    if n <= 0 || n > s.len() {
        (Seq::empty(), 0)
    } else {
        let (pieces, start) = comma_pieces(s, n - 1);
        if s[n - 1] == ',' {
            (pieces.push(s.subrange(start, n - 1)), n)
        } else {
            (pieces, start)
        }
    }
}

/// `s` cut at every comma (`str::split(',')`): one piece more than there are
/// commas.
pub open spec fn split_commas(s: Seq<char>) -> Seq<Seq<char>> {
    let (pieces, start) = comma_pieces(s, s.len() as int);
    pieces.push(s.subrange(start, s.len() as int))
}

/// Every piece trimmed.
pub open spec fn trim_all(pieces: Seq<Seq<char>>) -> Seq<Seq<char>> {
    pieces.map_values(|p: Seq<char>| trim_ws(p))
}

/// The pieces of `v` from `from` up to `to` between commas, each trimmed.
fn split_trimmed_commas(v: &Vec<char>, from: usize, to: usize) -> (parts: Vec<String>)
    requires
        from <= to <= v.len(),
    ensures
        parts.deep_view() == trim_all(split_commas(v@.subrange(from as int, to as int))),
{
    let ghost s = v@.subrange(from as int, to as int);
    let mut parts: Vec<String> = Vec::new();
    let mut start: usize = from;
    let mut i: usize = from;
    while i < to
        invariant
            s == v@.subrange(from as int, to as int),
            from <= start <= i <= to <= v.len(),
            ({
                let (pieces, st) = comma_pieces(s, i - from);
                parts.deep_view() == trim_all(pieces) && st == start - from
            }),
        decreases to - i,
    {
        if v[i] == ',' {
            let ghost before = parts.deep_view();
            let ghost (pieces, st) = comma_pieces(s, i - from);
            let piece = trimmed_range(v, start, i);
            proof {
                assert(s.subrange(st, i - from) =~= v@.subrange(start as int, i as int));
            }
            parts.push(piece);
            proof {
                assert(parts.deep_view() =~= before.push(piece@));
                assert(trim_all(pieces.push(s.subrange(st, i - from))) =~= trim_all(pieces).push(
                    trim_ws(s.subrange(st, i - from)),
                ));
            }
            start = i + 1;
        }
        i += 1;
    }
    let ghost (pieces, st) = comma_pieces(s, s.len() as int);
    let ghost before = parts.deep_view();
    let last = trimmed_range(v, start, to);
    proof {
        assert(s.subrange(st, s.len() as int) =~= v@.subrange(start as int, to as int));
    }
    parts.push(last);
    proof {
        assert(parts.deep_view() =~= before.push(last@));
        assert(trim_all(pieces.push(s.subrange(st, s.len() as int))) =~= trim_all(pieces).push(
            trim_ws(s.subrange(st, s.len() as int)),
        ));
    }
    parts
}

/// The whitespace-separated tokens closed among the first `n` characters, and
/// where the token still open starts (`None` between tokens).
pub open spec fn ws_tokens(s: Seq<char>, n: int) -> (Seq<Seq<char>>, Option<int>)
    decreases n,
{
    if n <= 0 || n > s.len() {
        (Seq::empty(), None)
    } else {
        let (tokens, open) = ws_tokens(s, n - 1);
        if is_ws(s[n - 1]) {
            match open {
                Some(st) => (tokens.push(s.subrange(st, n - 1)), None),
                None => (tokens, None),
            }
        } else {
            match open {
                Some(st) => (tokens, Some(st)),
                None => (tokens, Some(n - 1)),
            }
        }
    }
}

/// The tokens of `s` between runs of whitespace (`str::split_whitespace`).
pub open spec fn split_whitespace(s: Seq<char>) -> Seq<Seq<char>> {
    let (tokens, open) = ws_tokens(s, s.len() as int);
    match open {
        Some(st) => tokens.push(s.subrange(st, s.len() as int)),
        None => tokens,
    }
}

/// The plain tokens, and the text after the `/` of the last token that starts
/// with one (the alpha of the space-separated syntax), among the first `n`.
pub open spec fn slash_split(tokens: Seq<Seq<char>>, n: int) -> (Seq<Seq<char>>, Option<Seq<char>>)
    decreases n,
{
    if n <= 0 || n > tokens.len() {
        (Seq::empty(), None)
    } else {
        let (parts, alpha) = slash_split(tokens, n - 1);
        let t = tokens[n - 1];
        if t.len() > 0 && t[0] == '/' {
            (parts, Some(trim_ws(t.drop_first())))
        } else {
            (parts.push(t), alpha)
        }
    }
}

/// The arguments of a color function: split at commas and trimmed where there
/// is a comma; else the whitespace-separated tokens, with the alpha after a `/`
/// moved to the end (and dropped where it is empty).
pub open spec fn function_args(body: Seq<char>) -> Seq<Seq<char>> {
    if body.contains(',') {
        trim_all(split_commas(body))
    } else {
        let tokens = split_whitespace(body);
        let (parts, alpha) = slash_split(tokens, tokens.len() as int);
        match alpha {
            Some(a) => if a.len() > 0 {
                parts.push(a)
            } else {
                parts
            },
            None => parts,
        }
    }
}

/// Splits the body of a color function into its arguments.
pub fn split_function_args(body: &str) -> (parts: Vec<String>)
    ensures
        parts.deep_view() == function_args(body@),
{
    let s = chars_of(body);
    let mut has_comma = false;
    let mut k: usize = 0;
    while k < s.len()
        invariant
            k <= s.len(),
            has_comma == exists|j: int| 0 <= j < k && s@[j] == ',',
        decreases s.len() - k,
    {
        if s[k] == ',' {
            has_comma = true;
        }
        k += 1;
    }
    proof {
        if has_comma {
            let j = choose|j: int| 0 <= j < s@.len() && s@[j] == ',';
            assert(body@.contains(','));
        } else {
            assert(!body@.contains(','));
        }
    }
    if has_comma {
        let parts = split_trimmed_commas(&s, 0, s.len());
        proof {
            assert(s@.subrange(0, s@.len() as int) =~= s@);
        }
        return parts;
    }
    let tokens = whitespace_tokens(&s);
    let ghost tok = tokens.deep_view();
    let mut parts: Vec<String> = Vec::new();
    let mut alpha: Option<String> = None;
    let mut i: usize = 0;
    while i < tokens.len()
        invariant
            tok == tokens.deep_view(),
            tok == split_whitespace(body@),
            i <= tokens.len(),
            ({
                let (ps, a) = slash_split(tok, i as int);
                parts.deep_view() == ps && match alpha {
                    Some(x) => a == Some(x@),
                    None => a is None,
                }
            }),
        decreases tokens.len() - i,
    {
        let token = &tokens[i];
        let t = chars_of(token.as_str());
        if t.len() > 0 && t[0] == '/' {
            let rest = trimmed_range(&t, 1, t.len());
            proof {
                assert(t@.subrange(1, t@.len() as int) =~= t@.drop_first());
            }
            alpha = Some(rest);
        } else {
            let ghost before = parts.deep_view();
            parts.push(token.clone());
            proof {
                assert(parts.deep_view() =~= before.push(tok[i as int]));
            }
        }
        i += 1;
    }
    if let Some(a) = alpha {
        if !a.as_str().is_empty() {
            let ghost before = parts.deep_view();
            parts.push(a);
            proof {
                assert(parts.deep_view() =~= before.push(a@));
            }
        }
    }
    parts
}

/// The whitespace-separated tokens of `s`.
fn whitespace_tokens(s: &Vec<char>) -> (tokens: Vec<String>)
    ensures
        tokens.deep_view() == split_whitespace(s@),
{
    let mut tokens: Vec<String> = Vec::new();
    let mut open: Option<usize> = None;
    let mut i: usize = 0;
    while i < s.len()
        invariant
            i <= s.len(),
            ({
                let (ts, o) = ws_tokens(s@, i as int);
                tokens.deep_view() == ts && match open {
                    Some(st) => o == Some(st as int) && st < i,
                    None => o is None,
                }
            }),
        decreases s.len() - i,
    {
        if is_whitespace(s[i]) {
            if let Some(st) = open {
                let ghost before = tokens.deep_view();
                let token = string_from_range(s, st, i);
                tokens.push(token);
                proof {
                    assert(tokens.deep_view() =~= before.push(s@.subrange(st as int, i as int)));
                }
                open = None;
            }
        } else if open.is_none() {
            open = Some(i);
        }
        i += 1;
    }
    if let Some(st) = open {
        let ghost before = tokens.deep_view();
        let token = string_from_range(s, st, s.len());
        tokens.push(token);
        proof {
            assert(tokens.deep_view() =~= before.push(s@.subrange(st as int, s@.len() as int)));
        }
    }
    tokens
}

/// What the text of a color says of its transparency, short of reading its
/// alpha as a number: the keyword `transparent`, an `rgba()` whose alpha has
/// to be read to tell, or neither.
#[derive(Debug, Clone, PartialEq)]
pub enum Transparency {
    Keyword,
    Alpha(String),
    Opaque,
}

pub enum TransparencyV {
    Keyword,
    Alpha(Seq<char>),
    Opaque,
}

impl DeepView for Transparency {
    type V = TransparencyV;

    open spec fn deep_view(&self) -> TransparencyV {
        match self {
            Transparency::Keyword => TransparencyV::Keyword,
            Transparency::Alpha(a) => TransparencyV::Alpha(a@),
            Transparency::Opaque => TransparencyV::Opaque,
        }
    }
}

/// The transparency of an already lower-cased color text: trimmed, it is
/// `transparent`, or `rgba(r, g, b, a)` with four arguments of digits and dots
/// (then the alpha text decides), or neither.
pub open spec fn transparency_model(lower: Seq<char>) -> TransparencyV {
    let t = trim_ws(lower);
    if t == "transparent"@ {
        TransparencyV::Keyword
    } else if t.len() >= 6 && t.subrange(0, 5) == "rgba("@ && t.last() == ')' {
        let parts = trim_all(split_commas(t.subrange(5, t.len() - 1)));
        if parts.len() == 4 && digits_and_dots(parts[0]) && digits_and_dots(parts[1])
            && digits_and_dots(parts[2]) && digits_and_dots(parts[3]) {
            TransparencyV::Alpha(parts[3])
        } else {
            TransparencyV::Opaque
        }
    } else {
        TransparencyV::Opaque
    }
}

/// The transparency of a color text that is already lower case.
pub fn transparency_of_lowered(lower: &str) -> (r: Transparency)
    ensures
        r.deep_view() == transparency_model(lower@),
{
    let chars = chars_of(lower);
    let trimmed = trimmed_range(&chars, 0, chars.len());
    proof {
        assert(chars@.subrange(0, chars@.len() as int) =~= chars@);
    }
    if same_text(trimmed.as_str(), "transparent") {
        return Transparency::Keyword;
    }
    let t = chars_of(trimmed.as_str());
    let n = t.len();
    if n < 6 || t[0] != 'r' || t[1] != 'g' || t[2] != 'b' || t[3] != 'a' || t[4] != '('
        || t[n - 1] != ')' {
        proof {
            reveal_strlit("rgba(");
            if t@.len() >= 6 && t@.subrange(0, 5) == "rgba("@ {
                assert(t@[0] == t@.subrange(0, 5)[0]);
                assert(t@[1] == t@.subrange(0, 5)[1]);
                assert(t@[2] == t@.subrange(0, 5)[2]);
                assert(t@[3] == t@.subrange(0, 5)[3]);
                assert(t@[4] == t@.subrange(0, 5)[4]);
            }
        }
        return Transparency::Opaque;
    }
    proof {
        reveal_strlit("rgba(");
        assert(t@.subrange(0, 5) =~= "rgba("@);
    }
    let parts = split_trimmed_commas(&t, 5, n - 1);
    if parts.len() != 4 {
        return Transparency::Opaque;
    }
    let d0 = is_digits_and_dots(parts[0].as_str());
    let d1 = is_digits_and_dots(parts[1].as_str());
    let d2 = is_digits_and_dots(parts[2].as_str());
    let d3 = is_digits_and_dots(parts[3].as_str());
    if !(d0 && d1 && d2 && d3) {
        return Transparency::Opaque;
    }
    Transparency::Alpha(parts[3].clone())
}

/// The transparency of a color text in any case: lower-cased, then read as
/// `transparency_of_lowered` reads it.
pub fn transparency_of(color: &str) -> (r: Transparency)
    ensures
        r.deep_view() == transparency_model(lowercase(color@)),
        is_ascii_text(color@) ==> r.deep_view() == transparency_model(ascii_lowercase(color@)),
{
    let lower = to_lowercase(color);
    transparency_of_lowered(lower.as_str())
}

/// Every character is a hexadecimal digit.
pub open spec fn all_hex_digits(h: Seq<char>) -> bool {
    forall|i: int| 0 <= i < h.len() ==> #[trigger] hex_value(h[i]) is Some
}

/// The value of the hexadecimal digit at `i`.
pub open spec fn digit_at(h: Seq<char>, i: int) -> nat {
    hex_value(h[i])->0
}

/// The channels that hexadecimal digits give: `rgb`, `rgba`, `rrggbb` or
/// `rrggbbaa` (a one-digit channel stands for the digit written twice; alpha
/// 255 where it is not given).
pub open spec fn hex_rgba_model(h: Seq<char>) -> Option<(u8, u8, u8, u8)> {
    if !all_hex_digits(h) {
        None
    } else if h.len() == 3 {
        Some(((17 * digit_at(h, 0)) as u8, (17 * digit_at(h, 1)) as u8, (17 * digit_at(h, 2)) as u8, 255u8))
    } else if h.len() == 4 {
        Some(
            (
                (17 * digit_at(h, 0)) as u8,
                (17 * digit_at(h, 1)) as u8,
                (17 * digit_at(h, 2)) as u8,
                (17 * digit_at(h, 3)) as u8,
            ),
        )
    } else if h.len() == 6 {
        Some(
            (
                (16 * digit_at(h, 0) + digit_at(h, 1)) as u8,
                (16 * digit_at(h, 2) + digit_at(h, 3)) as u8,
                (16 * digit_at(h, 4) + digit_at(h, 5)) as u8,
                255u8,
            ),
        )
    } else if h.len() == 8 {
        Some(
            (
                (16 * digit_at(h, 0) + digit_at(h, 1)) as u8,
                (16 * digit_at(h, 2) + digit_at(h, 3)) as u8,
                (16 * digit_at(h, 4) + digit_at(h, 5)) as u8,
                (16 * digit_at(h, 6) + digit_at(h, 7)) as u8,
            ),
        )
    } else {
        None
    }
}

fn digit_value(c: char) -> (r: Option<u8>)
    ensures
        match hex_value(c) {
            Some(v) => r == Some(v as u8),
            None => r is None,
        },
{
    if '0' <= c && c <= '9' {
        Some(((c as u32) - ('0' as u32)) as u8)
    } else if 'a' <= c && c <= 'f' {
        Some(((c as u32) - ('a' as u32) + 10) as u8)
    } else if 'A' <= c && c <= 'F' {
        Some(((c as u32) - ('A' as u32) + 10) as u8)
    } else {
        None
    }
}

/// The channels of a color written as hexadecimal digits only (without `#`),
/// where there are 3, 4, 6 or 8 of them.
pub fn hex_rgba(hex: &str) -> (r: Option<(u8, u8, u8, u8)>)
    ensures
        r == hex_rgba_model(hex@),
{
    let h = chars_of(hex);
    let n = h.len();
    let mut digits: Vec<u8> = Vec::new();
    let mut i: usize = 0;
    while i < n
        invariant
            h@ == hex@,
            n == h@.len(),
            i <= n,
            digits@.len() == i,
            forall|j: int| 0 <= j < i ==> #[trigger] hex_value(h@[j]) is Some && digits@[j] == digit_at(h@, j),
            forall|j: int| 0 <= j < i ==> #[trigger] digits@[j] < 16,
        decreases n - i,
    {
        match digit_value(h[i]) {
            Some(d) => digits.push(d),
            None => {
                return None;
            },
        }
        i += 1;
    }
    proof {
        assert forall|j: int| 0 <= j < h@.len() implies #[trigger] hex_value(h@[j]) is Some by {
            assert(hex_value(h@[j]) is Some && digits@[j] == digit_at(h@, j));
        }
    }
    if n == 3 {
        Some((17 * digits[0], 17 * digits[1], 17 * digits[2], 255))
    } else if n == 4 {
        Some((17 * digits[0], 17 * digits[1], 17 * digits[2], 17 * digits[3]))
    } else if n == 6 {
        Some((16 * digits[0] + digits[1], 16 * digits[2] + digits[3], 16 * digits[4] + digits[5], 255))
    } else if n == 8 {
        Some(
            (
                16 * digits[0] + digits[1],
                16 * digits[2] + digits[3],
                16 * digits[4] + digits[5],
                16 * digits[6] + digits[7],
            ),
        )
    } else {
        None
    }
}

/// `body` cut at every comma, each piece trimmed (`split(',')` then `trim`).
pub fn comma_parts(body: &str) -> (parts: Vec<String>)
    ensures
        parts.deep_view() == trim_all(split_commas(body@)),
{
    let s = chars_of(body);
    let parts = split_trimmed_commas(&s, 0, s.len());
    proof {
        assert(s@.subrange(0, s@.len() as int) =~= s@);
    }
    parts
}

/// The body of a call `prefix ... )`: the text between the prefix and a final
/// `)` (`strip_prefix` then `strip_suffix`), where the text has both.
pub open spec fn call_body(t: Seq<char>, prefix: Seq<char>) -> Option<Seq<char>> {
    if starts_at(t, 0, prefix) && t.len() > prefix.len() && t.last() == ')' {
        Some(t.subrange(prefix.len() as int, t.len() - 1))
    } else {
        None
    }
}

/// The body of a call `prefix ... )` in `t`.
fn call_body_of(t: &Vec<char>, prefix: &str) -> (r: Option<String>)
    ensures
        match call_body(t@, prefix@) {
            Some(body) => r matches Some(b) && b@ == body,
            None => r is None,
        },
{
    if !starts_with_at(t, 0, prefix) {
        return None;
    }
    let n = prefix.unicode_len();
    if t.len() <= n || t[t.len() - 1] != ')' {
        return None;
    }
    Some(string_from_range(t, n, t.len() - 1))
}

/// Every piece is digits and dots.
pub open spec fn all_digits_and_dots(parts: Seq<Seq<char>>) -> bool {
    forall|i: int| 0 <= i < parts.len() ==> digits_and_dots(#[trigger] parts[i])
}

fn all_are_digits_and_dots(parts: &Vec<String>) -> (b: bool)
    ensures
        b == all_digits_and_dots(parts.deep_view()),
{
    let mut i: usize = 0;
    while i < parts.len()
        invariant
            i <= parts.len(),
            forall|j: int| 0 <= j < i ==> digits_and_dots(#[trigger] parts.deep_view()[j]),
        decreases parts.len() - i,
    {
        if !is_digits_and_dots(parts[i].as_str()) {
            assert(parts.deep_view()[i as int] == parts@[i as int]@);
            return false;
        }
        assert(parts.deep_view()[i as int] == parts@[i as int]@);
        i += 1;
    }
    true
}

/// A color text as red, green and blue numbers read it: hex digits (3, 6 or
/// 8 of them), the plain-number arguments of `rgb()` (three) or `rgba()`
/// (four), or neither.
#[derive(Debug, Clone, PartialEq)]
pub enum RgbForm {
    Hex(u8, u8, u8, u8),
    Numbers(Vec<String>),
    Unknown,
}

pub enum RgbFormV {
    Hex(u8, u8, u8, u8),
    Numbers(Seq<Seq<char>>),
    Unknown,
}

impl DeepView for RgbForm {
    type V = RgbFormV;

    open spec fn deep_view(&self) -> RgbFormV {
        match self {
            RgbForm::Hex(r, g, b, a) => RgbFormV::Hex(*r, *g, *b, *a),
            RgbForm::Numbers(parts) => RgbFormV::Numbers(parts.deep_view()),
            RgbForm::Unknown => RgbFormV::Unknown,
        }
    }
}

/// The arguments of a call whose body is `body`, where there are `count` of
/// them and each is digits and dots.
pub open spec fn plain_numbers(body: Seq<char>, count: nat) -> RgbFormV {
    let parts = trim_all(split_commas(body));
    if parts.len() == count && all_digits_and_dots(parts) {
        RgbFormV::Numbers(parts)
    } else {
        RgbFormV::Unknown
    }
}

/// The form of an already lower-cased color text, trimmed: `#` and hex
/// digits (not four of them), `rgb(...)` of three plain numbers, or
/// `rgba(...)` of four.
pub open spec fn rgb_form_model(lower: Seq<char>) -> RgbFormV {
    let t = trim_ws(lower);
    if t.len() > 0 && t[0] == '#' {
        let hex = t.drop_first();
        if hex.len() == 4 {
            RgbFormV::Unknown
        } else {
            match hex_rgba_model(hex) {
                Some((r, g, b, a)) => RgbFormV::Hex(r, g, b, a),
                None => RgbFormV::Unknown,
            }
        }
    } else {
        match call_body(t, "rgb("@) {
            Some(body) => plain_numbers(body, 3),
            None => match call_body(t, "rgba("@) {
                Some(body) => plain_numbers(body, 4),
                None => RgbFormV::Unknown,
            },
        }
    }
}

fn plain_numbers_of(body: &str, count: usize) -> (r: RgbForm)
    ensures
        r.deep_view() == plain_numbers(body@, count as nat),
{
    let parts = comma_parts(body);
    if parts.len() == count && all_are_digits_and_dots(&parts) {
        RgbForm::Numbers(parts)
    } else {
        RgbForm::Unknown
    }
}

/// The form of a color text that is already lower case.
pub fn rgb_form_of_lowered(lower: &str) -> (r: RgbForm)
    ensures
        r.deep_view() == rgb_form_model(lower@),
{
    let chars = chars_of(lower);
    let trimmed = trimmed_range(&chars, 0, chars.len());
    proof {
        assert(chars@.subrange(0, chars@.len() as int) =~= chars@);
    }
    let t = chars_of(trimmed.as_str());
    if t.len() > 0 && t[0] == '#' {
        let hex = string_from_range(&t, 1, t.len());
        proof {
            assert(t@.subrange(1, t@.len() as int) =~= t@.drop_first());
        }
        if t.len() - 1 == 4 {
            return RgbForm::Unknown;
        }
        return match hex_rgba(hex.as_str()) {
            Some((r, g, b, a)) => RgbForm::Hex(r, g, b, a),
            None => RgbForm::Unknown,
        };
    }
    if let Some(body) = call_body_of(&t, "rgb(") {
        return plain_numbers_of(body.as_str(), 3);
    }
    match call_body_of(&t, "rgba(") {
        Some(body) => plain_numbers_of(body.as_str(), 4),
        None => RgbForm::Unknown,
    }
}

/// The form of a color text in any case: lower-cased, then read as
/// `rgb_form_of_lowered` reads it.
pub fn rgb_form(color: &str) -> (r: RgbForm)
    ensures
        r.deep_view() == rgb_form_model(lowercase(color@)),
        is_ascii_text(color@) ==> r.deep_view() == rgb_form_model(ascii_lowercase(color@)),
{
    let lower = to_lowercase(color);
    rgb_form_of_lowered(lower.as_str())
}

/// A CSS color text as its parts: hex digits (read into channels where they
/// are 3, 4, 6 or 8), the arguments of an `rgb()`/`rgba()` or `hsl()`/`hsla()`
/// call, or else a name (lower-cased).
#[derive(Debug, Clone, PartialEq)]
pub enum CssForm {
    Hex(Option<(u8, u8, u8, u8)>),
    Rgb(Vec<String>),
    Hsl(Vec<String>),
    Named(String),
}

pub enum CssFormV {
    Hex(Option<(u8, u8, u8, u8)>),
    Rgb(Seq<Seq<char>>),
    Hsl(Seq<Seq<char>>),
    Named(Seq<char>),
}

impl DeepView for CssForm {
    type V = CssFormV;

    open spec fn deep_view(&self) -> CssFormV {
        match self {
            CssForm::Hex(c) => CssFormV::Hex(*c),
            CssForm::Rgb(parts) => CssFormV::Rgb(parts.deep_view()),
            CssForm::Hsl(parts) => CssFormV::Hsl(parts.deep_view()),
            CssForm::Named(name) => CssFormV::Named(name@),
        }
    }
}

/// The body of the first of two calls whose name starts the text (`long`
/// tried first): where the text starts with a name but does not end with
/// `)`, there is no body.
pub open spec fn first_call_body(l: Seq<char>, long: Seq<char>, short: Seq<char>) -> Option<Seq<char>> {
    if starts_at(l, 0, long) {
        call_body(l, long)
    } else {
        call_body(l, short)
    }
}

/// The form of a lower-cased color text that does not start with `#`.
pub open spec fn css_function_model(l: Seq<char>) -> CssFormV {
    match first_call_body(l, "rgba("@, "rgb("@) {
        Some(body) => CssFormV::Rgb(function_args(body)),
        None => match first_call_body(l, "hsla("@, "hsl("@) {
            Some(body) => CssFormV::Hsl(function_args(body)),
            None => CssFormV::Named(l),
        },
    }
}

/// The form of a CSS color text: trimmed, a `#` starts hex digits; anything
/// else is lower-cased and read as a call or a name.
pub open spec fn css_form_model(input: Seq<char>) -> CssFormV {
    let t = trim_ws(input);
    if t.len() > 0 && t[0] == '#' {
        CssFormV::Hex(hex_rgba_model(t.drop_first()))
    } else {
        css_function_model(lowercase(t))
    }
}

fn first_call_body_of(l: &Vec<char>, long: &str, short: &str) -> (r: Option<String>)
    ensures
        match first_call_body(l@, long@, short@) {
            Some(body) => r matches Some(b) && b@ == body,
            None => r is None,
        },
{
    if starts_with_at(l, 0, long) {
        call_body_of(l, long)
    } else {
        call_body_of(l, short)
    }
}

/// The form of a lower-cased color text that does not start with `#`.
pub fn css_function_form(lowered: &str) -> (r: CssForm)
    ensures
        r.deep_view() == css_function_model(lowered@),
{
    let l = chars_of(lowered);
    if let Some(body) = first_call_body_of(&l, "rgba(", "rgb(") {
        return CssForm::Rgb(split_function_args(body.as_str()));
    }
    if let Some(body) = first_call_body_of(&l, "hsla(", "hsl(") {
        return CssForm::Hsl(split_function_args(body.as_str()));
    }
    CssForm::Named(lowered.to_owned())
}

proof fn lemma_trim_ws_ascii(s: Seq<char>)
    requires
        is_ascii_text(s),
    ensures
        is_ascii_text(trim_ws(s)),
{
    lemma_skip_ws_bounds(s, 0);
    lemma_trim_end_bounds(s, s.len() as int);
    let t = trim_ws(s);
    if skip_ws(s, 0) < trim_end_ws(s, s.len() as int) {
        assert forall|i: int| 0 <= i < t.len() implies (#[trigger] t[i] as u32) < 0x80 by {
            assert(t[i] == s[skip_ws(s, 0) + i]);
        }
    }
}

/// `css_form_model` where the text is ASCII: the lower-casing is the ASCII one.
pub open spec fn css_form_ascii_model(input: Seq<char>) -> CssFormV {
    let t = trim_ws(input);
    if t.len() > 0 && t[0] == '#' {
        CssFormV::Hex(hex_rgba_model(t.drop_first()))
    } else {
        css_function_model(ascii_lowercase(t))
    }
}

/// The form of a CSS color text.
pub fn css_form(input: &str) -> (r: CssForm)
    ensures
        r.deep_view() == css_form_model(input@),
        is_ascii_text(input@) ==> r.deep_view() == css_form_ascii_model(input@),
{
    let chars = chars_of(input);
    let trimmed = trimmed_range(&chars, 0, chars.len());
    proof {
        assert(chars@.subrange(0, chars@.len() as int) =~= chars@);
    }
    let t = chars_of(trimmed.as_str());
    if t.len() > 0 && t[0] == '#' {
        let hex = string_from_range(&t, 1, t.len());
        proof {
            assert(t@.subrange(1, t@.len() as int) =~= t@.drop_first());
        }
        return CssForm::Hex(hex_rgba(hex.as_str()));
    }
    proof {
        if is_ascii_text(input@) {
            lemma_trim_ws_ascii(input@);
        }
    }
    let lowered = to_lowercase(trimmed.as_str());
    css_function_form(lowered.as_str())
}

} // verus!
