//! The text that JavaScript's `parseFloat` reads a number from.
//!
//! `parseFloat` skips leading whitespace, takes an optional sign, and then
//! reads either `Infinity` or the longest prefix that is a decimal literal:
//! digits with at most one dot (at least one digit among them), then an
//! optional exponent (`e` or `E`, an optional sign, at least one digit).
//! Anything after that prefix is ignored. This module finds that prefix; the
//! conversion of the literal to a float is left to the caller.

use vstd::prelude::*;
use crate::chars::{
    all_ws, chars_of, is_ws, lemma_skip_ws_bounds, lemma_skip_ws_over, skip_whitespace_from, skip_ws,
    string_from_range,
};
use crate::graphics::gradient::scan::{
    is_digit, run_len, run_length, starts_at, starts_with_at, CharClass,
};

verus! {

/// What `parseFloat` finds at the start of a text.
#[derive(Clone, Debug, PartialEq)]
pub enum JsNumber {
    /// `Infinity`, after an optional sign.
    Infinite { negative: bool },
    /// No number: `NaN`.
    NotANumber,
    /// A decimal literal (without its sign), to be read as a float and
    /// negated where `negative` holds.
    Decimal { negative: bool, literal: String },
}

pub enum JsNumberV {
    Infinite { negative: bool },
    NotANumber,
    Decimal { negative: bool, literal: Seq<char> },
}

impl View for JsNumber {
    type V = JsNumberV;

    open spec fn view(&self) -> JsNumberV {
        match self {
            JsNumber::Infinite { negative } => JsNumberV::Infinite { negative: *negative },
            JsNumber::NotANumber => JsNumberV::NotANumber,
            JsNumber::Decimal { negative, literal } => JsNumberV::Decimal {
                negative: *negative,
                literal: literal@,
            },
        }
    }
}

/// The end of the run from `p` of digits and dots in which at most one dot
/// occurs (none more where `dot_seen`).
pub open spec fn mantissa_end(s: Seq<char>, p: int, dot_seen: bool) -> int
    decreases s.len() - p,
{
    if 0 <= p < s.len() && is_digit(s[p]) {
        mantissa_end(s, p + 1, dot_seen)
    } else if 0 <= p < s.len() && s[p] == '.' && !dot_seen {
        mantissa_end(s, p + 1, true)
    } else {
        p
    }
}

/// Some digit lies in `s[from..to]`.
pub open spec fn has_digit(s: Seq<char>, from: int, to: int) -> bool {
    exists|i: int| from <= i < to && #[trigger] is_digit(s[i])
}

/// The end of a decimal literal whose mantissa ends at `m`: past the exponent
/// where one follows (`e` or `E`, an optional sign, at least one digit), else
/// `m`.
pub open spec fn exponent_end(s: Seq<char>, m: int) -> int {
    if 0 <= m < s.len() && (s[m] == 'e' || s[m] == 'E') {
        let q = if m + 1 < s.len() && (s[m + 1] == '+' || s[m + 1] == '-') {
            m + 2
        } else {
            m + 1
        };
        let d = run_len(s, q, CharClass::Digit);
        if d > 0 {
            q + d
        } else {
            m
        }
    } else {
        m
    }
}

/// Where the number starts: after leading whitespace and one sign.
pub open spec fn number_start(s: Seq<char>) -> int {
    let t = skip_ws(s, 0);
    if t < s.len() && (s[t] == '-' || s[t] == '+') {
        t + 1
    } else {
        t
    }
}

/// What `parseFloat` reads from `s`.
pub open spec fn js_number_model(s: Seq<char>) -> JsNumberV {
    let t = skip_ws(s, 0);
    let negative = t < s.len() && s[t] == '-';
    let r = number_start(s);
    if starts_at(s, r, "Infinity"@) {
        JsNumberV::Infinite { negative }
    } else {
        let m = mantissa_end(s, r, false);
        if has_digit(s, r, m) {
            JsNumberV::Decimal { negative, literal: s.subrange(r, exponent_end(s, m)) }
        } else {
            JsNumberV::NotANumber
        }
    }
}

proof fn lemma_skip_ws_shift(pre: Seq<char>, s: Seq<char>, p: int)
    requires
        0 <= p <= s.len(),
    ensures
        skip_ws(pre + s, pre.len() + p) == pre.len() + skip_ws(s, p),
    decreases s.len() - p,
{
    let u = pre + s;
    let k = pre.len() as int;
    if p < s.len() {
        assert(u[k + p] == s[p]);
        if is_ws(s[p]) {
            lemma_skip_ws_shift(pre, s, p + 1);
        }
    }
}

proof fn lemma_mantissa_shift(pre: Seq<char>, s: Seq<char>, p: int, dot_seen: bool)
    requires
        0 <= p <= s.len(),
    ensures
        mantissa_end(pre + s, pre.len() + p, dot_seen) == pre.len() + mantissa_end(s, p, dot_seen),
        p <= mantissa_end(s, p, dot_seen) <= s.len(),
    decreases s.len() - p,
{
    let u = pre + s;
    let k = pre.len() as int;
    if p < s.len() {
        assert(u[k + p] == s[p]);
        if is_digit(s[p]) {
            lemma_mantissa_shift(pre, s, p + 1, dot_seen);
        } else if s[p] == '.' && !dot_seen {
            lemma_mantissa_shift(pre, s, p + 1, true);
        }
    }
}

proof fn lemma_digit_run_shift(pre: Seq<char>, s: Seq<char>, p: int)
    requires
        0 <= p <= s.len(),
    ensures
        run_len(pre + s, pre.len() + p, CharClass::Digit) == run_len(s, p, CharClass::Digit),
        0 <= run_len(s, p, CharClass::Digit) <= s.len() - p,
    decreases s.len() - p,
{
    let u = pre + s;
    let k = pre.len() as int;
    if p < s.len() {
        assert(u[k + p] == s[p]);
        lemma_digit_run_shift(pre, s, p + 1);
    }
}

proof fn lemma_exponent_shift(pre: Seq<char>, s: Seq<char>, m: int)
    requires
        0 <= m <= s.len(),
    ensures
        exponent_end(pre + s, pre.len() + m) == pre.len() + exponent_end(s, m),
        m <= exponent_end(s, m) <= s.len(),
{
    let u = pre + s;
    let k = pre.len() as int;
    if m < s.len() {
        assert(u[k + m] == s[m]);
        if m + 1 < s.len() {
            assert(u[k + m + 1] == s[m + 1]);
        }
        if s[m] == 'e' || s[m] == 'E' {
            let q = if m + 1 < s.len() && (s[m + 1] == '+' || s[m + 1] == '-') {
                m + 2
            } else {
                m + 1
            };
            lemma_digit_run_shift(pre, s, q);
            assert(k + q == (if k + m + 1 < u.len() && (u[k + m + 1] == '+' || u[k + m + 1] == '-') {
                k + m + 2
            } else {
                k + m + 1
            }));
        }
    }
}

/// Whitespace before a number does not change what `parseFloat` reads.
pub proof fn leading_whitespace_is_skipped(pre: Seq<char>, s: Seq<char>)
    requires
        all_ws(pre),
    ensures
        js_number_model(pre + s) == js_number_model(s),
{
    let u = pre + s;
    let k = pre.len() as int;
    assert forall|i: int| 0 <= i < k implies is_ws(#[trigger] u[i]) by {
        assert(u[i] == pre[i]);
    }
    lemma_skip_ws_over(u, 0, k);
    lemma_skip_ws_shift(pre, s, 0);
    lemma_skip_ws_bounds(s, 0);
    let t = skip_ws(s, 0);
    assert(skip_ws(u, 0) == k + t);
    if t < s.len() {
        assert(u[k + t] == s[t]);
    }
    let r = number_start(s);
    assert(number_start(u) == k + r);
    assert(starts_at(u, k + r, "Infinity"@) == starts_at(s, r, "Infinity"@)) by {
        if starts_at(s, r, "Infinity"@) {
            assert forall|i: int| 0 <= i < "Infinity"@.len() implies u[k + r + i] == "Infinity"@[i] by {
                assert(u[k + r + i] == s[r + i]);
            }
        }
        if starts_at(u, k + r, "Infinity"@) {
            assert forall|i: int| 0 <= i < "Infinity"@.len() implies s[r + i] == "Infinity"@[i] by {
                assert(u[k + r + i] == s[r + i]);
            }
        }
    }
    lemma_mantissa_shift(pre, s, r, false);
    let m = mantissa_end(s, r, false);
    assert(has_digit(u, k + r, k + m) == has_digit(s, r, m)) by {
        if has_digit(s, r, m) {
            let i = choose|i: int| r <= i < m && #[trigger] is_digit(s[i]);
            assert(u[k + i] == s[i]);
        }
        if has_digit(u, k + r, k + m) {
            let i = choose|i: int| k + r <= i < k + m && #[trigger] is_digit(u[i]);
            assert(u[i] == s[i - k]);
        }
    }
    lemma_exponent_shift(pre, s, m);
    let e = exponent_end(s, m);
    assert(u.subrange(k + r, k + e) =~= s.subrange(r, e));
}

/// A character at which no number text can go on: not a digit, a dot or an
/// exponent mark.
pub open spec fn ends_number(c: char) -> bool {
    !is_digit(c) && c != '.' && c != 'e' && c != 'E'
}

proof fn lemma_skip_ws_prefix(s: Seq<char>, tail: Seq<char>, p: int)
    requires
        0 <= p <= skip_ws(s, 0) < s.len(),
        skip_ws(s, 0) == skip_ws(s, p),
    ensures
        skip_ws(s + tail, p) == skip_ws(s, p),
    decreases s.len() - p,
{
    let u = s + tail;
    lemma_skip_ws_bounds(s, p);
    assert(u[p] == s[p]);
    if is_ws(s[p]) {
        lemma_skip_ws_prefix(s, tail, p + 1);
    }
}

proof fn lemma_mantissa_extend(s: Seq<char>, tail: Seq<char>, p: int, dot_seen: bool)
    requires
        0 <= p <= s.len(),
        tail.len() > 0 ==> ends_number(tail[0]),
    ensures
        mantissa_end(s + tail, p, dot_seen) == mantissa_end(s, p, dot_seen),
    decreases s.len() - p,
{
    let u = s + tail;
    if p < s.len() {
        assert(u[p] == s[p]);
        if is_digit(s[p]) {
            lemma_mantissa_extend(s, tail, p + 1, dot_seen);
        } else if s[p] == '.' && !dot_seen {
            lemma_mantissa_extend(s, tail, p + 1, true);
        }
    } else if tail.len() > 0 {
        assert(u[p] == tail[0]);
    }
}

proof fn lemma_digit_run_extend(s: Seq<char>, tail: Seq<char>, p: int)
    requires
        0 <= p <= s.len(),
        tail.len() > 0 ==> ends_number(tail[0]),
    ensures
        run_len(s + tail, p, CharClass::Digit) == run_len(s, p, CharClass::Digit),
    decreases s.len() - p,
{
    let u = s + tail;
    if p < s.len() {
        assert(u[p] == s[p]);
        lemma_digit_run_extend(s, tail, p + 1);
    } else if tail.len() > 0 {
        assert(u[p] == tail[0]);
    }
}

/// Text after a number that `parseFloat` reads to the end does not change the
/// number, where the text starts with no digit, dot or exponent mark; nor does
/// any text after `Infinity`.
pub proof fn trailing_text_is_ignored(s: Seq<char>, tail: Seq<char>)
    requires
        match js_number_model(s) {
            JsNumberV::Decimal { literal, .. } => {
                &&& number_start(s) + literal.len() == s.len()
                &&& tail.len() > 0 ==> ends_number(tail[0])
            },
            JsNumberV::Infinite { .. } => true,
            JsNumberV::NotANumber => false,
        },
    ensures
        js_number_model(s + tail) == js_number_model(s),
{
    let u = s + tail;
    let t = skip_ws(s, 0);
    lemma_skip_ws_bounds(s, 0);
    let r = number_start(s);
    if t == s.len() {
        // Nothing but whitespace: no number is read.
        assert(r == s.len());
        assert(!starts_at(s, r, "Infinity"@)) by {
            reveal_strlit("Infinity");
        }
        assert(mantissa_end(s, r, false) == r);
        assert(!has_digit(s, r, r));
        assert(false);
    }
    lemma_skip_ws_prefix(s, tail, 0);
    assert(skip_ws(u, 0) == t);
    assert(u[t] == s[t]);
    assert(number_start(u) == r);
    if starts_at(s, r, "Infinity"@) {
        assert forall|i: int| 0 <= i < "Infinity"@.len() implies u[r + i] == "Infinity"@[i] by {
            assert(u[r + i] == s[r + i]);
        }
        assert(starts_at(u, r, "Infinity"@));
    } else {
        let m = mantissa_end(s, r, false);
        lemma_mantissa_shift(Seq::empty(), s, r, false);
        assert(Seq::<char>::empty() + s =~= s);
        let e = exponent_end(s, m);
        lemma_exponent_shift(Seq::empty(), s, m);
        assert(e == s.len());
        assert(!starts_at(u, r, "Infinity"@)) by {
            reveal_strlit("Infinity");
            if starts_at(u, r, "Infinity"@) {
                if r + 8 <= s.len() {
                    assert forall|i: int| 0 <= i < "Infinity"@.len() implies s[r + i] == "Infinity"@[i] by {
                        assert(u[r + i] == s[r + i]);
                    }
                } else {
                    // The number would end inside the word, but a literal
                    // of at least one digit fills it.
                    let i = choose|i: int| r <= i < m && #[trigger] is_digit(s[i]);
                    assert(u[i] == s[i]);
                    assert(u[i] == "Infinity"@[i - r]);
                }
            }
        }
        lemma_mantissa_extend(s, tail, r, false);
        assert(has_digit(u, r, m) == has_digit(s, r, m)) by {
            if has_digit(s, r, m) {
                let i = choose|i: int| r <= i < m && #[trigger] is_digit(s[i]);
                assert(u[i] == s[i]);
            }
            if has_digit(u, r, m) {
                let i = choose|i: int| r <= i < m && #[trigger] is_digit(u[i]);
                assert(u[i] == s[i]);
            }
        }
        if m < s.len() {
            assert(u[m] == s[m]);
            if m + 1 < s.len() {
                assert(u[m + 1] == s[m + 1]);
            }
            let q = if m + 1 < s.len() && (s[m + 1] == '+' || s[m + 1] == '-') {
                m + 2
            } else {
                m + 1
            };
            lemma_digit_run_extend(s, tail, q);
            if m + 1 == s.len() && tail.len() > 0 {
                assert(u[m + 1] == tail[0]);
            }
        } else if tail.len() > 0 {
            assert(u[m] == tail[0]);
        }
        assert(exponent_end(u, m) == e);
        assert(u.subrange(r, e) =~= s.subrange(r, e));
    }
}

/// Reads the number at the start of `value` as JavaScript's `parseFloat`
/// does, up to the conversion of the literal it finds.
pub fn scan_js_number(value: &str) -> (r: JsNumber)
    ensures
        r@ == js_number_model(value@),
{
    let v = chars_of(value);
    let n = v.len();
    let t = skip_whitespace_from(&v, 0);
    let negative = t < n && v[t] == '-';
    let r = if t < n && (v[t] == '-' || v[t] == '+') {
        t + 1
    } else {
        t
    };
    assert(r as int == number_start(v@));
    if starts_with_at(&v, r, "Infinity") {
        return JsNumber::Infinite { negative };
    }
    let mut i = r;
    let mut dot_seen = false;
    let mut digit_seen = false;
    while i < n
        invariant
            n == v.len(),
            r <= i <= n,
            mantissa_end(v@, r as int, false) == mantissa_end(v@, i as int, dot_seen),
            digit_seen <==> has_digit(v@, r as int, i as int),
        ensures
            mantissa_end(v@, r as int, false) == i,
            digit_seen <==> has_digit(v@, r as int, i as int),
        decreases n - i,
    {
        let c = v[i];
        if '0' <= c && c <= '9' {
            assert(is_digit(v@[i as int]));
            digit_seen = true;
            i += 1;
        } else if c == '.' && !dot_seen {
            assert(!is_digit(v@[i as int]));
            dot_seen = true;
            i += 1;
        } else {
            break;
        }
    }
    if !digit_seen {
        return JsNumber::NotANumber;
    }
    let m = i;
    let mut end = m;
    if m < n && (v[m] == 'e' || v[m] == 'E') {
        let q = if m + 1 < n && (v[m + 1] == '+' || v[m + 1] == '-') {
            m + 2
        } else {
            m + 1
        };
        let d = run_length(&v, q, CharClass::Digit);
        if d > 0 {
            end = q + d;
        }
    }
    assert(end as int == exponent_end(v@, m as int));
    JsNumber::Decimal { negative, literal: string_from_range(&v, r, end) }
}

} // verus!
