//! Token scanners of the gradient grammar. Each scanner looks at the input from
//! a position and, on a hit, reports `(total, capture_start, capture_end)`:
//! how many characters the token spans and which of them are its value.

use vstd::prelude::*;
use vstd::string::*;
use crate::chars::{is_ws, is_whitespace};

verus! {

/// What a scanner finds at a position. `Crash` stands for an input on which the
/// byte-offset slicing of the scanner would not fall on a character boundary.
pub enum Scan {
    Hit(int, int, int),
    Miss,
    Crash,
}

/// A scanner's executable result agrees with its model (nothing is owed where
/// the model crashes).
pub open spec fn scan_agrees(model: Scan, r: Option<(usize, usize, usize)>) -> bool {
    match model {
        Scan::Crash => true,
        Scan::Miss => r is None,
        Scan::Hit(t, a, b) => r matches Some(m) && m.0 == t && m.1 == a && m.2 == b,
    }
}

/// A keyword match reports the length of the keyword.
pub open spec fn len_agrees(model: Scan, r: Option<usize>) -> bool {
    match model {
        Scan::Crash => true,
        Scan::Miss => r is None,
        Scan::Hit(t, _, _) => r matches Some(n) && n == t,
    }
}

/// Every hit lies inside the input and its capture inside the hit.
pub open spec fn scan_in_bounds(len: int, p: int, r: Option<(usize, usize, usize)>) -> bool {
    r matches Some(m) ==> m.1 <= m.2 <= m.0 && p + m.0 <= len
}

/// Number of bytes of `c` in UTF-8.
pub open spec fn utf8_width(c: char) -> int {
    let u = c as u32;
    if u < 0x80 {
        1
    } else if u < 0x800 {
        2
    } else if u < 0x10000 {
        3
    } else {
        4
    }
}

/// Whether the byte offset `n` of the text that starts at `p` falls inside a
/// character, while the text has at least `n` bytes: the case in which taking
/// its first `n` bytes as a string slice panics.
pub open spec fn cuts_char(s: Seq<char>, p: int, n: int) -> bool
    decreases s.len() - p,
{
    if n <= 0 || p < 0 || p >= s.len() {
        false
    } else if utf8_width(s[p]) > n {
        true
    } else {
        cuts_char(s, p + 1, n - utf8_width(s[p]))
    }
}

/// The code of `c` with ASCII upper-case letters mapped to lower case.
pub open spec fn lower_code(c: char) -> u32 {
    let u = c as u32;
    if 65 <= u <= 90 {
        (u + 32) as u32
    } else {
        u
    }
}

/// The text at `p` begins with `kw`, ignoring ASCII case.
pub open spec fn ci_matches(s: Seq<char>, p: int, kw: Seq<char>) -> bool {
    &&& 0 <= p
    &&& p + kw.len() <= s.len()
    &&& forall|i: int| 0 <= i < kw.len() ==> lower_code(s[p + i]) == lower_code(kw[i])
}

/// The text at `p` begins with `kw`, exactly.
pub open spec fn starts_at(s: Seq<char>, p: int, kw: Seq<char>) -> bool {
    &&& 0 <= p
    &&& p + kw.len() <= s.len()
    &&& forall|i: int| 0 <= i < kw.len() ==> s[p + i] == kw[i]
}

/// Case-insensitive prefix match of an ASCII keyword, as a whole token.
pub open spec fn ci_prefix_model(s: Seq<char>, p: int, kw: Seq<char>) -> Scan {
    if ci_matches(s, p, kw) {
        Scan::Hit(kw.len() as int, 0, kw.len() as int)
    } else if cuts_char(s, p, kw.len() as int) {
        Scan::Crash
    } else {
        Scan::Miss
    }
}

pub fn match_ci_prefix(s: &Vec<char>, p: usize, kw: &str) -> (r: Option<usize>)
    requires
        p <= s.len(),
    ensures
        len_agrees(ci_prefix_model(s@, p as int, kw@), r),
        r is Some <==> ci_matches(s@, p as int, kw@),
        r matches Some(n) ==> n == kw@.len() && p + n <= s.len(),
{
    let n = kw.unicode_len();
    if n > s.len() - p {
        return None;
    }
    let mut i: usize = 0;
    while i < n
        invariant
            n == kw@.len(),
            p + n <= s.len(),
            i <= n,
            forall|j: int| 0 <= j < i ==> lower_code(s@[p + j]) == lower_code(kw@[j]),
        decreases n - i,
    {
        let a = s[p + i] as u32;
        let b = kw.get_char(i) as u32;
        let la = if 65 <= a && a <= 90 { a + 32 } else { a };
        let lb = if 65 <= b && b <= 90 { b + 32 } else { b };
        if la != lb {
            return None;
        }
        i += 1;
    }
    Some(n)
}

/// Exact prefix test at a position.
pub fn starts_with_at(s: &Vec<char>, p: usize, kw: &str) -> (b: bool)
    requires
        p <= s.len(),
    ensures
        b == starts_at(s@, p as int, kw@),
{
    let n = kw.unicode_len();
    if n > s.len() - p {
        return false;
    }
    let mut i: usize = 0;
    while i < n
        invariant
            n == kw@.len(),
            p + n <= s.len(),
            i <= n,
            forall|j: int| 0 <= j < i ==> s@[p + j] == kw@[j],
        decreases n - i,
    {
        if s[p + i] != kw.get_char(i) {
            return false;
        }
        i += 1;
    }
    true
}

/// Classes of characters that a token is made of.
pub enum CharClass {
    Digit,
    HexDigit,
    Alpha,
    VariableName,
}

pub open spec fn is_digit(c: char) -> bool {
    '0' <= c <= '9'
}

pub open spec fn is_hex_digit(c: char) -> bool {
    ||| '0' <= c <= '9'
    ||| 'a' <= c <= 'f'
    ||| 'A' <= c <= 'F'
}

pub open spec fn is_alpha(c: char) -> bool {
    ||| 'a' <= c <= 'z'
    ||| 'A' <= c <= 'Z'
}

pub open spec fn in_class(class: CharClass, c: char) -> bool {
    match class {
        CharClass::Digit => is_digit(c),
        CharClass::HexDigit => is_hex_digit(c),
        CharClass::Alpha => is_alpha(c),
        CharClass::VariableName => is_alpha(c) || is_digit(c) || c == '-' || c == ',' || c == '#'
            || is_ws(c),
    }
}

/// Length of the run of characters of `class` that starts at `p`.
pub open spec fn run_len(s: Seq<char>, p: int, class: CharClass) -> int
    decreases s.len() - p,
{
    if 0 <= p < s.len() && in_class(class, s[p]) {
        1 + run_len(s, p + 1, class)
    } else {
        0
    }
}

fn class_contains(class: &CharClass, c: char) -> (b: bool)
    ensures
        b == in_class(*class, c),
{
    match class {
        CharClass::Digit => '0' <= c && c <= '9',
        CharClass::HexDigit => ('0' <= c && c <= '9') || ('a' <= c && c <= 'f') || ('A' <= c && c
            <= 'F'),
        CharClass::Alpha => ('a' <= c && c <= 'z') || ('A' <= c && c <= 'Z'),
        CharClass::VariableName => ('a' <= c && c <= 'z') || ('A' <= c && c <= 'Z') || ('0' <= c
            && c <= '9') || c == '-' || c == ',' || c == '#' || is_whitespace(c),
    }
}

pub fn run_length(s: &Vec<char>, p: usize, class: CharClass) -> (n: usize)
    requires
        p <= s.len(),
    ensures
        n == run_len(s@, p as int, class),
        p + n <= s.len(),
{
    let mut i = p;
    while i < s.len() && class_contains(&class, s[i])
        invariant
            p <= i <= s.len(),
            run_len(s@, p as int, class) == (i - p) + run_len(s@, i as int, class),
        decreases s.len() - i,
    {
        i += 1;
    }
    i - p
}


/// The first scan that does not miss.
pub open spec fn or_else(first: Scan, second: Scan) -> Scan {
    match first {
        Scan::Miss => second,
        _ => first,
    }
}

/// An exact keyword as a whole token.
pub open spec fn exact_model(s: Seq<char>, p: int, kw: Seq<char>) -> Scan {
    if starts_at(s, p, kw) {
        Scan::Hit(kw.len() as int, 0, kw.len() as int)
    } else {
        Scan::Miss
    }
}

pub fn whole(len: usize) -> (r: Option<(usize, usize, usize)>)
    ensures
        r == Some((len, 0usize, len)),
{
    Some((len, 0, len))
}

/// Length of the unsigned number at `p`: digits, optionally followed by a dot
/// and more digits (`5`, `5.`, `5.25`, `.25`; a lone `.` is no number).
pub open spec fn number_len(s: Seq<char>, p: int) -> Option<int> {
    let i = p + run_len(s, p, CharClass::Digit);
    if 0 <= i < s.len() && s[i] == '.' {
        let f = i + 1;
        let e = f + run_len(s, f, CharClass::Digit);
        if e > f {
            Some(e - p)
        } else if i > p {
            Some(f - p)
        } else {
            None
        }
    } else if i > p {
        Some(i - p)
    } else {
        None
    }
}

pub fn scan_number_str(s: &Vec<char>, p: usize) -> (r: Option<usize>)
    requires
        p <= s.len(),
    ensures
        match number_len(s@, p as int) {
            None => r is None,
            Some(n) => r matches Some(m) && m == n,
        },
        r matches Some(m) ==> 0 < m && p + m <= s.len(),
{
    let int_len = run_length(s, p, CharClass::Digit);
    let index = p + int_len;
    if index < s.len() && s[index] == '.' {
        let frac_start = index + 1;
        let frac_len = run_length(s, frac_start, CharClass::Digit);
        if frac_len > 0 {
            return Some(frac_start + frac_len - p);
        }
        if int_len > 0 {
            return Some(frac_start - p);
        }
        return None;
    }
    if int_len > 0 {
        Some(int_len)
    } else {
        None
    }
}

/// An optionally negative number followed by `unit`; the capture is the number
/// with its sign, without the unit.
pub open spec fn signed_unit_model(s: Seq<char>, p: int, unit: Seq<char>) -> Scan {
    let sign: int = if 0 <= p < s.len() && s[p] == '-' {
        1
    } else {
        0
    };
    match number_len(s, p + sign) {
        None => Scan::Miss,
        Some(n) => if starts_at(s, p + sign + n, unit) {
            Scan::Hit(sign + n + unit.len(), 0, sign + n)
        } else {
            Scan::Miss
        },
    }
}

pub fn scan_signed_number_unit(s: &Vec<char>, p: usize, unit: &str) -> (r: Option<
    (usize, usize, usize),
>)
    requires
        p <= s.len(),
    ensures
        scan_agrees(signed_unit_model(s@, p as int, unit@), r),
        scan_in_bounds(s.len() as int, p as int, r),
{
    let sign_len: usize = if p < s.len() && s[p] == '-' {
        1
    } else {
        0
    };
    let number_len = scan_number_str(s, p + sign_len)?;
    if starts_with_at(s, p + sign_len + number_len, unit) {
        Some((sign_len + number_len + unit.unicode_len(), 0, sign_len + number_len))
    } else {
        None
    }
}

pub fn scan_percentage(s: &Vec<char>, p: usize) -> (r: Option<(usize, usize, usize)>)
    requires
        p <= s.len(),
    ensures
        scan_agrees(signed_unit_model(s@, p as int, "%"@), r),
        scan_in_bounds(s.len() as int, p as int, r),
{
    scan_signed_number_unit(s, p, "%")
}

pub fn scan_px(s: &Vec<char>, p: usize) -> (r: Option<(usize, usize, usize)>)
    requires
        p <= s.len(),
    ensures
        scan_agrees(signed_unit_model(s@, p as int, "px"@), r),
        scan_in_bounds(s.len() as int, p as int, r),
{
    scan_signed_number_unit(s, p, "px")
}

pub fn scan_em(s: &Vec<char>, p: usize) -> (r: Option<(usize, usize, usize)>)
    requires
        p <= s.len(),
    ensures
        scan_agrees(signed_unit_model(s@, p as int, "em"@), r),
        scan_in_bounds(s.len() as int, p as int, r),
{
    scan_signed_number_unit(s, p, "em")
}

pub fn scan_deg(s: &Vec<char>, p: usize) -> (r: Option<(usize, usize, usize)>)
    requires
        p <= s.len(),
    ensures
        scan_agrees(signed_unit_model(s@, p as int, "deg"@), r),
        scan_in_bounds(s.len() as int, p as int, r),
{
    scan_signed_number_unit(s, p, "deg")
}

pub fn scan_rad(s: &Vec<char>, p: usize) -> (r: Option<(usize, usize, usize)>)
    requires
        p <= s.len(),
    ensures
        scan_agrees(signed_unit_model(s@, p as int, "rad"@), r),
        scan_in_bounds(s.len() as int, p as int, r),
{
    scan_signed_number_unit(s, p, "rad")
}

/// A bare unsigned number.
pub open spec fn number_token_model(s: Seq<char>, p: int) -> Scan {
    match number_len(s, p) {
        None => Scan::Miss,
        Some(n) => Scan::Hit(n, 0, n),
    }
}

pub fn scan_number_token(s: &Vec<char>, p: usize) -> (r: Option<(usize, usize, usize)>)
    requires
        p <= s.len(),
    ensures
        scan_agrees(number_token_model(s@, p as int), r),
        scan_in_bounds(s.len() as int, p as int, r),
{
    match scan_number_str(s, p) {
        Some(n) => whole(n),
        None => None,
    }
}

/// `#` followed by hexadecimal digits; the capture leaves out the `#`.
pub open spec fn hex_color_model(s: Seq<char>, p: int) -> Scan {
    if 0 <= p < s.len() && s[p] == '#' {
        let n = run_len(s, p + 1, CharClass::HexDigit);
        if n == 0 {
            Scan::Miss
        } else {
            Scan::Hit(1 + n, 1, 1 + n)
        }
    } else {
        Scan::Miss
    }
}

pub fn scan_hex_color(s: &Vec<char>, p: usize) -> (r: Option<(usize, usize, usize)>)
    requires
        p <= s.len(),
    ensures
        scan_agrees(hex_color_model(s@, p as int), r),
        scan_in_bounds(s.len() as int, p as int, r),
{
    if !(p < s.len() && s[p] == '#') {
        return None;
    }
    let digits_len = run_length(s, p + 1, CharClass::HexDigit);
    if digits_len == 0 {
        return None;
    }
    Some((1 + digits_len, 1, 1 + digits_len))
}

/// A run of ASCII letters.
pub open spec fn literal_color_model(s: Seq<char>, p: int) -> Scan {
    let n = run_len(s, p, CharClass::Alpha);
    if n == 0 {
        Scan::Miss
    } else {
        Scan::Hit(n, 0, n)
    }
}

pub fn scan_literal_color(s: &Vec<char>, p: usize) -> (r: Option<(usize, usize, usize)>)
    requires
        p <= s.len(),
    ensures
        scan_agrees(literal_color_model(s@, p as int), r),
        scan_in_bounds(s.len() as int, p as int, r),
{
    let len = run_length(s, p, CharClass::Alpha);
    if len == 0 {
        return None;
    }
    whole(len)
}

/// `--` followed by name characters (letters, digits, `-`, `,`, `#`, whitespace).
pub open spec fn variable_name_model(s: Seq<char>, p: int) -> Scan {
    if starts_at(s, p, "--"@) {
        let n = run_len(s, p + 2, CharClass::VariableName);
        if n == 0 {
            Scan::Miss
        } else {
            Scan::Hit(2 + n, 0, 2 + n)
        }
    } else {
        Scan::Miss
    }
}

pub fn scan_variable_name(s: &Vec<char>, p: usize) -> (r: Option<(usize, usize, usize)>)
    requires
        p <= s.len(),
    ensures
        scan_agrees(variable_name_model(s@, p as int), r),
        scan_in_bounds(s.len() as int, p as int, r),
{
    if !starts_with_at(s, p, "--") {
        return None;
    }
    proof {
        reveal_strlit("--");
    }
    let len = run_length(s, p + 2, CharClass::VariableName);
    if len == 0 {
        return None;
    }
    whole(2 + len)
}

/// One of `left`, `center`, `right`, `top`, `bottom`, in any ASCII case.
pub open spec fn position_keyword_model(s: Seq<char>, p: int) -> Scan {
    or_else(
        ci_prefix_model(s, p, "left"@),
        or_else(
            ci_prefix_model(s, p, "center"@),
            or_else(
                ci_prefix_model(s, p, "right"@),
                or_else(ci_prefix_model(s, p, "top"@), ci_prefix_model(s, p, "bottom"@)),
            ),
        ),
    )
}

pub fn scan_position_keyword(s: &Vec<char>, p: usize) -> (r: Option<(usize, usize, usize)>)
    requires
        p <= s.len(),
    ensures
        scan_agrees(position_keyword_model(s@, p as int), r),
        scan_in_bounds(s.len() as int, p as int, r),
{
    if let Some(len) = match_ci_prefix(s, p, "left") {
        return whole(len);
    }
    if let Some(len) = match_ci_prefix(s, p, "center") {
        return whole(len);
    }
    if let Some(len) = match_ci_prefix(s, p, "right") {
        return whole(len);
    }
    if let Some(len) = match_ci_prefix(s, p, "top") {
        return whole(len);
    }
    if let Some(len) = match_ci_prefix(s, p, "bottom") {
        return whole(len);
    }
    None
}

/// One of the radial extent keywords, case-sensitive.
pub open spec fn extent_keyword_model(s: Seq<char>, p: int) -> Scan {
    or_else(
        exact_model(s, p, "closest-side"@),
        or_else(
            exact_model(s, p, "closest-corner"@),
            or_else(
                exact_model(s, p, "farthest-side"@),
                or_else(
                    exact_model(s, p, "farthest-corner"@),
                    or_else(exact_model(s, p, "contain"@), exact_model(s, p, "cover"@)),
                ),
            ),
        ),
    )
}

pub fn scan_extent_keyword(s: &Vec<char>, p: usize) -> (r: Option<(usize, usize, usize)>)
    requires
        p <= s.len(),
    ensures
        scan_agrees(extent_keyword_model(s@, p as int), r),
        scan_in_bounds(s.len() as int, p as int, r),
{
    if starts_with_at(s, p, "closest-side") {
        return whole("closest-side".unicode_len());
    }
    if starts_with_at(s, p, "closest-corner") {
        return whole("closest-corner".unicode_len());
    }
    if starts_with_at(s, p, "farthest-side") {
        return whole("farthest-side".unicode_len());
    }
    if starts_with_at(s, p, "farthest-corner") {
        return whole("farthest-corner".unicode_len());
    }
    if starts_with_at(s, p, "contain") {
        return whole("contain".unicode_len());
    }
    if starts_with_at(s, p, "cover") {
        return whole("cover".unicode_len());
    }
    None
}


/// After `to ` at `p` and `first` at `q = p + 3`: the word `second` (with its
/// leading space) makes the token end there.
pub open spec fn corner_second_model(s: Seq<char>, q: int, first_len: int, second: Seq<char>) -> Scan {
    match ci_prefix_model(s, q + first_len, second) {
        Scan::Hit(second_len, _, _) => {
            let end = 3 + first_len + second_len;
            Scan::Hit(end, 3, end)
        },
        other => other,
    }
}

/// A corner `first second` after `to `.
pub open spec fn corner_model(
    s: Seq<char>,
    q: int,
    first: Seq<char>,
    second_a: Seq<char>,
    second_b: Seq<char>,
) -> Scan {
    match ci_prefix_model(s, q, first) {
        Scan::Hit(first_len, _, _) => or_else(
            corner_second_model(s, q, first_len, second_a),
            corner_second_model(s, q, first_len, second_b),
        ),
        other => other,
    }
}

/// A single side after `to `.
pub open spec fn side_model(s: Seq<char>, q: int, side: Seq<char>) -> Scan {
    match ci_prefix_model(s, q, side) {
        Scan::Hit(len, _, _) => Scan::Hit(3 + len, 3, 3 + len),
        other => other,
    }
}

/// `to ` followed by a corner (`left top`, ...) or a side; the capture is what
/// follows `to `.
pub open spec fn side_or_corner_model(s: Seq<char>, p: int) -> Scan {
    let q = p + 3;
    match ci_prefix_model(s, p, "to "@) {
        Scan::Hit(_, _, _) => or_else(
            corner_model(s, q, "left"@, " top"@, " bottom"@),
            or_else(
                corner_model(s, q, "right"@, " top"@, " bottom"@),
                or_else(
                    corner_model(s, q, "top"@, " left"@, " right"@),
                    or_else(
                        corner_model(s, q, "bottom"@, " left"@, " right"@),
                        or_else(
                            side_model(s, q, "left"@),
                            or_else(
                                side_model(s, q, "right"@),
                                or_else(side_model(s, q, "top"@), side_model(s, q, "bottom"@)),
                            ),
                        ),
                    ),
                ),
            ),
        ),
        other => other,
    }
}

fn scan_corner(s: &Vec<char>, q: usize, first: &str, second_a: &str, second_b: &str) -> (r: Option<
    (usize, usize, usize),
>)
    requires
        3 <= q <= s.len(),
    ensures
        scan_agrees(corner_model(s@, q as int, first@, second_a@, second_b@), r),
        scan_in_bounds(s.len() as int, q - 3, r),
{
    if let Some(first_len) = match_ci_prefix(s, q, first) {
        if let Some(second_len) = match_ci_prefix(s, q + first_len, second_a) {
            let end = 3 + first_len + second_len;
            return Some((end, 3, end));
        }
        if let Some(second_len) = match_ci_prefix(s, q + first_len, second_b) {
            let end = 3 + first_len + second_len;
            return Some((end, 3, end));
        }
    }
    None
}

fn scan_side(s: &Vec<char>, q: usize, side: &str) -> (r: Option<(usize, usize, usize)>)
    requires
        3 <= q <= s.len(),
    ensures
        scan_agrees(side_model(s@, q as int, side@), r),
        scan_in_bounds(s.len() as int, q - 3, r),
{
    if let Some(len) = match_ci_prefix(s, q, side) {
        let end = 3 + len;
        return Some((end, 3, end));
    }
    None
}

pub fn scan_side_or_corner(s: &Vec<char>, p: usize) -> (r: Option<(usize, usize, usize)>)
    requires
        p <= s.len(),
    ensures
        scan_agrees(side_or_corner_model(s@, p as int), r),
        scan_in_bounds(s.len() as int, p as int, r),
{
    match_ci_prefix(s, p, "to ")?;
    proof {
        reveal_strlit("to ");
    }
    let q = p + 3;
    if let Some(m) = scan_corner(s, q, "left", " top", " bottom") {
        return Some(m);
    }
    if let Some(m) = scan_corner(s, q, "right", " top", " bottom") {
        return Some(m);
    }
    if let Some(m) = scan_corner(s, q, "top", " left", " right") {
        return Some(m);
    }
    if let Some(m) = scan_corner(s, q, "bottom", " left", " right") {
        return Some(m);
    }
    if let Some(m) = scan_side(s, q, "left") {
        return Some(m);
    }
    if let Some(m) = scan_side(s, q, "right") {
        return Some(m);
    }
    if let Some(m) = scan_side(s, q, "top") {
        return Some(m);
    }
    scan_side(s, q, "bottom")
}

/// The name after a vendor prefix of `offset` characters.
pub open spec fn prefixed_name_model(s: Seq<char>, p: int, offset: int, name: Seq<char>) -> Scan {
    match ci_prefix_model(s, p + offset, name) {
        Scan::Hit(name_len, _, _) => Scan::Hit(offset + name_len, 0, offset + name_len),
        other => other,
    }
}

/// A gradient function name, with an optional vendor prefix (`-webkit-`, `-o-`,
/// `-ms-`, `-moz-`), in any ASCII case.
pub open spec fn gradient_prefix_model(s: Seq<char>, p: int, name: Seq<char>) -> Scan {
    if 0 <= p < s.len() && s[p] == '-' {
        match or_else(
            ci_prefix_model(s, p, "-webkit-"@),
            or_else(
                ci_prefix_model(s, p, "-o-"@),
                or_else(ci_prefix_model(s, p, "-ms-"@), ci_prefix_model(s, p, "-moz-"@)),
            ),
        ) {
            Scan::Hit(offset, _, _) => prefixed_name_model(s, p, offset, name),
            other => other,
        }
    } else {
        prefixed_name_model(s, p, 0, name)
    }
}

pub fn gradient_prefix(s: &Vec<char>, p: usize, name: &str) -> (r: Option<(usize, usize, usize)>)
    requires
        p <= s.len(),
    ensures
        scan_agrees(gradient_prefix_model(s@, p as int, name@), r),
        scan_in_bounds(s.len() as int, p as int, r),
{
    let mut offset: usize = 0;
    if p < s.len() && s[p] == '-' {
        if let Some(len) = match_ci_prefix(s, p, "-webkit-") {
            offset = len;
        } else if let Some(len) = match_ci_prefix(s, p, "-o-") {
            offset = len;
        } else if let Some(len) = match_ci_prefix(s, p, "-ms-") {
            offset = len;
        } else if let Some(len) = match_ci_prefix(s, p, "-moz-") {
            offset = len;
        } else {
            return None;
        }
    }
    let name_len = match_ci_prefix(s, p + offset, name)?;
    whole(offset + name_len)
}

/// Whether taking the first `n` bytes of the text from `p` would split a
/// character (while the text has that many bytes).
pub fn cuts_at(s: &Vec<char>, p: usize, n: usize) -> (b: bool)
    requires
        p <= s.len(),
    ensures
        b == cuts_char(s@, p as int, n as int),
{
    let mut i = p;
    let mut left = n;
    while left > 0 && i < s.len()
        invariant
            p <= i <= s.len(),
            left <= n,
            cuts_char(s@, p as int, n as int) == cuts_char(s@, i as int, left as int),
        decreases s.len() - i,
    {
        let u = s[i] as u32;
        let w: usize = if u < 0x80 {
            1
        } else if u < 0x800 {
            2
        } else if u < 0x10000 {
            3
        } else {
            4
        };
        if w > left {
            return true;
        }
        left = left - w;
        i += 1;
    }
    false
}

/// Whether the keyword test at `p` panics.
pub fn ci_prefix_cut(s: &Vec<char>, p: usize, kw: &str) -> (b: bool)
    requires
        p <= s.len(),
    ensures
        b == (ci_prefix_model(s@, p as int, kw@) is Crash),
{
    if match_ci_prefix(s, p, kw).is_some() {
        return false;
    }
    cuts_at(s, p, kw.unicode_len())
}

/// Whether the position keyword test at `p` panics.
pub fn position_keyword_cut(s: &Vec<char>, p: usize) -> (b: bool)
    requires
        p <= s.len(),
    ensures
        b == (position_keyword_model(s@, p as int) is Crash),
{
    if match_ci_prefix(s, p, "left").is_some() {
        return false;
    }
    if ci_prefix_cut(s, p, "left") {
        return true;
    }
    if match_ci_prefix(s, p, "center").is_some() {
        return false;
    }
    if ci_prefix_cut(s, p, "center") {
        return true;
    }
    if match_ci_prefix(s, p, "right").is_some() {
        return false;
    }
    if ci_prefix_cut(s, p, "right") {
        return true;
    }
    if match_ci_prefix(s, p, "top").is_some() {
        return false;
    }
    if ci_prefix_cut(s, p, "top") {
        return true;
    }
    ci_prefix_cut(s, p, "bottom")
}

/// Whether the corner test `first second_a|second_b` at `q` panics, and
/// whether it hits.
fn corner_cut(s: &Vec<char>, q: usize, first: &str, second_a: &str, second_b: &str) -> (r: (bool, bool))
    requires
        3 <= q <= s.len(),
    ensures
        r.0 == (corner_model(s@, q as int, first@, second_a@, second_b@) is Crash),
        r.1 == (corner_model(s@, q as int, first@, second_a@, second_b@) is Hit),
{
    match match_ci_prefix(s, q, first) {
        None => (ci_prefix_cut(s, q, first), false),
        Some(first_len) => {
            if match_ci_prefix(s, q + first_len, second_a).is_some() {
                return (false, true);
            }
            if ci_prefix_cut(s, q + first_len, second_a) {
                return (true, false);
            }
            if match_ci_prefix(s, q + first_len, second_b).is_some() {
                return (false, true);
            }
            (ci_prefix_cut(s, q + first_len, second_b), false)
        },
    }
}

/// Whether the side test at `q` panics, and whether it hits.
fn side_cut(s: &Vec<char>, q: usize, side: &str) -> (r: (bool, bool))
    requires
        3 <= q <= s.len(),
    ensures
        r.0 == (side_model(s@, q as int, side@) is Crash),
        r.1 == (side_model(s@, q as int, side@) is Hit),
{
    if match_ci_prefix(s, q, side).is_some() {
        return (false, true);
    }
    (ci_prefix_cut(s, q, side), false)
}

/// Whether the side-or-corner test at `p` panics.
pub fn side_or_corner_cut(s: &Vec<char>, p: usize) -> (b: bool)
    requires
        p <= s.len(),
    ensures
        b == (side_or_corner_model(s@, p as int) is Crash),
{
    if match_ci_prefix(s, p, "to ").is_none() {
        return ci_prefix_cut(s, p, "to ");
    }
    proof {
        reveal_strlit("to ");
    }
    let q = p + 3;
    let (cut, hit) = corner_cut(s, q, "left", " top", " bottom");
    if cut || hit {
        return cut;
    }
    let (cut, hit) = corner_cut(s, q, "right", " top", " bottom");
    if cut || hit {
        return cut;
    }
    let (cut, hit) = corner_cut(s, q, "top", " left", " right");
    if cut || hit {
        return cut;
    }
    let (cut, hit) = corner_cut(s, q, "bottom", " left", " right");
    if cut || hit {
        return cut;
    }
    let (cut, hit) = side_cut(s, q, "left");
    if cut || hit {
        return cut;
    }
    let (cut, hit) = side_cut(s, q, "right");
    if cut || hit {
        return cut;
    }
    let (cut, hit) = side_cut(s, q, "top");
    if cut || hit {
        return cut;
    }
    side_cut(s, q, "bottom").0
}

/// Whether the gradient name test at `p` panics.
pub fn gradient_prefix_cut(s: &Vec<char>, p: usize, name: &str) -> (b: bool)
    requires
        p <= s.len(),
    ensures
        b == (gradient_prefix_model(s@, p as int, name@) is Crash),
{
    let mut offset: usize = 0;
    if p < s.len() && s[p] == '-' {
        if let Some(len) = match_ci_prefix(s, p, "-webkit-") {
            offset = len;
        } else if ci_prefix_cut(s, p, "-webkit-") {
            return true;
        } else if let Some(len) = match_ci_prefix(s, p, "-o-") {
            offset = len;
        } else if ci_prefix_cut(s, p, "-o-") {
            return true;
        } else if let Some(len) = match_ci_prefix(s, p, "-ms-") {
            offset = len;
        } else if ci_prefix_cut(s, p, "-ms-") {
            return true;
        } else if let Some(len) = match_ci_prefix(s, p, "-moz-") {
            offset = len;
        } else {
            return ci_prefix_cut(s, p, "-moz-");
        }
    }
    ci_prefix_cut(s, p + offset, name)
}

} // verus!
