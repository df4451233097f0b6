use vstd::prelude::*;
use vstd::string::*;

verus! {

/// Unicode `White_Space` property: the characters for which `char::is_whitespace`
/// returns `true` (and which `str::trim` removes).
pub open spec fn is_ws(c: char) -> bool {
    let u = c as u32;
    ||| 0x09 <= u <= 0x0d
    ||| u == 0x20
    ||| u == 0x85
    ||| u == 0xa0
    ||| u == 0x1680
    ||| 0x2000 <= u <= 0x200a
    ||| u == 0x2028
    ||| u == 0x2029
    ||| u == 0x202f
    ||| u == 0x205f
    ||| u == 0x3000
}

/// Whether `c` has the Unicode `White_Space` property.
pub fn is_whitespace(c: char) -> (b: bool)
    ensures
        b == is_ws(c),
{
    let u = c as u32;
    (0x09 <= u && u <= 0x0d) || u == 0x20 || u == 0x85 || u == 0xa0 || u == 0x1680 || (0x2000
        <= u && u <= 0x200a) || u == 0x2028 || u == 0x2029 || u == 0x202f || u == 0x205f || u
        == 0x3000
}

/// The characters of `s`, in order.
pub fn chars_of(s: &str) -> (v: Vec<char>)
    ensures
        v@ == s@,
{
    let mut v: Vec<char> = Vec::new();
    for c in it: s.chars()
        invariant
            v@ == it.seq().take(it.index() as int),
    {
        v.push(c);
    }
    v
}


/// The first position at or after `p` that does not hold whitespace.
pub open spec fn skip_ws(s: Seq<char>, p: int) -> int
    decreases s.len() - p,
{
    if 0 <= p < s.len() && is_ws(s[p]) {
        skip_ws(s, p + 1)
    } else {
        p
    }
}

pub proof fn lemma_skip_ws_bounds(s: Seq<char>, p: int)
    requires
        0 <= p <= s.len(),
    ensures
        p <= skip_ws(s, p) <= s.len(),
        skip_ws(s, p) == s.len() || !is_ws(s[skip_ws(s, p)]),
        forall|i: int| p <= i < skip_ws(s, p) ==> is_ws(#[trigger] s[i]),
    decreases s.len() - p,
{
    if p < s.len() && is_ws(s[p]) {
        lemma_skip_ws_bounds(s, p + 1);
    }
}

/// The position after skipping whitespace from `p`.
pub fn skip_whitespace_from(s: &Vec<char>, p: usize) -> (q: usize)
    requires
        p <= s.len(),
    ensures
        q == skip_ws(s@, p as int),
        p <= q <= s.len(),
{
    let mut i = p;
    while i < s.len() && is_whitespace(s[i])
        invariant
            p <= i <= s.len(),
            skip_ws(s@, p as int) == skip_ws(s@, i as int),
        decreases s.len() - i,
    {
        i += 1;
    }
    i
}

/// Appends `c` to `s`, by `String::push`.
#[verifier::external_body]
pub fn push_char(s: &mut String, c: char)
    ensures
        final(s)@ == old(s)@.push(c),
{
    s.push(c);
}

/// The characters of `v` from `from` up to `to`, as a `String`.
pub fn string_from_range(v: &Vec<char>, from: usize, to: usize) -> (s: String)
    requires
        from <= to <= v.len(),
    ensures
        s@ == v@.subrange(from as int, to as int),
{
    let mut s = String::new();
    let mut i = from;
    while i < to
        invariant
            from <= i <= to <= v.len(),
            s@ == v@.subrange(from as int, i as int),
        decreases to - i,
    {
        push_char(&mut s, v[i]);
        i += 1;
        assert(s@ =~= v@.subrange(from as int, i as int));
    }
    s
}

/// The end of `s.subrange(0, e)` once trailing whitespace is removed.
pub open spec fn trim_end_ws(s: Seq<char>, e: int) -> int
    decreases e,
{
    if 0 < e <= s.len() && is_ws(s[e - 1]) {
        trim_end_ws(s, e - 1)
    } else {
        e
    }
}

/// `s` without leading and trailing whitespace, as `str::trim` gives it.
pub open spec fn trim_ws(s: Seq<char>) -> Seq<char> {
    let start = skip_ws(s, 0);
    let end = trim_end_ws(s, s.len() as int);
    if start < end {
        s.subrange(start, end)
    } else {
        Seq::empty()
    }
}

/// The position before trailing whitespace, scanning back from `e`.
pub fn trim_end_from(s: &Vec<char>, e: usize) -> (q: usize)
    requires
        e <= s.len(),
    ensures
        q == trim_end_ws(s@, e as int),
        q <= e,
{
    let mut i = e;
    while i > 0 && is_whitespace(s[i - 1])
        invariant
            i <= e <= s.len(),
            trim_end_ws(s@, e as int) == trim_end_ws(s@, i as int),
        decreases i,
    {
        i -= 1;
    }
    i
}

/// The characters of `v` from `from` up to `to`.
pub fn chars_in_range(v: &Vec<char>, from: usize, to: usize) -> (r: Vec<char>)
    requires
        from <= to <= v.len(),
    ensures
        r@ == v@.subrange(from as int, to as int),
{
    let mut r: Vec<char> = Vec::new();
    let mut i = from;
    while i < to
        invariant
            from <= i <= to <= v.len(),
            r@ == v@.subrange(from as int, i as int),
        decreases to - i,
    {
        r.push(v[i]);
        i += 1;
        assert(r@ =~= v@.subrange(from as int, i as int));
    }
    r
}

/// The characters of `v` from `from` up to `to`, trimmed of whitespace at both
/// ends, as a `String`.
pub fn trimmed_range(v: &Vec<char>, from: usize, to: usize) -> (s: String)
    requires
        from <= to <= v.len(),
    ensures
        s@ == trim_ws(v@.subrange(from as int, to as int)),
{
    let piece = chars_in_range(v, from, to);
    let start = skip_whitespace_from(&piece, 0);
    let end = trim_end_from(&piece, piece.len());
    if start < end {
        string_from_range(&piece, start, end)
    } else {
        String::new()
    }
}

/// Whether two texts are the same.
pub fn same_text(a: &str, b: &str) -> (r: bool)
    ensures
        r == (a@ == b@),
{
    let n = a.unicode_len();
    if n != b.unicode_len() {
        return false;
    }
    let mut i: usize = 0;
    while i < n
        invariant
            n == a@.len(),
            n == b@.len(),
            i <= n,
            forall|j: int| 0 <= j < i ==> a@[j] == b@[j],
        decreases n - i,
    {
        if a.get_char(i) != b.get_char(i) {
            return false;
        }
        i += 1;
    }
    proof {
        assert(a@ =~= b@);
    }
    true
}

/// The character of a decimal digit.
pub open spec fn digit_char(d: nat) -> char {
    if d == 0 { '0' } else if d == 1 { '1' } else if d == 2 { '2' } else if d == 3 { '3' }
    else if d == 4 { '4' } else if d == 5 { '5' } else if d == 6 { '6' } else if d == 7 { '7' }
    else if d == 8 { '8' } else { '9' }
}

/// The decimal digits of `n`, without leading zeros.
pub open spec fn decimal(n: nat) -> Seq<char>
    decreases n,
{
    if n < 10 {
        seq![digit_char(n)]
    } else {
        decimal(n / 10).push(digit_char(n % 10))
    }
}

fn digit_to_char(d: u32) -> (c: char)
    requires
        d < 10,
    ensures
        c == digit_char(d as nat),
{
    match d {
        0 => '0',
        1 => '1',
        2 => '2',
        3 => '3',
        4 => '4',
        5 => '5',
        6 => '6',
        7 => '7',
        8 => '8',
        _ => '9',
    }
}

/// Appends the decimal digits of `n` to `out`.
pub fn push_decimal(out: &mut String, n: u32)
    ensures
        final(out)@ == old(out)@ + decimal(n as nat),
    decreases n,
{
    if n >= 10 {
        push_decimal(out, n / 10);
    }
    push_char(out, digit_to_char(n % 10));
    proof {
        if n >= 10 {
            assert(old(out)@ + decimal(n as nat) =~= old(out)@ + decimal((n / 10) as nat) + seq![digit_char((n % 10) as nat)]);
        }
    }
}

/// What `str::to_lowercase` gives for a text: its lower-case form under the
/// Unicode case mapping.
pub uninterp spec fn lowercase(s: Seq<char>) -> Seq<char>;

/// Every character is ASCII.
pub open spec fn is_ascii_text(s: Seq<char>) -> bool {
    forall|i: int| 0 <= i < s.len() ==> (#[trigger] s[i] as u32) < 0x80
}

/// `c` with an ASCII upper-case letter mapped to lower case.
pub open spec fn ascii_lower(c: char) -> char {
    if 'A' <= c <= 'Z' {
        ((c as u32) + 32) as char
    } else {
        c
    }
}

/// Each character of `s` through `ascii_lower`.
pub open spec fn ascii_lowercase(s: Seq<char>) -> Seq<char> {
    s.map_values(|c: char| ascii_lower(c))
}

/// `str::to_lowercase`. The contract names the result as a function of the
/// text alone; the Unicode mapping itself is not written out, but on ASCII
/// text it is the ASCII mapping (`A`..`Z` to `a`..`z`, all else unchanged),
/// as the documentation of `char::to_lowercase` gives it.
#[verifier::external_body]
pub fn to_lowercase(s: &str) -> (r: String)
    ensures
        r@ == lowercase(s@),
        is_ascii_text(s@) ==> r@ == ascii_lowercase(s@),
{
    s.to_lowercase()
}

pub proof fn lemma_trim_end_bounds(s: Seq<char>, e: int)
    requires
        0 <= e <= s.len(),
    ensures
        0 <= trim_end_ws(s, e) <= e,
        trim_end_ws(s, e) == 0 || !is_ws(s[trim_end_ws(s, e) - 1]),
    decreases e,
{
    if e > 0 && is_ws(s[e - 1]) {
        lemma_trim_end_bounds(s, e - 1);
    }
}

/// Trimming a trimmed text changes nothing.
pub proof fn lemma_trim_idempotent(s: Seq<char>)
    ensures
        trim_ws(trim_ws(s)) == trim_ws(s),
{
    let start = skip_ws(s, 0);
    let end = trim_end_ws(s, s.len() as int);
    lemma_skip_ws_bounds(s, 0);
    lemma_trim_end_bounds(s, s.len() as int);
    let t = trim_ws(s);
    if start < end {
        assert(t[0] == s[start]);
        assert(t[t.len() - 1] == s[end - 1]);
        assert(skip_ws(t, 0) == 0);
        assert(trim_end_ws(t, t.len() as int) == t.len());
        assert(t.subrange(0, t.len() as int) =~= t);
    } else {
        assert(t.len() == 0);
        assert(skip_ws(t, 0) == 0);
    }
}

/// Every character is whitespace.
pub open spec fn all_ws(s: Seq<char>) -> bool {
    forall|i: int| 0 <= i < s.len() ==> is_ws(#[trigger] s[i])
}

/// The text neither starts nor ends with whitespace.
pub open spec fn is_trimmed(s: Seq<char>) -> bool {
    s.len() == 0 || (!is_ws(s[0]) && !is_ws(s.last()))
}

pub proof fn lemma_skip_ws_over(x: Seq<char>, i: int, j: int)
    requires
        0 <= i <= j <= x.len(),
        forall|k: int| i <= k < j ==> is_ws(#[trigger] x[k]),
    ensures
        skip_ws(x, i) == skip_ws(x, j),
    decreases j - i,
{
    if i < j {
        lemma_skip_ws_over(x, i + 1, j);
    }
}

proof fn lemma_trim_end_over(x: Seq<char>, j: int, e: int)
    requires
        0 <= j <= e <= x.len(),
        forall|k: int| j <= k < e ==> is_ws(#[trigger] x[k]),
    ensures
        trim_end_ws(x, e) == trim_end_ws(x, j),
    decreases e - j,
{
    if j < e {
        lemma_trim_end_over(x, j, e - 1);
    }
}

/// Trimming a text padded with whitespace gives the text back.
pub proof fn lemma_trim_padded(pre: Seq<char>, m: Seq<char>, post: Seq<char>)
    requires
        all_ws(pre),
        all_ws(post),
        is_trimmed(m),
    ensures
        trim_ws(pre + m + post) == m,
{
    let x = pre + m + post;
    let a = pre.len() as int;
    let b = a + m.len();
    assert forall|k: int| 0 <= k < a implies is_ws(#[trigger] x[k]) by {
        assert(x[k] == pre[k]);
    }
    assert forall|k: int| b <= k < x.len() implies is_ws(#[trigger] x[k]) by {
        assert(x[k] == post[k - b]);
    }
    if m.len() == 0 {
        assert forall|k: int| 0 <= k < x.len() implies is_ws(#[trigger] x[k]) by {
            if k >= a {
                assert(x[k] == post[k - b]);
            }
        }
        lemma_skip_ws_over(x, 0, x.len() as int);
        lemma_trim_end_over(x, 0, x.len() as int);
        assert(trim_ws(x) =~= m);
    } else {
        lemma_skip_ws_over(x, 0, a);
        assert(x[a] == m[0]);
        lemma_trim_end_over(x, b, x.len() as int);
        assert(x[b - 1] == m.last());
        assert(x.subrange(a, b) =~= m);
    }
}

} // verus!
