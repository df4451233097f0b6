//! Colors written in hexadecimal read back as the channels they write: for
//! every channel value and every digit, lower or upper case.

use vstd::prelude::*;
use vstd::string::*;
use crate::mask_defs::paint::{hex_number, hex_value, radix16, stroke_channels};
use crate::text::color::{
    byte_boundary, channel_at, channels, hex_digit_value, hex_pair_value, parse_model, Color, HexRead,
};
use crate::graphics::color::{all_hex_digits, digit_at, hex_rgba_model};
use crate::chars::{is_trimmed, is_ws, lemma_trim_padded, trim_ws};

verus! {

/// The hexadecimal digit of `n` (below 16), in lower or upper case.
pub open spec fn hex_digit_char(n: int, upper: bool) -> char {
    if upper {
        "0123456789ABCDEF"@[n]
    } else {
        "0123456789abcdef"@[n]
    }
}

/// `v` written as two hexadecimal digits.
pub open spec fn hex_byte_text(v: u8, upper: bool) -> Seq<char> {
    seq![hex_digit_char(v as int / 16, upper), hex_digit_char(v as int % 16, upper)]
}

/// The byte of an ASCII character.
pub open spec fn ascii_byte(c: char) -> u8 {
    (c as u32) as u8
}

/// The bytes of an ASCII text.
pub open spec fn ascii_bytes(t: Seq<char>) -> Seq<u8> {
    t.map_values(|c: char| ascii_byte(c))
}

proof fn lemma_small_byte(x: u32)
    requires
        x < 0x80,
    ensures
        (x as u8) as u32 == x,
{
    assert((x as u8) as u32 == x) by (bit_vector)
        requires
            x < 0x80,
    ;
}

/// A digit written by `hex_digit_char` is ASCII and reads as its value.
proof fn lemma_digit(n: int, upper: bool)
    requires
        0 <= n < 16,
    ensures
        (hex_digit_char(n, upper) as u32) < 0x80,
        ascii_byte(hex_digit_char(n, upper)) as u32 == hex_digit_char(n, upper) as u32,
        ascii_byte(hex_digit_char(n, upper)) != 43,
        hex_digit_char(n, upper) != '+',
        hex_value(hex_digit_char(n, upper)) == Some(n as nat),
        hex_digit_value(ascii_byte(hex_digit_char(n, upper))) == Some(n as u8),
{
    reveal_strlit("0123456789ABCDEF");
    reveal_strlit("0123456789abcdef");
    let c = hex_digit_char(n, upper);
    if n == 0 {} else if n == 1 {} else if n == 2 {} else if n == 3 {} else if n == 4 {}
    else if n == 5 {} else if n == 6 {} else if n == 7 {} else if n == 8 {} else if n == 9 {}
    else if n == 10 {} else if n == 11 {} else if n == 12 {} else if n == 13 {} else if n == 14 {}
    else {}
    lemma_small_byte(c as u32);
}

/// Channel `k` of two-digit channels whose digits write `v` reads as `v`.
proof fn lemma_channel(h: Seq<u8>, k: int, v: u8, upper: bool)
    requires
        0 <= k,
        2 * k + 2 <= h.len(),
        forall|i: int| 0 <= i < h.len() ==> #[trigger] h[i] < 0x80,
        h[2 * k] == ascii_byte(hex_digit_char(v as int / 16, upper)),
        h[2 * k + 1] == ascii_byte(hex_digit_char(v as int % 16, upper)),
    ensures
        channel_at(h, 2, k) == Some(Some(v)),
{
    lemma_digit(v as int / 16, upper);
    lemma_digit(v as int % 16, upper);
    assert(byte_boundary(h, 2 * k));
    assert(byte_boundary(h, 2 * k + 2)) by {
        if 2 * k + 2 < h.len() {
            assert(h[2 * k + 2] < 0x80);
        }
    }
    if 2 * k > 0 {
        assert(h[2 * k] < 0x80);
    }
}

/// Digits `#...` as the bytes the reader sees: all ASCII, `#` first.
proof fn lemma_hash_bytes(d: Seq<char>)
    requires
        forall|i: int| 0 <= i < d.len() ==> (#[trigger] d[i] as u32) < 0x80,
    ensures
        ascii_bytes(hash_then(d)).len() == d.len() + 1,
        ascii_bytes(hash_then(d))[0] == 35,
        forall|i: int| 0 <= i < d.len() ==> #[trigger] ascii_bytes(hash_then(d)).subrange(1, d.len() + 1int)[i] == ascii_byte(d[i]),
        forall|i: int| 0 <= i < d.len() ==> #[trigger] ascii_bytes(hash_then(d)).subrange(1, d.len() + 1int)[i] < 0x80,
{
    let t = hash_then(d);
    lemma_small_byte('#' as u32);
    assert(ascii_bytes(t)[0] == ascii_byte('#'));
    assert forall|i: int| 0 <= i < d.len() implies #[trigger] ascii_bytes(t).subrange(1, d.len() + 1int)[i] == ascii_byte(d[i]) && ascii_bytes(t).subrange(1, d.len() + 1int)[i] < 0x80 by {
        assert(t[i + 1] == d[i]);
        lemma_small_byte(d[i] as u32);
    }
}

/// `#` and the given digits.
pub open spec fn hash_then(digits: Seq<char>) -> Seq<char> {
    seq!['#'] + digits
}

/// The six or eight digits of `#rrggbb[aa]`.
pub open spec fn hex_digits(r: u8, g: u8, b: u8, a: Option<u8>, upper: bool) -> Seq<char> {
    let d = hex_byte_text(r, upper) + hex_byte_text(g, upper) + hex_byte_text(b, upper);
    match a {
        Some(a) => d + hex_byte_text(a, upper),
        None => d,
    }
}

proof fn lemma_hex_digits(r: u8, g: u8, b: u8, a: Option<u8>, upper: bool)
    ensures
        ({
            let d = hex_digits(r, g, b, a, upper);
            &&& d.len() == if a is Some { 8int } else { 6int }
            &&& forall|i: int| 0 <= i < d.len() ==> (#[trigger] d[i] as u32) < 0x80
            &&& d[0] == hex_digit_char(r as int / 16, upper) && d[1] == hex_digit_char(r as int % 16, upper)
            &&& d[2] == hex_digit_char(g as int / 16, upper) && d[3] == hex_digit_char(g as int % 16, upper)
            &&& d[4] == hex_digit_char(b as int / 16, upper) && d[5] == hex_digit_char(b as int % 16, upper)
            &&& a matches Some(x) ==> d[6] == hex_digit_char(x as int / 16, upper) && d[7] == hex_digit_char(x as int % 16, upper)
        }),
{
    let d = hex_digits(r, g, b, a, upper);
    lemma_digit(r as int / 16, upper);
    lemma_digit(r as int % 16, upper);
    lemma_digit(g as int / 16, upper);
    lemma_digit(g as int % 16, upper);
    lemma_digit(b as int / 16, upper);
    lemma_digit(b as int % 16, upper);
    if let Some(x) = a {
        lemma_digit(x as int / 16, upper);
        lemma_digit(x as int % 16, upper);
    }
    assert forall|i: int| 0 <= i < d.len() implies (#[trigger] d[i] as u32) < 0x80 by {
        if i == 0 {} else if i == 1 {} else if i == 2 {} else if i == 3 {} else if i == 4 {}
        else if i == 5 {} else if i == 6 {} else {}
    }
}

/// A text color written as `#rrggbb` (digits in either case) reads as those
/// channels, opaque; written as `#rrggbbaa`, with that alpha.
pub proof fn hex_text_colors_read_their_channels(r: u8, g: u8, b: u8, a: u8, upper: bool)
    ensures
        parse_model(
            hash_then(hex_digits(r, g, b, None, upper)),
            ascii_bytes(hash_then(hex_digits(r, g, b, None, upper))),
        ) == HexRead::Read(Some(Color { r, g, b, a: 255 })),
        parse_model(
            hash_then(hex_digits(r, g, b, Some(a), upper)),
            ascii_bytes(hash_then(hex_digits(r, g, b, Some(a), upper))),
        ) == HexRead::Read(Some(Color { r, g, b, a })),
{
    lemma_hex_read(r, g, b, None, upper);
    lemma_hex_read(r, g, b, Some(a), upper);
}

proof fn lemma_hex_channels(h: Seq<u8>, r: u8, g: u8, b: u8, upper: bool)
    requires
        h.len() >= 6,
        forall|i: int| 0 <= i < h.len() ==> #[trigger] h[i] < 0x80,
        h[0] == ascii_byte(hex_digit_char(r as int / 16, upper)),
        h[1] == ascii_byte(hex_digit_char(r as int % 16, upper)),
        h[2] == ascii_byte(hex_digit_char(g as int / 16, upper)),
        h[3] == ascii_byte(hex_digit_char(g as int % 16, upper)),
        h[4] == ascii_byte(hex_digit_char(b as int / 16, upper)),
        h[5] == ascii_byte(hex_digit_char(b as int % 16, upper)),
    ensures
        channels(h, 2, 3) == Some(Some(seq![r, g, b])),
{
    lemma_channel(h, 0, r, upper);
    lemma_channel(h, 1, g, upper);
    lemma_channel(h, 2, b, upper);
    assert(channels(h, 2, 0) == Some(Some(Seq::<u8>::empty())));
    assert(channels(h, 2, 1) == Some(Some(seq![r]))) by {
        assert(Seq::<u8>::empty().push(r) =~= seq![r]);
    }
    assert(channels(h, 2, 2) == Some(Some(seq![r, g]))) by {
        assert(seq![r].push(g) =~= seq![r, g]);
    }
    assert(seq![r, g].push(b) =~= seq![r, g, b]);
}

proof fn lemma_hex_read(r: u8, g: u8, b: u8, a: Option<u8>, upper: bool)
    ensures
        parse_model(
            hash_then(hex_digits(r, g, b, a, upper)),
            ascii_bytes(hash_then(hex_digits(r, g, b, a, upper))),
        ) == HexRead::Read(Some(Color { r, g, b, a: match a { Some(x) => x, None => 255 } })),
{
    reveal_strlit("transparent");
    let d = hex_digits(r, g, b, a, upper);
    lemma_hex_digits(r, g, b, a, upper);
    lemma_hash_bytes(d);
    let t = hash_then(d);
    let bytes = ascii_bytes(t);
    let h = bytes.subrange(1, bytes.len() as int);
    assert(h =~= bytes.subrange(1, d.len() + 1int));
    assert(t.len() != "transparent"@.len());
    assert(h[0] == ascii_byte(d[0]) && h[1] == ascii_byte(d[1]) && h[2] == ascii_byte(d[2]));
    assert(h[3] == ascii_byte(d[3]) && h[4] == ascii_byte(d[4]) && h[5] == ascii_byte(d[5]));
    lemma_hex_channels(h, r, g, b, upper);
    if let Some(x) = a {
        assert(h[6] == ascii_byte(d[6]) && h[7] == ascii_byte(d[7]));
        lemma_channel(h, 3, x, upper);
        assert(seq![r, g, b].push(x) =~= seq![r, g, b, x]);
        assert(channels(h, 2, 4) == Some(Some(seq![r, g, b, x])));
    }
}

proof fn lemma_byte_split(v: u8)
    ensures
        v == 16 * (v as int / 16) + v as int % 16,
        0 <= v as int / 16 < 16,
        0 <= v as int % 16 < 16,
{
}

/// The hexadecimal number of the first `k` digits, one more digit at a time.
proof fn lemma_hex_number_step(s: Seq<char>, k: int)
    requires
        0 <= k < s.len(),
    ensures
        hex_number(s.subrange(0, k + 1)) == match (hex_number(s.subrange(0, k)), hex_value(s[k])) {
            (Some(high), Some(low)) => Some(high * 16 + low),
            _ => None,
        },
{
    assert(s.subrange(0, k + 1).drop_last() =~= s.subrange(0, k));
}

proof fn lemma_six_digit_number(d: Seq<char>, r: u8, g: u8, b: u8, upper: bool)
    requires
        d.len() >= 6,
        d[0] == hex_digit_char(r as int / 16, upper) && d[1] == hex_digit_char(r as int % 16, upper),
        d[2] == hex_digit_char(g as int / 16, upper) && d[3] == hex_digit_char(g as int % 16, upper),
        d[4] == hex_digit_char(b as int / 16, upper) && d[5] == hex_digit_char(b as int % 16, upper),
    ensures
        hex_number(d.subrange(0, 6)) == Some((r * 65536 + g * 256 + b) as nat),
{
    lemma_byte_split(r);
    lemma_byte_split(g);
    lemma_byte_split(b);
    lemma_digit(r as int / 16, upper);
    lemma_digit(r as int % 16, upper);
    lemma_digit(g as int / 16, upper);
    lemma_digit(g as int % 16, upper);
    lemma_digit(b as int / 16, upper);
    lemma_digit(b as int % 16, upper);
    assert(d.subrange(0, 0).len() == 0);
    lemma_hex_number_step(d, 0);
    lemma_hex_number_step(d, 1);
    lemma_hex_number_step(d, 2);
    lemma_hex_number_step(d, 3);
    lemma_hex_number_step(d, 4);
    lemma_hex_number_step(d, 5);
}

/// A stroke color written as `#rrggbb` (digits in either case) reads as those
/// channels, opaque; written as `#rrggbbaa`, with that alpha.
pub proof fn hex_stroke_colors_read_their_channels(r: u8, g: u8, b: u8, a: u8, upper: bool)
    ensures
        stroke_channels(hash_then(hex_digits(r, g, b, None, upper))) == Some((r, g, b, 255u8)),
        stroke_channels(hash_then(hex_digits(r, g, b, Some(a), upper))) == Some((r, g, b, a)),
{
    lemma_stroke_read(r, g, b, None, upper);
    lemma_stroke_read(r, g, b, Some(a), upper);
}

proof fn lemma_stroke_read(r: u8, g: u8, b: u8, a: Option<u8>, upper: bool)
    ensures
        stroke_channels(hash_then(hex_digits(r, g, b, a, upper))) == Some(
            (r, g, b, match a { Some(x) => x, None => 255u8 }),
        ),
{
    let d = hex_digits(r, g, b, a, upper);
    lemma_hex_digits(r, g, b, a, upper);
    let t = hash_then(d);
    assert(t[0] == '#');
    assert(!is_ws(t[0]));
    assert(t.last() == d.last());
    assert(!is_ws(t.last())) by {
        assert((d[d.len() - 1] as u32) < 0x80);
        if let Some(x) = a {
            lemma_digit(x as int % 16, upper);
        } else {
            lemma_digit(b as int % 16, upper);
        }
    }
    assert(is_trimmed(t));
    lemma_trim_padded(Seq::empty(), t, Seq::empty());
    assert(Seq::<char>::empty() + t + Seq::<char>::empty() =~= t);
    assert(t.drop_first() =~= d);
    lemma_digit(r as int / 16, upper);
    assert(d[0] != '+');
    lemma_six_digit_number(d, r, g, b, upper);
    let n6 = (r * 65536 + g * 256 + b) as nat;
    if let Some(x) = a {
        lemma_byte_split(x);
        lemma_digit(x as int / 16, upper);
        lemma_digit(x as int % 16, upper);
        lemma_hex_number_step(d, 6);
        lemma_hex_number_step(d, 7);
        assert(d.subrange(0, 8) =~= d);
        let v = n6 * 256 + x;
        assert(hex_number(d) == Some(v as nat));
        assert(radix16(d) == Some(v as nat));
        assert(v / 16777216 % 256 == r && v / 65536 % 256 == g && v / 256 % 256 == b && v % 256 == x)
            by (nonlinear_arith)
            requires
                v == r * 16777216 + g * 65536 + b * 256 + x,
                0 <= r < 256,
                0 <= g < 256,
                0 <= b < 256,
                0 <= x < 256,
        ;
    } else {
        assert(d.subrange(0, 6) =~= d);
        assert(radix16(d) == Some(n6));
        assert(n6 / 65536 % 256 == r && n6 / 256 % 256 == g && n6 % 256 == b) by (nonlinear_arith)
            requires
                n6 == r * 65536 + g * 256 + b,
                0 <= r < 256,
                0 <= g < 256,
                0 <= b < 256,
        ;
    }
}

/// The hex digits of a CSS color, `rrggbb` or `rrggbbaa` (in either case),
/// give those channels; alpha 255 where it is not written.
pub proof fn hex_css_colors_read_their_channels(r: u8, g: u8, b: u8, a: u8, upper: bool)
    ensures
        hex_rgba_model(hex_digits(r, g, b, None, upper)) == Some((r, g, b, 255u8)),
        hex_rgba_model(hex_digits(r, g, b, Some(a), upper)) == Some((r, g, b, a)),
{
    lemma_css_read(r, g, b, None, upper);
    lemma_css_read(r, g, b, Some(a), upper);
}

proof fn lemma_css_read(r: u8, g: u8, b: u8, a: Option<u8>, upper: bool)
    ensures
        hex_rgba_model(hex_digits(r, g, b, a, upper)) == Some(
            (r, g, b, match a { Some(x) => x, None => 255u8 }),
        ),
{
    let d = hex_digits(r, g, b, a, upper);
    lemma_hex_digits(r, g, b, a, upper);
    lemma_byte_split(r);
    lemma_byte_split(g);
    lemma_byte_split(b);
    lemma_digit(r as int / 16, upper);
    lemma_digit(r as int % 16, upper);
    lemma_digit(g as int / 16, upper);
    lemma_digit(g as int % 16, upper);
    lemma_digit(b as int / 16, upper);
    lemma_digit(b as int % 16, upper);
    if let Some(x) = a {
        lemma_byte_split(x);
        lemma_digit(x as int / 16, upper);
        lemma_digit(x as int % 16, upper);
    }
    assert(all_hex_digits(d)) by {
        assert forall|i: int| 0 <= i < d.len() implies #[trigger] hex_value(d[i]) is Some by {
            if i == 0 {} else if i == 1 {} else if i == 2 {} else if i == 3 {} else if i == 4 {}
            else if i == 5 {} else if i == 6 {} else {}
        }
    }
    assert(digit_at(d, 0) == r as int / 16 && digit_at(d, 1) == r as int % 16);
    assert(digit_at(d, 2) == g as int / 16 && digit_at(d, 3) == g as int % 16);
    assert(digit_at(d, 4) == b as int / 16 && digit_at(d, 5) == b as int % 16);
}

/// The three or four one-digit channels of `#rgb[a]`.
pub open spec fn short_hex_digits(r: int, g: int, b: int, a: Option<int>, upper: bool) -> Seq<char> {
    let d = seq![hex_digit_char(r, upper), hex_digit_char(g, upper), hex_digit_char(b, upper)];
    match a {
        Some(a) => d.push(hex_digit_char(a, upper)),
        None => d,
    }
}

proof fn lemma_short_digits(r: int, g: int, b: int, a: Option<int>, upper: bool)
    requires
        0 <= r < 16,
        0 <= g < 16,
        0 <= b < 16,
        a matches Some(x) ==> 0 <= x < 16,
    ensures
        ({
            let d = short_hex_digits(r, g, b, a, upper);
            &&& d.len() == if a is Some { 4int } else { 3int }
            &&& forall|i: int| 0 <= i < d.len() ==> (#[trigger] d[i] as u32) < 0x80
            &&& forall|i: int| 0 <= i < d.len() ==> #[trigger] hex_value(d[i]) is Some
            &&& d[0] == hex_digit_char(r, upper) && d[1] == hex_digit_char(g, upper)
            &&& d[2] == hex_digit_char(b, upper)
            &&& a matches Some(x) ==> d[3] == hex_digit_char(x, upper)
        }),
{
    let d = short_hex_digits(r, g, b, a, upper);
    lemma_digit(r, upper);
    lemma_digit(g, upper);
    lemma_digit(b, upper);
    if let Some(x) = a {
        lemma_digit(x, upper);
    }
    assert forall|i: int| 0 <= i < d.len() implies (#[trigger] d[i] as u32) < 0x80 by {
        if i == 0 {} else if i == 1 {} else if i == 2 {} else {}
    }
    assert forall|i: int| 0 <= i < d.len() implies #[trigger] hex_value(d[i]) is Some by {
        if i == 0 {} else if i == 1 {} else if i == 2 {} else {}
    }
}

/// The short forms `#rgb` and `#rgba` (digits in either case) stand for each
/// digit written twice: channel `v` reads as `17 * v`, for the stroke colors,
/// the hex digits of CSS colors, and the text colors alike.
pub proof fn short_hex_colors_double_their_digits(r: int, g: int, b: int, a: int, upper: bool)
    requires
        0 <= r < 16,
        0 <= g < 16,
        0 <= b < 16,
        0 <= a < 16,
    ensures
        stroke_channels(hash_then(short_hex_digits(r, g, b, None, upper))) == Some(
            ((17 * r) as u8, (17 * g) as u8, (17 * b) as u8, 255u8),
        ),
        stroke_channels(hash_then(short_hex_digits(r, g, b, Some(a), upper))) == Some(
            ((17 * r) as u8, (17 * g) as u8, (17 * b) as u8, (17 * a) as u8),
        ),
        hex_rgba_model(short_hex_digits(r, g, b, None, upper)) == Some(
            ((17 * r) as u8, (17 * g) as u8, (17 * b) as u8, 255u8),
        ),
        hex_rgba_model(short_hex_digits(r, g, b, Some(a), upper)) == Some(
            ((17 * r) as u8, (17 * g) as u8, (17 * b) as u8, (17 * a) as u8),
        ),
        parse_model(
            hash_then(short_hex_digits(r, g, b, None, upper)),
            ascii_bytes(hash_then(short_hex_digits(r, g, b, None, upper))),
        ) == HexRead::Read(Some(Color { r: (17 * r) as u8, g: (17 * g) as u8, b: (17 * b) as u8, a: 255 })),
        parse_model(
            hash_then(short_hex_digits(r, g, b, Some(a), upper)),
            ascii_bytes(hash_then(short_hex_digits(r, g, b, Some(a), upper))),
        ) == HexRead::Read(
            Some(Color { r: (17 * r) as u8, g: (17 * g) as u8, b: (17 * b) as u8, a: (17 * a) as u8 }),
        ),
{
    lemma_short_css(r, g, b, None, upper);
    lemma_short_css(r, g, b, Some(a), upper);
    lemma_short_stroke(r, g, b, None, upper);
    lemma_short_stroke(r, g, b, Some(a), upper);
    lemma_short_text(r, g, b, None, upper);
    lemma_short_text(r, g, b, Some(a), upper);
}

proof fn lemma_short_css(r: int, g: int, b: int, a: Option<int>, upper: bool)
    requires
        0 <= r < 16,
        0 <= g < 16,
        0 <= b < 16,
        a matches Some(x) ==> 0 <= x < 16,
    ensures
        hex_rgba_model(short_hex_digits(r, g, b, a, upper)) == Some(
            ((17 * r) as u8, (17 * g) as u8, (17 * b) as u8, match a { Some(x) => (17 * x) as u8, None => 255u8 }),
        ),
{
    let d = short_hex_digits(r, g, b, a, upper);
    lemma_short_digits(r, g, b, a, upper);
    lemma_digit(r, upper);
    lemma_digit(g, upper);
    lemma_digit(b, upper);
    if let Some(x) = a {
        lemma_digit(x, upper);
    }
    assert(all_hex_digits(d));
}

proof fn lemma_short_stroke(r: int, g: int, b: int, a: Option<int>, upper: bool)
    requires
        0 <= r < 16,
        0 <= g < 16,
        0 <= b < 16,
        a matches Some(x) ==> 0 <= x < 16,
    ensures
        stroke_channels(hash_then(short_hex_digits(r, g, b, a, upper))) == Some(
            ((17 * r) as u8, (17 * g) as u8, (17 * b) as u8, match a { Some(x) => (17 * x) as u8, None => 255u8 }),
        ),
{
    let d = short_hex_digits(r, g, b, a, upper);
    lemma_short_digits(r, g, b, a, upper);
    lemma_digit(r, upper);
    lemma_digit(g, upper);
    lemma_digit(b, upper);
    let t = hash_then(d);
    assert(t[0] == '#');
    assert(!is_ws(t[0]));
    assert(t.last() == d.last());
    assert(!is_ws(t.last())) by {
        assert((d[d.len() - 1] as u32) < 0x80);
        assert(hex_value(d[d.len() - 1]) is Some);
    }
    assert(is_trimmed(t));
    lemma_trim_padded(Seq::empty(), t, Seq::empty());
    assert(Seq::<char>::empty() + t + Seq::<char>::empty() =~= t);
    assert(t.drop_first() =~= d);
    assert(d[0] != '+');
    lemma_hex_number_step(d, 0);
    lemma_hex_number_step(d, 1);
    lemma_hex_number_step(d, 2);
    assert(d.subrange(0, 0).len() == 0);
    let v3 = r * 256 + g * 16 + b;
    assert(hex_number(d.subrange(0, 3)) == Some(v3 as nat));
    if let Some(x) = a {
        lemma_digit(x, upper);
        lemma_hex_number_step(d, 3);
        assert(d.subrange(0, 4) =~= d);
        let v = v3 * 16 + x;
        assert(radix16(d) == Some(v as nat));
        assert(v / 4096 % 16 == r && v / 256 % 16 == g && v / 16 % 16 == b && v % 16 == x)
            by (nonlinear_arith)
            requires
                v == r * 4096 + g * 256 + b * 16 + x,
                0 <= r < 16,
                0 <= g < 16,
                0 <= b < 16,
                0 <= x < 16,
        ;
    } else {
        assert(d.subrange(0, 3) =~= d);
        assert(radix16(d) == Some(v3 as nat));
        assert(v3 / 256 % 16 == r && v3 / 16 % 16 == g && v3 % 16 == b) by (nonlinear_arith)
            requires
                v3 == r * 256 + g * 16 + b,
                0 <= r < 16,
                0 <= g < 16,
                0 <= b < 16,
        ;
    }
}

/// A one-digit channel at `k` whose digit is `v` reads as `17 * v`.
proof fn lemma_short_channel(h: Seq<u8>, k: int, v: int, upper: bool)
    requires
        0 <= k < h.len(),
        0 <= v < 16,
        forall|i: int| 0 <= i < h.len() ==> #[trigger] h[i] < 0x80,
        h[k] == ascii_byte(hex_digit_char(v, upper)),
    ensures
        channel_at(h, 1, k) == Some(Some((17 * v) as u8)),
{
    lemma_digit(v, upper);
    assert(byte_boundary(h, k)) by {
        if k > 0 {
            assert(h[k] < 0x80);
        }
    }
    assert(byte_boundary(h, k + 1)) by {
        if k + 1 < h.len() {
            assert(h[k + 1] < 0x80);
        }
    }
}

proof fn lemma_short_text(r: int, g: int, b: int, a: Option<int>, upper: bool)
    requires
        0 <= r < 16,
        0 <= g < 16,
        0 <= b < 16,
        a matches Some(x) ==> 0 <= x < 16,
    ensures
        parse_model(
            hash_then(short_hex_digits(r, g, b, a, upper)),
            ascii_bytes(hash_then(short_hex_digits(r, g, b, a, upper))),
        ) == HexRead::Read(
            Some(
                Color {
                    r: (17 * r) as u8,
                    g: (17 * g) as u8,
                    b: (17 * b) as u8,
                    a: match a { Some(x) => (17 * x) as u8, None => 255 },
                },
            ),
        ),
{
    reveal_strlit("transparent");
    let d = short_hex_digits(r, g, b, a, upper);
    lemma_short_digits(r, g, b, a, upper);
    lemma_hash_bytes(d);
    let t = hash_then(d);
    let bytes = ascii_bytes(t);
    let h = bytes.subrange(1, bytes.len() as int);
    assert(h =~= bytes.subrange(1, d.len() + 1int));
    assert(t.len() != "transparent"@.len());
    assert(h[0] == ascii_byte(d[0]) && h[1] == ascii_byte(d[1]) && h[2] == ascii_byte(d[2]));
    lemma_short_channel(h, 0, r, upper);
    lemma_short_channel(h, 1, g, upper);
    lemma_short_channel(h, 2, b, upper);
    let (vr, vg, vb) = ((17 * r) as u8, (17 * g) as u8, (17 * b) as u8);
    assert(channels(h, 1, 0) == Some(Some(Seq::<u8>::empty())));
    assert(channels(h, 1, 1) == Some(Some(seq![vr]))) by {
        assert(Seq::<u8>::empty().push(vr) =~= seq![vr]);
    }
    assert(channels(h, 1, 2) == Some(Some(seq![vr, vg]))) by {
        assert(seq![vr].push(vg) =~= seq![vr, vg]);
    }
    assert(channels(h, 1, 3) == Some(Some(seq![vr, vg, vb]))) by {
        assert(seq![vr, vg].push(vb) =~= seq![vr, vg, vb]);
    }
    if let Some(x) = a {
        assert(h[3] == ascii_byte(d[3]));
        lemma_short_channel(h, 3, x, upper);
        let va = (17 * x) as u8;
        assert(seq![vr, vg, vb].push(va) =~= seq![vr, vg, vb, va]);
        assert(channels(h, 1, 4) == Some(Some(seq![vr, vg, vb, va])));
    }
}

} // verus!
