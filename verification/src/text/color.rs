//! Colors of text: four 8-bit channels, read from web hex notation.

use vstd::prelude::*;
use vstd::string::*;
use crate::chars::same_text;

verus! {

/// A color with 8-bit red, green, blue and alpha channels.
#[derive(Clone, Copy, Debug, PartialEq, Eq, Structural)]
pub struct Color {
    pub r: u8,
    pub g: u8,
    pub b: u8,
    pub a: u8,
}

/// The value of a hexadecimal digit given as an ASCII byte.
pub open spec fn hex_digit_value(b: u8) -> Option<u8> {
    if 48 <= b <= 57 {
        Some((b - 48) as u8)
    } else if 97 <= b <= 102 {
        Some((b - 87) as u8)
    } else if 65 <= b <= 70 {
        Some((b - 55) as u8)
    } else {
        None
    }
}

/// What `u8::from_str_radix(text, 16)` gives for a text of the two bytes
/// `hi lo`: an optional `+` sign, then hexadecimal digits only.
pub open spec fn hex_pair_value(hi: u8, lo: u8) -> Option<u8> {
    if hi == 43 {
        hex_digit_value(lo)
    } else {
        match (hex_digit_value(hi), hex_digit_value(lo)) {
            (Some(h), Some(l)) => Some((16 * h + l) as u8),
            _ => None,
        }
    }
}

/// The byte offset `i` of the UTF-8 text `b` starts a character or ends the
/// text (`str::is_char_boundary`).
pub open spec fn byte_boundary(b: Seq<u8>, i: int) -> bool {
    ||| i == 0
    ||| i == b.len()
    ||| (0 < i < b.len() && !(0x80 <= b[i] < 0xc0))
}

/// The outcome of reading the text of a color.
pub enum HexRead {
    /// The reading ends with this result.
    Read(Option<Color>),
    /// The reading slices the text inside a character, which panics.
    Panics,
}

/// Reads channel `k` of `h`, each channel `w` bytes wide (a one-byte channel
/// stands for its digit written twice): `None` where the slice panics, else
/// the value of the channel if it is one.
pub open spec fn channel_at(h: Seq<u8>, w: int, k: int) -> Option<Option<u8>> {
    let a = w * k;
    if !byte_boundary(h, a) || !byte_boundary(h, a + w) {
        None
    } else if w == 1 {
        Some(hex_pair_value(h[a], h[a]))
    } else {
        Some(hex_pair_value(h[a], h[a + 1]))
    }
}

/// Reads the first `n` channels in order, stopping at the first that panics or
/// is no number.
pub open spec fn channels(h: Seq<u8>, w: int, n: nat) -> Option<Option<Seq<u8>>>
    decreases n,
{
    if n == 0 {
        Some(Some(Seq::empty()))
    } else {
        match channels(h, w, (n - 1) as nat) {
            Some(Some(vs)) => match channel_at(h, w, n - 1) {
                None => None,
                Some(None) => Some(None),
                Some(Some(v)) => Some(Some(vs.push(v))),
            },
            other => other,
        }
    }
}

/// The color of `n` channels read: red, green, blue, and alpha where there are
/// four (else opaque).
pub open spec fn color_of_channels(read: Option<Option<Seq<u8>>>, n: nat) -> HexRead {
    match read {
        None => HexRead::Panics,
        Some(None) => HexRead::Read(None),
        Some(Some(vs)) => HexRead::Read(
            Some(
                Color {
                    r: vs[0],
                    g: vs[1],
                    b: vs[2],
                    a: if n == 4 {
                        vs[3]
                    } else {
                        255
                    },
                },
            ),
        ),
    }
}

/// What `Color::parse` gives for a text of UTF-8 bytes `bytes` and characters
/// `text`: `transparent`, or `#` followed by 3, 4, 6 or 8 bytes of hexadecimal
/// digits (`#rgb`, `#rgba`, `#rrggbb`, `#rrggbbaa`).
pub open spec fn parse_model(text: Seq<char>, bytes: Seq<u8>) -> HexRead {
    if text == "transparent"@ {
        HexRead::Read(Some(Color { r: 0, g: 0, b: 0, a: 0 }))
    } else if bytes.len() == 0 || bytes[0] != 35 {
        HexRead::Read(None)
    } else {
        let h = bytes.subrange(1, bytes.len() as int);
        if h.len() == 3 {
            color_of_channels(channels(h, 1, 3), 3)
        } else if h.len() == 4 {
            color_of_channels(channels(h, 1, 4), 4)
        } else if h.len() == 6 {
            color_of_channels(channels(h, 2, 3), 3)
        } else if h.len() == 8 {
            color_of_channels(channels(h, 2, 4), 4)
        } else {
            HexRead::Read(None)
        }
    }
}

fn hex_digit(b: u8) -> (r: Option<u8>)
    ensures
        r == hex_digit_value(b),
{
    if 48 <= b && b <= 57 {
        Some(b - 48)
    } else if 97 <= b && b <= 102 {
        Some(b - 87)
    } else if 65 <= b && b <= 70 {
        Some(b - 55)
    } else {
        None
    }
}

fn hex_pair(hi: u8, lo: u8) -> (r: Option<u8>)
    ensures
        r == hex_pair_value(hi, lo),
{
    if hi == 43 {
        return hex_digit(lo);
    }
    let h = hex_digit(hi)?;
    let l = hex_digit(lo)?;
    Some(16 * h + l)
}

/// Reads `n` channels of `w` bytes from the bytes of `h` that follow its
/// first; `None` where a channel is no number.
fn read_channels(h: &[u8], w: usize, n: usize) -> (r: Option<Vec<u8>>)
    requires
        h@.len() >= 1,
        w == 1 || w == 2,
        n == 3 || n == 4,
        h@.len() - 1 == w * n,
        !(channels(h@.subrange(1, h@.len() as int), w as int, n as nat) is None),
    ensures
        match channels(h@.subrange(1, h@.len() as int), w as int, n as nat) {
            Some(Some(vs)) => r matches Some(v) && v@ == vs,
            Some(None) => r is None,
            None => false,
        },
        r matches Some(v) ==> v@.len() == n,
{
    let ghost hex = h@.subrange(1, h@.len() as int);
    let mut values: Vec<u8> = Vec::new();
    let mut k: usize = 0;
    while k < n
        invariant
            h@.len() >= 1,
            hex == h@.subrange(1, h@.len() as int),
            values@.len() == k,
            w == 1 || w == 2,
            n == 3 || n == 4,
            hex.len() == w * n,
            k <= n,
            !(channels(hex, w as int, n as nat) is None),
            channels(hex, w as int, k as nat) == Some(Some(values@)),
        decreases n - k,
    {
        proof {
            lemma_channels_prefix(hex, w as int, (k + 1) as nat, n as nat);
        }
        let a = w * k;
        assert(a + w <= hex.len()) by (nonlinear_arith)
            requires
                a == w * k,
                k < n,
                hex.len() == w * n,
        ;
        let ok = is_boundary_in(h, a) && is_boundary_in(h, a + w);
        if !ok {
            proof {
                lemma_channels_stop(hex, w as int, (k + 1) as nat, n as nat);
            }
            return None;
        }
        let hi = h[1 + a];
        let lo = if w == 1 {
            hi
        } else {
            h[1 + a + 1]
        };
        match hex_pair(hi, lo) {
            Some(v) => {
                values.push(v);
            },
            None => {
                proof {
                    lemma_channels_stop(hex, w as int, (k + 1) as nat, n as nat);
                }
                return None;
            },
        }
        k += 1;
    }
    Some(values)
}

/// Whether the byte offset `i` of the text after the first byte of `h` is a
/// character boundary of that text.
fn is_boundary_in(h: &[u8], i: usize) -> (r: bool)
    requires
        1 <= h@.len(),
        i <= h@.len() - 1,
    ensures
        r == byte_boundary(h@.subrange(1, h@.len() as int), i as int),
{
    i == 0 || i == h.len() - 1 || !(0x80 <= h[1 + i] && h[1 + i] < 0xc0)
}

/// Reading stops at the first channel that does not give a number: from there
/// on, the outcome is the same.
proof fn lemma_channels_stop(h: Seq<u8>, w: int, k: nat, n: nat)
    requires
        k <= n,
        !(channels(h, w, k) matches Some(Some(_))),
    ensures
        channels(h, w, n) == channels(h, w, k),
    decreases n - k,
{
    if k < n {
        lemma_channels_stop(h, w, k, (n - 1) as nat);
    }
}

/// Where all `n` channels are read without a panic, so are the first `k`.
proof fn lemma_channels_prefix(h: Seq<u8>, w: int, k: nat, n: nat)
    requires
        k <= n,
        !(channels(h, w, n) is None),
    ensures
        !(channels(h, w, k) is None),
    decreases n - k,
{
    if k < n {
        lemma_channels_prefix(h, w, k, (n - 1) as nat);
    }
}

impl Color {
    /// Fully transparent black.
    pub fn transparent() -> (c: Color)
        ensures
            c == (Color { r: 0, g: 0, b: 0, a: 0 }),
    {
        Color { r: 0, g: 0, b: 0, a: 0 }
    }

    pub fn rgba(r: u8, g: u8, b: u8, a: u8) -> (c: Color)
        ensures
            c == (Color { r, g, b, a }),
    {
        Color { r, g, b, a }
    }

    /// An opaque color.
    pub fn rgb(r: u8, g: u8, b: u8) -> (c: Color)
        ensures
            c == (Color { r, g, b, a: 255 }),
    {
        Color { r, g, b, a: 0xFF }
    }

    /// Reads `transparent` or a web hex color (`#rgb`, `#rgba`, `#rrggbb`,
    /// `#rrggbbaa`); `None` for any other text.
    pub fn parse(value: &str) -> (r: Option<Color>)
        requires
            !(parse_model(value@, value.spec_bytes()) is Panics),
        ensures
            parse_model(value@, value.spec_bytes()) == HexRead::Read(r),
    {
        if same_text(value, "transparent") {
            return Some(Color::transparent());
        }
        let bytes = value.as_bytes();
        if bytes.len() == 0 || bytes[0] != 35 {
            return None;
        }
        let len = bytes.len() - 1;
        let (w, n): (usize, usize) = if len == 3 {
            (1, 3)
        } else if len == 4 {
            (1, 4)
        } else if len == 6 {
            (2, 3)
        } else if len == 8 {
            (2, 4)
        } else {
            return None;
        };
        let values = read_channels(bytes, w, n)?;
        if n == 4 {
            Some(Color::rgba(values[0], values[1], values[2], values[3]))
        } else {
            Some(Color::rgb(values[0], values[1], values[2]))
        }
    }
}

/// The short hex forms read as their long forms: `#rgb` as `#rrggbb`, and
/// `#rgba` as `#rrggbbaa`, for any ASCII characters.
pub proof fn short_hex_reads_as_long(text_short: Seq<char>, text_long: Seq<char>, digits: Seq<u8>)
    requires
        digits.len() == 3 || digits.len() == 4,
        forall|i: int| 0 <= i < digits.len() ==> #[trigger] digits[i] < 0x80,
        text_short != "transparent"@,
        text_long != "transparent"@,
    ensures
        parse_model(text_short, seq![35u8] + digits) == parse_model(
            text_long,
            seq![35u8] + Seq::new(2 * digits.len(), |i: int| digits[i / 2]),
        ),
{
    let short = seq![35u8] + digits;
    let long = seq![35u8] + Seq::new(2 * digits.len(), |i: int| digits[i / 2]);
    let hs = short.subrange(1, short.len() as int);
    let hl = long.subrange(1, long.len() as int);
    assert(hs =~= digits);
    assert(hl =~= Seq::new(2 * digits.len(), |i: int| digits[i / 2]));
    let n = digits.len();
    assert forall|k: int| 0 <= k < n implies #[trigger] channel_at(hs, 1, k) == channel_at(hl, 2, k) by {
        assert(hl[2 * k] == digits[k]);
        assert(hl[2 * k + 1] == digits[(2 * k + 1) / 2]);
        assert((2 * k + 1) / 2 == k);
        if k + 1 < n {
            assert(hs[k + 1] < 0x80);
            assert(hl[2 * k + 2] == digits[(2 * k + 2) / 2]);
            assert((2 * k + 2) / 2 == k + 1);
        }
        if 0 < k {
            assert(hs[k] < 0x80);
        }
    }
    lemma_channels_same(hs, hl, n as nat);
}

proof fn lemma_channels_same(hs: Seq<u8>, hl: Seq<u8>, n: nat)
    requires
        forall|k: int| 0 <= k < n ==> #[trigger] channel_at(hs, 1, k) == channel_at(hl, 2, k),
    ensures
        forall|m: nat| m <= n ==> #[trigger] channels(hs, 1, m) == channels(hl, 2, m),
    decreases n,
{
    if n > 0 {
        lemma_channels_same(hs, hl, (n - 1) as nat);
    }
    assert forall|m: nat| m <= n implies #[trigger] channels(hs, 1, m) == channels(hl, 2, m) by {
        if m == n && n > 0 {
            assert(channels(hs, 1, (n - 1) as nat) == channels(hl, 2, (n - 1) as nat));
            assert(channel_at(hs, 1, n - 1) == channel_at(hl, 2, n - 1));
        }
    }
}

proof fn lemma_ascii_channels(h: Seq<u8>, w: int, n: nat)
    requires
        w == 1 || w == 2,
        w * n <= h.len(),
        forall|i: int| 0 <= i < h.len() ==> #[trigger] h[i] < 0x80,
    ensures
        !(channels(h, w, n) is None),
    decreases n,
{
    if n > 0 {
        assert(w * (n - 1) <= w * n) by (nonlinear_arith)
            requires
                n > 0,
                w >= 1,
        ;
        lemma_ascii_channels(h, w, (n - 1) as nat);
        let a = w * (n - 1);
        assert(a + w == w * n) by (nonlinear_arith)
            requires
                a == w * (n - 1),
        ;
        assert(byte_boundary(h, a));
        assert(byte_boundary(h, a + w));
    }
}

/// Reading an ASCII text as a color never panics: the `requires` of
/// `Color::parse` holds of it.
pub proof fn ascii_colors_are_readable(value: &str)
    requires
        is_ascii(value),
    ensures
        !(parse_model(value@, value.spec_bytes()) is Panics),
{
    broadcast use vstd::string::is_ascii_spec_bytes;
    let bytes = value.spec_bytes();
    assert(bytes =~= Seq::new(value@.len(), |i: int| value@[i] as u8));
    if !(value@ == "transparent"@) && bytes.len() > 0 && bytes[0] == 35 {
        let h = bytes.subrange(1, bytes.len() as int);
        assert forall|i: int| 0 <= i < h.len() implies #[trigger] h[i] < 0x80 by {
            assert(h[i] == bytes[i + 1]);
            assert('\0' <= value@[i + 1] <= '\u{7f}');
        }
        if h.len() == 3 {
            lemma_ascii_channels(h, 1, 3);
        } else if h.len() == 4 {
            lemma_ascii_channels(h, 1, 4);
        } else if h.len() == 6 {
            lemma_ascii_channels(h, 2, 3);
        } else if h.len() == 8 {
            lemma_ascii_channels(h, 2, 4);
        }
    }
}

/// Whether reading `n` channels of `w` bytes from the bytes of `h` after its
/// first panics.
fn channels_panic(h: &[u8], w: usize, n: usize) -> (b: bool)
    requires
        h@.len() >= 1,
        w == 1 || w == 2,
        n == 3 || n == 4,
        h@.len() - 1 == w * n,
    ensures
        b == channels(h@.subrange(1, h@.len() as int), w as int, n as nat) is None,
{
    let ghost hex = h@.subrange(1, h@.len() as int);
    let mut k: usize = 0;
    while k < n
        invariant
            h@.len() >= 1,
            hex == h@.subrange(1, h@.len() as int),
            w == 1 || w == 2,
            n == 3 || n == 4,
            hex.len() == w * n,
            k <= n,
            channels(hex, w as int, k as nat) matches Some(Some(_)),
        decreases n - k,
    {
        let a = w * k;
        assert(a + w <= hex.len()) by (nonlinear_arith)
            requires
                a == w * k,
                k < n,
                hex.len() == w * n,
        ;
        if !(is_boundary_in(h, a) && is_boundary_in(h, a + w)) {
            proof {
                lemma_channels_stop(hex, w as int, (k + 1) as nat, n as nat);
            }
            return true;
        }
        let hi = h[1 + a];
        let lo = if w == 1 {
            hi
        } else {
            h[1 + a + 1]
        };
        if hex_pair(hi, lo).is_none() {
            proof {
                lemma_channels_stop(hex, w as int, (k + 1) as nat, n as nat);
            }
            return false;
        }
        k += 1;
    }
    false
}

impl Color {
    /// Whether reading `value` as a color panics (slicing its hex digits
    /// inside a character): exactly the texts that `Color::parse` does not
    /// accept.
    pub fn parse_panics(value: &str) -> (b: bool)
        ensures
            b == parse_model(value@, value.spec_bytes()) is Panics,
    {
        if same_text(value, "transparent") {
            return false;
        }
        let bytes = value.as_bytes();
        if bytes.len() == 0 || bytes[0] != 35 {
            return false;
        }
        let len = bytes.len() - 1;
        if len == 3 {
            channels_panic(bytes, 1, 3)
        } else if len == 4 {
            channels_panic(bytes, 1, 4)
        } else if len == 6 {
            channels_panic(bytes, 2, 3)
        } else if len == 8 {
            channels_panic(bytes, 2, 4)
        } else {
            false
        }
    }
}

} // verus!
