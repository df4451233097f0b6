//! Reading the stroke color of a mask, into a `tiny_skia` color.

use vstd::prelude::*;
use crate::chars::{chars_of, trim_ws, trimmed_range};
use super::MaskRenderError;
use tiny_skia::Color as SkiaColor;

verus! {

#[verifier::external_type_specification]
#[verifier::external_body]
pub struct ExSkiaColor(SkiaColor);

/// What `tiny_skia::Color::from_rgba8` gives for four bytes.
pub uninterp spec fn rgba8_color(r: u8, g: u8, b: u8, a: u8) -> SkiaColor;

/// `tiny_skia::Color::from_rgba8`: the color whose components are the four
/// bytes divided by 255. Only that the result depends on the bytes alone is
/// claimed; the float components are not stated.
#[verifier::external_body]
fn color_from_rgba8(r: u8, g: u8, b: u8, a: u8) -> (c: SkiaColor)
    ensures
        c == rgba8_color(r, g, b, a),
{
    SkiaColor::from_rgba8(r, g, b, a)
}

/// The value of a hexadecimal digit.
pub open spec fn hex_value(c: char) -> Option<nat> {
    if '0' <= c <= '9' {
        Some((c as nat - '0' as nat) as nat)
    } else if 'a' <= c <= 'f' {
        Some((c as nat - 'a' as nat + 10) as nat)
    } else if 'A' <= c <= 'F' {
        Some((c as nat - 'A' as nat + 10) as nat)
    } else {
        None
    }
}

/// The number that hexadecimal digits write, if they all are digits.
pub open spec fn hex_number(digits: Seq<char>) -> Option<nat>
    decreases digits.len(),
{
    if digits.len() == 0 {
        Some(0)
    } else {
        match (hex_number(digits.drop_last()), hex_value(digits.last())) {
            (Some(high), Some(low)) => Some(high * 16 + low),
            _ => None,
        }
    }
}

/// What `u32::from_str_radix(text, 16)` gives for a text of at most eight
/// characters: an optional `+`, then at least one hexadecimal digit.
pub open spec fn radix16(text: Seq<char>) -> Option<nat> {
    if text.len() == 0 || text == seq!['+'] {
        None
    } else if text[0] == '+' {
        hex_number(text.drop_first())
    } else {
        hex_number(text)
    }
}

/// A four-bit value written twice: `0xf` becomes `0xff`.
pub open spec fn doubled_nibble(v: nat) -> u8 {
    (v % 16 * 17) as u8
}

/// The channels of a stroke color: the trimmed text is `#` and then 3, 4, 6 or
/// 8 characters that read as one hexadecimal number (`#rgb`, `#rgba`,
/// `#rrggbb`, `#rrggbbaa`; alpha 255 where it is not given).
pub open spec fn stroke_channels(value: Seq<char>) -> Option<(u8, u8, u8, u8)> {
    let t = trim_ws(value);
    if t.len() == 0 || t[0] != '#' {
        None
    } else {
        let hex = t.drop_first();
        match radix16(hex) {
            None => None,
            Some(v) => if hex.len() == 3 {
                Some((doubled_nibble(v / 256), doubled_nibble(v / 16), doubled_nibble(v), 255u8))
            } else if hex.len() == 4 {
                Some(
                    (
                        doubled_nibble(v / 4096),
                        doubled_nibble(v / 256),
                        doubled_nibble(v / 16),
                        doubled_nibble(v),
                    ),
                )
            } else if hex.len() == 6 {
                Some(((v / 65536 % 256) as u8, (v / 256 % 256) as u8, (v % 256) as u8, 255u8))
            } else if hex.len() == 8 {
                Some(
                    (
                        (v / 16777216 % 256) as u8,
                        (v / 65536 % 256) as u8,
                        (v / 256 % 256) as u8,
                        (v % 256) as u8,
                    ),
                )
            } else {
                None
            },
        }
    }
}

/// Sixteen to the power `n`.
pub open spec fn pow16(n: nat) -> nat
    decreases n,
{
    if n == 0 {
        1
    } else {
        16 * pow16((n - 1) as nat)
    }
}

proof fn lemma_pow16_mono(a: nat, b: nat)
    requires
        a <= b,
    ensures
        pow16(a) <= pow16(b),
    decreases b,
{
    if a < b {
        lemma_pow16_mono(a, (b - 1) as nat);
    }
}

proof fn lemma_hex_number_bound(digits: Seq<char>)
    ensures
        hex_number(digits) matches Some(v) ==> v < pow16(digits.len()),
    decreases digits.len(),
{
    if digits.len() > 0 {
        lemma_hex_number_bound(digits.drop_last());
        match hex_number(digits.drop_last()) {
            Some(high) => {
                let p = pow16((digits.len() - 1) as nat);
                assert(high * 16 + 15 < p * 16) by (nonlinear_arith)
                    requires
                        high < p,
                ;
            },
            None => {},
        }
    }
}

/// Reads hexadecimal digits `v[from..to]` as a number, where there are at
/// most seven of them.
fn read_hex(v: &Vec<char>, from: usize, to: usize) -> (r: Option<u32>)
    requires
        from <= to <= v.len(),
        to - from <= 7,
    ensures
        match r {
            Some(x) => hex_number(v@.subrange(from as int, to as int)) == Some(x as nat),
            None => hex_number(v@.subrange(from as int, to as int)) is None,
        },
{
    let mut value: u32 = 0;
    let mut i = from;
    while i < to
        invariant
            from <= i <= to <= v.len(),
            to - from <= 7,
            hex_number(v@.subrange(from as int, i as int)) == Some(value as nat),
            value < pow16((i - from) as nat),
        decreases to - i,
    {
        proof {
            assert(v@.subrange(from as int, i as int + 1).drop_last() =~= v@.subrange(from as int, i as int));
            assert(v@.subrange(from as int, i as int + 1).last() == v@[i as int]);
            lemma_pow16_mono((i - from) as nat, 6);
            reveal_with_fuel(pow16, 7);
            assert(pow16(6) == 16777216);
            assert(pow16((i - from + 1) as nat) == pow16((i - from) as nat) * 16);
        }
        let c = v[i];
        let d: u32 = if '0' <= c && c <= '9' {
            (c as u32) - ('0' as u32)
        } else if 'a' <= c && c <= 'f' {
            (c as u32) - ('a' as u32) + 10
        } else if 'A' <= c && c <= 'F' {
            (c as u32) - ('A' as u32) + 10
        } else {
            proof {
                lemma_hex_none_extends(v@, from as int, i as int, to as int);
            }
            return None;
        };
        assert(value * 16 + d < pow16((i - from + 1) as nat)) by (nonlinear_arith)
            requires
                value < pow16((i - from) as nat),
                pow16((i - from + 1) as nat) == pow16((i - from) as nat) * 16,
                d < 16,
        ;
        value = value * 16 + d;
        i += 1;
    }
    Some(value)
}

/// Once a character is no digit, the whole text is no number.
proof fn lemma_hex_none_extends(v: Seq<char>, from: int, i: int, to: int)
    requires
        0 <= from <= i < to <= v.len(),
        hex_value(v[i]) is None,
    ensures
        hex_number(v.subrange(from, to)) is None,
    decreases to - i,
{
    assert(v.subrange(from, to).drop_last() =~= v.subrange(from, to - 1));
    if i < to - 1 {
        lemma_hex_none_extends(v, from, i, to - 1);
    } else {
        assert(v.subrange(from, to).last() == v[i]);
    }
}

/// The channels of a stroke color, or the error that names the text.
pub fn stroke_color_channels(value: &str) -> (r: Result<(u8, u8, u8, u8), MaskRenderError>)
    ensures
        match stroke_channels(value@) {
            Some(c) => r == Ok::<(u8, u8, u8, u8), MaskRenderError>(c),
            None => r matches Err(MaskRenderError::InvalidStrokeColor(text)) && text@ == value@,
        },
{
    let chars = chars_of(value);
    let trimmed = trimmed_range(&chars, 0, chars.len());
    proof {
        assert(chars@.subrange(0, chars@.len() as int) =~= chars@);
    }
    let t = chars_of(trimmed.as_str());
    if t.len() == 0 || t[0] != '#' {
        return Err(MaskRenderError::InvalidStrokeColor(value.to_owned()));
    }
    let n = t.len() - 1;
    if !(n == 3 || n == 4 || n == 6 || n == 8) {
        return Err(MaskRenderError::InvalidStrokeColor(value.to_owned()));
    }
    let ghost hex = t@.drop_first();
    proof {
        assert(t@.subrange(1, t@.len() as int) =~= hex);
    }
    let number = if t[1] == '+' {
        if n - 1 > 7 {
            None
        } else {
            proof {
                assert(t@.subrange(2, t@.len() as int) =~= hex.drop_first());
            }
            read_hex(&t, 2, t.len())
        }
    } else if n > 7 {
        // eight digits: the first seven, then the last
        proof {
            assert(t@.subrange(1, t@.len() as int - 1) =~= hex.drop_last());
            assert(hex.last() == t@[t@.len() - 1]);
        }
        match read_hex(&t, 1, t.len() - 1) {
            None => None,
            Some(high) => {
                let c = t[t.len() - 1];
                proof {
                    lemma_hex_number_bound(hex.drop_last());
                    reveal_with_fuel(pow16, 8);
                    assert(pow16(7) == 268435456);
                    assert(hex.drop_last().len() == 7);
                }
                if '0' <= c && c <= '9' {
                    Some(high * 16 + ((c as u32) - ('0' as u32)))
                } else if 'a' <= c && c <= 'f' {
                    Some(high * 16 + ((c as u32) - ('a' as u32) + 10))
                } else if 'A' <= c && c <= 'F' {
                    Some(high * 16 + ((c as u32) - ('A' as u32) + 10))
                } else {
                    None
                }
            },
        }
    } else {
        read_hex(&t, 1, t.len())
    };
    proof {
        reveal_strlit("+");
    }
    let Some(v) = number else {
        return Err(MaskRenderError::InvalidStrokeColor(value.to_owned()));
    };
    assert(v >> 4 == v / 16) by (bit_vector);
    assert(v >> 8 == v / 256) by (bit_vector);
    assert(v >> 12 == v / 4096) by (bit_vector);
    assert(v >> 16 == v / 65536) by (bit_vector);
    assert(v >> 24 == v / 16777216) by (bit_vector);
    proof {
        assert(hex.len() == n);
        assert(hex != seq!['+']);
        assert(hex[0] == t@[1]);
        assert(radix16(hex) == Some(v as nat));
    }
    if n == 3 {
        Ok((nibble_twice(v >> 8), nibble_twice(v >> 4), nibble_twice(v), 255))
    } else if n == 4 {
        Ok((nibble_twice(v >> 12), nibble_twice(v >> 8), nibble_twice(v >> 4), nibble_twice(v)))
    } else if n == 6 {
        Ok((byte_of(v >> 16), byte_of(v >> 8), byte_of(v), 255))
    } else {
        Ok((byte_of(v >> 24), byte_of(v >> 16), byte_of(v >> 8), byte_of(v)))
    }
}

/// The low four bits of `v`, written twice.
fn nibble_twice(v: u32) -> (r: u8)
    ensures
        r == doubled_nibble(v as nat),
{
    assert(v & 0xF == v % 16) by (bit_vector);
    let c = (v & 0xF) as u8;
    assert(((c << 4) | c) == c * 17) by (bit_vector)
        requires
            c < 16,
    ;
    (c << 4) | c
}

/// The low eight bits of `v`.
fn byte_of(v: u32) -> (r: u8)
    ensures
        r == (v % 256) as u8,
{
    assert(v & 0xFF == v % 256) by (bit_vector);
    (v & 0xFF) as u8
}

/// Reads a stroke color given as web hex notation (surrounding whitespace is
/// ignored), into a `tiny_skia` color.
pub fn parse_stroke_color(value: &str) -> (r: Result<SkiaColor, MaskRenderError>)
    ensures
        match stroke_channels(value@) {
            Some((red, green, blue, alpha)) => r matches Ok(c) && c == rgba8_color(red, green, blue, alpha),
            None => r matches Err(MaskRenderError::InvalidStrokeColor(text)) && text@ == value@,
        },
{
    let (r, g, b, a) = stroke_color_channels(value)?;
    Ok(color_from_rgba8(r, g, b, a))
}

} // verus!
