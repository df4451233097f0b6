//! Writing a color of the gradient grammar back as CSS text.

use vstd::prelude::*;
use vstd::string::*;
use super::ast::{Color, ColorV};

verus! {

/// The parts joined by commas, with nothing around them.
pub open spec fn joined(parts: Seq<Seq<char>>) -> Seq<char>
    decreases parts.len(),
{
    if parts.len() == 0 {
        Seq::empty()
    } else if parts.len() == 1 {
        parts[0]
    } else {
        joined(parts.drop_last()) + ","@ + parts.last()
    }
}

/// The CSS text of a color.
pub open spec fn color_text(color: ColorV) -> Seq<char> {
    match color {
        ColorV::Hex(v) => "#"@ + v,
        ColorV::Literal(v) => v,
        ColorV::Rgb(values) => "rgb("@ + joined(values) + ")"@,
        ColorV::Rgba(values) => "rgba("@ + joined(values) + ")"@,
        ColorV::Hsl(values) => "hsl("@ + joined(values) + ")"@,
        ColorV::Hsla(values) => "hsla("@ + joined(values) + ")"@,
        ColorV::Var(v) => "var("@ + v + ")"@,
    }
}

/// Appends the parts, joined by commas, to `out`.
fn append_joined(out: &mut String, parts: &[String])
    ensures
        final(out)@ == old(out)@ + joined(parts@.map_values(|p: String| p@)),
{
    let ghost start = out@;
    let mut i: usize = 0;
    while i < parts.len()
        invariant
            i <= parts.len(),
            out@ == start + joined(parts@.map_values(|p: String| p@).take(i as int)),
        decreases parts.len() - i,
    {
        let ghost views = parts@.map_values(|p: String| p@);
        proof {
            assert(views.take(i as int + 1).drop_last() =~= views.take(i as int));
            reveal_with_fuel(joined, 2);
        }
        if i > 0 {
            out.append(",");
        }
        out.append(parts[i].as_str());
        proof {
            if i == 0 {
                assert(views.take(1) =~= seq![parts@[0]@]);
            }
            assert(out@ =~= start + joined(views.take(i as int + 1)));
        }
        i += 1;
    }
    proof {
        let views = parts@.map_values(|p: String| p@);
        assert(views.take(parts@.len() as int) =~= views);
    }
}

/// Writes a color back as CSS text: `#` before a hex value, a function call
/// with its arguments joined by commas, or the name as it is.
pub fn color_to_string(color: &Color) -> (s: String)
    ensures
        s@ == color_text(color.deep_view()),
{
    let mut out = String::new();
    match color {
        Color::Hex(value) => {
            out.append("#");
            out.append(value.as_str());
        },
        Color::Literal(value) => {
            out.append(value.as_str());
        },
        Color::Rgb(values) => {
            out.append("rgb(");
            proof {
                assert(values@.map_values(|p: String| p@) =~= values.deep_view());
            }
            append_joined(&mut out, values.as_slice());
            out.append(")");
        },
        Color::Rgba(values) => {
            out.append("rgba(");
            proof {
                assert(values@.map_values(|p: String| p@) =~= values.deep_view());
            }
            append_joined(&mut out, values.as_slice());
            out.append(")");
        },
        Color::Hsl(values) => {
            out.append("hsl(");
            proof {
                assert(values@.map_values(|p: String| p@) =~= values.deep_view());
            }
            append_joined(&mut out, values.as_slice());
            out.append(")");
        },
        Color::Hsla(values) => {
            out.append("hsla(");
            proof {
                assert(values@.map_values(|p: String| p@) =~= values.deep_view());
            }
            append_joined(&mut out, values.as_slice());
            out.append(")");
        },
        Color::Var(value) => {
            out.append("var(");
            out.append(value.as_str());
            out.append(")");
        },
    }
    proof {
        assert(out@ =~= color_text(color.deep_view()));
    }
    out
}

} // verus!
