//! Layout settings of text.

use vstd::prelude::*;

verus! {

#[derive(Clone, Copy, Debug, PartialEq, Eq, Structural)]
pub enum TextAlign {
    Left,
    Center,
    Right,
}

impl Default for TextAlign {
    /// Text is centered unless set otherwise.
    fn default() -> (a: TextAlign)
        ensures
            a == TextAlign::Center,
    {
        TextAlign::Center
    }
}

#[derive(Clone, Copy, Debug, PartialEq, Eq, Structural)]
pub enum FontWeight {
    Normal,
    Bold,
}

impl Default for FontWeight {
    fn default() -> (w: FontWeight)
        ensures
            w == FontWeight::Normal,
    {
        FontWeight::Normal
    }
}

#[derive(Clone, Copy, Debug, PartialEq, Eq, Structural)]
pub enum FontStyle {
    Normal,
    Italic,
}

impl Default for FontStyle {
    fn default() -> (s: FontStyle)
        ensures
            s == FontStyle::Normal,
    {
        FontStyle::Normal
    }
}

#[derive(Clone, Copy, Debug, PartialEq, Eq, Structural)]
pub enum TextDecoration {
    Plain,
    Underline,
    LineThrough,
}

impl Default for TextDecoration {
    fn default() -> (d: TextDecoration)
        ensures
            d == TextDecoration::Plain,
    {
        TextDecoration::Plain
    }
}

} // verus!
