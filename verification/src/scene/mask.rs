//! Style settings of masks.

use vstd::prelude::*;

verus! {

#[derive(Clone, Copy, Debug, Eq, PartialEq, Structural)]
pub enum StrokeAlign {
    Inside,
    Center,
    Outside,
}

#[derive(Clone, Copy, Debug, Eq, PartialEq, Structural)]
pub enum TextFontWeight {
    Normal,
    Bold,
}

#[derive(Clone, Copy, Debug, Eq, PartialEq, Structural)]
pub enum TextFontStyle {
    Normal,
    Italic,
}

#[derive(Clone, Copy, Debug, Eq, PartialEq, Structural)]
pub enum TextDecoration {
    Plain,
    Underline,
    LineThrough,
}

} // verus!
