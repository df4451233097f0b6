//! Parameters shared by the shape graphics.

use vstd::prelude::*;
use crate::chars::same_text;

verus! {

/// Where a stroke lies relative to the outline of a shape.
#[derive(Debug, Clone, Copy, PartialEq, Eq, Structural)]
pub enum StrokeAlign {
    Inside,
    Center,
    Outside,
}

impl StrokeAlign {
    /// Reads the value of the stroke-align parameter: `inside` and `outside`
    /// name themselves; every other text is `Center`.
    pub fn parse(value: &str) -> (a: StrokeAlign)
        ensures
            a == (if value@ == "inside"@ {
                StrokeAlign::Inside
            } else if value@ == "outside"@ {
                StrokeAlign::Outside
            } else {
                StrokeAlign::Center
            }),
    {
        if same_text(value, "inside") {
            StrokeAlign::Inside
        } else if same_text(value, "outside") {
            StrokeAlign::Outside
        } else {
            StrokeAlign::Center
        }
    }
}

} // verus!
