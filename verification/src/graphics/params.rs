//! Parameter groups and select options of the graphics.

use vstd::prelude::*;

verus! {

/// A group that parameters are shown under.
#[derive(Debug, Clone, Copy, PartialEq, Eq, Structural)]
pub enum ParamGroup {
    Stroke,
}

impl ParamGroup {
    /// The key of the group.
    pub fn as_str(&self) -> (s: &'static str)
        ensures
            s@ == (match self {
                ParamGroup::Stroke => "stroke"@,
            }),
    {
        match self {
            ParamGroup::Stroke => "stroke",
        }
    }
}

/// One choice of a select parameter: the stored value and the label shown.
#[derive(Debug, Clone, PartialEq)]
pub struct SelectOption {
    pub value: &'static str,
    pub label: &'static str,
}

} // verus!
