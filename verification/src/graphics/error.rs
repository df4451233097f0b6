//! Errors of the graphics renderer.

use vstd::prelude::*;
use vstd::string::*;
use super::gradient::parser::GradientParseError;

verus! {

#[derive(Debug, PartialEq)]
pub enum GraphicsError {
    UnknownGraphic(String),
    InvalidColor(String),
    GradientParse(GradientParseError),
}

impl GraphicsError {
    /// The error as text; a gradient error is shown as it is.
    pub fn to_string(&self) -> (s: String)
        ensures
            s@ == (match self {
                GraphicsError::UnknownGraphic(name) => "Unknown graphic: "@ + name@,
                GraphicsError::InvalidColor(color) => "Invalid color: "@ + color@,
                GraphicsError::GradientParse(e) => e.input@ + ": "@ + e.message@,
            }),
    {
        match self {
            GraphicsError::UnknownGraphic(name) => {
                let mut s = String::new();
                s.append("Unknown graphic: ");
                s.append(name.as_str());
                s
            },
            GraphicsError::InvalidColor(color) => {
                let mut s = String::new();
                s.append("Invalid color: ");
                s.append(color.as_str());
                s
            },
            GraphicsError::GradientParse(e) => e.to_string(),
        }
    }
}

impl From<GradientParseError> for GraphicsError {
    fn from(e: GradientParseError) -> (r: GraphicsError) {
        GraphicsError::GradientParse(e)
    }
}

impl vstd::std_specs::convert::FromSpecImpl<GradientParseError> for GraphicsError {
    open spec fn obeys_from_spec() -> bool {
        true
    }

    open spec fn from_spec(e: GradientParseError) -> GraphicsError {
        GraphicsError::GradientParse(e)
    }
}

} // verus!
