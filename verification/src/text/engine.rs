//! Errors of the text engine.

use vstd::prelude::*;
use vstd::string::*;

verus! {

#[derive(Debug)]
pub enum TextError {
    FontLoad(String),
}

impl TextError {
    /// The error as text.
    pub fn to_string(&self) -> (s: String)
        ensures
            s@ == (match self {
                TextError::FontLoad(reason) => "failed to load font: "@ + reason@,
            }),
    {
        match self {
            TextError::FontLoad(reason) => {
                let mut s = String::new();
                s.append("failed to load font: ");
                s.append(reason.as_str());
                s
            },
        }
    }
}

} // verus!
