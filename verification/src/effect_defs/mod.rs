//! Types shared by the effect definitions.

pub mod js_number;

use vstd::prelude::*;
use vstd::string::*;

verus! {

/// An effect type that no definition is registered for.
#[derive(Debug, PartialEq)]
pub enum EffectDefsError {
    UnknownEffect { effect_type: String },
}

impl EffectDefsError {
    /// The error as text: `Unknown effect: {effect_type}`.
    pub fn to_string(&self) -> (s: String)
        ensures
            s@ == (match self {
                EffectDefsError::UnknownEffect { effect_type } => "Unknown effect: "@ + effect_type@,
            }),
    {
        match self {
            EffectDefsError::UnknownEffect { effect_type } => {
                let mut s = String::new();
                s.append("Unknown effect: ");
                s.append(effect_type.as_str());
                s
            },
        }
    }
}

/// One choice of a select parameter: the stored value and the label shown.
#[derive(Clone, Debug, PartialEq)]
pub struct SelectOption {
    pub value: String,
    pub label: String,
}

} // verus!
