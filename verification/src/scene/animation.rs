//! Kinds of animation segments and extrapolation.

use vstd::prelude::*;

verus! {

/// How a scalar curve goes from one key to the next.
#[derive(Clone, Copy, Debug, Eq, PartialEq, Structural)]
pub enum ScalarSegmentType {
    Step,
    Linear,
    Bezier,
}

/// How the two tangents of a key relate.
#[derive(Clone, Copy, Debug, Eq, PartialEq, Structural)]
pub enum TangentMode {
    Auto,
    Aligned,
    Broken,
    Flat,
}

/// What a channel gives outside the range of its keys.
#[derive(Clone, Copy, Debug, Eq, PartialEq, Structural)]
pub enum ChannelExtrapolationMode {
    Hold,
    Linear,
}

/// The value of a discrete key.
#[derive(Clone, Debug, PartialEq)]
pub enum DiscreteValue {
    Bool(bool),
    String(String),
}

/// Extrapolation before the first key and after the last.
#[derive(Clone, Debug, PartialEq)]
pub struct ChannelExtrapolation {
    pub before: ChannelExtrapolationMode,
    pub after: ChannelExtrapolationMode,
}

} // verus!
