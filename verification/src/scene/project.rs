//! The canvas of a project.

use vstd::prelude::*;

verus! {

#[derive(Clone, Copy, Debug, Eq, PartialEq, Structural)]
pub struct CanvasSize {
    pub width: u32,
    pub height: u32,
}

/// Whether the canvas size is one of the presets or set by hand.
#[derive(Clone, Copy, Debug, Eq, PartialEq, Structural)]
pub enum CanvasSizeMode {
    Preset,
    Custom,
}

} // verus!
