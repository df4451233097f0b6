//! What the media decoder reports and produces.

use vstd::prelude::*;

verus! {

/// An audio stream of a media file.
#[derive(Debug, Clone)]
pub struct AudioStreamInfo {
    pub index: usize,
    pub channels: u32,
    pub sample_rate: u32,
}

/// A decoded video frame: RGBA bytes, row by row.
#[derive(Debug, Clone, PartialEq)]
pub struct VideoFrame {
    pub width: u32,
    pub height: u32,
    pub data: Vec<u8>,
}

} // verus!
