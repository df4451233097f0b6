//! Media sources of the render graph.

pub mod plan;

use vstd::prelude::*;

verus! {

#[verifier::external_type_specification]
#[verifier::external_body]
pub struct ExPathBuf(std::path::PathBuf);

/// `PathBuf::clone`: a copy of the path, equal to it.
pub assume_specification[ <std::path::PathBuf as Clone>::clone ](p: &std::path::PathBuf) -> (r: std::path::PathBuf)
    ensures
        r == *p,
;

#[derive(Clone, Copy, Debug, Eq, PartialEq, Structural)]
pub enum MediaType {
    Video,
    Image,
    Audio,
}

/// A media file that elements of the scene draw from.
#[derive(Clone, Debug)]
pub struct MediaSource {
    pub id: String,
    pub media_type: MediaType,
    pub path: std::path::PathBuf,
}

} // verus!
