//! References to the elements of a scene.

use vstd::prelude::*;

verus! {

/// An element, found by its track and its own id.
#[derive(Clone, Debug, PartialEq)]
pub struct ElementRef {
    pub track_id: String,
    pub element_id: String,
}

} // verus!
