//! Small geometric values carried by layout primitives.

use crate::Scalar;
use vstd::prelude::*;

verus! {

/// Four distances, one per side.
#[derive(Debug, Clone, Copy, PartialEq, Eq, Structural)]
pub struct Rect {
    pub left: Scalar,
    pub right: Scalar,
    pub top: Scalar,
    pub bottom: Scalar,
}

impl Default for Rect {
    fn default() -> (rect: Rect)
        ensures
            rect == (Rect { left: 0, right: 0, top: 0, bottom: 0 }),
    {
        Rect { left: 0, right: 0, top: 0, bottom: 0 }
    }
}

} // verus!
