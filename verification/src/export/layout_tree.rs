//! Edges of the tree diagram.

use vstd::prelude::*;

verus! {

/// A parent-to-child edge between two cards; dashed for a branched child.
#[derive(Debug, Clone, Copy, PartialEq, Eq, Structural)]
pub struct TreeEdge {
    pub parent_index: usize,
    pub child_index: usize,
    pub dashed: bool,
}

} // verus!
