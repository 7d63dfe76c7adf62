//! Nodes: the machines that pods run on.

use vstd::prelude::*;

verus! {

/// What a node reports of itself.
#[derive(Clone, Copy, Debug, PartialEq, Eq, Structural)]
pub struct NodeStatus {
    /// Whether the node accepts pods.
    pub ready: bool,
}

/// A node.
#[derive(Clone, Copy, Debug, PartialEq, Eq, Structural)]
pub struct Node {
    pub status: NodeStatus,
}

} // verus!
