//! Bindings: the write by which a pod is assigned to a node.

use crate::objects::duplicate::Duplicate;
use vstd::prelude::*;

verus! {

/// Assigns the pod `target_pod_name` to the node `target_node_name`.
#[derive(Debug, PartialEq, Eq)]
pub struct Binding {
    pub target_pod_name: String,
    pub target_node_name: String,
}

/// [`Binding`] as a mathematical value.
pub struct BindingView {
    pub target_pod_name: Seq<char>,
    pub target_node_name: Seq<char>,
}

impl View for Binding {
    type V = BindingView;

    open spec fn view(&self) -> BindingView {
        BindingView {
            target_pod_name: self.target_pod_name@,
            target_node_name: self.target_node_name@,
        }
    }
}

impl Duplicate for Binding {
    fn duplicate(&self) -> (copy: Self) {
        Binding {
            target_pod_name: self.target_pod_name.clone(),
            target_node_name: self.target_node_name.clone(),
        }
    }
}

} // verus!
