//! Pods and their containers.

use crate::objects::duplicate::{
    copy_all, duplicate_all, duplicate_option, option_view, views_of, Duplicate,
};
use crate::time::Timestamp;
use vstd::prelude::*;

verus! {

/// A port that a container exposes on the pod's address.
#[derive(Clone, Copy, Debug, PartialEq, Eq, Structural)]
pub struct ContainerPort {
    pub container_port: u16,
}

/// One container of a pod.
#[derive(Debug, PartialEq, Eq)]
pub struct Container {
    pub name: String,
    pub image: String,
    pub ports: Vec<ContainerPort>,
}

/// [`Container`] as a mathematical value.
pub struct ContainerView {
    pub name: Seq<char>,
    pub image: Seq<char>,
    pub ports: Seq<ContainerPort>,
}

impl View for Container {
    type V = ContainerView;

    open spec fn view(&self) -> ContainerView {
        ContainerView { name: self.name@, image: self.image@, ports: self.ports@ }
    }
}

impl Duplicate for Container {
    fn duplicate(&self) -> (copy: Self) {
        Container {
            name: self.name.clone(),
            image: self.image.clone(),
            ports: copy_all(&self.ports),
        }
    }
}

/// What a pod is asked to run, and where.
#[derive(Debug, PartialEq, Eq)]
pub struct PodSpec {
    pub containers: Vec<Container>,
    /// The node that the pod is bound to; `None` until the scheduler binds it.
    pub node_name: Option<String>,
}

/// [`PodSpec`] as a mathematical value.
pub struct PodSpecView {
    pub containers: Seq<ContainerView>,
    pub node_name: Option<Seq<char>>,
}

impl View for PodSpec {
    type V = PodSpecView;

    open spec fn view(&self) -> PodSpecView {
        PodSpecView {
            containers: views_of(self.containers@),
            node_name: option_view(self.node_name),
        }
    }
}

impl Duplicate for PodSpec {
    fn duplicate(&self) -> (copy: Self) {
        PodSpec {
            containers: duplicate_all(&self.containers),
            node_name: duplicate_option(&self.node_name),
        }
    }
}

impl PodSpec {
    /// Whether the pod has been bound to a node.
    pub fn is_bound(&self) -> (b: bool)
        ensures
            b == self.node_name.is_some(),
    {
        self.node_name.is_some()
    }
}

/// Where a pod is in its life.
#[derive(Clone, Copy, Debug, PartialEq, Eq, Structural)]
pub enum PodPhase {
    Pending,
    Running,
    Succeeded,
    Failed,
}

/// What the node agent reports of one container.
#[derive(Debug, PartialEq, Eq)]
pub struct ContainerStatus {
    pub name: String,
    pub restart_count: u32,
}

/// [`ContainerStatus`] as a mathematical value.
pub struct ContainerStatusView {
    pub name: Seq<char>,
    pub restart_count: u32,
}

impl View for ContainerStatus {
    type V = ContainerStatusView;

    open spec fn view(&self) -> ContainerStatusView {
        ContainerStatusView { name: self.name@, restart_count: self.restart_count }
    }
}

impl Duplicate for ContainerStatus {
    fn duplicate(&self) -> (copy: Self) {
        ContainerStatus { name: self.name.clone(), restart_count: self.restart_count }
    }
}

/// What the node agent reports of a pod.
#[derive(Debug, PartialEq, Eq)]
pub struct PodStatus {
    pub phase: PodPhase,
    pub start_time: Timestamp,
    pub container_statuses: Vec<ContainerStatus>,
}

/// [`PodStatus`] as a mathematical value.
pub struct PodStatusView {
    pub phase: PodPhase,
    pub start_time: Timestamp,
    pub container_statuses: Seq<ContainerStatusView>,
}

impl View for PodStatus {
    type V = PodStatusView;

    open spec fn view(&self) -> PodStatusView {
        PodStatusView {
            phase: self.phase,
            start_time: self.start_time,
            container_statuses: views_of(self.container_statuses@),
        }
    }
}

impl Duplicate for PodStatus {
    fn duplicate(&self) -> (copy: Self) {
        PodStatus {
            phase: self.phase,
            start_time: self.start_time,
            container_statuses: duplicate_all(&self.container_statuses),
        }
    }
}

/// A pod: a group of containers that run together on one node.
#[derive(Debug, PartialEq, Eq)]
pub struct Pod {
    pub spec: PodSpec,
    pub status: Option<PodStatus>,
}

/// [`Pod`] as a mathematical value.
pub struct PodView {
    pub spec: PodSpecView,
    pub status: Option<PodStatusView>,
}

impl View for Pod {
    type V = PodView;

    open spec fn view(&self) -> PodView {
        PodView { spec: self.spec@, status: option_view(self.status) }
    }
}

impl Duplicate for Pod {
    fn duplicate(&self) -> (copy: Self) {
        Pod { spec: self.spec.duplicate(), status: duplicate_option(&self.status) }
    }
}

impl Pod {
    /// The phase that the pod reports; a pod without a status is pending.
    pub open spec fn phase_spec(&self) -> PodPhase {
        match self.status {
            Some(status) => status.phase,
            None => PodPhase::Pending,
        }
    }

    pub fn phase(&self) -> (phase: PodPhase)
        ensures
            phase == self.phase_spec(),
    {
        match &self.status {
            Some(status) => status.phase,
            None => PodPhase::Pending,
        }
    }
}

} // verus!
