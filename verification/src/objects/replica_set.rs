//! Replica sets: a wanted number of pods made from one template.

use crate::objects::duplicate::Duplicate;
use crate::objects::labels::Labels;
use crate::objects::pod::{PodSpec, PodSpecView};
use vstd::prelude::*;

verus! {

/// The pattern from which a replica set makes its pods.
#[derive(Debug, PartialEq, Eq)]
pub struct PodTemplateSpec {
    pub labels: Labels,
    pub spec: PodSpec,
}

/// [`PodTemplateSpec`] as a mathematical value.
pub struct PodTemplateSpecView {
    pub labels: Map<Seq<char>, Seq<char>>,
    pub spec: PodSpecView,
}

impl View for PodTemplateSpec {
    type V = PodTemplateSpecView;

    open spec fn view(&self) -> PodTemplateSpecView {
        PodTemplateSpecView { labels: self.labels@, spec: self.spec@ }
    }
}

impl Duplicate for PodTemplateSpec {
    fn duplicate(&self) -> (copy: Self) {
        PodTemplateSpec { labels: self.labels.duplicate(), spec: self.spec.duplicate() }
    }
}

/// What the user asks of a replica set.
#[derive(Debug, PartialEq, Eq)]
pub struct ReplicaSetSpec {
    pub replicas: u32,
    pub selector: Labels,
    pub template: PodTemplateSpec,
}

/// [`ReplicaSetSpec`] as a mathematical value.
pub struct ReplicaSetSpecView {
    pub replicas: u32,
    pub selector: Map<Seq<char>, Seq<char>>,
    pub template: PodTemplateSpecView,
}

impl View for ReplicaSetSpec {
    type V = ReplicaSetSpecView;

    open spec fn view(&self) -> ReplicaSetSpecView {
        ReplicaSetSpecView {
            replicas: self.replicas,
            selector: self.selector@,
            template: self.template@,
        }
    }
}

impl Duplicate for ReplicaSetSpec {
    fn duplicate(&self) -> (copy: Self) {
        ReplicaSetSpec {
            replicas: self.replicas,
            selector: self.selector.duplicate(),
            template: self.template.duplicate(),
        }
    }
}

/// What the controller's last pass leaves of a replica set, once its plan
/// has been carried out.
#[derive(Clone, Copy, Debug, PartialEq, Eq, Structural)]
pub struct ReplicaSetStatus {
    /// How many pods the selector then matches: as many as are wanted.
    pub replicas: u32,
    /// How many of them are running.
    pub ready_replicas: u32,
}

impl Default for ReplicaSetStatus {
    fn default() -> (status: Self)
        ensures
            status == (ReplicaSetStatus { replicas: 0, ready_replicas: 0 }),
    {
        ReplicaSetStatus { replicas: 0, ready_replicas: 0 }
    }
}

/// A replica set.
#[derive(Debug, PartialEq, Eq)]
pub struct ReplicaSet {
    pub spec: ReplicaSetSpec,
    pub status: Option<ReplicaSetStatus>,
}

/// [`ReplicaSet`] as a mathematical value.
pub struct ReplicaSetView {
    pub spec: ReplicaSetSpecView,
    pub status: Option<ReplicaSetStatus>,
}

impl View for ReplicaSet {
    type V = ReplicaSetView;

    open spec fn view(&self) -> ReplicaSetView {
        ReplicaSetView { spec: self.spec@, status: self.status }
    }
}

impl Duplicate for ReplicaSet {
    fn duplicate(&self) -> (copy: Self) {
        ReplicaSet { spec: self.spec.duplicate(), status: self.status }
    }
}

} // verus!
