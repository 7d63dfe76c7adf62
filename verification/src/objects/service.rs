//! Services: a stable address in front of a set of pods.

use crate::objects::duplicate::{
    copy_all, duplicate_all, duplicate_option, option_view, views_of, Duplicate,
};
use crate::objects::labels::Labels;
use vstd::prelude::*;

verus! {

/// A port of a service and the pod port that it forwards to.
#[derive(Clone, Copy, Debug, PartialEq, Eq, Structural)]
pub struct ServicePort {
    pub port: u16,
    pub target_port: u16,
}

/// What the user asks of a service, and the endpoints found for it.
#[derive(Debug, PartialEq, Eq)]
pub struct ServiceSpec {
    pub selector: Labels,
    pub ports: Vec<ServicePort>,
    pub endpoints: Vec<String>,
    pub cluster_ip: Option<String>,
}

/// [`ServiceSpec`] as a mathematical value.
pub struct ServiceSpecView {
    pub selector: Map<Seq<char>, Seq<char>>,
    pub ports: Seq<ServicePort>,
    pub endpoints: Seq<Seq<char>>,
    pub cluster_ip: Option<Seq<char>>,
}

impl View for ServiceSpec {
    type V = ServiceSpecView;

    open spec fn view(&self) -> ServiceSpecView {
        ServiceSpecView {
            selector: self.selector@,
            ports: self.ports@,
            endpoints: views_of(self.endpoints@),
            cluster_ip: option_view(self.cluster_ip),
        }
    }
}

impl Duplicate for ServiceSpec {
    fn duplicate(&self) -> (copy: Self) {
        ServiceSpec {
            selector: self.selector.duplicate(),
            ports: copy_all(&self.ports),
            endpoints: duplicate_all(&self.endpoints),
            cluster_ip: duplicate_option(&self.cluster_ip),
        }
    }
}

/// A service.
#[derive(Debug, PartialEq, Eq)]
pub struct Service {
    pub spec: ServiceSpec,
}

/// [`Service`] as a mathematical value.
pub struct ServiceView {
    pub spec: ServiceSpecView,
}

impl View for Service {
    type V = ServiceView;

    open spec fn view(&self) -> ServiceView {
        ServiceView { spec: self.spec@ }
    }
}

impl Duplicate for Service {
    fn duplicate(&self) -> (copy: Self) {
        Service { spec: self.spec.duplicate() }
    }
}

} // verus!
