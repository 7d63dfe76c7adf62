//! Ingresses: routes from host names and paths to services.

use crate::objects::duplicate::{duplicate_all, duplicate_option, option_view, views_of, Duplicate};
use vstd::prelude::*;

verus! {

/// The service and port that a path leads to.
#[derive(Debug, PartialEq, Eq)]
pub struct IngressService {
    pub name: String,
    pub port: u16,
}

/// [`IngressService`] as a mathematical value.
pub struct IngressServiceView {
    pub name: Seq<char>,
    pub port: u16,
}

impl View for IngressService {
    type V = IngressServiceView;

    open spec fn view(&self) -> IngressServiceView {
        IngressServiceView { name: self.name@, port: self.port }
    }
}

/// One path of a rule.
#[derive(Debug, PartialEq, Eq)]
pub struct IngressPath {
    pub path: String,
    pub service: IngressService,
}

/// [`IngressPath`] as a mathematical value.
pub struct IngressPathView {
    pub path: Seq<char>,
    pub service: IngressServiceView,
}

impl View for IngressPath {
    type V = IngressPathView;

    open spec fn view(&self) -> IngressPathView {
        IngressPathView { path: self.path@, service: self.service@ }
    }
}

impl Duplicate for IngressPath {
    fn duplicate(&self) -> (copy: Self) {
        IngressPath {
            path: self.path.clone(),
            service: IngressService { name: self.service.name.clone(), port: self.service.port },
        }
    }
}

/// The paths served under one host name.
#[derive(Debug, PartialEq, Eq)]
pub struct IngressRule {
    pub host: Option<String>,
    pub paths: Vec<IngressPath>,
}

/// [`IngressRule`] as a mathematical value.
pub struct IngressRuleView {
    pub host: Option<Seq<char>>,
    pub paths: Seq<IngressPathView>,
}

impl View for IngressRule {
    type V = IngressRuleView;

    open spec fn view(&self) -> IngressRuleView {
        IngressRuleView { host: option_view(self.host), paths: views_of(self.paths@) }
    }
}

impl Duplicate for IngressRule {
    fn duplicate(&self) -> (copy: Self) {
        IngressRule { host: duplicate_option(&self.host), paths: duplicate_all(&self.paths) }
    }
}

/// What the user asks of an ingress.
#[derive(Debug, PartialEq, Eq)]
pub struct IngressSpec {
    pub rules: Vec<IngressRule>,
}

/// An ingress.
#[derive(Debug, PartialEq, Eq)]
pub struct Ingress {
    pub spec: IngressSpec,
}

/// [`Ingress`] as a mathematical value.
pub struct IngressView {
    pub rules: Seq<IngressRuleView>,
}

impl View for Ingress {
    type V = IngressView;

    open spec fn view(&self) -> IngressView {
        IngressView { rules: views_of(self.spec.rules@) }
    }
}

impl Duplicate for Ingress {
    fn duplicate(&self) -> (copy: Self) {
        Ingress { spec: IngressSpec { rules: duplicate_all(&self.spec.rules) } }
    }
}

} // verus!
