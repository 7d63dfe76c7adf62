//! The resource objects that the control plane stores and reconciles.

pub mod binding;
pub mod duplicate;
pub mod hpa;
pub mod ingress;
pub mod labels;
pub mod node;
pub mod pod;
pub mod replica_set;
pub mod service;

use crate::objects::binding::{Binding, BindingView};
use crate::objects::duplicate::{duplicate_option, option_view, Duplicate};
use crate::objects::hpa::{HorizontalPodAutoscaler, HorizontalPodAutoscalerView};
use crate::objects::ingress::{Ingress, IngressView};
use crate::objects::labels::Labels;
use crate::objects::node::Node;
use crate::objects::pod::{Pod, PodView};
use crate::objects::replica_set::{ReplicaSet, ReplicaSetView};
use crate::objects::service::{Service, ServiceView};
use vstd::prelude::*;
use vstd::string::StringExecFns;

verus! {

/// The kinds of resource that the control plane knows.
#[derive(Clone, Copy, Debug, PartialEq, Eq, Structural)]
pub enum ResourceKind {
    Pod,
    ReplicaSet,
    Service,
    Ingress,
    Node,
    Binding,
    HorizontalPodAutoscaler,
}

impl ResourceKind {
    /// The kind's name as it stands in API paths.
    pub open spec fn plural_spec(self) -> Seq<char> {
        match self {
            ResourceKind::Pod => "pods"@,
            ResourceKind::ReplicaSet => "replicasets"@,
            ResourceKind::Service => "services"@,
            ResourceKind::Ingress => "ingresses"@,
            ResourceKind::Node => "nodes"@,
            ResourceKind::Binding => "bindings"@,
            ResourceKind::HorizontalPodAutoscaler => "horizontalpodautoscalers"@,
        }
    }

    pub fn plural(self) -> (name: &'static str)
        ensures
            name@ == self.plural_spec(),
    {
        match self {
            ResourceKind::Pod => "pods",
            ResourceKind::ReplicaSet => "replicasets",
            ResourceKind::Service => "services",
            ResourceKind::Ingress => "ingresses",
            ResourceKind::Node => "nodes",
            ResourceKind::Binding => "bindings",
            ResourceKind::HorizontalPodAutoscaler => "horizontalpodautoscalers",
        }
    }

    /// The kind's name for one object, in lower case.
    pub open spec fn singular_spec(self) -> Seq<char> {
        match self {
            ResourceKind::Pod => "pod"@,
            ResourceKind::ReplicaSet => "replicaset"@,
            ResourceKind::Service => "service"@,
            ResourceKind::Ingress => "ingress"@,
            ResourceKind::Node => "node"@,
            ResourceKind::Binding => "binding"@,
            ResourceKind::HorizontalPodAutoscaler => "horizontalpodautoscaler"@,
        }
    }

    pub fn singular(self) -> (name: &'static str)
        ensures
            name@ == self.singular_spec(),
    {
        match self {
            ResourceKind::Pod => "pod",
            ResourceKind::ReplicaSet => "replicaset",
            ResourceKind::Service => "service",
            ResourceKind::Ingress => "ingress",
            ResourceKind::Node => "node",
            ResourceKind::Binding => "binding",
            ResourceKind::HorizontalPodAutoscaler => "horizontalpodautoscaler",
        }
    }
}

impl ResourceKind {
    /// The kind's name as references to objects write it.
    pub open spec fn name_spec(self) -> Seq<char> {
        match self {
            ResourceKind::Pod => "Pod"@,
            ResourceKind::ReplicaSet => "ReplicaSet"@,
            ResourceKind::Service => "Service"@,
            ResourceKind::Ingress => "Ingress"@,
            ResourceKind::Node => "Node"@,
            ResourceKind::Binding => "Binding"@,
            ResourceKind::HorizontalPodAutoscaler => "HorizontalPodAutoscaler"@,
        }
    }

    /// The kind that `name` names, if it names one.
    pub fn named(name: &String) -> (kind: Option<ResourceKind>)
        ensures
            match kind {
                Some(k) => name@ == k.name_spec(),
                None => forall|k: ResourceKind| name@ != #[trigger] k.name_spec(),
            },
    {
        if *name == String::from_str("Pod") {
            Some(ResourceKind::Pod)
        } else if *name == String::from_str("ReplicaSet") {
            Some(ResourceKind::ReplicaSet)
        } else if *name == String::from_str("Service") {
            Some(ResourceKind::Service)
        } else if *name == String::from_str("Ingress") {
            Some(ResourceKind::Ingress)
        } else if *name == String::from_str("Node") {
            Some(ResourceKind::Node)
        } else if *name == String::from_str("Binding") {
            Some(ResourceKind::Binding)
        } else if *name == String::from_str("HorizontalPodAutoscaler") {
            Some(ResourceKind::HorizontalPodAutoscaler)
        } else {
            proof {
                assert forall|k: ResourceKind| name@ != #[trigger] k.name_spec() by {
                    match k {
                        ResourceKind::Pod => {},
                        ResourceKind::ReplicaSet => {},
                        ResourceKind::Service => {},
                        ResourceKind::Ingress => {},
                        ResourceKind::Node => {},
                        ResourceKind::Binding => {},
                        ResourceKind::HorizontalPodAutoscaler => {},
                    }
                }
            }
            None
        }
    }
}

/// The prefix shared by the storage keys of all objects of `kind`.
pub open spec fn kind_prefix_of(kind: ResourceKind) -> Seq<char> {
    "/api/v1/"@ + kind.plural_spec() + "/"@
}

/// The key under which the object of `kind` called `name` is stored: its API path.
pub open spec fn storage_key_of(kind: ResourceKind, name: Seq<char>) -> Seq<char> {
    kind_prefix_of(kind) + name
}

/// The prefix shared by the storage keys of all objects of `kind`.
pub fn kind_prefix(kind: ResourceKind) -> (prefix: String)
    ensures
        prefix@ == kind_prefix_of(kind),
{
    String::from_str("/api/v1/").concat(kind.plural()).concat("/")
}

/// The key under which the object of `kind` called `name` is stored.
pub fn storage_key(kind: ResourceKind, name: &str) -> (key: String)
    ensures
        key@ == storage_key_of(kind, name@),
{
    kind_prefix(kind).concat(name)
}

/// Distinct kinds have prefixes that part ways at their ninth character.
proof fn lemma_kind_prefix_shape(kind: ResourceKind)
    ensures
        kind_prefix_of(kind).len() == 9 + kind.plural_spec().len(),
        kind_prefix_of(kind)[8] == kind.plural_spec()[0],
        kind.plural_spec().len() > 0,
        kind.plural_spec()[0] == (match kind {
            ResourceKind::Pod => 'p',
            ResourceKind::ReplicaSet => 'r',
            ResourceKind::Service => 's',
            ResourceKind::Ingress => 'i',
            ResourceKind::Node => 'n',
            ResourceKind::Binding => 'b',
            ResourceKind::HorizontalPodAutoscaler => 'h',
        }),
{
    reveal_strlit("/api/v1/");
    reveal_strlit("/");
    reveal_strlit("pods");
    reveal_strlit("replicasets");
    reveal_strlit("services");
    reveal_strlit("ingresses");
    reveal_strlit("nodes");
    reveal_strlit("bindings");
    reveal_strlit("horizontalpodautoscalers");
}

/// The storage key determines the kind and the name: no two objects share one.
pub proof fn lemma_storage_key_injective(
    kind1: ResourceKind,
    name1: Seq<char>,
    kind2: ResourceKind,
    name2: Seq<char>,
)
    requires
        storage_key_of(kind1, name1) == storage_key_of(kind2, name2),
    ensures
        kind1 == kind2,
        name1 == name2,
{
    lemma_kind_prefix_shape(kind1);
    lemma_kind_prefix_shape(kind2);
    let key1 = storage_key_of(kind1, name1);
    let key2 = storage_key_of(kind2, name2);
    assert(key1[8] == kind_prefix_of(kind1)[8]);
    assert(key2[8] == kind_prefix_of(kind2)[8]);
    assert(kind1 == kind2);
    let n = kind_prefix_of(kind1).len() as int;
    assert(key1.len() == n + name1.len());
    assert(key2.len() == n + name2.len());
    assert forall|i: int| 0 <= i < name1.len() implies name1[i] == name2[i] by {
        assert(key1[n + i] == name1[i]);
        assert(key2[n + i] == name2[i]);
    }
    assert(name1 =~= name2);
}

/// What every object carries, whatever its kind.
#[derive(Debug, PartialEq, Eq)]
pub struct Metadata {
    /// Unique among the objects of one kind.
    pub name: String,
    pub namespace: String,
    pub uid: Option<String>,
    pub labels: Labels,
}

/// [`Metadata`] as a mathematical value.
pub struct MetadataView {
    pub name: Seq<char>,
    pub namespace: Seq<char>,
    pub uid: Option<Seq<char>>,
    pub labels: Map<Seq<char>, Seq<char>>,
}

impl View for Metadata {
    type V = MetadataView;

    open spec fn view(&self) -> MetadataView {
        MetadataView {
            name: self.name@,
            namespace: self.namespace@,
            uid: option_view(self.uid),
            labels: self.labels@,
        }
    }
}

impl Duplicate for Metadata {
    fn duplicate(&self) -> (copy: Self) {
        Metadata {
            name: self.name.clone(),
            namespace: self.namespace.clone(),
            uid: duplicate_option(&self.uid),
            labels: self.labels.duplicate(),
        }
    }
}

/// The kind-specific part of an object.
#[derive(Debug, PartialEq, Eq)]
pub enum KubeResource {
    Pod(Pod),
    ReplicaSet(ReplicaSet),
    Service(Service),
    Ingress(Ingress),
    Node(Node),
    Binding(Binding),
    HorizontalPodAutoscaler(HorizontalPodAutoscaler),
}

/// [`KubeResource`] as a mathematical value.
pub enum KubeResourceView {
    Pod(PodView),
    ReplicaSet(ReplicaSetView),
    Service(ServiceView),
    Ingress(IngressView),
    Node(Node),
    Binding(BindingView),
    HorizontalPodAutoscaler(HorizontalPodAutoscalerView),
}

impl View for KubeResource {
    type V = KubeResourceView;

    open spec fn view(&self) -> KubeResourceView {
        match self {
            KubeResource::Pod(pod) => KubeResourceView::Pod(pod@),
            KubeResource::ReplicaSet(rs) => KubeResourceView::ReplicaSet(rs@),
            KubeResource::Service(service) => KubeResourceView::Service(service@),
            KubeResource::Ingress(ingress) => KubeResourceView::Ingress(ingress@),
            KubeResource::Node(node) => KubeResourceView::Node(*node),
            KubeResource::Binding(binding) => KubeResourceView::Binding(binding@),
            KubeResource::HorizontalPodAutoscaler(hpa) => KubeResourceView::HorizontalPodAutoscaler(
                hpa@,
            ),
        }
    }
}

impl Duplicate for KubeResource {
    fn duplicate(&self) -> (copy: Self) {
        match self {
            KubeResource::Pod(pod) => KubeResource::Pod(pod.duplicate()),
            KubeResource::ReplicaSet(rs) => KubeResource::ReplicaSet(rs.duplicate()),
            KubeResource::Service(service) => KubeResource::Service(service.duplicate()),
            KubeResource::Ingress(ingress) => KubeResource::Ingress(ingress.duplicate()),
            KubeResource::Node(node) => KubeResource::Node(*node),
            KubeResource::Binding(binding) => KubeResource::Binding(binding.duplicate()),
            KubeResource::HorizontalPodAutoscaler(hpa) => KubeResource::HorizontalPodAutoscaler(
                hpa.duplicate(),
            ),
        }
    }
}

impl KubeResource {
    pub open spec fn kind_spec(&self) -> ResourceKind {
        match self {
            KubeResource::Pod(_) => ResourceKind::Pod,
            KubeResource::ReplicaSet(_) => ResourceKind::ReplicaSet,
            KubeResource::Service(_) => ResourceKind::Service,
            KubeResource::Ingress(_) => ResourceKind::Ingress,
            KubeResource::Node(_) => ResourceKind::Node,
            KubeResource::Binding(_) => ResourceKind::Binding,
            KubeResource::HorizontalPodAutoscaler(_) => ResourceKind::HorizontalPodAutoscaler,
        }
    }

    pub fn kind(&self) -> (kind: ResourceKind)
        ensures
            kind == self.kind_spec(),
    {
        match self {
            KubeResource::Pod(_) => ResourceKind::Pod,
            KubeResource::ReplicaSet(_) => ResourceKind::ReplicaSet,
            KubeResource::Service(_) => ResourceKind::Service,
            KubeResource::Ingress(_) => ResourceKind::Ingress,
            KubeResource::Node(_) => ResourceKind::Node,
            KubeResource::Binding(_) => ResourceKind::Binding,
            KubeResource::HorizontalPodAutoscaler(_) => ResourceKind::HorizontalPodAutoscaler,
        }
    }
}

/// The envelope of every stored object: metadata and a kind-specific resource.
#[derive(Debug, PartialEq, Eq)]
pub struct KubeObject {
    pub metadata: Metadata,
    pub resource: KubeResource,
}

/// [`KubeObject`] as a mathematical value.
pub struct KubeObjectView {
    pub metadata: MetadataView,
    pub resource: KubeResourceView,
}

impl View for KubeObject {
    type V = KubeObjectView;

    open spec fn view(&self) -> KubeObjectView {
        KubeObjectView { metadata: self.metadata@, resource: self.resource@ }
    }
}

impl Duplicate for KubeObject {
    fn duplicate(&self) -> (copy: Self) {
        KubeObject { metadata: self.metadata.duplicate(), resource: self.resource.duplicate() }
    }
}

impl KubeObject {
    /// The key under which this object is stored.
    pub open spec fn key_spec(&self) -> Seq<char> {
        storage_key_of(self.resource.kind_spec(), self.metadata.name@)
    }

    pub fn kind(&self) -> (kind: ResourceKind)
        ensures
            kind == self.resource.kind_spec(),
    {
        self.resource.kind()
    }

    pub fn name(&self) -> (name: String)
        ensures
            name@ == self.metadata.name@,
    {
        self.metadata.name.clone()
    }

    /// The key under which this object is stored: a function of kind and name alone.
    pub fn storage_key(&self) -> (key: String)
        ensures
            key@ == self.key_spec(),
    {
        storage_key(self.resource.kind(), self.metadata.name.as_str())
    }
}

} // verus!
