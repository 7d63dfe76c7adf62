use rminik8s::informer::Store;
use rminik8s::models::etcd::WatchEvent;
use rminik8s::objects::labels::Labels;
use rminik8s::objects::node::{Node, NodeStatus};
use rminik8s::objects::pod::{Container, ContainerPort, Pod, PodPhase, PodSpec, PodStatus};
use rminik8s::objects::replica_set::{
    PodTemplateSpec, ReplicaSet, ReplicaSetSpec, ReplicaSetStatus,
};
use rminik8s::objects::{KubeObject, KubeResource, Metadata};
use rminik8s::replicaset::controller::{
    instantiate, reconcile_key, reconcile_set, with_set_status, Plan,
};
use rminik8s::replicaset::names::pod_name;
use rminik8s::text::decimal;
use rminik8s::time::Timestamp;

fn labels(pairs: &[(&str, &str)]) -> Labels {
    let mut labels = Labels::new();
    for (key, value) in pairs {
        labels.insert(key.to_string(), value.to_string());
    }
    labels
}

fn template(pairs: &[(&str, &str)]) -> PodTemplateSpec {
    PodTemplateSpec {
        labels: labels(pairs),
        spec: PodSpec {
            containers: vec![Container {
                name: "c".to_string(),
                image: "nginx".to_string(),
                ports: vec![ContainerPort { container_port: 80 }],
            }],
            node_name: None,
        },
    }
}

fn set(name: &str, replicas: u32, status: Option<ReplicaSetStatus>) -> KubeObject {
    KubeObject {
        metadata: Metadata {
            name: name.to_string(),
            namespace: "default".to_string(),
            uid: None,
            labels: Labels::new(),
        },
        resource: KubeResource::ReplicaSet(ReplicaSet {
            spec: ReplicaSetSpec {
                replicas,
                selector: labels(&[("app", "x")]),
                template: template(&[("app", "x"), ("tier", "web")]),
            },
            status,
        }),
    }
}

fn pod(name: &str, pairs: &[(&str, &str)], phase: Option<PodPhase>) -> KubeObject {
    KubeObject {
        metadata: Metadata {
            name: name.to_string(),
            namespace: "default".to_string(),
            uid: None,
            labels: labels(pairs),
        },
        resource: KubeResource::Pod(Pod {
            spec: PodSpec { containers: Vec::new(), node_name: None },
            status: phase.map(|phase| PodStatus {
                phase,
                start_time: Timestamp::new(0, 0),
                container_statuses: Vec::new(),
            }),
        }),
    }
}

fn cache(objects: Vec<KubeObject>) -> Store {
    let mut store = Store::new();
    store.replace(objects);
    store
}

fn carry_out(plan: &Plan, pods: &mut Store) {
    for key in &plan.delete {
        pods.apply(WatchEvent::new_delete(key.clone()));
    }
    for created in &plan.create {
        let copy = instantiate(
            &template(&[("app", "x"), ("tier", "web")]),
            &created.metadata.namespace,
            created.metadata.name.clone(),
        );
        assert_eq!(&copy, created);
        pods.apply(WatchEvent::new_put(created.storage_key(), copy));
    }
}

fn with_status(set: KubeObject, plan: &Plan) -> KubeObject {
    match with_set_status(&set, plan) {
        Some(updated) => updated,
        None => set,
    }
}

fn names_of(objects: &[KubeObject]) -> Vec<String> {
    objects.iter().map(|o| o.metadata.name.clone()).collect()
}

#[test]
fn replica_set_scale_up() {
    let r1 = set("r1", 3, None);
    let mut pods = cache(Vec::new());
    let plan = reconcile_set(&r1, &pods).unwrap();
    assert_eq!(names_of(&plan.create), vec!["r1-0", "r1-1", "r1-2"]);
    assert!(plan.delete.is_empty());
    assert_eq!(plan.status, Some(ReplicaSetStatus { replicas: 3, ready_replicas: 0 }));
    for created in &plan.create {
        assert!(created.metadata.labels.matches(&labels(&[("app", "x")])));
        assert_eq!(created.metadata.labels, labels(&[("app", "x"), ("tier", "web")]));
        assert_eq!(created.metadata.namespace, "default");
        assert_eq!(created.metadata.uid, None);
        match &created.resource {
            KubeResource::Pod(pod) => {
                assert_eq!(pod.spec, template(&[]).spec);
                assert_eq!(pod.status, None);
            }
            _ => panic!("a replica set makes pods"),
        }
    }
    carry_out(&plan, &mut pods);
    assert_eq!(pods.len(), 3);
}

#[test]
fn a_second_pass_has_nothing_to_do() {
    let sizes: [u32; 4] = [0, 2, 3, 6];
    for replicas in sizes {
        let mut pods = cache(vec![
            pod("a", &[("app", "x")], Some(PodPhase::Running)),
            pod("b", &[("app", "x")], None),
            pod("c", &[("app", "y")], Some(PodPhase::Running)),
            pod("d", &[("app", "x")], Some(PodPhase::Failed)),
            pod("e", &[("app", "x"), ("more", "1")], Some(PodPhase::Running)),
        ]);
        let before = set("r1", replicas, None);
        let first = reconcile_set(&before, &pods).unwrap();
        carry_out(&first, &mut pods);
        let after = with_status(before, &first);
        let second = reconcile_set(&after, &pods).unwrap();
        assert!(second.create.is_empty());
        assert!(second.delete.is_empty());
        assert_eq!(second.status, None);
    }
}

#[test]
fn too_many_pods_are_given_up_pending_first_and_running_last() {
    let pods = cache(vec![
        pod("run1", &[("app", "x")], Some(PodPhase::Running)),
        pod("fail1", &[("app", "x")], Some(PodPhase::Failed)),
        pod("pend1", &[("app", "x")], Some(PodPhase::Pending)),
        pod("other", &[("app", "y")], Some(PodPhase::Pending)),
        pod("run2", &[("app", "x")], Some(PodPhase::Running)),
        pod("pend2", &[("app", "x")], None),
        pod("done1", &[("app", "x")], Some(PodPhase::Succeeded)),
        pod("run3", &[("app", "x")], Some(PodPhase::Running)),
    ]);
    let key = |name: &str| format!("/api/v1/pods/{}", name);
    // seven are owned
    let plan = reconcile_set(&set("r1", 6, None), &pods).unwrap();
    assert_eq!(plan.delete, vec![key("pend1")]);
    assert_eq!(plan.status, Some(ReplicaSetStatus { replicas: 6, ready_replicas: 3 }));
    let plan = reconcile_set(&set("r1", 5, None), &pods).unwrap();
    assert_eq!(plan.delete, vec![key("pend1"), key("pend2")]);
    let plan = reconcile_set(&set("r1", 4, None), &pods).unwrap();
    assert_eq!(plan.delete, vec![key("fail1"), key("pend1"), key("pend2")]);
    let plan = reconcile_set(&set("r1", 3, None), &pods).unwrap();
    assert_eq!(plan.delete, vec![key("fail1"), key("pend1"), key("pend2"), key("done1")]);
    assert_eq!(plan.status, Some(ReplicaSetStatus { replicas: 3, ready_replicas: 3 }));
    let plan = reconcile_set(&set("r1", 2, None), &pods).unwrap();
    assert_eq!(
        plan.delete,
        vec![key("run1"), key("fail1"), key("pend1"), key("pend2"), key("done1")]
    );
    assert_eq!(plan.status, Some(ReplicaSetStatus { replicas: 2, ready_replicas: 2 }));
    let plan = reconcile_set(&set("r1", 0, None), &pods).unwrap();
    assert_eq!(plan.delete.len(), 7);
    assert!(plan.create.is_empty());
    assert_eq!(plan.status, Some(ReplicaSetStatus { replicas: 0, ready_replicas: 0 }));
}

#[test]
fn the_right_number_needs_no_pods() {
    let pods = cache(vec![
        pod("a", &[("app", "x")], Some(PodPhase::Running)),
        pod("b", &[("app", "x")], Some(PodPhase::Pending)),
    ]);
    let status = ReplicaSetStatus { replicas: 2, ready_replicas: 1 };
    let plan = reconcile_set(&set("r1", 2, Some(status)), &pods).unwrap();
    assert_eq!(plan, Plan { create: Vec::new(), delete: Vec::new(), status: None });
    let stale = ReplicaSetStatus { replicas: 2, ready_replicas: 2 };
    let plan = reconcile_set(&set("r1", 2, Some(stale)), &pods).unwrap();
    assert_eq!(plan, Plan { create: Vec::new(), delete: Vec::new(), status: Some(status) });
}

#[test]
fn names_in_use_are_passed_over() {
    let pods = cache(vec![
        pod("r1-0", &[("app", "y")], None),
        pod("r1-2", &[("app", "x")], None),
        pod("r1-3", &[], None),
    ]);
    let plan = reconcile_set(&set("r1", 4, None), &pods).unwrap();
    assert_eq!(names_of(&plan.create), vec!["r1-1", "r1-4", "r1-5"]);
}

#[test]
fn serial_numbers_are_written_in_decimal() {
    assert_eq!(decimal(0), "0");
    assert_eq!(decimal(7), "7");
    assert_eq!(decimal(10), "10");
    assert_eq!(decimal(1_234_567_890), "1234567890");
    assert_eq!(decimal(u128::MAX), u128::MAX.to_string());
    assert_eq!(pod_name(&"web".to_string(), 12), "web-12");
}

#[test]
fn an_empty_selector_owns_every_pod() {
    let pods = cache(vec![
        pod("a", &[("app", "x")], None),
        pod("b", &[], None),
        KubeObject {
            metadata: Metadata {
                name: "n1".to_string(),
                namespace: "default".to_string(),
                uid: None,
                labels: Labels::new(),
            },
            resource: KubeResource::Node(Node { status: NodeStatus { ready: true } }),
        },
    ]);
    let mut everything = set("r1", 1, None);
    if let KubeResource::ReplicaSet(rs) = &mut everything.resource {
        rs.spec.selector = Labels::new();
    }
    let plan = reconcile_set(&everything, &pods).unwrap();
    assert_eq!(plan.delete, vec!["/api/v1/pods/a".to_string()]);
}

#[test]
fn a_set_that_is_gone_is_dropped() {
    let sets = cache(vec![set("r1", 1, None), pod("p1", &[], None)]);
    let pods = cache(Vec::new());
    assert!(reconcile_key(&sets, &pods, &"/api/v1/replicasets/r2".to_string()).is_none());
    assert!(reconcile_key(&sets, &pods, &"/api/v1/pods/p1".to_string()).is_none());
    assert!(reconcile_set(&pod("p1", &[], None), &pods).is_none());
    let plan = reconcile_key(&sets, &pods, &"/api/v1/replicasets/r1".to_string()).unwrap();
    assert_eq!(names_of(&plan.create), vec!["r1-0"]);
}

#[test]
fn a_selector_asks_for_every_one_of_its_pairs() {
    let wanted = labels(&[("app", "x"), ("tier", "web")]);
    assert!(labels(&[("tier", "web"), ("app", "x"), ("zone", "a")]).matches(&wanted));
    assert!(!labels(&[("app", "x")]).matches(&wanted));
    assert!(!labels(&[("app", "x"), ("tier", "db")]).matches(&wanted));
    assert!(!labels(&[]).matches(&wanted));
    assert!(labels(&[]).matches(&labels(&[])));
    let mut twice = labels(&[("app", "y")]);
    twice.insert("app".to_string(), "x".to_string());
    assert!(twice.matches(&labels(&[("app", "x")])));
    assert!(!twice.matches(&labels(&[("app", "y")])));
}

#[test]
fn fresh_labels_hold_no_pair() {
    let fresh = Labels::new();
    assert_eq!(fresh.entries.len(), 0);
    assert!(!fresh.entries.contains_key(&"app".to_string()));
    assert!(fresh.matches(&Labels::new()));
    assert!(!fresh.matches(&labels(&[("app", "x")])));
}

#[test]
fn the_set_is_written_back_with_the_status_of_the_plan() {
    let status = ReplicaSetStatus { replicas: 3, ready_replicas: 1 };
    let plan = Plan { create: Vec::new(), delete: Vec::new(), status: Some(status) };
    let nothing = Plan { create: Vec::new(), delete: Vec::new(), status: None };
    assert_eq!(with_set_status(&set("r1", 3, None), &plan), Some(set("r1", 3, Some(status))));
    let stale = ReplicaSetStatus { replicas: 9, ready_replicas: 9 };
    assert_eq!(
        with_set_status(&set("r1", 3, Some(stale)), &plan),
        Some(set("r1", 3, Some(status)))
    );
    assert_eq!(with_set_status(&set("r1", 3, Some(stale)), &nothing), None);
    assert_eq!(with_set_status(&pod("p1", &[], None), &plan), None);
}
