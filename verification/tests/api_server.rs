use rminik8s::api_server::AppState;
use rminik8s::informer::Store;
use rminik8s::models::etcd::{DeleteEvent, PutEvent, WatchEvent};
use rminik8s::objects::labels::Labels;
use rminik8s::objects::node::{Node, NodeStatus};
use rminik8s::objects::pod::{Container, ContainerPort, Pod, PodSpec};
use rminik8s::objects::{kind_prefix, storage_key, KubeObject, KubeResource, Metadata, ResourceKind};
use rminik8s::scheduler::{ready_nodes, schedule, Decision};
use rminik8s::store::{BindError, ObjectStore, WatchHub};

fn metadata(name: &str) -> Metadata {
    Metadata {
        name: name.to_string(),
        namespace: "default".to_string(),
        uid: None,
        labels: Labels::new(),
    }
}

fn a_pod(name: &str, node_name: Option<&str>) -> KubeObject {
    KubeObject {
        metadata: metadata(name),
        resource: KubeResource::Pod(Pod {
            spec: PodSpec {
                containers: vec![Container {
                    name: "c".to_string(),
                    image: "nginx".to_string(),
                    ports: vec![ContainerPort { container_port: 80 }],
                }],
                node_name: node_name.map(|n| n.to_string()),
            },
            status: None,
        }),
    }
}

fn a_node(name: &str, ready: bool) -> KubeObject {
    KubeObject {
        metadata: metadata(name),
        resource: KubeResource::Node(Node { status: NodeStatus { ready } }),
    }
}

fn pod_key(name: &str) -> String {
    format!("/api/v1/pods/{}", name)
}

#[test]
fn single_pod_creation() {
    let mut server = AppState::new();
    let watch = server.watch("/api/v1/pods".to_string());
    server.put(pod_key("p1"), a_pod("p1", None));
    assert_eq!(server.get(&pod_key("p1")), Some(&a_pod("p1", None)));
    let frames = server.poll(watch);
    assert_eq!(
        frames,
        vec![WatchEvent::Put(PutEvent { key: pod_key("p1"), object: a_pod("p1", None) })]
    );
    assert_eq!(frames[0].key(), "/api/v1/pods/p1");
    assert!(server.poll(watch).is_empty());
}

#[test]
fn put_then_get_gives_the_object() {
    let mut store = ObjectStore::new();
    store.put(pod_key("p1"), a_pod("p1", None));
    assert_eq!(store.get(&pod_key("p1")), Some(&a_pod("p1", None)));
    store.put(pod_key("p1"), a_pod("p1", Some("n1")));
    assert_eq!(store.get(&pod_key("p1")), Some(&a_pod("p1", Some("n1"))));
    assert_eq!(store.get(&pod_key("p2")), None);
}

#[test]
fn every_change_advances_the_revision() {
    let mut store = ObjectStore::new();
    assert_eq!(store.revision(), 0);
    store.put(pod_key("p1"), a_pod("p1", None));
    assert_eq!(store.revision(), 1);
    store.put(pod_key("p1"), a_pod("p1", None));
    assert_eq!(store.revision(), 2);
    assert!(store.delete(&pod_key("p9")).is_none());
    assert_eq!(store.revision(), 2);
    assert!(store.delete(&pod_key("p1")).is_some());
    assert_eq!(store.revision(), 3);
    assert!(store.bind(&"p1".to_string(), "n1".to_string()).is_err());
    assert_eq!(store.revision(), 3);
}

#[test]
fn delete_is_idempotent() {
    let mut store = ObjectStore::new();
    store.put(pod_key("p1"), a_pod("p1", None));
    let first = store.delete(&pod_key("p1"));
    assert_eq!(first, Some(WatchEvent::Delete(DeleteEvent { key: pod_key("p1") })));
    assert_eq!(store.get(&pod_key("p1")), None);
    let second = store.delete(&pod_key("p1"));
    assert_eq!(second, None);
    assert_eq!(store.get(&pod_key("p1")), None);
}

#[test]
fn list_finds_the_keys_under_a_prefix() {
    let mut store = ObjectStore::new();
    store.put(pod_key("p1"), a_pod("p1", None));
    store.put("/api/v1/nodes/n1".to_string(), a_node("n1", true));
    store.put(pod_key("p2"), a_pod("p2", None));
    store.put(pod_key("p1"), a_pod("p1", Some("n1")));
    let (pods, revision) = store.list("/api/v1/pods/");
    assert_eq!(pods, vec![&a_pod("p1", Some("n1")), &a_pod("p2", None)]);
    assert_eq!(revision, 4);
    let (nodes, _) = store.list("/api/v1/nodes");
    assert_eq!(nodes, vec![&a_node("n1", true)]);
    let (all, _) = store.list("");
    assert_eq!(all.len(), 3);
    let (none, _) = store.list("/api/v1/services");
    assert!(none.is_empty());
    // a prefix is no pattern: the key has to begin with it
    let (inner, _) = store.list("pods");
    assert!(inner.is_empty());
    let (longer, _) = store.list("/api/v1/pods/p1x");
    assert!(longer.is_empty());
}

#[test]
fn events_reach_the_subscribers_of_their_prefix_in_order() {
    let mut hub = WatchHub::new();
    let pods = hub.subscribe("/api/v1/pods".to_string());
    let nodes = hub.subscribe("/api/v1/nodes".to_string());
    let all = hub.subscribe("/api/v1/".to_string());
    let first = WatchEvent::new_put(pod_key("p1"), a_pod("p1", None));
    let second = WatchEvent::new_put("/api/v1/nodes/n1".to_string(), a_node("n1", true));
    let third = WatchEvent::new_delete(pod_key("p1"));
    hub.publish(&first);
    hub.publish(&second);
    hub.publish(&third);
    assert_eq!(
        hub.drain(pods),
        vec![
            WatchEvent::new_put(pod_key("p1"), a_pod("p1", None)),
            WatchEvent::new_delete(pod_key("p1"))
        ]
    );
    assert_eq!(
        hub.drain(nodes),
        vec![WatchEvent::new_put("/api/v1/nodes/n1".to_string(), a_node("n1", true))]
    );
    assert_eq!(hub.drain(all).len(), 3);
    assert!(hub.drain(pods).is_empty());
    assert!(hub.drain(77).is_empty());
}

#[test]
fn a_closed_watch_gets_nothing_more() {
    let mut hub = WatchHub::new();
    let first = hub.subscribe("/api/v1/pods".to_string());
    let second = hub.subscribe("/api/v1/pods".to_string());
    assert_ne!(first, second);
    hub.unsubscribe(first);
    hub.publish(&WatchEvent::new_delete(pod_key("p1")));
    assert!(hub.drain(first).is_empty());
    assert_eq!(hub.drain(second), vec![WatchEvent::new_delete(pod_key("p1"))]);
}

#[test]
fn a_watch_sees_nothing_of_the_past() {
    let mut server = AppState::new();
    server.put(pod_key("p1"), a_pod("p1", None));
    let watch = server.watch("/api/v1/pods".to_string());
    assert!(server.poll(watch).is_empty());
    assert!(server.delete(&pod_key("p1")));
    assert!(!server.delete(&pod_key("p1")));
    assert_eq!(server.poll(watch), vec![WatchEvent::new_delete(pod_key("p1"))]);
    server.close(watch);
    server.put(pod_key("p1"), a_pod("p1", None));
    assert!(server.poll(watch).is_empty());
    let (listed, revision) = server.list("/api/v1/pods");
    assert_eq!(listed, vec![&a_pod("p1", None)]);
    assert_eq!(revision, 3);
}

#[test]
fn binding_sets_the_node_of_the_pod() {
    let mut server = AppState::new();
    server.put(pod_key("p1"), a_pod("p1", None));
    server.put(pod_key("p2"), a_pod("p2", None));
    let watch = server.watch("/api/v1/pods".to_string());
    assert_eq!(server.bind(&"p1".to_string(), "n1".to_string()), Ok(()));
    assert_eq!(server.get(&pod_key("p1")), Some(&a_pod("p1", Some("n1"))));
    assert_eq!(server.get(&pod_key("p2")), Some(&a_pod("p2", None)));
    assert_eq!(
        server.poll(watch),
        vec![WatchEvent::new_put(pod_key("p1"), a_pod("p1", Some("n1")))]
    );
    let (listed, _) = server.list("/api/v1/pods");
    assert_eq!(listed, vec![&a_pod("p1", Some("n1")), &a_pod("p2", None)]);
}

#[test]
fn binding_what_is_not_there_is_refused() {
    let mut server = AppState::new();
    server.put("/api/v1/pods/n1".to_string(), a_node("n1", true));
    let watch = server.watch("/api/v1/".to_string());
    assert_eq!(server.bind(&"p1".to_string(), "n1".to_string()), Err(BindError::NotFound));
    assert_eq!(server.bind(&"n1".to_string(), "n1".to_string()), Err(BindError::NotAPod));
    assert!(server.poll(watch).is_empty());
    assert_eq!(server.get(&"/api/v1/pods/n1".to_string()), Some(&a_node("n1", true)));
}

#[test]
fn scheduler_binding() {
    let mut server = AppState::new();
    server.put("/api/v1/nodes/n1".to_string(), a_node("n1", true));
    server.put(pod_key("p1"), a_pod("p1", None));
    let mut nodes = Store::new();
    let (listed, _) = server.list("/api/v1/nodes");
    nodes.replace(listed.into_iter().map(|o| a_node(&o.metadata.name, true)).collect());
    let pod = a_pod("p1", None);
    let decision = schedule(&pod, &ready_nodes(&nodes), 12_345, 0);
    match decision {
        Decision::Bind(binding) => {
            assert_eq!(binding.target_pod_name, "p1");
            assert_eq!(binding.target_node_name, "n1");
            assert_eq!(
                storage_key(ResourceKind::Binding, &binding.target_pod_name),
                "/api/v1/bindings/p1"
            );
            assert_eq!(server.bind(&binding.target_pod_name, binding.target_node_name), Ok(()));
        }
        _ => panic!("a ready node stands by"),
    }
    match &server.get(&pod_key("p1")).unwrap().resource {
        KubeResource::Pod(pod) => assert_eq!(pod.spec.node_name, Some("n1".to_string())),
        _ => panic!("the kind has changed"),
    }
}

#[test]
fn keys_are_api_paths() {
    assert_eq!(storage_key(ResourceKind::Pod, "p1"), "/api/v1/pods/p1");
    assert_eq!(storage_key(ResourceKind::ReplicaSet, "r1"), "/api/v1/replicasets/r1");
    assert_eq!(storage_key(ResourceKind::Service, "s1"), "/api/v1/services/s1");
    assert_eq!(storage_key(ResourceKind::Ingress, "i1"), "/api/v1/ingresses/i1");
    assert_eq!(storage_key(ResourceKind::Node, "n1"), "/api/v1/nodes/n1");
    assert_eq!(storage_key(ResourceKind::Binding, "p1"), "/api/v1/bindings/p1");
    assert_eq!(
        storage_key(ResourceKind::HorizontalPodAutoscaler, "h1"),
        "/api/v1/horizontalpodautoscalers/h1"
    );
    assert_eq!(kind_prefix(ResourceKind::Pod), "/api/v1/pods/");
    assert_eq!(storage_key(ResourceKind::Pod, ""), "/api/v1/pods/");
    assert_eq!(a_pod("p1", None).storage_key(), "/api/v1/pods/p1");
    assert_eq!(a_node("n1", true).storage_key(), "/api/v1/nodes/n1");
    assert_eq!(a_pod("p1", None).kind(), ResourceKind::Pod);
    assert_eq!(a_pod("p1", None).name(), "p1");
    assert_eq!(ResourceKind::Pod.singular(), "pod");
    assert_eq!(ResourceKind::HorizontalPodAutoscaler.singular(), "horizontalpodautoscaler");
    assert_eq!(ResourceKind::Ingress.plural(), "ingresses");
}

#[test]
fn watches_are_numbered_from_zero() {
    let mut hub = WatchHub::new();
    assert_eq!(hub.subscribe("/api/v1/pods".to_string()), 0);
    assert_eq!(hub.subscribe("/api/v1/nodes".to_string()), 1);
    hub.publish(&WatchEvent::new_delete(pod_key("p1")));
    assert_eq!(hub.drain(0).len(), 1);
    hub.unsubscribe(0);
    // a number that was given out is not given out again
    assert_eq!(hub.subscribe("/api/v1/pods".to_string()), 2);
    let mut server = AppState::new();
    assert_eq!(server.watch("/api/v1/".to_string()), 0);
    server.put(pod_key("p1"), a_pod("p1", None));
    assert!(server.delete(&pod_key("p1")));
    assert_eq!(server.poll(0).len(), 2);
    server.close(0);
    assert_eq!(server.watch("/api/v1/".to_string()), 1);
}
