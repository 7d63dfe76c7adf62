use rminik8s::informer::{Notification, Store};
use rminik8s::models::etcd::{DeleteEvent, PutEvent, WatchEvent};
use rminik8s::objects::labels::Labels;
use rminik8s::objects::node::{Node, NodeStatus};
use rminik8s::objects::pod::{Container, ContainerPort, Pod, PodSpec};
use rminik8s::objects::{KubeObject, KubeResource, Metadata};

fn pod(name: &str, image: &str) -> KubeObject {
    KubeObject {
        metadata: Metadata {
            name: name.to_string(),
            namespace: "default".to_string(),
            uid: None,
            labels: Labels::new(),
        },
        resource: KubeResource::Pod(Pod {
            spec: PodSpec {
                containers: vec![Container {
                    name: "c".to_string(),
                    image: image.to_string(),
                    ports: vec![ContainerPort { container_port: 80 }],
                }],
                node_name: None,
            },
            status: None,
        }),
    }
}

fn node(name: &str) -> KubeObject {
    KubeObject {
        metadata: Metadata {
            name: name.to_string(),
            namespace: "default".to_string(),
            uid: None,
            labels: Labels::new(),
        },
        resource: KubeResource::Node(Node { status: NodeStatus { ready: true } }),
    }
}

fn key(name: &str) -> String {
    format!("/api/v1/pods/{}", name)
}

#[test]
fn new_put_carries_key_and_object() {
    let event = WatchEvent::new_put(key("p1"), pod("p1", "nginx"));
    assert_eq!(event, WatchEvent::Put(PutEvent { key: key("p1"), object: pod("p1", "nginx") }));
    assert_eq!(event.key(), &key("p1"));
}

#[test]
fn new_delete_carries_the_key() {
    let event = WatchEvent::new_delete(key("p1"));
    assert_eq!(event, WatchEvent::Delete(DeleteEvent { key: key("p1") }));
    assert_eq!(event.key(), &key("p1"));
}

#[test]
fn the_cache_equals_the_list() {
    let mut store = Store::new();
    let added = store.replace(vec![pod("p1", "nginx"), pod("p2", "redis"), node("n1")]);
    assert_eq!(added, vec![key("p1"), key("p2"), "/api/v1/nodes/n1".to_string()]);
    assert_eq!(store.len(), 3);
    assert_eq!(store.get(&key("p1")), Some(&pod("p1", "nginx")));
    assert_eq!(store.get(&key("p2")), Some(&pod("p2", "redis")));
    assert_eq!(store.get(&"/api/v1/nodes/n1".to_string()), Some(&node("n1")));
    assert_eq!(store.get(&key("p3")), None);
    assert_eq!(store.key_at(1), &key("p2"));
    assert_eq!(store.object_at(1), &pod("p2", "redis"));
}

#[test]
fn a_new_list_takes_the_place_of_the_cache() {
    let mut store = Store::new();
    store.replace(vec![pod("p1", "nginx"), pod("p2", "redis")]);
    let added = store.replace(vec![pod("p2", "redis:7")]);
    assert_eq!(added, vec![key("p2")]);
    assert_eq!(store.len(), 1);
    assert_eq!(store.get(&key("p1")), None);
    assert_eq!(store.get(&key("p2")), Some(&pod("p2", "redis:7")));
}

#[test]
fn a_list_with_a_key_twice_keeps_the_later_object() {
    let mut store = Store::new();
    let added = store.replace(vec![pod("p1", "nginx"), pod("p1", "redis")]);
    assert_eq!(added, vec![key("p1"), key("p1")]);
    assert_eq!(store.len(), 1);
    assert_eq!(store.get(&key("p1")), Some(&pod("p1", "redis")));
}

#[test]
fn an_empty_list_empties_the_cache() {
    let mut store = Store::new();
    store.replace(vec![pod("p1", "nginx")]);
    let added = store.replace(Vec::new());
    assert!(added.is_empty());
    assert_eq!(store.len(), 0);
}

#[test]
fn a_put_of_a_new_key_adds() {
    let mut store = Store::new();
    let notification = store.apply(WatchEvent::new_put(key("p1"), pod("p1", "nginx")));
    assert_eq!(notification, Notification::Added { key: key("p1") });
    assert_eq!(store.get(&key("p1")), Some(&pod("p1", "nginx")));
}

#[test]
fn a_put_of_a_cached_key_updates() {
    let mut store = Store::new();
    store.apply(WatchEvent::new_put(key("p1"), pod("p1", "nginx")));
    let notification = store.apply(WatchEvent::new_put(key("p1"), pod("p1", "nginx:2")));
    assert_eq!(notification, Notification::Updated { key: key("p1"), old: pod("p1", "nginx") });
    assert_eq!(store.get(&key("p1")), Some(&pod("p1", "nginx:2")));
    assert_eq!(store.len(), 1);
}

#[test]
fn the_last_put_wins() {
    let mut store = Store::new();
    let images = ["a", "b", "c", "d", "e"];
    for image in images {
        store.apply(WatchEvent::new_put(key("p1"), pod("p1", image)));
        store.apply(WatchEvent::new_put(key("p2"), pod("p2", "other")));
    }
    assert_eq!(store.get(&key("p1")), Some(&pod("p1", "e")));
    assert_eq!(store.get(&key("p2")), Some(&pod("p2", "other")));
}

#[test]
fn a_delete_leaves_no_entry() {
    let mut store = Store::new();
    store.apply(WatchEvent::new_put(key("p1"), pod("p1", "nginx")));
    store.apply(WatchEvent::new_put(key("p2"), pod("p2", "redis")));
    let notification = store.apply(WatchEvent::new_delete(key("p1")));
    assert_eq!(notification, Notification::Deleted { key: key("p1"), old: pod("p1", "nginx") });
    assert_eq!(store.get(&key("p1")), None);
    assert_eq!(store.get(&key("p2")), Some(&pod("p2", "redis")));
    assert_eq!(store.len(), 1);
}

#[test]
fn a_delete_of_an_unknown_key_does_nothing() {
    let mut store = Store::new();
    store.apply(WatchEvent::new_put(key("p1"), pod("p1", "nginx")));
    let notification = store.apply(WatchEvent::new_delete(key("p9")));
    assert_eq!(notification, Notification::Nothing);
    assert_eq!(store.len(), 1);
    assert_eq!(store.get(&key("p9")), None);
}

#[test]
fn a_put_after_a_delete_adds_again() {
    let mut store = Store::new();
    store.apply(WatchEvent::new_put(key("p1"), pod("p1", "nginx")));
    store.apply(WatchEvent::new_delete(key("p1")));
    let notification = store.apply(WatchEvent::new_put(key("p1"), pod("p1", "nginx:2")));
    assert_eq!(notification, Notification::Added { key: key("p1") });
    assert_eq!(store.get(&key("p1")), Some(&pod("p1", "nginx:2")));
}
