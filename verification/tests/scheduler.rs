use rminik8s::informer::Store;
use rminik8s::objects::labels::Labels;
use rminik8s::objects::node::{Node, NodeStatus};
use rminik8s::objects::pod::{Pod, PodSpec};
use rminik8s::objects::{KubeObject, KubeResource, Metadata};
use rminik8s::scheduler::{
    after_bind, backoff, pick, ready_nodes, schedule, Decision, Followup, MAX_BACKOFF_SECONDS,
};

fn metadata(name: &str) -> Metadata {
    Metadata {
        name: name.to_string(),
        namespace: "default".to_string(),
        uid: None,
        labels: Labels::new(),
    }
}

fn pod_on(name: &str, node_name: Option<&str>) -> KubeObject {
    KubeObject {
        metadata: metadata(name),
        resource: KubeResource::Pod(Pod {
            spec: PodSpec { containers: Vec::new(), node_name: node_name.map(|n| n.to_string()) },
            status: None,
        }),
    }
}

fn node_that_is(name: &str, ready: bool) -> KubeObject {
    KubeObject {
        metadata: metadata(name),
        resource: KubeResource::Node(Node { status: NodeStatus { ready } }),
    }
}

fn names(list: &[&str]) -> Vec<String> {
    list.iter().map(|n| n.to_string()).collect()
}

#[test]
fn a_bound_pod_is_never_bound_again() {
    let ready = names(&["n1", "n2"]);
    let mut choice: usize = 0;
    while choice < 10 {
        assert_eq!(schedule(&pod_on("p1", Some("n7")), &ready, choice, 0), Decision::Skip);
        assert_eq!(schedule(&pod_on("p1", Some("")), &ready, choice, 3), Decision::Skip);
        choice += 1;
    }
}

#[test]
fn an_unbound_pod_goes_to_the_node_that_the_choice_falls_on() {
    let ready = names(&["n1", "n2", "n3"]);
    let expect = ["n1", "n2", "n3", "n1", "n2"];
    let mut choice: usize = 0;
    while choice < 5 {
        match schedule(&pod_on("p1", None), &ready, choice, 0) {
            Decision::Bind(binding) => {
                assert_eq!(binding.target_pod_name, "p1");
                assert_eq!(binding.target_node_name, expect[choice]);
            }
            _ => panic!("ready nodes stand by"),
        }
        choice += 1;
    }
    assert_eq!(pick(&ready, usize::MAX), Some(&ready[usize::MAX % 3]));
    assert_eq!(pick(&Vec::new(), 4), None);
}

#[test]
fn without_a_ready_node_the_pod_is_put_back() {
    let none: Vec<String> = Vec::new();
    assert_eq!(schedule(&pod_on("p1", None), &none, 0, 0), Decision::Requeue { delay_seconds: 1 });
    assert_eq!(schedule(&pod_on("p1", None), &none, 9, 3), Decision::Requeue { delay_seconds: 8 });
    assert_eq!(
        schedule(&pod_on("p1", None), &none, 9, 40),
        Decision::Requeue { delay_seconds: 64 }
    );
}

#[test]
fn what_is_no_pod_is_skipped() {
    let ready = names(&["n1"]);
    assert_eq!(schedule(&node_that_is("n1", true), &ready, 0, 0), Decision::Skip);
}

#[test]
fn the_delay_doubles_up_to_its_cap() {
    let expect: [u32; 9] = [1, 2, 4, 8, 16, 32, 64, 64, 64];
    let mut attempt: u32 = 0;
    while attempt < 9 {
        assert_eq!(backoff(attempt), expect[attempt as usize]);
        attempt += 1;
    }
    assert_eq!(backoff(u32::MAX), MAX_BACKOFF_SECONDS);
}

#[test]
fn only_ready_nodes_are_offered() {
    let mut store = Store::new();
    store.replace(vec![
        node_that_is("n1", true),
        node_that_is("n2", false),
        pod_on("p1", None),
        node_that_is("n3", true),
    ]);
    assert_eq!(ready_nodes(&store), names(&["n1", "n3"]));
    assert!(ready_nodes(&Store::new()).is_empty());
}

#[test]
fn the_answer_to_a_binding_decides_what_follows() {
    assert_eq!(after_bind(Some(200), 0), Followup::Done);
    assert_eq!(after_bind(Some(201), 5), Followup::Done);
    assert_eq!(after_bind(Some(299), 5), Followup::Done);
    assert_eq!(after_bind(Some(404), 0), Followup::Drop);
    assert_eq!(after_bind(Some(400), 0), Followup::Drop);
    assert_eq!(after_bind(Some(499), 0), Followup::Drop);
    assert_eq!(after_bind(Some(500), 2), Followup::Retry { delay_seconds: 4 });
    assert_eq!(after_bind(Some(503), 0), Followup::Retry { delay_seconds: 1 });
    assert_eq!(after_bind(Some(302), 1), Followup::Retry { delay_seconds: 2 });
    assert_eq!(after_bind(Some(199), 1), Followup::Retry { delay_seconds: 2 });
    assert_eq!(after_bind(None, 7), Followup::Retry { delay_seconds: 64 });
}
