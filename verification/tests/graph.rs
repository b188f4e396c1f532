use ros_monitor::graph::{node_properties, single_typed, snapshot};
use ros_monitor::types::{NodeProperties, ServiceProperties, TopicProperties};

fn s(text: &str) -> String {
    text.to_string()
}

fn entry(name: &str, types: &[&str]) -> (String, Vec<String>) {
    (s(name), types.iter().map(|t| s(t)).collect())
}

#[test]
fn endpoints_with_one_type_are_kept() {
    let m = single_typed(vec![
        entry("chatter", &["std_msgs/String"]),
        entry("odd", &["a", "b"]),
        entry("bare", &[]),
        entry("scan", &["sensor_msgs/msg/LaserScan"]),
    ]);
    assert_eq!(m.len(), 2);
    assert_eq!(m.get(&s("chatter")), Some(&s("std_msgs/String")));
    assert_eq!(m.get(&s("scan")), Some(&s("sensor_msgs/msg/LaserScan")));
    assert_eq!(m.get(&s("odd")), None);
    assert_eq!(m.get(&s("bare")), None);
}

#[test]
fn later_report_of_an_endpoint_stays() {
    let m = single_typed(vec![
        entry("chatter", &["old"]),
        entry("chatter", &["new"]),
        entry("chatter", &["x", "y"]),
    ]);
    assert_eq!(m.len(), 1);
    assert_eq!(m.get(&s("chatter")), Some(&s("new")));
    assert!(single_typed(Vec::new()).is_empty());
}

#[test]
fn node_properties_hold_the_four_kinds_of_endpoint() {
    let node = node_properties(
        s("/enclave"),
        vec![entry("out", &["t1"])],
        vec![entry("in", &["t2"]), entry("many", &["a", "b"])],
        vec![],
        vec![entry("srv", &["t3"])],
    );
    assert_eq!(node.enclave, "/enclave");
    assert_eq!(node.publishers.get(&s("out")), Some(&s("t1")));
    assert_eq!(node.subscribers.len(), 1);
    assert_eq!(node.subscribers.get(&s("in")), Some(&s("t2")));
    assert!(node.clients.is_empty());
    assert_eq!(node.services.get(&s("srv")), Some(&s("t3")));
}

#[test]
fn snapshot_holds_what_was_reported() {
    let plain = |enclave: &str| -> NodeProperties {
        node_properties(s(enclave), vec![], vec![], vec![], vec![])
    };
    let state = snapshot(
        vec![
            ((s("a"), s("/")), plain("first")),
            ((s("b"), s("/")), plain("other")),
            ((s("a"), s("/")), plain("second")),
        ],
        vec![(
            s("/scan"),
            TopicProperties { types: vec![s("t")], publishers: vec![], subscribers: vec![] },
        )],
        vec![(s("/reset"), ServiceProperties { types: vec![s("u")] })],
    );
    assert_eq!(state.nodes.len(), 2);
    assert_eq!(state.nodes.get(&(s("a"), s("/"))), Some(&plain("second")));
    assert_eq!(state.nodes.get(&(s("b"), s("/"))), Some(&plain("other")));
    assert_eq!(state.topics.len(), 1);
    assert_eq!(state.services.get(&s("/reset")), Some(&ServiceProperties { types: vec![s("u")] }));
}
