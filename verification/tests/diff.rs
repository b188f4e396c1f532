use ros_monitor::entity::Entity;
use ros_monitor::mapping::Mapping;
use ros_monitor::state::RosState;
use ros_monitor::types::{
    DiscoveryEvent, DurabilityPolicy, HistoryPolicy, LivelinessPolicy, NodeProperties,
    PubSubProperties, QosProfile, ReliabilityPolicy, ServiceProperties, TimeSpan, TopicProperties,
};

fn s(text: &str) -> String {
    text.to_string()
}

fn node(enclave: &str, publishers: &[(&str, &str)]) -> NodeProperties {
    let mut map = Mapping::new();
    for (name, kind) in publishers {
        map.insert(s(name), s(kind));
    }
    NodeProperties {
        enclave: s(enclave),
        publishers: map,
        subscribers: Mapping::new(),
        clients: Mapping::new(),
        services: Mapping::new(),
    }
}

fn qos(history: HistoryPolicy, depth: usize) -> QosProfile {
    QosProfile {
        history,
        depth,
        reliability: ReliabilityPolicy::Unknown,
        durability: DurabilityPolicy::Unknown,
        deadline: TimeSpan { secs: 1, nanos: 500 },
        lifespan: TimeSpan { secs: 0, nanos: 0 },
        liveliness: LivelinessPolicy::Unknown,
        liveliness_lease_duration: TimeSpan { secs: u64::MAX, nanos: 999_999_999 },
    }
}

fn endpoint(node_name: &str, depth: usize) -> PubSubProperties {
    PubSubProperties {
        node_name: s(node_name),
        node_namespace: s("/"),
        topic_type: s("sensor_msgs/msg/LaserScan"),
        qos_profile: qos(HistoryPolicy::KeepLast, depth),
    }
}

fn topic(types: &[&str], publishers: Vec<PubSubProperties>) -> TopicProperties {
    TopicProperties {
        types: types.iter().map(|t| s(t)).collect(),
        publishers,
        subscribers: Vec::new(),
    }
}

fn service(types: &[&str]) -> ServiceProperties {
    ServiceProperties { types: types.iter().map(|t| s(t)).collect() }
}

fn sample() -> RosState {
    let mut state = RosState::default();
    state.nodes.insert((s("talker"), s("/ns")), node("/", &[("chatter", "std_msgs/String")]));
    state.nodes.insert((s("listener"), s("/ns")), node("/", &[]));
    state.topics.insert(s("/scan"), topic(&["sensor_msgs/msg/LaserScan"], vec![endpoint("lidar", 5)]));
    state.topics.insert(s("/chatter"), topic(&["std_msgs/String"], Vec::new()));
    state.services.insert(s("/reset"), service(&["std_srvs/srv/Empty"]));
    state
}

fn count(events: &[DiscoveryEvent], wanted: &DiscoveryEvent) -> usize {
    events.iter().filter(|e| e.same(wanted)).count()
}

fn rank(event: &DiscoveryEvent) -> u8 {
    match event {
        DiscoveryEvent::NodeRemoved { .. } => 0,
        DiscoveryEvent::NodeAdded { .. } => 1,
        DiscoveryEvent::TopicRemoved { .. } => 2,
        DiscoveryEvent::TopicAdded { .. } => 3,
        DiscoveryEvent::ServiceRemoved { .. } => 4,
        DiscoveryEvent::ServiceAdded { .. } => 5,
        DiscoveryEvent::Ping => 6,
    }
}

#[test]
fn empty_state_compared_to_itself_has_no_events() {
    let a = RosState::default();
    let b = RosState::default();
    assert!(a.changes(&b).is_empty());
}

#[test]
fn state_compared_to_itself_has_no_events() {
    let a = sample();
    assert!(a.changes(&a).is_empty());
    let copy = a.duplicate();
    assert!(a.changes(&copy).is_empty());
    assert!(copy.changes(&a).is_empty());
}

#[test]
fn equal_states_built_in_another_order_have_no_events() {
    let a = sample();
    let mut b = RosState::default();
    b.services.insert(s("/reset"), service(&["std_srvs/srv/Empty"]));
    b.topics.insert(s("/chatter"), topic(&["std_msgs/String"], Vec::new()));
    b.topics.insert(s("/scan"), topic(&["sensor_msgs/msg/LaserScan"], vec![endpoint("lidar", 5)]));
    b.nodes.insert((s("listener"), s("/ns")), node("/", &[]));
    b.nodes.insert((s("talker"), s("/ns")), node("/", &[("chatter", "std_msgs/String")]));
    assert!(a.same(&b));
    assert!(a.changes(&b).is_empty());
    assert!(b.changes(&a).is_empty());
}

#[test]
fn everything_is_added_against_the_empty_state() {
    let a = sample();
    let events = a.changes(&RosState::default());
    assert_eq!(events.len(), 5);
    assert_eq!(
        count(
            &events,
            &DiscoveryEvent::NodeAdded {
                name: s("talker"),
                namespace: s("/ns"),
                properties: node("/", &[("chatter", "std_msgs/String")]),
            }
        ),
        1
    );
    assert_eq!(
        count(
            &events,
            &DiscoveryEvent::NodeAdded {
                name: s("listener"),
                namespace: s("/ns"),
                properties: node("/", &[]),
            }
        ),
        1
    );
    assert_eq!(
        count(
            &events,
            &DiscoveryEvent::TopicAdded {
                name: s("/scan"),
                properties: topic(&["sensor_msgs/msg/LaserScan"], vec![endpoint("lidar", 5)]),
            }
        ),
        1
    );
    assert_eq!(
        count(
            &events,
            &DiscoveryEvent::TopicAdded {
                name: s("/chatter"),
                properties: topic(&["std_msgs/String"], Vec::new()),
            }
        ),
        1
    );
    assert_eq!(
        count(
            &events,
            &DiscoveryEvent::ServiceAdded {
                name: s("/reset"),
                properties: service(&["std_srvs/srv/Empty"]),
            }
        ),
        1
    );
    for event in &events {
        assert!(matches!(
            event,
            DiscoveryEvent::NodeAdded { .. }
                | DiscoveryEvent::TopicAdded { .. }
                | DiscoveryEvent::ServiceAdded { .. }
        ));
    }
}

#[test]
fn everything_is_removed_against_the_empty_state() {
    let a = sample();
    let events = RosState::default().changes(&a);
    assert_eq!(events.len(), 5);
    assert_eq!(
        count(&events, &DiscoveryEvent::NodeRemoved { name: s("talker"), namespace: s("/ns") }),
        1
    );
    assert_eq!(
        count(&events, &DiscoveryEvent::NodeRemoved { name: s("listener"), namespace: s("/ns") }),
        1
    );
    assert_eq!(count(&events, &DiscoveryEvent::TopicRemoved { name: s("/scan") }), 1);
    assert_eq!(count(&events, &DiscoveryEvent::TopicRemoved { name: s("/chatter") }), 1);
    assert_eq!(count(&events, &DiscoveryEvent::ServiceRemoved { name: s("/reset") }), 1);
}

#[test]
fn node_appears_then_disappears() {
    let empty = RosState::default();
    let mut first = RosState::default();
    first.nodes.insert((s("talker"), s("/ns")), node("/", &[("chatter", "std_msgs/String")]));

    let tick1 = first.changes(&empty);
    assert_eq!(tick1.len(), 1);
    assert_eq!(
        tick1[0],
        DiscoveryEvent::NodeAdded {
            name: s("talker"),
            namespace: s("/ns"),
            properties: node("/", &[("chatter", "std_msgs/String")]),
        }
    );

    let second = RosState::default();
    let tick2 = second.changes(&first);
    assert_eq!(tick2.len(), 1);
    assert_eq!(tick2[0], DiscoveryEvent::NodeRemoved { name: s("talker"), namespace: s("/ns") });
}

#[test]
fn changed_value_is_reported_as_added_with_the_new_value() {
    let before = sample();
    let mut after = sample();
    after.topics.insert(s("/scan"), topic(&["sensor_msgs/msg/LaserScan"], vec![endpoint("lidar", 6)]));
    let events = after.changes(&before);
    assert_eq!(events.len(), 1);
    assert_eq!(
        events[0],
        DiscoveryEvent::TopicAdded {
            name: s("/scan"),
            properties: topic(&["sensor_msgs/msg/LaserScan"], vec![endpoint("lidar", 6)]),
        }
    );
}

#[test]
fn same_name_in_another_namespace_is_another_node() {
    let mut before = RosState::default();
    before.nodes.insert((s("talker"), s("/a")), node("/", &[]));
    let mut after = RosState::default();
    after.nodes.insert((s("talker"), s("/b")), node("/", &[]));
    let events = after.changes(&before);
    assert_eq!(events.len(), 2);
    assert_eq!(events[0], DiscoveryEvent::NodeRemoved { name: s("talker"), namespace: s("/a") });
    assert_eq!(
        events[1],
        DiscoveryEvent::NodeAdded { name: s("talker"), namespace: s("/b"), properties: node("/", &[]) }
    );
}

#[test]
fn events_come_grouped_by_kind() {
    let mut before = RosState::default();
    before.services.insert(s("/old_service"), service(&["a"]));
    before.topics.insert(s("/old_topic"), topic(&["a"], Vec::new()));
    before.nodes.insert((s("old_node"), s("/")), node("/", &[]));
    let after = sample();
    let events = after.changes(&before);
    assert_eq!(events.len(), 8);
    for pair in events.windows(2) {
        assert!(rank(&pair[0]) <= rank(&pair[1]));
    }
}

#[test]
fn applying_the_changes_leads_to_the_current_state() {
    let mut a = RosState::default();
    a.nodes.insert((s("talker"), s("/ns")), node("/old", &[("chatter", "std_msgs/String")]));
    a.nodes.insert((s("gone"), s("/ns")), node("/", &[]));
    a.topics.insert(s("/scan"), topic(&["sensor_msgs/msg/LaserScan"], Vec::new()));
    a.topics.insert(s("/gone"), topic(&[], Vec::new()));
    a.services.insert(s("/reset"), service(&["std_srvs/srv/Empty"]));
    a.services.insert(s("/gone"), service(&[]));
    let b = sample();

    let mut mirror = a.duplicate();
    for event in b.changes(&a) {
        mirror.update(event);
    }
    assert!(mirror.same(&b));
    assert!(b.changes(&mirror).is_empty());

    let mut back = b.duplicate();
    for event in a.changes(&b) {
        back.update(event);
    }
    assert!(back.same(&a));
}

#[test]
fn update_follows_each_kind_of_event() {
    let mut state = RosState::default();
    state.update(DiscoveryEvent::Ping);
    assert!(state.same(&RosState::default()));

    state.update(DiscoveryEvent::NodeAdded {
        name: s("talker"),
        namespace: s("/ns"),
        properties: node("/", &[]),
    });
    state.update(DiscoveryEvent::TopicAdded { name: s("/scan"), properties: topic(&["a"], Vec::new()) });
    state.update(DiscoveryEvent::ServiceAdded { name: s("/reset"), properties: service(&["b"]) });
    assert_eq!(state.nodes.len(), 1);
    assert_eq!(state.topics.len(), 1);
    assert_eq!(state.services.len(), 1);

    state.update(DiscoveryEvent::TopicAdded { name: s("/scan"), properties: topic(&["c"], Vec::new()) });
    assert_eq!(state.topics.len(), 1);
    assert_eq!(state.topics.get(&s("/scan")), Some(&topic(&["c"], Vec::new())));

    state.update(DiscoveryEvent::NodeRemoved { name: s("talker"), namespace: s("/other") });
    assert_eq!(state.nodes.len(), 1);
    state.update(DiscoveryEvent::NodeRemoved { name: s("talker"), namespace: s("/ns") });
    state.update(DiscoveryEvent::TopicRemoved { name: s("/scan") });
    state.update(DiscoveryEvent::ServiceRemoved { name: s("/reset") });
    assert!(state.same(&RosState::default()));
}

#[test]
fn every_policy_value_compares_and_copies() {
    let histories = [
        HistoryPolicy::KeepAll,
        HistoryPolicy::KeepLast,
        HistoryPolicy::SystemDefault,
        HistoryPolicy::Unknown,
    ];
    let reliabilities = [
        ReliabilityPolicy::BestEffort,
        ReliabilityPolicy::Reliable,
        ReliabilityPolicy::SystemDefault,
        ReliabilityPolicy::BestAvailable,
        ReliabilityPolicy::Unknown,
    ];
    let durabilities = [
        DurabilityPolicy::TransientLocal,
        DurabilityPolicy::Volatile,
        DurabilityPolicy::SystemDefault,
        DurabilityPolicy::BestAvailable,
        DurabilityPolicy::Unknown,
    ];
    let livelinesses = [
        LivelinessPolicy::Automatic,
        LivelinessPolicy::ManualByNode,
        LivelinessPolicy::ManualByTopic,
        LivelinessPolicy::SystemDefault,
        LivelinessPolicy::BestAvailable,
        LivelinessPolicy::Unknown,
    ];
    let mut profiles = Vec::new();
    for h in histories {
        for r in reliabilities {
            for d in durabilities {
                for l in livelinesses {
                    let mut profile = qos(h, 1);
                    profile.reliability = r;
                    profile.durability = d;
                    profile.liveliness = l;
                    profiles.push(profile);
                }
            }
        }
    }
    assert_eq!(profiles.len(), 600);
    for (i, a) in profiles.iter().enumerate() {
        assert!(a.same(&a.duplicate()));
        for (j, b) in profiles.iter().enumerate() {
            assert_eq!(a.same(b), i == j);
        }
    }
}

#[test]
fn descriptors_differ_in_any_field() {
    let base = endpoint("lidar", 5);
    assert!(base.same(&base.duplicate()));
    let mut other = base.duplicate();
    other.node_name = s("radar");
    assert!(!base.same(&other));
    let mut other = base.duplicate();
    other.node_namespace = s("/x");
    assert!(!base.same(&other));
    let mut other = base.duplicate();
    other.topic_type = s("x");
    assert!(!base.same(&other));
    let mut other = base.duplicate();
    other.qos_profile.depth = 6;
    assert!(!base.same(&other));
    let mut other = base.duplicate();
    other.qos_profile.deadline = TimeSpan { secs: 1, nanos: 501 };
    assert!(!base.same(&other));
}

#[test]
fn type_lists_are_compared_in_order() {
    let a = service(&["x", "y"]);
    let b = service(&["y", "x"]);
    assert!(!a.same(&b));
    assert!(a.same(&service(&["x", "y"])));
    let mut before = RosState::default();
    before.services.insert(s("/srv"), a);
    let mut after = RosState::default();
    after.services.insert(s("/srv"), b);
    let events = after.changes(&before);
    assert_eq!(events.len(), 1);
    assert_eq!(
        events[0],
        DiscoveryEvent::ServiceAdded { name: s("/srv"), properties: service(&["y", "x"]) }
    );
}
