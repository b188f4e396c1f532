use ros_monitor::mapping::Mapping;
use ros_monitor::producer::{stamp, Producer};
use ros_monitor::state::RosState;
use ros_monitor::types::{DiscoveryEvent, DiscoveryEventWrapper, NodeProperties};

fn s(text: &str) -> String {
    text.to_string()
}

fn talker() -> NodeProperties {
    let mut publishers = Mapping::new();
    publishers.insert(s("chatter"), s("std_msgs/String"));
    NodeProperties {
        enclave: s("/"),
        publishers,
        subscribers: Mapping::new(),
        clients: Mapping::new(),
        services: Mapping::new(),
    }
}

#[test]
fn producer_reports_node_added_then_removed() {
    let mut producer = Producer::new();
    let mut seen = RosState::default();
    seen.nodes.insert((s("talker"), s("/ns")), talker());

    let tick1 = producer.tick(seen, 1000);
    assert_eq!(
        tick1,
        vec![DiscoveryEventWrapper {
            ts: 1000,
            event: DiscoveryEvent::NodeAdded {
                name: s("talker"),
                namespace: s("/ns"),
                properties: talker(),
            },
        }]
    );

    let tick2 = producer.tick(RosState::default(), 1800);
    assert_eq!(
        tick2,
        vec![DiscoveryEventWrapper {
            ts: 1800,
            event: DiscoveryEvent::NodeRemoved { name: s("talker"), namespace: s("/ns") },
        }]
    );

    let tick3 = producer.tick(RosState::default(), 2600);
    assert!(tick3.is_empty());
}

#[test]
fn producer_is_silent_while_nothing_changes() {
    let mut producer = Producer::new();
    let build = || {
        let mut seen = RosState::default();
        seen.nodes.insert((s("talker"), s("/ns")), talker());
        seen
    };
    assert_eq!(producer.tick(build(), 1).len(), 1);
    assert!(producer.tick(build(), 2).is_empty());
    assert!(producer.tick(build(), 3).is_empty());
    assert_eq!(producer.previous.nodes.len(), 1);
}

#[test]
fn stamp_keeps_the_order_and_sets_the_time() {
    let events = vec![
        DiscoveryEvent::Ping,
        DiscoveryEvent::TopicRemoved { name: s("/a") },
        DiscoveryEvent::ServiceRemoved { name: s("/b") },
    ];
    let envelopes = stamp(events.clone(), u64::MAX);
    assert_eq!(envelopes.len(), 3);
    for (envelope, event) in envelopes.iter().zip(events.iter()) {
        assert_eq!(envelope.ts, u64::MAX);
        assert_eq!(&envelope.event, event);
    }
    assert!(stamp(Vec::new(), 0).is_empty());
}
