use ros_monitor::diagnosis::{mentions, Severity};
use ros_monitor::entity::Entity;
use ros_monitor::state::RosState;
use ros_monitor::supervisor::{
    Closed, Command, Failure, Observation, Phase, StreamEnd, Supervisor, MIN_RUNTIME_MS,
};
use ros_monitor::types::{DiscoveryEvent, DiscoveryEventWrapper, TopicProperties};

fn s(text: &str) -> String {
    text.to_string()
}

fn scan() -> TopicProperties {
    TopicProperties {
        types: vec![s("sensor_msgs/msg/LaserScan")],
        publishers: Vec::new(),
        subscribers: Vec::new(),
    }
}

fn envelope(ts: u64, event: DiscoveryEvent) -> Observation {
    Observation::Envelope { envelope: DiscoveryEventWrapper { ts, event } }
}

fn scan_added() -> DiscoveryEvent {
    DiscoveryEvent::TopicAdded { name: s("/scan"), properties: scan() }
}

fn is_stop(command: &Command) -> bool {
    matches!(command, Command::Stop { .. })
}

#[test]
fn threshold_is_two_seconds() {
    assert_eq!(MIN_RUNTIME_MS, 2000);
}

#[test]
fn new_supervisor_is_about_to_spawn() {
    let supervisor = Supervisor::new();
    assert_eq!(supervisor.phase(), Phase::Spawning);
    assert!(supervisor.mirror().same(&RosState::default()));
    assert_eq!(supervisor.subscribe(), Ok(Vec::new()));
}

#[test]
fn envelopes_are_folded_and_republished() {
    let mut supervisor = Supervisor::new();
    let step = supervisor.step(Observation::Spawned);
    assert!(step.publish.is_empty());
    assert!(matches!(step.next, Command::Read));
    assert_eq!(supervisor.phase(), Phase::Streaming);

    let step = supervisor.step(envelope(1, scan_added()));
    assert_eq!(step.publish, vec![scan_added()]);
    assert!(matches!(step.next, Command::Read));
    assert_eq!(supervisor.mirror().topics.len(), 1);

    let step = supervisor.step(envelope(2, scan_added()));
    assert!(step.publish.is_empty());
    assert!(matches!(step.next, Command::Read));

    let step = supervisor.step(envelope(3, DiscoveryEvent::Ping));
    assert!(step.publish.is_empty());
    assert!(matches!(step.next, Command::Read));

    let step = supervisor.step(envelope(4, DiscoveryEvent::TopicRemoved { name: s("/scan") }));
    assert_eq!(step.publish, vec![DiscoveryEvent::TopicRemoved { name: s("/scan") }]);
    assert!(supervisor.mirror().same(&RosState::default()));
    assert_eq!(supervisor.phase(), Phase::Streaming);
}

#[test]
fn removal_of_something_unknown_publishes_nothing() {
    let mut supervisor = Supervisor::new();
    supervisor.step(Observation::Spawned);
    let step = supervisor.step(envelope(1, DiscoveryEvent::ServiceRemoved { name: s("/x") }));
    assert!(step.publish.is_empty());
}

#[test]
fn both_subscribers_get_the_topic_in_their_replay() {
    let mut supervisor = Supervisor::new();
    supervisor.step(Observation::Spawned);
    let live = supervisor.step(envelope(1, scan_added())).publish;
    assert_eq!(live, vec![scan_added()]);

    let first = supervisor.subscribe().unwrap();
    assert_eq!(first, vec![scan_added()]);

    let later = supervisor.step(envelope(2, DiscoveryEvent::Ping)).publish;
    assert!(later.is_empty());

    let second = supervisor.subscribe().unwrap();
    assert_eq!(second, vec![scan_added()]);
}

#[test]
fn child_that_exits_early_ends_supervision() {
    let mut supervisor = Supervisor::new();
    let mut spawns = 1;
    supervisor.step(Observation::Spawned);
    let step = supervisor.step(Observation::StreamEnded {
        cause: StreamEnd::EndOfStream,
        alive_ms: 500,
    });
    assert!(step.publish.is_empty());
    assert!(matches!(step.next, Command::Diagnose));
    if matches!(step.next, Command::Spawn) {
        spawns += 1;
    }
    assert_eq!(supervisor.phase(), Phase::Diagnosing);

    let step = supervisor.step(Observation::Diagnosed {
        status: s("exit status: 1"),
        stderr: s("no domain"),
    });
    assert!(step.publish.is_empty());
    match &step.next {
        Command::Stop { failure } => {
            assert!(matches!(failure, Failure::ProcessExited { .. }));
            assert_eq!(failure.message(), "process exited: exit status: 1\nno domain");
        }
        other => panic!("unexpected command {:?}", other),
    }
    assert_eq!(supervisor.phase(), Phase::Terminated);
    assert!(spawns < 3);

    assert_eq!(supervisor.subscribe(), Err(Closed));
    let step = supervisor.step(Observation::Spawned);
    assert!(matches!(step.next, Command::Halt));
    assert!(step.publish.is_empty());
    assert_eq!(supervisor.phase(), Phase::Terminated);
}

#[test]
fn child_that_ran_long_enough_is_started_again() {
    let mut supervisor = Supervisor::new();
    supervisor.step(Observation::Spawned);
    supervisor.step(envelope(1, scan_added()));
    for cause in [StreamEnd::EndOfStream, StreamEnd::Truncated, StreamEnd::Malformed] {
        let step = supervisor.step(Observation::StreamEnded { cause, alive_ms: 2000 });
        assert!(matches!(step.next, Command::Spawn));
        assert_eq!(supervisor.phase(), Phase::Spawning);
        assert!(supervisor.mirror().same(&RosState::default()));
        let step = supervisor.step(Observation::Spawned);
        assert!(matches!(step.next, Command::Read));
    }
}

#[test]
fn runtime_just_below_the_threshold_is_too_short() {
    let mut supervisor = Supervisor::new();
    supervisor.step(Observation::Spawned);
    let step = supervisor.step(Observation::StreamEnded {
        cause: StreamEnd::Truncated,
        alive_ms: 1999,
    });
    assert!(matches!(step.next, Command::Diagnose));
    assert_eq!(supervisor.phase(), Phase::Diagnosing);
}

#[test]
fn end_of_stream_removes_everything_known() {
    let mut supervisor = Supervisor::new();
    supervisor.step(Observation::Spawned);
    supervisor.step(envelope(1, scan_added()));
    supervisor.step(envelope(
        2,
        DiscoveryEvent::ServiceAdded {
            name: s("/reset"),
            properties: ros_monitor::types::ServiceProperties { types: vec![s("t")] },
        },
    ));
    let step = supervisor.step(Observation::StreamEnded {
        cause: StreamEnd::Malformed,
        alive_ms: 60_000,
    });
    assert_eq!(
        step.publish,
        vec![
            DiscoveryEvent::TopicRemoved { name: s("/scan") },
            DiscoveryEvent::ServiceRemoved { name: s("/reset") },
        ]
    );
    assert!(supervisor.mirror().same(&RosState::default()));
    assert_eq!(supervisor.subscribe(), Ok(Vec::new()));
}

#[test]
fn failed_spawn_ends_supervision() {
    let mut supervisor = Supervisor::new();
    let step = supervisor.step(Observation::IoFailed {
        not_found: true,
        message: s("No such file or directory (os error 2)"),
    });
    assert!(is_stop(&step.next));
    assert_eq!(supervisor.phase(), Phase::Terminated);
    match step.next {
        Command::Stop { failure } => {
            assert_eq!(
                failure.message(),
                "unable to spawn process: No such file or directory (os error 2)"
            );
            let report = failure.report();
            assert_eq!(report.severity, Severity::Warning);
            assert_eq!(report.text, "ROS discovery is not available on this platform");
        }
        _ => unreachable!(),
    }
    assert_eq!(supervisor.subscribe(), Err(Closed));
}

#[test]
fn missing_pipe_ends_supervision() {
    let mut supervisor = Supervisor::new();
    let step = supervisor.step(Observation::PipeMissing);
    assert_eq!(supervisor.phase(), Phase::Terminated);
    match step.next {
        Command::Stop { failure } => {
            assert!(matches!(failure, Failure::PipeError));
            assert_eq!(failure.message(), "unable to read stdout/stderr");
            let report = failure.report();
            assert_eq!(report.severity, Severity::Error);
            assert_eq!(
                report.text,
                "ROS discovery is not available:\nunable to read stdout/stderr"
            );
        }
        _ => unreachable!(),
    }

    let mut supervisor = Supervisor::new();
    supervisor.step(Observation::Spawned);
    supervisor.step(Observation::StreamEnded { cause: StreamEnd::EndOfStream, alive_ms: 0 });
    let step = supervisor.step(Observation::PipeMissing);
    assert!(is_stop(&step.next));
    assert_eq!(supervisor.phase(), Phase::Terminated);
}

#[test]
fn failure_while_diagnosing_ends_supervision() {
    let mut supervisor = Supervisor::new();
    supervisor.step(Observation::Spawned);
    supervisor.step(Observation::StreamEnded { cause: StreamEnd::EndOfStream, alive_ms: 10 });
    let step = supervisor.step(Observation::IoFailed { not_found: false, message: s("broken pipe") });
    match step.next {
        Command::Stop { failure } => {
            assert_eq!(failure.message(), "unable to spawn process: broken pipe");
            assert_eq!(failure.report().severity, Severity::Error);
        }
        _ => unreachable!(),
    }
    assert_eq!(supervisor.phase(), Phase::Terminated);
}

#[test]
fn observations_out_of_turn_change_nothing() {
    let mut supervisor = Supervisor::new();
    let step = supervisor.step(envelope(1, scan_added()));
    assert!(step.publish.is_empty());
    assert!(matches!(step.next, Command::Spawn));
    assert_eq!(supervisor.phase(), Phase::Spawning);
    assert!(supervisor.mirror().same(&RosState::default()));
    let step = supervisor.step(Observation::StreamEnded { cause: StreamEnd::EndOfStream, alive_ms: 1 });
    assert!(matches!(step.next, Command::Spawn));
    let step = supervisor.step(Observation::Diagnosed { status: s(""), stderr: s("") });
    assert!(matches!(step.next, Command::Spawn));

    supervisor.step(Observation::Spawned);
    let step = supervisor.step(Observation::Spawned);
    assert!(matches!(step.next, Command::Read));
    let step = supervisor.step(Observation::PipeMissing);
    assert!(matches!(step.next, Command::Read));
    let step = supervisor.step(Observation::IoFailed { not_found: false, message: s("x") });
    assert!(matches!(step.next, Command::Read));
    assert_eq!(supervisor.phase(), Phase::Streaming);

    supervisor.step(Observation::StreamEnded { cause: StreamEnd::EndOfStream, alive_ms: 1 });
    let step = supervisor.step(Observation::Spawned);
    assert!(matches!(step.next, Command::Diagnose));
    let step = supervisor.step(envelope(1, scan_added()));
    assert!(matches!(step.next, Command::Diagnose));
    assert!(step.publish.is_empty());
    assert_eq!(supervisor.phase(), Phase::Diagnosing);
}

#[test]
fn report_hints_at_sourcing_when_a_library_is_missing() {
    let failure = Failure::ProcessExited {
        status: s("exit status: 127"),
        stderr: s("monitor: error while loading shared libraries: librcl.so: cannot open"),
    };
    let report = failure.report();
    assert_eq!(report.severity, Severity::Error);
    assert_eq!(
        report.text,
        "ROS discovery is not available:\nprocess exited: exit status: 127\nmonitor: error while loading shared libraries: librcl.so: cannot openPlease make sure that ROS is sourced, and try at least ROS jazzy."
    );

    let failure = Failure::SpawnError { not_found: false, message: s("permission denied") };
    let report = failure.report();
    assert_eq!(report.severity, Severity::Error);
    assert_eq!(
        report.text,
        "ROS discovery is not available:\nunable to spawn process: permission denied"
    );
}

#[test]
fn mentions_finds_text_anywhere() {
    assert!(mentions("abc", ""));
    assert!(mentions("", ""));
    assert!(!mentions("", "a"));
    assert!(mentions("abc", "abc"));
    assert!(mentions("abc", "a"));
    assert!(mentions("abc", "c"));
    assert!(mentions("abc", "bc"));
    assert!(!mentions("abc", "abcd"));
    assert!(!mentions("abc", "ac"));
    assert!(mentions("aab", "ab"));
    assert!(mentions("héllo wörld", "wör"));
    assert!(!mentions("héllo", "e"));
}
