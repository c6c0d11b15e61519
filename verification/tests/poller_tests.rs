use sshpoll::{
    capture_tick_timestamp, make_pollers, resolve, ExecutionAttempt, Node, Poller, Stage,
};

fn params() -> sshpoll::ConnectionParameters {
    resolve(
        Some(String::from("10.0.0.1")),
        None,
        None,
        Some(vec![String::from("/keys/id")]),
    )
    .unwrap()
}

#[test]
fn each_tick_produces_one_line_and_counts_once() {
    let mut p = Poller::new(Node::Node1, String::from("uptime"), params(), 10);
    assert_eq!(p.ticks, 0);

    let ok = ExecutionAttempt::Output(String::from(" 10:00:01 up 3 days"));
    let line = p.process_tick("2024-01-01T10:00:00Z", &ok);
    assert_eq!(line, "2024-01-01T10:00:00Z -  10:00:01 up 3 days");
    assert_eq!(p.ticks, 1);

    let bad = ExecutionAttempt::Failure(Stage::Connect, String::from("no route to host"));
    let line = p.process_tick("2024-01-01T10:00:10Z", &bad);
    assert_eq!(line, "2024-01-01T10:00:10Z - Failed to connect: no route to host");
    assert_eq!(p.ticks, 2);
}

#[test]
fn a_failing_poller_never_stops_its_sibling() {
    let mut unreachable = Poller::new(Node::Node1, String::from("uptime"), params(), 10);
    let mut healthy = Poller::new(Node::Node2, String::from("uptime"), params(), 10);

    for n in 0..50u64 {
        let stage = match n % 3 {
            0 => Stage::Connect,
            1 => Stage::Handshake,
            _ => Stage::Authenticate,
        };
        let fail = ExecutionAttempt::Failure(stage, String::from("timed out"));
        let line = unreachable.process_tick("2024-01-01T10:00:00Z", &fail);
        assert!(!line.is_empty());

        let ok = ExecutionAttempt::Output(String::from("up"));
        let line = healthy.process_tick("2024-01-01T10:00:00Z", &ok);
        assert_eq!(line, "2024-01-01T10:00:00Z - up");
    }
    assert_eq!(unreachable.ticks, 50);
    assert_eq!(healthy.ticks, 50);
}

#[test]
fn captured_timestamp_is_a_single_line() {
    let ts = capture_tick_timestamp();
    assert!(!ts.contains('\n'));
    assert!(!ts.contains('\r'));
    assert!(ts.len() >= 20, "timestamp too short: {ts:?}");
}

#[test]
fn a_tick_at_the_captured_timestamp_prefixes_the_output() {
    let mut p = Poller::new(Node::Node3, String::from("uptime"), params(), 10);
    let ts = capture_tick_timestamp();
    let ok = ExecutionAttempt::Output(String::from("hello"));
    let line = p.process_tick(&ts, &ok);
    assert_eq!(line, format!("{ts} - hello"));
    assert_eq!(p.ticks, 1);
}

#[test]
fn one_poller_is_made_per_target_in_order() {
    let entries = vec![
        (Node::Node1, params()),
        (Node::Node2, params()),
        (Node::Node4, params()),
    ];
    let pollers = make_pollers(&String::from("uptime"), entries, 7);
    assert_eq!(pollers.len(), 3);
    assert_eq!(pollers[0].target, Node::Node1);
    assert_eq!(pollers[1].target, Node::Node2);
    assert_eq!(pollers[2].target, Node::Node4);
    for p in &pollers {
        assert_eq!(p.command, "uptime");
        assert_eq!(p.interval_secs, 7);
        assert_eq!(p.ticks, 0);
        assert_eq!(p.params.host, "10.0.0.1");
    }
}
