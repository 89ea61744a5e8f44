use ya_world_time::aggregate::aggregate;
use ya_world_time::collector::{
    has_deadline_passed, Collector, CollectorAction, ProbeStatus, POLL_INTERVAL_MS,
    PROBE_TIMEOUT_SECS,
};
use ya_world_time::servers::ServerInfo;

const MS: u128 = 1_000_000;

fn batch(names: &[&str]) -> Vec<ServerInfo> {
    names
        .iter()
        .map(|n| ServerInfo { port: 123, ip_addr: format!("ip-{}", n), host_name: n.to_string() })
        .collect()
}

fn hosts(servers: &Vec<ServerInfo>) -> Vec<String> {
    servers.iter().map(|s| s.host_name.clone()).collect()
}

fn ok(offset: i64, roundtrip: u64) -> ProbeStatus {
    ProbeStatus::Succeeded { offset, roundtrip }
}

#[test]
fn fixed_intervals() {
    assert_eq!(POLL_INTERVAL_MS, 5);
    assert_eq!(PROBE_TIMEOUT_SECS, 2);
}

#[test]
fn new_collector_waits_for_the_whole_batch() {
    let c = Collector::new(batch(&["a", "b"]), 300);
    assert_eq!(hosts(&c.outstanding), vec!["a", "b"]);
    assert!(c.measurements.is_empty());
    assert!(c.unreachable.is_empty());
    assert!(c.crashed.is_empty());
    assert_eq!(c.deadline_ms, 300);
    assert_eq!(c.state, CollectorAction::Wait);
}

#[test]
fn all_probes_answer_in_time() {
    let mut c = Collector::new(batch(&["a", "b", "c"]), 300);
    let action = c.poll(&vec![ok(1000, 50000), ok(2000, 50000), ok(3000, 50000)], 20 * MS);
    assert_eq!(action, CollectorAction::Finished);
    assert!(c.outstanding.is_empty());
    assert_eq!(c.measurements.len(), 3);
    let timer = aggregate(&c.measurements, 28867);
    assert_eq!(timer.offset, 2000);
}

#[test]
fn finished_probes_are_harvested_from_the_highest_position() {
    let mut c = Collector::new(batch(&["a", "b", "c", "d"]), 300);
    let action = c.poll(&vec![ok(1, 10), ProbeStatus::Pending, ok(3, 30), ok(4, 40)], MS);
    assert_eq!(action, CollectorAction::Wait);
    let got: Vec<(String, i64, u64)> = c
        .measurements
        .iter()
        .map(|m| (m.server_info.host_name.clone(), m.offset, m.roundtrip))
        .collect();
    assert_eq!(got, vec![
        ("d".to_string(), 4, 40),
        ("c".to_string(), 3, 30),
        ("a".to_string(), 1, 10)
    ]);
    assert_eq!(c.measurements[0].server_info.ip_addr, "ip-d");
    assert_eq!(c.measurements[0].server_info.port, 123);
    assert_eq!(hosts(&c.outstanding), vec!["b"]);
}

#[test]
fn one_server_times_out_and_two_respond() {
    let mut c = Collector::new(batch(&["a", "b", "c"]), 300);
    assert_eq!(
        c.poll(&vec![ProbeStatus::Pending, ProbeStatus::Pending, ProbeStatus::Pending], 5 * MS),
        CollectorAction::Wait
    );
    assert_eq!(
        c.poll(&vec![ok(500, 10000), ProbeStatus::Pending, ProbeStatus::Pending], 10 * MS),
        CollectorAction::Wait
    );
    assert_eq!(hosts(&c.outstanding), vec!["b", "c"]);
    assert_eq!(
        c.poll(&vec![ProbeStatus::Pending, ok(1500, 20000)], 15 * MS),
        CollectorAction::Wait
    );
    assert_eq!(hosts(&c.outstanding), vec!["b"]);
    assert_eq!(c.poll(&vec![ProbeStatus::Pending], 301 * MS), CollectorAction::TimedOut);
    assert_eq!(hosts(&c.outstanding), vec!["b"]);
    assert_eq!(c.outstanding.len(), 1);
    assert_eq!(c.measurements.len(), 2);
    assert_eq!(aggregate(&c.measurements, 8944).offset, 1000);
}

#[test]
fn probes_that_never_finish_are_abandoned_at_the_deadline() {
    let mut c = Collector::new(batch(&["a", "b"]), 300);
    let pending = vec![ProbeStatus::Pending, ProbeStatus::Pending];
    assert_eq!(c.poll(&pending, 0), CollectorAction::Wait);
    assert_eq!(c.poll(&pending, 299 * MS), CollectorAction::Wait);
    assert_eq!(c.poll(&pending, 300 * MS), CollectorAction::Wait);
    assert_eq!(c.poll(&pending, 300 * MS + 1), CollectorAction::TimedOut);
    assert_eq!(hosts(&c.outstanding), vec!["a", "b"]);
    assert!(c.measurements.is_empty());
    let timer = aggregate(&c.measurements, 0);
    assert_eq!(timer.offset, 0);
    assert_eq!(timer.precision, None);
}

#[test]
fn results_after_the_end_of_a_batch_are_discarded() {
    let mut c = Collector::new(batch(&["a", "b"]), 300);
    assert_eq!(c.poll(&vec![ok(5, 5), ProbeStatus::Pending], 400 * MS), CollectorAction::TimedOut);
    assert_eq!(c.measurements.len(), 1);
    assert_eq!(c.poll(&vec![ok(9, 9)], 401 * MS), CollectorAction::TimedOut);
    assert_eq!(c.measurements.len(), 1);
    assert_eq!(hosts(&c.outstanding), vec!["b"]);
    assert_eq!(c.state, CollectorAction::TimedOut);

    let mut done = Collector::new(batch(&["a"]), 300);
    assert_eq!(done.poll(&vec![ok(5, 5)], MS), CollectorAction::Finished);
    assert_eq!(done.poll(&vec![ok(7, 7)], 900 * MS), CollectorAction::Finished);
    assert_eq!(done.measurements.len(), 1);
    assert_eq!(done.measurements[0].offset, 5);
}

#[test]
fn a_probe_finished_at_the_last_poll_still_counts() {
    let mut c = Collector::new(batch(&["a", "b"]), 300);
    let action = c.poll(&vec![ok(5, 5), ProbeStatus::Pending], 1000 * MS);
    assert_eq!(action, CollectorAction::TimedOut);
    assert_eq!(c.measurements.len(), 1);
    let mut c = Collector::new(batch(&["a", "b"]), 300);
    let action = c.poll(&vec![ok(5, 5), ok(6, 6)], 1000 * MS);
    assert_eq!(action, CollectorAction::Finished);
    assert_eq!(c.measurements.len(), 2);
}

#[test]
fn failures_contribute_nothing() {
    let mut c = Collector::new(batch(&["a", "b", "c", "d", "e"]), 300);
    let action = c.poll(
        &vec![
            ProbeStatus::NetworkError,
            ProbeStatus::Crashed,
            ok(42, 7),
            ProbeStatus::NetworkError,
            ProbeStatus::Pending,
        ],
        MS,
    );
    assert_eq!(action, CollectorAction::Wait);
    assert_eq!(hosts(&c.unreachable), vec!["d", "a"]);
    assert_eq!(hosts(&c.crashed), vec!["b"]);
    assert_eq!(hosts(&c.outstanding), vec!["e"]);
    assert_eq!(c.measurements.len(), 1);
    assert_eq!(c.measurements[0].offset, 42);
    assert_eq!(
        c.outstanding.len() + c.measurements.len() + c.unreachable.len() + c.crashed.len(),
        5
    );
    assert_eq!(c.poll(&vec![ProbeStatus::Crashed], 2 * MS), CollectorAction::Finished);
    assert_eq!(hosts(&c.crashed), vec!["b", "e"]);
    assert_eq!(aggregate(&c.measurements, 7).offset, 42);
}

#[test]
fn an_empty_batch_is_finished_at_once() {
    let mut c = Collector::new(Vec::new(), 300);
    assert_eq!(c.poll(&Vec::new(), 0), CollectorAction::Finished);
    let mut c = Collector::new(Vec::new(), 0);
    assert_eq!(c.poll(&Vec::new(), 10 * MS), CollectorAction::Finished);
}

#[test]
fn a_missing_status_counts_as_pending() {
    let mut c = Collector::new(batch(&["a", "b", "c"]), 300);
    assert_eq!(c.poll(&vec![ok(1, 1)], MS), CollectorAction::Wait);
    assert_eq!(hosts(&c.outstanding), vec!["b", "c"]);
    assert_eq!(
        c.poll(&vec![ProbeStatus::Pending, ok(2, 2), ok(3, 3), ok(4, 4)], MS),
        CollectorAction::Wait
    );
    assert_eq!(hosts(&c.outstanding), vec!["b"]);
    assert_eq!(c.measurements.len(), 2);
}

#[test]
fn outstanding_probes_never_grow() {
    let mut c = Collector::new(batch(&["a", "b", "c", "d"]), 300);
    let mut before = c.outstanding.len();
    let polls = vec![
        vec![ProbeStatus::Pending; 4],
        vec![ok(1, 1), ProbeStatus::Pending, ProbeStatus::Pending, ProbeStatus::Pending],
        vec![ProbeStatus::Pending, ProbeStatus::NetworkError, ProbeStatus::Pending],
        vec![ProbeStatus::Pending, ProbeStatus::Pending],
    ];
    for statuses in polls.iter() {
        c.poll(statuses, MS);
        assert!(c.outstanding.len() <= before);
        assert!(c.outstanding.len() <= 4);
        before = c.outstanding.len();
    }
    assert_eq!(before, 2);
}

#[test]
fn deadline_is_compared_in_nanoseconds() {
    assert!(!has_deadline_passed(0, 0));
    assert!(has_deadline_passed(1, 0));
    assert!(!has_deadline_passed(300_000_000, 300));
    assert!(has_deadline_passed(300_000_001, 300));
    assert!(!has_deadline_passed(u64::MAX as u128 * 1_000_000, u64::MAX));
    assert!(has_deadline_passed(u64::MAX as u128 * 1_000_000 + 1, u64::MAX));
    assert!(has_deadline_passed(u128::MAX, u64::MAX));
}
