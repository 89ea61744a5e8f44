use ya_world_time::aggregate::{sort_by_roundtrip, Measurement};
use ya_world_time::clock::{clock_target, UtcInstant};
use ya_world_time::collector::{Collector, CollectorAction, ProbeStatus};
use ya_world_time::config::parse_config;
use ya_world_time::dispatch::split_into_batches;
use ya_world_time::servers::{build_candidate_pool, HostLookup, ResolvedAddress};
use ya_world_time::world_time::{init_world_time, world_time, WorldTimer, WorldTimerWrapper};

const MS: u128 = 1_000_000;

/// Resolves every host to `per_host` IPv4 addresses and one IPv6 address.
fn resolve_all(hosts: &Vec<String>, per_host: usize) -> Vec<HostLookup> {
    hosts
        .iter()
        .enumerate()
        .map(|(h, host)| {
            let mut addresses = vec![ResolvedAddress::V6(format!("2001:db8::{}", h))];
            for a in 0..per_host {
                addresses.push(ResolvedAddress::V4(format!("10.{}.0.{}", h, a)));
            }
            HostLookup { host_name: host.clone(), addresses: Some(addresses) }
        })
        .collect()
}

/// Runs the batches of a cycle; the probe of the server at position `i` of
/// the pool answers at the poll `answer_at(i)` of its batch, if ever.
fn run_cycle(
    lookups: &Vec<HostLookup>,
    max_total: usize,
    max_at_once: usize,
    deadline_ms: u64,
    answer_at: &dyn Fn(usize) -> Option<u128>,
) -> (Vec<Measurement>, usize, usize) {
    let (pool, _) = build_candidate_pool(lookups, max_total);
    let mut measurements = Vec::new();
    let mut most_outstanding = 0;
    let mut abandoned = 0;
    let mut first = 0;
    for batch in split_into_batches(&pool, max_at_once) {
        let size = batch.len();
        let mut waiting: Vec<usize> = (first..first + size).collect();
        first += size;
        let mut collector = Collector::new(batch, deadline_ms);
        let mut round: u128 = 0;
        loop {
            most_outstanding = most_outstanding.max(collector.outstanding.len());
            let mut statuses = Vec::new();
            let mut still = Vec::new();
            for position in waiting.iter() {
                match answer_at(*position) {
                    Some(at) if at <= round => statuses.push(ProbeStatus::Succeeded {
                        offset: 100 * (*position as i64),
                        roundtrip: 1000 + *position as u64,
                    }),
                    _ => {
                        statuses.push(ProbeStatus::Pending);
                        still.push(*position);
                    }
                }
            }
            waiting = still;
            match collector.poll(&statuses, round * 5 * MS) {
                CollectorAction::Wait => round += 1,
                CollectorAction::Finished => break,
                CollectorAction::TimedOut => {
                    abandoned += collector.outstanding.len();
                    break;
                }
            }
            assert!(round < 10_000, "the batch never ended");
        }
        measurements.append(&mut collector.measurements);
    }
    sort_by_roundtrip(&mut measurements);
    (measurements, most_outstanding, abandoned)
}

#[test]
fn nothing_resolves_and_the_clock_is_left_alone() {
    let config = parse_config(None, None, None, None).unwrap();
    let lookups: Vec<HostLookup> = config
        .hosts
        .iter()
        .map(|host| HostLookup { host_name: host.clone(), addresses: None })
        .collect();
    assert_eq!(lookups.len(), 9);
    let (measurements, most, abandoned) = run_cycle(
        &lookups,
        config.max_total,
        config.max_at_once,
        config.max_timeout_ms,
        &|_| Some(0),
    );
    assert!(measurements.is_empty());
    assert_eq!((most, abandoned), (0, 0));
    let mut state = WorldTimerWrapper::new();
    let timer = init_world_time(&mut state, &measurements, 0);
    assert_eq!(timer, WorldTimer { offset: 0, precision: None });
    assert_eq!(world_time(&state), WorldTimer { offset: 0, precision: None });
    let now = UtcInstant { seconds: 1_700_000_000, nanoseconds: 0 };
    assert_eq!(clock_target(&world_time(&state), now), None);
}

#[test]
fn all_servers_answer_over_several_batches() {
    let config = parse_config(Some("4"), Some("10"), Some("300"), Some("a;b;c")).unwrap();
    let lookups = resolve_all(&config.hosts, 5);
    let (measurements, most, abandoned) = run_cycle(
        &lookups,
        config.max_total,
        config.max_at_once,
        config.max_timeout_ms,
        &|position| Some(position as u128 % 3),
    );
    assert_eq!(measurements.len(), 10);
    assert_eq!(most, 4);
    assert_eq!(abandoned, 0);
    let roundtrips: Vec<u64> = measurements.iter().map(|m| m.roundtrip).collect();
    assert_eq!(roundtrips, (1000..1010).collect::<Vec<u64>>());
    for m in measurements.iter() {
        assert!(m.server_info.ip_addr.starts_with("10."));
        assert_eq!(m.server_info.port, 123);
    }
    let mut state = WorldTimerWrapper::new();
    let timer = init_world_time(&mut state, &measurements, 316);
    assert_eq!(timer, WorldTimer { offset: 450, precision: Some(263) });
    let now = UtcInstant { seconds: 1_700_000_000, nanoseconds: 999_900_000 };
    assert_eq!(
        clock_target(&timer, now),
        Some(UtcInstant { seconds: 1_700_000_001, nanoseconds: 350_000 })
    );
}

#[test]
fn hanging_servers_are_abandoned_batch_by_batch() {
    let hosts = vec!["a".to_string(), "b".to_string()];
    let lookups = resolve_all(&hosts, 3);
    let (measurements, most, abandoned) =
        run_cycle(&lookups, 100, 2, 20, &|position| if position % 2 == 0 { Some(1) } else { None });
    assert_eq!(most, 2);
    assert_eq!(abandoned, 3);
    let offsets: Vec<i64> = measurements.iter().map(|m| m.offset).collect();
    assert_eq!(offsets, vec![0, 200, 400]);
    let mut state = WorldTimerWrapper::new();
    assert_eq!(init_world_time(&mut state, &measurements, 0).offset, 200);
}

#[test]
fn no_server_ever_answers() {
    let hosts = vec!["a".to_string()];
    let lookups = resolve_all(&hosts, 7);
    let (measurements, most, abandoned) = run_cycle(&lookups, 5, 3, 10, &|_| None);
    assert!(measurements.is_empty());
    assert_eq!(most, 3);
    assert_eq!(abandoned, 5);
    let mut state = WorldTimerWrapper::new();
    state.commit(WorldTimer { offset: 9, precision: Some(9) });
    let timer = init_world_time(&mut state, &measurements, 0);
    assert_eq!(timer.precision, None);
    assert_eq!(clock_target(&timer, UtcInstant { seconds: 0, nanoseconds: 0 }), None);
}
