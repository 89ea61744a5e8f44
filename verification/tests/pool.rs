use ya_world_time::dispatch::split_into_batches;
use ya_world_time::servers::{
    add_servers_from_host, build_candidate_pool, truncate_pool, HostLookup, ResolvedAddress,
    ServerInfo, NTP_PORT,
};

fn v4(text: &str) -> ResolvedAddress {
    ResolvedAddress::V4(text.to_string())
}

fn v6(text: &str) -> ResolvedAddress {
    ResolvedAddress::V6(text.to_string())
}

fn lookup(host: &str, addresses: Option<Vec<ResolvedAddress>>) -> HostLookup {
    HostLookup { host_name: host.to_string(), addresses }
}

fn addresses(pool: &Vec<ServerInfo>) -> Vec<String> {
    pool.iter().map(|s| s.ip_addr.clone()).collect()
}

fn numbered(count: usize) -> Vec<ServerInfo> {
    (0..count)
        .map(|i| ServerInfo {
            port: NTP_PORT,
            ip_addr: format!("10.0.0.{}", i),
            host_name: "pool".to_string(),
        })
        .collect()
}

#[test]
fn ipv4_addresses_become_servers_in_order() {
    let mut pool = Vec::new();
    let found = Some(vec![v4("192.0.2.1"), v6("2001:db8::1"), v4("192.0.2.2")]);
    add_servers_from_host(&mut pool, "time.example", &found);
    assert_eq!(addresses(&pool), vec!["192.0.2.1", "192.0.2.2"]);
    for server in pool.iter() {
        assert_eq!(server.port, 123);
        assert_eq!(server.host_name, "time.example");
    }
}

#[test]
fn ipv6_addresses_are_never_admitted() {
    let mut pool = Vec::new();
    let found = Some(vec![v6("2001:db8::1"), v6("::1")]);
    add_servers_from_host(&mut pool, "six.example", &found);
    assert!(pool.is_empty());
}

#[test]
fn failed_resolution_is_skipped() {
    let mut pool = numbered(2);
    add_servers_from_host(&mut pool, "gone.example", &None);
    assert_eq!(addresses(&pool), vec!["10.0.0.0", "10.0.0.1"]);
    add_servers_from_host(&mut pool, "empty.example", &Some(Vec::new()));
    assert_eq!(pool.len(), 2);
}

#[test]
fn servers_are_appended_to_what_is_there() {
    let mut pool = numbered(1);
    add_servers_from_host(&mut pool, "a.example", &Some(vec![v4("192.0.2.7")]));
    assert_eq!(addresses(&pool), vec!["10.0.0.0", "192.0.2.7"]);
    assert_eq!(pool[1].host_name, "a.example");
}

#[test]
fn pool_keeps_host_then_address_order() {
    let lookups = vec![
        lookup("a.example", Some(vec![v4("192.0.2.1"), v4("192.0.2.2")])),
        lookup("gone.example", None),
        lookup("b.example", Some(vec![v6("2001:db8::2"), v4("192.0.2.3")])),
    ];
    let (pool, truncated) = build_candidate_pool(&lookups, 100);
    assert!(!truncated);
    assert_eq!(addresses(&pool), vec!["192.0.2.1", "192.0.2.2", "192.0.2.3"]);
    let hosts: Vec<String> = pool.iter().map(|s| s.host_name.clone()).collect();
    assert_eq!(hosts, vec!["a.example", "a.example", "b.example"]);
}

#[test]
fn pool_is_cut_to_the_maximum() {
    let lookups = vec![
        lookup("a.example", Some(vec![v4("192.0.2.1"), v4("192.0.2.2")])),
        lookup("b.example", Some(vec![v4("192.0.2.3"), v6("2001:db8::4"), v4("192.0.2.4")])),
    ];
    let (pool, truncated) = build_candidate_pool(&lookups, 3);
    assert!(truncated);
    assert_eq!(addresses(&pool), vec!["192.0.2.1", "192.0.2.2", "192.0.2.3"]);
    let (pool, truncated) = build_candidate_pool(&lookups, 4);
    assert!(!truncated);
    assert_eq!(pool.len(), 4);
    let (pool, truncated) = build_candidate_pool(&lookups, 5);
    assert!(!truncated);
    assert_eq!(pool.len(), 4);
    let (pool, truncated) = build_candidate_pool(&lookups, 0);
    assert!(truncated);
    assert!(pool.is_empty());
}

#[test]
fn no_host_resolves() {
    let lookups = vec![lookup("a.example", None), lookup("b.example", None)];
    let (pool, truncated) = build_candidate_pool(&lookups, 100);
    assert!(pool.is_empty());
    assert!(!truncated);
    let (pool, truncated) = build_candidate_pool(&Vec::new(), 0);
    assert!(pool.is_empty());
    assert!(!truncated);
}

#[test]
fn truncation_reports_whether_it_cut() {
    let mut pool = numbered(5);
    assert!(truncate_pool(&mut pool, 3));
    assert_eq!(addresses(&pool), vec!["10.0.0.0", "10.0.0.1", "10.0.0.2"]);
    assert!(!truncate_pool(&mut pool, 3));
    assert_eq!(pool.len(), 3);
    assert!(!truncate_pool(&mut pool, 10));
    assert_eq!(pool.len(), 3);
}

#[test]
fn batches_are_consecutive_and_bounded() {
    let pool = numbered(7);
    let batches = split_into_batches(&pool, 3);
    let sizes: Vec<usize> = batches.iter().map(|b| b.len()).collect();
    assert_eq!(sizes, vec![3, 3, 1]);
    let all: Vec<String> = batches.iter().flat_map(|b| addresses(b)).collect();
    assert_eq!(all, addresses(&pool));
}

#[test]
fn batches_of_an_exact_multiple() {
    let batches = split_into_batches(&numbered(6), 3);
    let sizes: Vec<usize> = batches.iter().map(|b| b.len()).collect();
    assert_eq!(sizes, vec![3, 3]);
    assert_eq!(addresses(&batches[1]), vec!["10.0.0.3", "10.0.0.4", "10.0.0.5"]);
}

#[test]
fn batches_of_small_pools() {
    assert!(split_into_batches(&Vec::new(), 50).is_empty());
    let batches = split_into_batches(&numbered(2), 50);
    assert_eq!(batches.len(), 1);
    assert_eq!(batches[0].len(), 2);
    let batches = split_into_batches(&numbered(3), 1);
    assert_eq!(batches.len(), 3);
    let batches = split_into_batches(&numbered(3), usize::MAX);
    assert_eq!(batches.len(), 1);
}

#[test]
fn batches_agree_with_the_standard_chunks() {
    for total in 0..20 {
        for size in 1..8 {
            let pool = numbered(total);
            let got: Vec<Vec<String>> =
                split_into_batches(&pool, size).iter().map(|b| addresses(b)).collect();
            let expected: Vec<Vec<String>> = addresses(&pool)
                .chunks(size)
                .map(|c| c.to_vec())
                .collect();
            assert_eq!(got, expected);
        }
    }
}

#[test]
fn endpoint_and_label() {
    let server = ServerInfo {
        port: 123,
        ip_addr: "192.0.2.1".to_string(),
        host_name: "time.example".to_string(),
    };
    assert_eq!(server.endpoint(), "192.0.2.1:123");
    assert_eq!(server.label(), "192.0.2.1:123 [time.example]");
    let server = ServerInfo { port: 0, ip_addr: String::new(), host_name: String::new() };
    assert_eq!(server.endpoint(), ":0");
    assert_eq!(server.label(), ":0 []");
    let server = ServerInfo { port: 65535, ip_addr: "h".to_string(), host_name: "n".to_string() };
    assert_eq!(server.label(), "h:65535 [n]");
}
