//! The candidate pool: which resolved addresses become time servers.

use vstd::prelude::*;
use vstd::string::*;
use crate::text::{append_decimal, decimal};

verus! {

/// The UDP port every candidate is probed on.
pub const NTP_PORT: u16 = 123;

/// One endpoint of the candidate pool.
#[derive(Debug)]
pub struct ServerInfo {
    pub port: u16,
    pub ip_addr: String,
    pub host_name: String,
}

/// The mathematical value of a [`ServerInfo`].
pub struct ServerInfoView {
    pub port: u16,
    pub ip_addr: Seq<char>,
    pub host_name: Seq<char>,
}

impl View for ServerInfo {
    type V = ServerInfoView;

    open spec fn view(&self) -> ServerInfoView {
        ServerInfoView { port: self.port, ip_addr: self.ip_addr@, host_name: self.host_name@ }
    }
}

impl Clone for ServerInfo {
    fn clone(&self) -> (copy: Self)
        ensures
            copy@ == self@,
    {
        ServerInfo {
            port: self.port,
            ip_addr: self.ip_addr.clone(),
            host_name: self.host_name.clone(),
        }
    }
}

/// The address a probe is sent to: the IP address, a colon and the port.
pub open spec fn endpoint_of(server: ServerInfoView) -> Seq<char> {
    server.ip_addr + seq![':'] + decimal(server.port as nat)
}

/// How a server is shown: its endpoint, then its host name in square
/// brackets.
pub open spec fn label_of(server: ServerInfoView) -> Seq<char> {
    endpoint_of(server) + seq![' ', '['] + server.host_name + seq![']']
}

impl ServerInfo {
    /// The address a probe is sent to.
    pub fn endpoint(&self) -> (text: String)
        ensures
            text@ == endpoint_of(self@),
    {
        let mut text = self.ip_addr.clone();
        proof {
            reveal_strlit(":");
            assert(":"@ =~= seq![':']);
        }
        text.append(":");
        append_decimal(&mut text, self.port as u64);
        text
    }

    /// The text a server is shown as.
    pub fn label(&self) -> (text: String)
        ensures
            text@ == label_of(self@),
    {
        let mut text = self.endpoint();
        proof {
            reveal_strlit(" [");
            reveal_strlit("]");
            assert(" ["@ =~= seq![' ', '[']);
            assert("]"@ =~= seq![']']);
        }
        text.append(" [");
        text.append(self.host_name.as_str());
        text.append("]");
        text
    }
}

/// One address that a host name resolved to, in its textual form.
#[derive(Debug)]
pub enum ResolvedAddress {
    V4(String),
    V6(String),
}

impl ResolvedAddress {
    /// The address as text, whatever its family.
    pub open spec fn text(&self) -> Seq<char> {
        match self {
            ResolvedAddress::V4(text) => text@,
            ResolvedAddress::V6(text) => text@,
        }
    }
}

/// What resolving one configured host name gave: its addresses in the order
/// the resolver returned them, or `None` where the resolution failed.
#[derive(Debug)]
pub struct HostLookup {
    pub host_name: String,
    pub addresses: Option<Vec<ResolvedAddress>>,
}

/// The values of a list of servers.
pub open spec fn server_views(servers: Seq<ServerInfo>) -> Seq<ServerInfoView> {
    servers.map_values(|server: ServerInfo| server@)
}

/// The candidate that `address`, resolved from `host`, stands for.
pub open spec fn server_of(host: Seq<char>, address: ResolvedAddress) -> ServerInfoView {
    ServerInfoView { port: NTP_PORT, ip_addr: address.text(), host_name: host }
}

/// The candidates that one host contributes: its IPv4 addresses, in the
/// resolver's order. IPv6 addresses contribute nothing.
pub open spec fn servers_of_host(host: Seq<char>, addresses: Seq<ResolvedAddress>) -> Seq<
    ServerInfoView,
> {
    addresses.filter(|address: ResolvedAddress| address is V4).map_values(
        |address: ResolvedAddress| server_of(host, address),
    )
}

/// The candidates that one lookup contributes; none where it failed.
pub open spec fn servers_of_lookup(lookup: HostLookup) -> Seq<ServerInfoView> {
    match lookup.addresses {
        Some(addresses) => servers_of_host(lookup.host_name@, addresses@),
        None => Seq::empty(),
    }
}

/// All candidates, host after host in the configured order.
pub open spec fn candidates(lookups: Seq<HostLookup>) -> Seq<ServerInfoView>
    decreases lookups.len(),
{
    if lookups.len() == 0 {
        Seq::empty()
    } else {
        candidates(lookups.drop_last()) + servers_of_lookup(lookups.last())
    }
}

/// The first `max_total` candidates, or all where there are fewer.
pub open spec fn candidate_pool(lookups: Seq<HostLookup>, max_total: nat) -> Seq<ServerInfoView> {
    let all = candidates(lookups);
    if all.len() > max_total {
        all.take(max_total as int)
    } else {
        all
    }
}

/// One more resolved address adds its candidate at the end if it is an IPv4
/// address, and nothing otherwise.
pub proof fn lemma_servers_of_host_push(
    host: Seq<char>,
    addresses: Seq<ResolvedAddress>,
    next: ResolvedAddress,
)
    ensures
        servers_of_host(host, addresses.push(next)) == if next is V4 {
            servers_of_host(host, addresses).push(server_of(host, next))
        } else {
            servers_of_host(host, addresses)
        },
{
    let is_v4 = |address: ResolvedAddress| address is V4;
    reveal(Seq::filter);
    assert(addresses.push(next).drop_last() == addresses);
    assert(addresses.push(next).filter(is_v4) == if next is V4 {
        addresses.filter(is_v4).push(next)
    } else {
        addresses.filter(is_v4)
    });
    if next is V4 {
        assert(servers_of_host(host, addresses.push(next)) =~= servers_of_host(
            host,
            addresses,
        ).push(server_of(host, next)));
    }
}

/// `server` is the candidate of one of the IPv4 addresses among `addresses`.
pub open spec fn from_ipv4_address(
    server: ServerInfoView,
    host: Seq<char>,
    addresses: Seq<ResolvedAddress>,
) -> bool {
    exists|j: int|
        0 <= j < addresses.len() && (#[trigger] addresses[j]) is V4 && server == server_of(
            host,
            addresses[j],
        )
}

/// Every candidate of a host is one of its IPv4 addresses: no IPv6 address
/// is ever admitted.
pub proof fn lemma_servers_of_host_are_ipv4(host: Seq<char>, addresses: Seq<ResolvedAddress>)
    ensures
        servers_of_host(host, addresses).len() <= addresses.len(),
        forall|server: ServerInfoView| #[trigger]
            servers_of_host(host, addresses).contains(server) ==> from_ipv4_address(
                server,
                host,
                addresses,
            ),
{
    let is_v4 = |address: ResolvedAddress| address is V4;
    let kept = addresses.filter(is_v4);
    let servers = servers_of_host(host, addresses);
    addresses.lemma_filter_len(is_v4);
    assert forall|server: ServerInfoView| #[trigger] servers.contains(server) implies from_ipv4_address(
        server,
        host,
        addresses,
    ) by {
        let i = choose|i: int| 0 <= i < servers.len() && servers[i] == server;
        addresses.lemma_filter_pred(is_v4, i);
        assert(kept.contains(kept[i]));
        addresses.lemma_filter_contains_rev(is_v4, kept[i]);
        let j = choose|j: int| 0 <= j < addresses.len() && addresses[j] == kept[i];
        assert(addresses[j] is V4);
    }
}

/// `server` is the candidate of an IPv4 address that one of `lookups` found.
pub open spec fn admitted_from(server: ServerInfoView, lookups: Seq<HostLookup>) -> bool {
    exists|k: int|
        0 <= k < lookups.len() && ((#[trigger] lookups[k]).addresses matches Some(found)
            && from_ipv4_address(server, lookups[k].host_name@, found@))
}

/// Every candidate is the candidate of an IPv4 address that a lookup found.
pub proof fn lemma_candidates_are_ipv4(lookups: Seq<HostLookup>)
    ensures
        forall|server: ServerInfoView| #[trigger]
            candidates(lookups).contains(server) ==> admitted_from(server, lookups),
    decreases lookups.len(),
{
    assert forall|server: ServerInfoView| #[trigger]
        candidates(lookups).contains(server) implies admitted_from(server, lookups) by {
        let earlier = candidates(lookups.drop_last());
        let added = servers_of_lookup(lookups.last());
        let i = choose|i: int| 0 <= i < candidates(lookups).len() && candidates(lookups)[i] == server;
        if i < earlier.len() {
            assert(earlier[i] == server);
            assert(earlier.contains(server));
            lemma_candidates_are_ipv4(lookups.drop_last());
            let k = choose|k: int|
                0 <= k < lookups.drop_last().len() && ((#[trigger] lookups.drop_last()[k]).addresses matches Some(
                    found,
                ) && from_ipv4_address(server, lookups.drop_last()[k].host_name@, found@));
            assert(lookups[k] == lookups.drop_last()[k]);
        } else {
            assert(added[i - earlier.len()] == server);
            assert(added.contains(server));
            let last = lookups.last();
            assert(last.addresses is Some);
            lemma_servers_of_host_are_ipv4(last.host_name@, last.addresses->Some_0@);
            assert(lookups[lookups.len() - 1] == last);
        }
    }
}

/// The candidate pool never exceeds its maximum, keeps the order in which
/// the candidates were found, and admits nothing but IPv4 addresses that a
/// lookup found.
pub proof fn lemma_candidate_pool(lookups: Seq<HostLookup>, max_total: nat)
    ensures
        candidate_pool(lookups, max_total).len() <= max_total,
        candidate_pool(lookups, max_total).is_prefix_of(candidates(lookups)),
        forall|server: ServerInfoView| #[trigger]
            candidate_pool(lookups, max_total).contains(server) ==> admitted_from(server, lookups),
{
    lemma_candidates_are_ipv4(lookups);
    assert forall|server: ServerInfoView| #[trigger]
        candidate_pool(lookups, max_total).contains(server) implies admitted_from(
        server,
        lookups,
    ) by {
        let pool = candidate_pool(lookups, max_total);
        let i = choose|i: int| 0 <= i < pool.len() && pool[i] == server;
        assert(candidates(lookups)[i] == server);
        assert(candidates(lookups).contains(server));
    }
}

/// Appends to `time_servers` the candidates of one host: one per IPv4 address
/// in `addresses`, in order, each on the NTP port and under the name `host`.
/// IPv6 addresses are passed over, and a failed resolution adds nothing.
pub fn add_servers_from_host(
    time_servers: &mut Vec<ServerInfo>,
    host: &str,
    addresses: &Option<Vec<ResolvedAddress>>,
)
    ensures
        server_views(final(time_servers)@) == server_views(old(time_servers)@) + match addresses {
            Some(found) => servers_of_host(host@, found@),
            None => Seq::empty(),
        },
{
    match addresses {
        Some(found) => {
            let mut i: usize = 0;
            proof {
                assert(found@.take(0) =~= Seq::empty());
                reveal(Seq::filter);
                assert(servers_of_host(host@, found@.take(0)) =~= Seq::empty());
                assert(server_views(time_servers@) + Seq::empty() =~= server_views(
                    time_servers@,
                ));
            }
            while i < found.len()
                invariant
                    i <= found.len(),
                    server_views(time_servers@) == server_views(old(time_servers)@)
                        + servers_of_host(host@, found@.take(i as int)),
                decreases found.len() - i,
            {
                proof {
                    lemma_servers_of_host_push(host@, found@.take(i as int), found@[i as int]);
                    assert(found@.take(i as int).push(found@[i as int]) == found@.take(i + 1));
                }
                match &found[i] {
                    ResolvedAddress::V4(text) => {
                        let server = ServerInfo {
                            port: NTP_PORT,
                            ip_addr: text.clone(),
                            host_name: host.to_owned(),
                        };
                        proof {
                            assert(server@ == server_of(host@, found@[i as int]));
                            assert(server_views(time_servers@.push(server)) =~= server_views(
                                time_servers@,
                            ).push(server@));
                            assert(server_views(time_servers@.push(server)) =~= server_views(
                                old(time_servers)@,
                            ) + servers_of_host(host@, found@.take(i + 1)));
                        }
                        time_servers.push(server);
                    },
                    ResolvedAddress::V6(_) => {},
                }
                i = i + 1;
            }
            proof {
                assert(found@.take(i as int) == found@);
            }
        },
        None => {
            proof {
                assert(server_views(time_servers@) + Seq::empty() =~= server_views(
                    time_servers@,
                ));
            }
        },
    }
}

/// Cuts `time_servers` down to its first `max_total` entries and says
/// whether anything was cut off. A pool within the limit is left as it is.
pub fn truncate_pool(time_servers: &mut Vec<ServerInfo>, max_total: usize) -> (truncated: bool)
    ensures
        truncated == (old(time_servers)@.len() > max_total),
        truncated ==> final(time_servers)@ == old(time_servers)@.take(max_total as int),
        !truncated ==> final(time_servers)@ == old(time_servers)@,
        final(time_servers)@.len() <= max_total,
        final(time_servers)@.is_prefix_of(old(time_servers)@),
{
    if time_servers.len() > max_total {
        time_servers.truncate(max_total);
        true
    } else {
        false
    }
}

/// Builds the candidate pool of a cycle from what resolving the configured
/// hosts gave: the IPv4 addresses of each host, host after host in the
/// configured order, cut down to the first `max_total`. The flag beside
/// the pool says whether candidates were cut off.
pub fn build_candidate_pool(lookups: &Vec<HostLookup>, max_total: usize) -> (built: (
    Vec<ServerInfo>,
    bool,
))
    ensures
        server_views(built.0@) == candidate_pool(lookups@, max_total as nat),
        built.1 == (candidates(lookups@).len() > max_total),
        built.0@.len() <= max_total,
        server_views(built.0@).is_prefix_of(candidates(lookups@)),
{
    let mut pool: Vec<ServerInfo> = Vec::new();
    let mut i: usize = 0;
    proof {
        assert(lookups@.take(0) =~= Seq::empty());
        assert(server_views(pool@) =~= Seq::empty());
    }
    while i < lookups.len()
        invariant
            i <= lookups.len(),
            server_views(pool@) == candidates(lookups@.take(i as int)),
        decreases lookups.len() - i,
    {
        proof {
            assert(lookups@.take(i + 1).drop_last() == lookups@.take(i as int));
        }
        add_servers_from_host(&mut pool, lookups[i].host_name.as_str(), &lookups[i].addresses);
        i = i + 1;
    }
    proof {
        assert(lookups@.take(i as int) == lookups@);
    }
    let ghost all = pool@;
    let truncated = truncate_pool(&mut pool, max_total);
    proof {
        assert(server_views(all).len() == all.len());
        if truncated {
            assert(server_views(all.take(max_total as int)) =~= server_views(all).take(
                max_total as int,
            ));
        }
    }
    (pool, truncated)
}

} // verus!
