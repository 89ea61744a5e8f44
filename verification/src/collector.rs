//! Collection of the answers of one batch of probes under a deadline.
//!
//! The caller launches one probe per candidate of the batch, then polls them
//! at a short interval and reports to the [`Collector`] where each stands. The
//! collector keeps what succeeded, drops what failed and says whether to go on
//! waiting.

use vstd::prelude::*;
use crate::aggregate::{measurement_views, Measurement, MeasurementView};
use crate::dispatch::{batch_count, batch_of};
use crate::servers::{server_views, ServerInfo, ServerInfoView};

verus! {

/// Milliseconds between two polls of the outstanding probes.
pub const POLL_INTERVAL_MS: u64 = 5;

/// Seconds a single probe waits for its answer, whatever the configuration.
pub const PROBE_TIMEOUT_SECS: u64 = 2;

/// Where one probe stands when it is polled.
#[derive(Debug, Clone, Copy, PartialEq, Eq, Structural)]
pub enum ProbeStatus {
    /// The exchange has not ended yet.
    Pending,
    /// The server answered.
    Succeeded { offset: i64, roundtrip: u64 },
    /// The exchange ended with a network error.
    NetworkError,
    /// The unit of work that ran the probe failed abnormally.
    Crashed,
}

/// What the caller does after a poll.
#[derive(Debug, Clone, Copy, PartialEq, Eq, Structural)]
pub enum CollectorAction {
    /// Probes are outstanding and the deadline has not passed: sleep for the
    /// poll interval and poll again.
    Wait,
    /// No probe is outstanding: the batch is complete.
    Finished,
    /// The deadline has passed: stop waiting; what is outstanding is abandoned.
    TimedOut,
}

/// The state of the collection of one batch.
#[derive(Debug)]
pub struct Collector {
    /// Candidates whose probes have not ended, in batch order.
    pub outstanding: Vec<ServerInfo>,
    /// What the probes that succeeded reported.
    pub measurements: Vec<Measurement>,
    /// Candidates whose probes ended with a network error.
    pub unreachable: Vec<ServerInfo>,
    /// Candidates whose probes failed abnormally.
    pub crashed: Vec<ServerInfo>,
    /// The deadline of the batch in milliseconds since its start.
    pub deadline_ms: u64,
    /// `Wait` while the collection goes on, else how it ended.
    pub state: CollectorAction,
}

/// The status reported for position `i`; a position without a report is
/// pending.
pub open spec fn status_at(statuses: Seq<ProbeStatus>, i: int) -> ProbeStatus {
    if 0 <= i < statuses.len() {
        statuses[i]
    } else {
        ProbeStatus::Pending
    }
}

/// The candidates among `servers` whose probes are still pending, in order.
pub open spec fn still_pending(servers: Seq<ServerInfoView>, statuses: Seq<ProbeStatus>) -> Seq<
    ServerInfoView,
>
    decreases servers.len(),
{
    if servers.len() == 0 {
        Seq::empty()
    } else {
        let before = still_pending(servers.drop_last(), statuses);
        if status_at(statuses, servers.len() - 1) is Pending {
            before.push(servers.last())
        } else {
            before
        }
    }
}

/// The measurements of the probes among `servers` that succeeded, the one
/// at the highest position first.
pub open spec fn harvested(servers: Seq<ServerInfoView>, statuses: Seq<ProbeStatus>) -> Seq<
    MeasurementView,
>
    decreases servers.len(),
{
    if servers.len() == 0 {
        Seq::empty()
    } else {
        let before = harvested(servers.drop_last(), statuses);
        match status_at(statuses, servers.len() - 1) {
            ProbeStatus::Succeeded { offset, roundtrip } => seq![
                MeasurementView {
                    server_info: servers.last(),
                    offset: offset as int,
                    roundtrip: roundtrip as nat,
                },
            ] + before,
            _ => before,
        }
    }
}

/// The candidates among `servers` whose probes ended with `status`, a status
/// of failure, the one at the highest position first.
pub open spec fn failed_with(
    servers: Seq<ServerInfoView>,
    statuses: Seq<ProbeStatus>,
    status: ProbeStatus,
) -> Seq<ServerInfoView>
    decreases servers.len(),
{
    if servers.len() == 0 {
        Seq::empty()
    } else {
        let before = failed_with(servers.drop_last(), statuses, status);
        if status_at(statuses, servers.len() - 1) == status {
            seq![servers.last()] + before
        } else {
            before
        }
    }
}

/// The deadline of `deadline_ms` milliseconds has passed after
/// `elapsed_nanos` nanoseconds.
pub open spec fn deadline_passed(elapsed_nanos: u128, deadline_ms: u64) -> bool {
    elapsed_nanos > deadline_ms * 1_000_000
}

/// What to do with `outstanding` probes left after `elapsed_nanos`.
pub open spec fn action_after(outstanding: nat, elapsed_nanos: u128, deadline_ms: u64)
    -> CollectorAction {
    if outstanding == 0 {
        CollectorAction::Finished
    } else if deadline_passed(elapsed_nanos, deadline_ms) {
        CollectorAction::TimedOut
    } else {
        CollectorAction::Wait
    }
}

/// Probes that never end stay outstanding and contribute nothing: where
/// every status is pending, a poll keeps all candidates and harvests no
/// measurement and no failure.
pub proof fn lemma_pending_probes_contribute_nothing(
    servers: Seq<ServerInfoView>,
    statuses: Seq<ProbeStatus>,
)
    requires
        forall|i: int| 0 <= i < servers.len() ==> status_at(statuses, i) is Pending,
    ensures
        still_pending(servers, statuses) == servers,
        harvested(servers, statuses).len() == 0,
        failed_with(servers, statuses, ProbeStatus::NetworkError).len() == 0,
        failed_with(servers, statuses, ProbeStatus::Crashed).len() == 0,
    decreases servers.len(),
{
    if servers.len() > 0 {
        lemma_pending_probes_contribute_nothing(servers.drop_last(), statuses);
        assert(servers.drop_last().push(servers.last()) == servers);
    }
}

/// Every probe of a poll is accounted for once: it is still outstanding, or
/// it gave a measurement, or it is filed as unreachable or as crashed.
pub proof fn lemma_poll_accounts_for_every_probe(
    servers: Seq<ServerInfoView>,
    statuses: Seq<ProbeStatus>,
)
    ensures
        still_pending(servers, statuses).len() + harvested(servers, statuses).len() + failed_with(
            servers,
            statuses,
            ProbeStatus::NetworkError,
        ).len() + failed_with(servers, statuses, ProbeStatus::Crashed).len() == servers.len(),
    decreases servers.len(),
{
    if servers.len() > 0 {
        lemma_poll_accounts_for_every_probe(servers.drop_last(), statuses);
    }
}

/// Once the deadline has passed, no poll asks to wait: however many probes
/// hang, the batch ends at the first poll after its deadline.
pub proof fn lemma_no_wait_after_deadline(outstanding: nat, elapsed_nanos: u128, deadline_ms: u64)
    requires
        deadline_passed(elapsed_nanos, deadline_ms),
    ensures
        !(action_after(outstanding, elapsed_nanos, deadline_ms) is Wait),
{
}

/// The candidates of `servers` that are outstanding after a run of polls,
/// each poll reporting on what the poll before it left.
pub open spec fn pending_after(servers: Seq<ServerInfoView>, polls: Seq<Seq<ProbeStatus>>) -> Seq<
    ServerInfoView,
>
    decreases polls.len(),
{
    if polls.len() == 0 {
        servers
    } else {
        still_pending(pending_after(servers, polls.drop_last()), polls.last())
    }
}

/// A poll never adds to what is outstanding.
pub proof fn lemma_still_pending_shrinks(servers: Seq<ServerInfoView>, statuses: Seq<ProbeStatus>)
    ensures
        still_pending(servers, statuses).len() <= servers.len(),
    decreases servers.len(),
{
    if servers.len() > 0 {
        lemma_still_pending_shrinks(servers.drop_last(), statuses);
    }
}

/// Within a batch never more probes are outstanding than the ceiling of
/// concurrency allows: whatever batch of the pool is collected and however
/// its polls turn out.
pub proof fn lemma_outstanding_within_ceiling(
    pool: Seq<ServerInfoView>,
    max_at_once: nat,
    k: int,
    polls: Seq<Seq<ProbeStatus>>,
)
    requires
        max_at_once > 0,
        0 <= k < batch_count(pool.len(), max_at_once),
    ensures
        pending_after(batch_of(pool, max_at_once, k), polls).len() <= batch_of(
            pool,
            max_at_once,
            k,
        ).len() <= max_at_once,
    decreases polls.len(),
{
    if polls.len() > 0 {
        lemma_outstanding_within_ceiling(pool, max_at_once, k, polls.drop_last());
        lemma_still_pending_shrinks(
            pending_after(batch_of(pool, max_at_once, k), polls.drop_last()),
            polls.last(),
        );
    } else {
        let d = max_at_once as int;
        let n = pool.len() + d - 1;
        assert(0 <= k * d < pool.len()) by (nonlinear_arith)
            requires
                d > 0,
                0 <= k < n / d,
                n == pool.len() + d - 1,
        ;
    }
}

/// Whether the deadline of `deadline_ms` milliseconds has passed after
/// `elapsed_nanos` nanoseconds.
pub fn has_deadline_passed(elapsed_nanos: u128, deadline_ms: u64) -> (passed: bool)
    ensures
        passed == deadline_passed(elapsed_nanos, deadline_ms),
{
    let deadline_nanos: u128 = (deadline_ms as u128) * 1_000_000;
    elapsed_nanos > deadline_nanos
}

impl Collector {
    /// The collection goes on: no poll has ended it yet.
    pub open spec fn collecting(&self) -> bool {
        self.state is Wait
    }

    /// Starts the collection of one batch, all of whose probes are outstanding.
    pub fn new(batch: Vec<ServerInfo>, deadline_ms: u64) -> (collector: Collector)
        ensures
            collector.outstanding == batch,
            collector.measurements@.len() == 0,
            collector.unreachable@.len() == 0,
            collector.crashed@.len() == 0,
            collector.deadline_ms == deadline_ms,
            collector.collecting(),
    {
        Collector {
            outstanding: batch,
            measurements: Vec::new(),
            unreachable: Vec::new(),
            crashed: Vec::new(),
            deadline_ms,
            state: CollectorAction::Wait,
        }
    }

    /// Takes in one poll of the outstanding probes and decides how to go on.
    ///
    /// `statuses[i]` is where the probe of `outstanding[i]` stands; a probe
    /// without a status counts as pending. `elapsed_nanos` is the time since
    /// the batch was launched. Every probe that has ended leaves the
    /// outstanding set: a success adds its measurement, a failure is filed
    /// under its kind, in each case the highest position first. Then the
    /// batch is finished if nothing is outstanding, timed out if the deadline
    /// has passed, and waits otherwise. Once a batch has ended, later polls
    /// change nothing and repeat how it ended.
    pub fn poll(&mut self, statuses: &Vec<ProbeStatus>, elapsed_nanos: u128) -> (action:
        CollectorAction)
        ensures
            final(self).deadline_ms == old(self).deadline_ms,
            final(self).state == action,
            !old(self).collecting() ==> {
                &&& action == old(self).state
                &&& final(self).outstanding@ == old(self).outstanding@
                &&& final(self).measurements@ == old(self).measurements@
                &&& final(self).unreachable@ == old(self).unreachable@
                &&& final(self).crashed@ == old(self).crashed@
            },
            old(self).collecting() ==> {
                &&& server_views(final(self).outstanding@) == still_pending(
                    server_views(old(self).outstanding@),
                    statuses@,
                )
                &&& measurement_views(final(self).measurements@) == measurement_views(
                    old(self).measurements@,
                ) + harvested(server_views(old(self).outstanding@), statuses@)
                &&& server_views(final(self).unreachable@) == server_views(old(self).unreachable@)
                    + failed_with(
                    server_views(old(self).outstanding@),
                    statuses@,
                    ProbeStatus::NetworkError,
                )
                &&& server_views(final(self).crashed@) == server_views(old(self).crashed@)
                    + failed_with(
                    server_views(old(self).outstanding@),
                    statuses@,
                    ProbeStatus::Crashed,
                )
                &&& action == action_after(
                    final(self).outstanding@.len(),
                    elapsed_nanos,
                    old(self).deadline_ms,
                )
            },
            final(self).outstanding@.len() <= old(self).outstanding@.len(),
    {
        if !matches!(self.state, CollectorAction::Wait) {
            return self.state;
        }
        let total = self.outstanding.len();
        let ghost servers = server_views(self.outstanding@);
        let ghost measured = measurement_views(self.measurements@);
        let ghost unreachable = server_views(self.unreachable@);
        let ghost crashed = server_views(self.crashed@);
        let mut i: usize = total;
        proof {
            assert(servers.take(total as int) == servers);
        }
        while i > 0
            invariant
                i <= total,
                total == self.outstanding@.len(),
                servers == server_views(self.outstanding@),
                self.deadline_ms == old(self).deadline_ms,
                self.state == old(self).state,
                measurement_views(self.measurements@) + harvested(servers.take(i as int), statuses@)
                    == measured + harvested(servers, statuses@),
                server_views(self.unreachable@) + failed_with(
                    servers.take(i as int),
                    statuses@,
                    ProbeStatus::NetworkError,
                ) == unreachable + failed_with(servers, statuses@, ProbeStatus::NetworkError),
                server_views(self.crashed@) + failed_with(
                    servers.take(i as int),
                    statuses@,
                    ProbeStatus::Crashed,
                ) == crashed + failed_with(servers, statuses@, ProbeStatus::Crashed),
            decreases i,
        {
            i = i - 1;
            let status = if i < statuses.len() {
                statuses[i]
            } else {
                ProbeStatus::Pending
            };
            proof {
                assert(servers.take(i + 1).drop_last() == servers.take(i as int));
                assert(servers.take(i + 1).last() == self.outstanding@[i as int]@);
                assert(status == status_at(statuses@, i as int));
            }
            match status {
                ProbeStatus::Pending => {},
                ProbeStatus::Succeeded { offset, roundtrip } => {
                    let measurement = Measurement {
                        server_info: self.outstanding[i].clone(),
                        offset,
                        roundtrip,
                    };
                    proof {
                        let before = measurement_views(self.measurements@);
                        let rest = harvested(servers.take(i as int), statuses@);
                        assert(measurement_views(self.measurements@.push(measurement))
                            =~= before.push(measurement@));
                        assert(before.push(measurement@) + rest =~= before + (seq![measurement@]
                            + rest));
                    }
                    self.measurements.push(measurement);
                },
                ProbeStatus::NetworkError => {
                    let server = self.outstanding[i].clone();
                    proof {
                        let before = server_views(self.unreachable@);
                        let rest = failed_with(
                            servers.take(i as int),
                            statuses@,
                            ProbeStatus::NetworkError,
                        );
                        assert(server_views(self.unreachable@.push(server)) =~= before.push(
                            server@,
                        ));
                        assert(before.push(server@) + rest =~= before + (seq![server@] + rest));
                    }
                    self.unreachable.push(server);
                },
                ProbeStatus::Crashed => {
                    let server = self.outstanding[i].clone();
                    proof {
                        let before = server_views(self.crashed@);
                        let rest = failed_with(
                            servers.take(i as int),
                            statuses@,
                            ProbeStatus::Crashed,
                        );
                        assert(server_views(self.crashed@.push(server)) =~= before.push(server@));
                        assert(before.push(server@) + rest =~= before + (seq![server@] + rest));
                    }
                    self.crashed.push(server);
                },
            }
        }
        proof {
            assert(servers.take(0) =~= Seq::empty());
            assert(measurement_views(self.measurements@) + Seq::empty() =~= measurement_views(
                self.measurements@,
            ));
            assert(server_views(self.unreachable@) + Seq::empty() =~= server_views(
                self.unreachable@,
            ));
            assert(server_views(self.crashed@) + Seq::empty() =~= server_views(self.crashed@));
        }
        let mut kept: Vec<ServerInfo> = Vec::new();
        let mut j: usize = 0;
        proof {
            assert(server_views(kept@) =~= still_pending(servers.take(0), statuses@));
        }
        while j < total
            invariant
                j <= total,
                total == self.outstanding@.len(),
                servers == server_views(self.outstanding@),
                kept@.len() <= j,
                server_views(kept@) == still_pending(servers.take(j as int), statuses@),
            decreases total - j,
        {
            let pending = if j < statuses.len() {
                matches!(statuses[j], ProbeStatus::Pending)
            } else {
                true
            };
            proof {
                assert(servers.take(j + 1).drop_last() == servers.take(j as int));
                assert(servers.take(j + 1).last() == self.outstanding@[j as int]@);
                assert(pending == (status_at(statuses@, j as int) is Pending));
            }
            if pending {
                let server = self.outstanding[j].clone();
                proof {
                    assert(server_views(kept@.push(server)) =~= server_views(kept@).push(server@));
                }
                kept.push(server);
            }
            j = j + 1;
        }
        proof {
            assert(servers.take(total as int) == servers);
        }
        self.outstanding = kept;
        let action = if self.outstanding.len() == 0 {
            CollectorAction::Finished
        } else if has_deadline_passed(elapsed_nanos, self.deadline_ms) {
            CollectorAction::TimedOut
        } else {
            CollectorAction::Wait
        };
        self.state = action;
        action
    }
}

} // verus!
