//! Partition of the candidate pool into batches of bounded size.

use vstd::prelude::*;
use crate::servers::{server_views, ServerInfo, ServerInfoView};

verus! {

/// The number of batches that `total` candidates fall into when at most
/// `max_at_once` go into one.
pub open spec fn batch_count(total: nat, max_at_once: nat) -> nat
    recommends
        max_at_once > 0,
{
    ((total + max_at_once - 1) / max_at_once as int) as nat
}

/// Batch number `k` of `pool`: the candidates from position `k * max_at_once`
/// up to, and without, position `(k + 1) * max_at_once`, as far as there are
/// any.
pub open spec fn batch_of(pool: Seq<ServerInfoView>, max_at_once: nat, k: int) -> Seq<
    ServerInfoView,
> {
    let start = k * max_at_once;
    let end = if start + max_at_once < pool.len() {
        start + max_at_once
    } else {
        pool.len() as int
    };
    pool.subrange(start, end)
}

/// `k` batches are what `start` candidates fill, the last of them perhaps
/// only in part.
proof fn lemma_batch_count(start: nat, max_at_once: nat, k: nat)
    requires
        max_at_once > 0,
        k > 0 ==> (k - 1) * max_at_once < start <= k * max_at_once,
        k == 0 ==> start == 0,
    ensures
        k == batch_count(start, max_at_once),
{
    if k > 0 {
        let d = max_at_once as int;
        let n = start + d - 1;
        assert((k - 1) * d == k * d - d && (k + 1) * d == k * d + d) by (nonlinear_arith);
        assert(n / d == k) by (nonlinear_arith)
            requires
                d > 0,
                k * d <= n < k * d + d,
        ;
    } else {
        let d = max_at_once as int;
        assert((d - 1) / d == 0) by (nonlinear_arith)
            requires
                d > 0,
        ;
    }
}

/// Splits the candidate pool into consecutive batches of at most
/// `max_at_once` candidates each. Every batch but the last is full, none is
/// empty, and in order they make up the pool again.
pub fn split_into_batches(pool: &Vec<ServerInfo>, max_at_once: usize) -> (batches: Vec<
    Vec<ServerInfo>,
>)
    requires
        max_at_once > 0,
    ensures
        batches@.len() == batch_count(pool@.len(), max_at_once as nat),
        forall|k: int|
            0 <= k < batches@.len() ==> server_views(#[trigger] batches@[k]@) == batch_of(
                server_views(pool@),
                max_at_once as nat,
                k,
            ),
        forall|k: int| 0 <= k < batches@.len() ==> 0 < (#[trigger] batches@[k])@.len() <= max_at_once,
{
    let total = pool.len();
    let mut batches: Vec<Vec<ServerInfo>> = Vec::new();
    let mut start: usize = 0;
    while start < total
        invariant
            total == pool@.len(),
            max_at_once > 0,
            start <= total,
            batches@.len() == 0 ==> start == 0,
            batches@.len() > 0 ==> (batches@.len() - 1) * max_at_once < start <= batches@.len()
                * max_at_once,
            start < total ==> start == batches@.len() * max_at_once,
            forall|k: int|
                0 <= k < batches@.len() ==> server_views(#[trigger] batches@[k]@) == batch_of(
                    server_views(pool@),
                    max_at_once as nat,
                    k,
                ),
            forall|k: int|
                0 <= k < batches@.len() ==> 0 < (#[trigger] batches@[k])@.len() <= max_at_once,
        decreases total - start,
    {
        let end: usize = if total - start > max_at_once {
            start + max_at_once
        } else {
            total
        };
        let mut batch: Vec<ServerInfo> = Vec::new();
        let mut j: usize = start;
        proof {
            assert(server_views(batch@) =~= server_views(pool@).subrange(
                start as int,
                start as int,
            ));
        }
        while j < end
            invariant
                start <= j <= end <= total,
                total == pool@.len(),
                batch@.len() == j - start,
                server_views(batch@) == server_views(pool@).subrange(start as int, j as int),
            decreases end - j,
        {
            let server = pool[j].clone();
            proof {
                assert(server@ == server_views(pool@)[j as int]);
                assert(server_views(batch@.push(server)) =~= server_views(batch@).push(server@));
                assert(server_views(pool@).subrange(start as int, j as int).push(server@)
                    =~= server_views(pool@).subrange(start as int, j + 1));
            }
            batch.push(server);
            j = j + 1;
        }
        proof {
            let k = batches@.len() as int;
            assert(k * max_at_once == start);
            assert((k + 1) * max_at_once == start + max_at_once) by (nonlinear_arith)
                requires
                    k * max_at_once == start,
            ;
            assert(server_views(batch@) == batch_of(server_views(pool@), max_at_once as nat, k));
        }
        batches.push(batch);
        start = end;
    }
    proof {
        lemma_batch_count(total as nat, max_at_once as nat, batches@.len());
    }
    batches
}

} // verus!
