//! Reduction of the measurements of one cycle to the published estimate.

use vstd::prelude::*;
use vstd::seq_lib::*;
use crate::servers::{ServerInfo, ServerInfoView};
use crate::world_time::WorldTimer;

verus! {

/// Divisor applied to the standard error of the weighted estimator.
pub const ROUNDTRIP_TO_ERROR_MULTIPLIER: u64 = 5;

/// Systematic error, in microseconds, added to every precision.
pub const ADDITIONAL_SYSTEMATIC_ERROR: i64 = 200;

/// What one server answered: the offset of its clock from the local one and
/// the time the exchange took, both in microseconds.
#[derive(Debug)]
pub struct Measurement {
    pub server_info: ServerInfo,
    pub offset: i64,
    pub roundtrip: u64,
}

/// The mathematical value of a [`Measurement`].
pub struct MeasurementView {
    pub server_info: ServerInfoView,
    pub offset: int,
    pub roundtrip: nat,
}

impl View for Measurement {
    type V = MeasurementView;

    open spec fn view(&self) -> MeasurementView {
        MeasurementView {
            server_info: self.server_info@,
            offset: self.offset as int,
            roundtrip: self.roundtrip as nat,
        }
    }
}

impl Clone for Measurement {
    fn clone(&self) -> (copy: Self)
        ensures
            copy@ == self@,
    {
        Measurement {
            server_info: self.server_info.clone(),
            offset: self.offset,
            roundtrip: self.roundtrip,
        }
    }
}

/// The values of a list of measurements.
pub open spec fn measurement_views(ms: Seq<Measurement>) -> Seq<MeasurementView> {
    ms.map_values(|m: Measurement| m@)
}

/// The sum of the offsets of `ms`.
pub open spec fn sum_offsets(ms: Seq<MeasurementView>) -> int
    decreases ms.len(),
{
    if ms.len() == 0 {
        0
    } else {
        sum_offsets(ms.drop_last()) + ms.last().offset
    }
}

/// `a / b` rounded toward zero, for a positive `b`.
pub open spec fn quotient_toward_zero(a: int, b: int) -> int {
    if a >= 0 {
        a / b
    } else {
        -((-a) / b)
    }
}

/// The arithmetic mean of the offsets of `ms`, rounded toward zero.
pub open spec fn mean_offset(ms: Seq<MeasurementView>) -> int {
    quotient_toward_zero(sum_offsets(ms), ms.len() as int)
}

/// The precision that belongs to a standard error of `standard_error`
/// microseconds.
pub open spec fn precision_of(standard_error: u64) -> int {
    standard_error as int / ROUNDTRIP_TO_ERROR_MULTIPLIER as int + ADDITIONAL_SYSTEMATIC_ERROR as int
}

/// The estimate that `ms` and the standard error of their weighted estimator
/// give: nothing without measurements, else the mean offset and the precision.
pub open spec fn aggregate_of(ms: Seq<MeasurementView>, standard_error: u64) -> WorldTimer {
    if ms.len() == 0 {
        WorldTimer::unsynchronized()
    } else {
        WorldTimer {
            offset: mean_offset(ms) as i64,
            precision: Some(precision_of(standard_error) as i64),
        }
    }
}

/// Every offset is one that a measurement can hold.
pub open spec fn offsets_in_range(ms: Seq<MeasurementView>) -> bool {
    forall|i: int| 0 <= i < ms.len() ==> i64::MIN <= (#[trigger] ms[i]).offset <= i64::MAX
}

/// The sum of `n` offsets lies within `n` times the range of one offset.
pub proof fn lemma_sum_offsets_bounds(ms: Seq<MeasurementView>)
    requires
        offsets_in_range(ms),
    ensures
        ms.len() * i64::MIN <= sum_offsets(ms) <= ms.len() * i64::MAX,
    decreases ms.len(),
{
    if ms.len() > 0 {
        assert forall|i: int| 0 <= i < ms.drop_last().len() implies i64::MIN <= (
        #[trigger] ms.drop_last()[i]).offset <= i64::MAX by {
            assert(ms.drop_last()[i] == ms[i]);
        }
        lemma_sum_offsets_bounds(ms.drop_last());
        assert(i64::MIN <= ms[ms.len() - 1].offset <= i64::MAX);
        assert(ms.len() * i64::MIN == (ms.len() - 1) * i64::MIN + i64::MIN) by (nonlinear_arith);
        assert(ms.len() * i64::MAX == (ms.len() - 1) * i64::MAX + i64::MAX) by (nonlinear_arith);
    }
}

/// The mean of a non-empty list of offsets lies in the range of one offset.
pub proof fn lemma_mean_offset_bounds(ms: Seq<MeasurementView>)
    requires
        ms.len() > 0,
        offsets_in_range(ms),
    ensures
        i64::MIN <= mean_offset(ms) <= i64::MAX,
{
    lemma_sum_offsets_bounds(ms);
    let s = sum_offsets(ms);
    let n = ms.len() as int;
    if s >= 0 {
        assert(s / n <= i64::MAX && s / n >= 0) by (nonlinear_arith)
            requires
                0 <= s <= n * i64::MAX,
                n > 0,
        ;
    } else {
        assert(0 <= (-s) / n <= -i64::MIN) by (nonlinear_arith)
            requires
                0 <= -s <= n * (-i64::MIN),
                n > 0,
        ;
    }
}

/// Taking one measurement out of a list takes its offset out of the sum.
pub proof fn lemma_sum_offsets_remove(ms: Seq<MeasurementView>, i: int)
    requires
        0 <= i < ms.len(),
    ensures
        sum_offsets(ms) == sum_offsets(ms.remove(i)) + ms[i].offset,
    decreases ms.len(),
{
    if i == ms.len() - 1 {
        assert(ms.remove(i) == ms.drop_last());
    } else {
        lemma_sum_offsets_remove(ms.drop_last(), i);
        assert(ms.remove(i).drop_last() == ms.drop_last().remove(i));
        assert(ms.remove(i).last() == ms.last());
    }
}

/// The sum of the offsets does not depend on the order of the measurements.
pub proof fn lemma_sum_offsets_order_independent(a: Seq<MeasurementView>, b: Seq<MeasurementView>)
    requires
        a.to_multiset() == b.to_multiset(),
    ensures
        a.len() == b.len(),
        sum_offsets(a) == sum_offsets(b),
    decreases a.len(),
{
    a.to_multiset_ensures();
    b.to_multiset_ensures();
    if a.len() > 0 {
        let last = a.last();
        let rest = a.drop_last();
        assert(a.contains(last));
        assert(b.to_multiset().count(last) > 0);
        assert(b.contains(last));
        let j = choose|j: int| 0 <= j < b.len() && b[j] == last;
        assert(a.remove(a.len() - 1) == rest);
        assert(rest.to_multiset() == b.remove(j).to_multiset());
        lemma_sum_offsets_order_independent(rest, b.remove(j));
        lemma_sum_offsets_remove(b, j);
    }
}

/// The published estimate does not depend on the order in which the
/// measurements arrived: two lists that hold the same measurements, each as
/// often as the other, give the same offset and the same precision.
pub proof fn lemma_aggregate_order_independent(
    a: Seq<MeasurementView>,
    b: Seq<MeasurementView>,
    standard_error: u64,
)
    requires
        a.to_multiset() == b.to_multiset(),
    ensures
        mean_offset(a) == mean_offset(b),
        aggregate_of(a, standard_error) == aggregate_of(b, standard_error),
{
    lemma_sum_offsets_order_independent(a, b);
}

/// Lists that hold the same measurements, each as often as the other, hold
/// the same values as often.
pub proof fn lemma_views_of_reordered(a: Seq<Measurement>, b: Seq<Measurement>)
    requires
        a.to_multiset() == b.to_multiset(),
    ensures
        measurement_views(a).to_multiset() == measurement_views(b).to_multiset(),
    decreases a.len(),
{
    a.to_multiset_ensures();
    b.to_multiset_ensures();
    if a.len() == 0 {
        assert(measurement_views(a) =~= measurement_views(b));
    } else {
        let last = a.last();
        let rest = a.drop_last();
        assert(a.contains(last));
        assert(b.to_multiset().count(last) > 0);
        assert(b.contains(last));
        let j = choose|j: int| 0 <= j < b.len() && b[j] == last;
        assert(a.remove(a.len() - 1) == rest);
        assert(rest.to_multiset() == b.remove(j).to_multiset());
        lemma_views_of_reordered(rest, b.remove(j));
        let va = measurement_views(a);
        let vb = measurement_views(b);
        assert(measurement_views(rest) =~= va.remove(a.len() - 1));
        assert(measurement_views(b.remove(j)) =~= vb.remove(j));
        to_multiset_remove(va, a.len() - 1);
        to_multiset_remove(vb, j);
        assert(va[a.len() - 1] == vb[j]);
        va.to_multiset_ensures();
        vb.to_multiset_ensures();
        assert(va.contains(va[a.len() - 1]));
        assert(vb.contains(vb[j]));
        assert(va.to_multiset() =~= va.to_multiset().remove(last@).insert(last@));
        assert(vb.to_multiset() =~= vb.to_multiset().remove(last@).insert(last@));
    }
}

/// The mean offset is the arithmetic mean of the offsets, cut to a whole
/// number toward zero: the count times the mean differs from the sum by
/// less than the count, and never lies farther from zero than the sum.
pub proof fn lemma_mean_offset_is_the_mean(ms: Seq<MeasurementView>)
    requires
        ms.len() > 0,
    ensures
        sum_offsets(ms) >= 0 ==> ms.len() * mean_offset(ms) <= sum_offsets(ms) < ms.len()
            * mean_offset(ms) + ms.len(),
        sum_offsets(ms) < 0 ==> ms.len() * mean_offset(ms) - ms.len() < sum_offsets(ms)
            <= ms.len() * mean_offset(ms),
        sum_offsets(ms) % (ms.len() as int) == 0 ==> ms.len() * mean_offset(ms) == sum_offsets(
            ms,
        ),
{
    let s = sum_offsets(ms);
    let n = ms.len() as int;
    if s >= 0 {
        assert(n * (s / n) <= s < n * (s / n) + n && (s % n == 0 ==> n * (s / n) == s))
            by (nonlinear_arith)
            requires
                n > 0,
                s >= 0,
        ;
    } else {
        let a = -s;
        assert(n * (a / n) <= a < n * (a / n) + n && (a % n == 0 ==> n * (a / n) == a))
            by (nonlinear_arith)
            requires
                n > 0,
                a > 0,
        ;
        assert(n * (-(a / n)) == -(n * (a / n))) by (nonlinear_arith);
        if s % n == 0 {
            vstd::arithmetic::div_mod::lemma_fundamental_div_mod(s, n);
            vstd::arithmetic::div_mod::lemma_mod_multiples_basic(-(s / n), n);
            assert(a == (-(s / n)) * n) by (nonlinear_arith)
                requires
                    s == n * (s / n),
                    a == -s,
            ;
        }
    }
}

/// The sum of the offsets of `measurements`.
pub fn sum_of_offsets(measurements: &Vec<Measurement>) -> (sum: i128)
    ensures
        sum == sum_offsets(measurement_views(measurements@)),
{
    let ghost views = measurement_views(measurements@);
    let mut sum: i128 = 0;
    let mut i: usize = 0;
    while i < measurements.len()
        invariant
            i <= measurements.len(),
            views == measurement_views(measurements@),
            sum == sum_offsets(views.take(i as int)),
        decreases measurements.len() - i,
    {
        proof {
            lemma_sum_offsets_bounds(views.take(i as int));
            assert(views.take(i + 1).drop_last() == views.take(i as int));
            assert(views.take(i + 1).last().offset == measurements@[i as int].offset);
            assert(i * i64::MIN >= usize::MAX * i64::MIN && i * i64::MAX <= usize::MAX * i64::MAX)
                by (nonlinear_arith)
                requires
                    0 <= i <= usize::MAX,
            ;
        }
        sum = sum + measurements[i].offset as i128;
        i = i + 1;
    }
    proof {
        assert(views.take(i as int) == views);
    }
    sum
}

/// The mean offset of `measurements`, rounded toward zero; `None` where there
/// is no measurement.
pub fn mean_of_offsets(measurements: &Vec<Measurement>) -> (mean: Option<i64>)
    ensures
        measurements@.len() == 0 <==> mean is None,
        mean matches Some(m) ==> m == mean_offset(measurement_views(measurements@)),
{
    let count = measurements.len();
    if count == 0 {
        return None;
    }
    let sum = sum_of_offsets(measurements);
    proof {
        lemma_sum_offsets_bounds(measurement_views(measurements@));
        lemma_mean_offset_bounds(measurement_views(measurements@));
    }
    let mean: i128 = if sum >= 0 {
        sum / (count as i128)
    } else {
        assert(count * i64::MIN >= usize::MAX * i64::MIN) by (nonlinear_arith)
            requires
                0 <= count <= usize::MAX,
        ;
        -((-sum) / (count as i128))
    };
    Some(mean as i64)
}

/// The precision, in microseconds, that belongs to a standard error of
/// `standard_error` microseconds.
pub fn precision_from_standard_error(standard_error: u64) -> (precision: i64)
    ensures
        precision == precision_of(standard_error),
        precision >= ADDITIONAL_SYSTEMATIC_ERROR,
{
    (standard_error / ROUNDTRIP_TO_ERROR_MULTIPLIER) as i64 + ADDITIONAL_SYSTEMATIC_ERROR
}

/// Reduces the measurements of a cycle to the estimate to publish.
/// `standard_error` is the standard error of the roundtrip-weighted estimator
/// over the same measurements, in whole microseconds; it is not read where
/// there is no measurement.
pub fn aggregate(measurements: &Vec<Measurement>, standard_error: u64) -> (timer: WorldTimer)
    ensures
        timer == aggregate_of(measurement_views(measurements@), standard_error),
        timer.well_formed(),
        measurements@.len() == 0 <==> timer.precision is None,
        measurements@.len() == 0 ==> timer.offset == 0,
        measurements@.len() > 0 ==> timer.offset == mean_offset(measurement_views(measurements@)),
        measurements@.len() > 0 ==> (timer.precision matches Some(precision) && precision
            == precision_of(standard_error)),
{
    proof {
        if measurements@.len() > 0 {
            lemma_mean_offset_bounds(measurement_views(measurements@));
        }
    }
    match mean_of_offsets(measurements) {
        None => WorldTimer { offset: 0, precision: None },
        Some(offset) => WorldTimer {
            offset,
            precision: Some(precision_from_standard_error(standard_error)),
        },
    }
}

/// The roundtrips of `ms` never fall from one measurement to the next.
pub open spec fn sorted_by_roundtrip(ms: Seq<Measurement>) -> bool {
    forall|i: int, j: int| 0 <= i <= j < ms.len() ==> ms[i].roundtrip <= ms[j].roundtrip
}

/// The test for a roundtrip of exactly `roundtrip`.
pub open spec fn has_roundtrip(roundtrip: u64) -> spec_fn(Measurement) -> bool {
    |m: Measurement| m.roundtrip == roundtrip
}

/// `after` holds the measurements of equal roundtrip in the order that
/// `before` held them in.
pub open spec fn same_order_among_equals(before: Seq<Measurement>, after: Seq<Measurement>)
    -> bool {
    forall|roundtrip: u64| #[trigger]
        after.filter(has_roundtrip(roundtrip)) == before.filter(has_roundtrip(roundtrip))
}

/// A list in which nothing passes a test has nothing left after it.
proof fn lemma_filter_nothing(ms: Seq<Measurement>, test: spec_fn(Measurement) -> bool)
    requires
        forall|i: int| 0 <= i < ms.len() ==> !test(ms[i]),
    ensures
        ms.filter(test) == Seq::<Measurement>::empty(),
    decreases ms.len(),
{
    reveal(Seq::filter);
    if ms.len() > 0 {
        lemma_filter_nothing(ms.drop_last(), test);
    }
}

/// Putting `m` into `ms` at `at` puts it, where it passes the test, between
/// what passes before `at` and what passes from `at` on.
proof fn lemma_filter_insert(
    ms: Seq<Measurement>,
    at: int,
    m: Measurement,
    test: spec_fn(Measurement) -> bool,
)
    requires
        0 <= at <= ms.len(),
    ensures
        ms.filter(test) == ms.take(at).filter(test) + ms.skip(at).filter(test),
        ms.insert(at, m).filter(test) == ms.take(at).filter(test) + (if test(m) {
            seq![m]
        } else {
            Seq::empty()
        }) + ms.skip(at).filter(test),
{
    reveal(Seq::filter);
    let front = ms.take(at);
    let back = ms.skip(at);
    assert(ms == front + back);
    Seq::filter_distributes_over_add(front, back, test);
    assert(ms.insert(at, m) == front.push(m) + back);
    Seq::filter_distributes_over_add(front.push(m), back, test);
    assert(front.push(m).drop_last() == front);
    assert(front.push(m).filter(test) =~= front.filter(test) + (if test(m) {
        seq![m]
    } else {
        Seq::empty()
    }));
}

/// Putting `next` into the sorted list `before`, behind everything of a
/// shorter roundtrip and in front of everything else, keeps the list
/// sorted. Where `before` holds what `suffix` holds, with equal roundtrips
/// in the same order, the new list does so for `suffix` with `next` in
/// front of it.
proof fn lemma_insert_in_order(
    before: Seq<Measurement>,
    at: int,
    next: Measurement,
    suffix: Seq<Measurement>,
)
    requires
        0 <= at <= before.len(),
        sorted_by_roundtrip(before),
        forall|k: int| 0 <= k < at ==> before[k].roundtrip < next.roundtrip,
        at < before.len() ==> before[at].roundtrip >= next.roundtrip,
        before.to_multiset() == suffix.to_multiset(),
        same_order_among_equals(suffix, before),
    ensures
        sorted_by_roundtrip(before.insert(at, next)),
        before.insert(at, next).to_multiset() == suffix.insert(0, next).to_multiset(),
        same_order_among_equals(suffix.insert(0, next), before.insert(at, next)),
{
    let after = before.insert(at, next);
    let grown = suffix.insert(0, next);
    before.insert_ensures(at, next);
    to_multiset_insert(before, at, next);
    to_multiset_insert(suffix, 0, next);
    assert forall|i: int, j: int| 0 <= i <= j < after.len() implies after[i].roundtrip
        <= after[j].roundtrip by {
        if i < at && j > at {
            assert(before[i].roundtrip < next.roundtrip);
            assert(before[at].roundtrip <= before[j - 1].roundtrip);
        } else if i == at && j > at {
            assert(before[at].roundtrip <= before[j - 1].roundtrip);
        }
    }
    assert forall|roundtrip: u64| #[trigger]
        after.filter(has_roundtrip(roundtrip)) == grown.filter(has_roundtrip(roundtrip)) by {
        let test = has_roundtrip(roundtrip);
        lemma_filter_insert(before, at, next, test);
        lemma_filter_insert(suffix, 0, next, test);
        lemma_filter_nothing(suffix.take(0), test);
        assert(suffix.skip(0) == suffix);
        assert(before.filter(test) == suffix.filter(test));
        if test(next) {
            lemma_filter_nothing(before.take(at), test);
            assert(after.filter(test) =~= seq![next] + before.skip(at).filter(test));
            assert(before.filter(test) =~= before.skip(at).filter(test));
            assert(grown.filter(test) =~= seq![next] + suffix.filter(test));
        } else {
            assert(after.filter(test) =~= before.filter(test));
            assert(grown.filter(test) =~= suffix.filter(test));
        }
    }
}

/// Sorts the measurements by ascending roundtrip. Measurements of equal
/// roundtrip keep the order they had.
pub fn sort_by_roundtrip(measurements: &mut Vec<Measurement>)
    ensures
        sorted_by_roundtrip(final(measurements)@),
        final(measurements)@.to_multiset() == old(measurements)@.to_multiset(),
        measurement_views(final(measurements)@).to_multiset() == measurement_views(
            old(measurements)@,
        ).to_multiset(),
        same_order_among_equals(old(measurements)@, final(measurements)@),
        final(measurements)@.len() == old(measurements)@.len(),
{
    let ghost unsorted = measurements@;
    let mut sorted: Vec<Measurement> = Vec::new();
    proof {
        assert(unsorted.skip(unsorted.len() as int) =~= Seq::empty());
        assert(sorted@ =~= unsorted.skip(unsorted.len() as int));
    }
    while measurements.len() > 0
        invariant
            measurements@ == unsorted.take(measurements@.len() as int),
            measurements@.len() <= unsorted.len(),
            sorted@.len() == unsorted.len() - measurements@.len(),
            sorted_by_roundtrip(sorted@),
            sorted@.to_multiset() == unsorted.skip(measurements@.len() as int).to_multiset(),
            same_order_among_equals(unsorted.skip(measurements@.len() as int), sorted@),
        decreases measurements@.len(),
    {
        let ghost n = measurements@.len() as int;
        let ghost suffix = unsorted.skip(n);
        let next = measurements.pop().unwrap();
        proof {
            assert(next == unsorted[n - 1]);
            assert(measurements@ =~= unsorted.take(n - 1));
        }
        let mut at: usize = 0;
        while at < sorted.len() && sorted[at].roundtrip < next.roundtrip
            invariant
                at <= sorted@.len(),
                forall|k: int| 0 <= k < at ==> sorted@[k].roundtrip < next.roundtrip,
            decreases sorted@.len() - at,
        {
            at = at + 1;
        }
        proof {
            lemma_insert_in_order(sorted@, at as int, next, suffix);
            assert(unsorted.skip(n - 1) =~= suffix.insert(0, next));
        }
        sorted.insert(at, next);
    }
    proof {
        assert(unsorted.skip(0) == unsorted);
        lemma_views_of_reordered(sorted@, unsorted);
    }
    *measurements = sorted;
}

} // verus!
