//! The published estimate and the state that holds the latest one.

use vstd::prelude::*;
use vstd::string::*;
use crate::text::{append_signed_decimal, signed_decimal};
use crate::aggregate::{aggregate, aggregate_of, measurement_views, Measurement};

verus! {

/// The offset of true UTC from the local wall clock, with its uncertainty.
/// Both are in microseconds.
#[derive(Debug, Clone, Copy, PartialEq, Eq, Structural)]
pub struct WorldTimer {
    pub offset: i64,
    pub precision: Option<i64>,
}

impl WorldTimer {
    /// A precision, where there is one, is not negative.
    pub open spec fn well_formed(&self) -> bool {
        self.precision matches Some(p) ==> p >= 0
    }

    /// The estimate of a cycle in which no server answered.
    pub open spec fn unsynchronized() -> WorldTimer {
        WorldTimer { offset: 0, precision: None }
    }

    /// Whether the precision, where there is one, is not negative.
    pub fn is_well_formed(&self) -> (ok: bool)
        ensures
            ok == self.well_formed(),
    {
        match self.precision {
            Some(p) => p >= 0,
            None => true,
        }
    }
}

impl Default for WorldTimer {
    /// The estimate of a clock not yet synchronized.
    fn default() -> (timer: WorldTimer)
        ensures
            timer == WorldTimer::unsynchronized(),
    {
        WorldTimer { offset: 0, precision: None }
    }
}

/// The state of the process: the estimate committed last.
///
/// It is made once and handed by reference to whoever reads or commits. A
/// commit needs the state for itself, so commits come one after another and
/// no reader sees an estimate replaced in part; a caller that shares the
/// state between threads keeps it behind a lock and holds that lock for one
/// read or one commit at a time.
pub struct WorldTimerWrapper {
    world_timer: WorldTimer,
}

impl View for WorldTimerWrapper {
    type V = WorldTimer;

    /// The estimate committed last; that of a clock not yet synchronized
    /// before the first commit.
    closed spec fn view(&self) -> WorldTimer {
        self.world_timer
    }
}

impl WorldTimerWrapper {
    /// The state never holds an estimate that is not well-formed.
    #[verifier::type_invariant]
    spec fn holds_well_formed(&self) -> bool {
        self.world_timer.well_formed()
    }

    /// A state that holds the estimate of a clock not yet synchronized.
    pub fn new() -> (wrapper: WorldTimerWrapper)
        ensures
            wrapper@ == WorldTimer::unsynchronized(),
    {
        WorldTimerWrapper { world_timer: WorldTimer { offset: 0, precision: None } }
    }

    /// A copy of the estimate committed last. Offset and precision are those
    /// of one commit, never of two.
    pub fn current(&self) -> (timer: WorldTimer)
        ensures
            timer == self@,
            timer.well_formed(),
    {
        proof {
            use_type_invariant(self);
        }
        self.world_timer
    }

    /// Replaces the estimate as a whole.
    pub fn commit(&mut self, timer: WorldTimer)
        requires
            timer.well_formed(),
        ensures
            final(self)@ == timer,
    {
        self.world_timer = timer;
    }
}

/// The estimate committed last to `state`.
pub fn world_time(state: &WorldTimerWrapper) -> (timer: WorldTimer)
    ensures
        timer == state@,
        timer.well_formed(),
{
    state.current()
}

/// Ends a cycle: reduces its measurements to the estimate, commits that to
/// `state` and returns it. `standard_error` is the standard error of the
/// weighted estimator over `measurements`, in whole microseconds.
pub fn init_world_time(
    state: &mut WorldTimerWrapper,
    measurements: &Vec<Measurement>,
    standard_error: u64,
) -> (timer: WorldTimer)
    ensures
        timer == aggregate_of(measurement_views(measurements@), standard_error),
        timer.well_formed(),
        final(state)@ == timer,
{
    let timer = aggregate(measurements, standard_error);
    state.commit(timer);
    timer
}

/// The line that reports `timer` to other programs: the time stamp, the
/// offset and the precision with commas between them. There is none for an
/// estimate without precision.
pub open spec fn output_line_of(timer: WorldTimer, stamp: Seq<char>) -> Option<Seq<char>> {
    match timer.precision {
        Some(precision) => Some(
            stamp + seq![','] + signed_decimal(timer.offset as int) + seq![','] + signed_decimal(
                precision as int,
            ),
        ),
        None => None,
    }
}

/// The line of machine-readable output for `timer`, `stamp` being the
/// corrected time as text: `<stamp>,<offset>,<precision>`, both numbers in
/// microseconds. An estimate without precision gives no line.
pub fn output_line(timer: &WorldTimer, stamp: &str) -> (line: Option<String>)
    ensures
        line is None <==> timer.precision is None,
        match line {
            Some(text) => Some(text@) == output_line_of(*timer, stamp@),
            None => output_line_of(*timer, stamp@) is None,
        },
{
    match timer.precision {
        None => None,
        Some(precision) => {
            proof {
                reveal_strlit(",");
                assert(","@ =~= seq![',']);
            }
            let mut text = stamp.to_owned();
            text.append(",");
            append_signed_decimal(&mut text, timer.offset);
            text.append(",");
            append_signed_decimal(&mut text, precision);
            Some(text)
        },
    }
}

} // verus!
