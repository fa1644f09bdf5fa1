//! The frame scheduler: one frame updates every module in order, lets the
//! modules check their sources every so many frames, gathers the timings, and
//! computes how long to sleep to fill the frame budget.

use vstd::prelude::*;
use crate::clock::{span_between, Micros, Timestamp};
use crate::host::{checked_through, threaded, ModuleHost};
use crate::module::Module;

verus! {

/// The frame budget that gives 60 frames per second, in microseconds.
pub const DEFAULT_FRAME_BUDGET: Micros = 16000;

/// How many frames lie between two checks of the module sources.
pub const DEFAULT_RELOAD_INTERVAL: u64 = 30;

/// How many frames lie between two timing reports.
pub const DEFAULT_REPORT_INTERVAL: u64 = 300;

/// The timings of one frame: what each module reported, in registration
/// order, and their sum.
pub struct FrameStats {
    /// The time each module's update reported.
    pub durations: Vec<Micros>,
    /// The sum of the durations.
    pub total: i128,
}

/// What one frame did and what is left to do after it.
pub struct FrameOutcome {
    /// The time since the start of the frame before, which every module was
    /// handed.
    pub elapsed: Micros,
    /// The timings of this frame.
    pub stats: FrameStats,
    /// On a frame where the modules checked their sources: how many of them
    /// swapped in a fresh implementation.
    pub reloads: Option<usize>,
    /// On a frame where a timing report is due: the names of the modules, in
    /// the order of the durations.
    pub report: Option<Vec<String>>,
    /// How long to sleep before the next frame, in microseconds.
    pub sleep: u128,
}

/// The sum of a sequence of durations.
pub open spec fn total_of(durations: Seq<Micros>) -> int
    decreases durations.len(),
{
    if durations.len() == 0 {
        0
    } else {
        total_of(durations.drop_last()) + durations.last()
    }
}

/// What is left of the budget once `total` is spent: nothing if the budget is
/// used up or overrun.
pub open spec fn remaining(budget: int, total: int) -> int {
    if total < budget {
        budget - total
    } else {
        0
    }
}

/// The phase of the frame after one at `phase`, in a cycle of `every` frames.
pub open spec fn next_phase(phase: u64, every: u64) -> u64 {
    if phase + 1 >= every {
        0
    } else {
        (phase + 1) as u64
    }
}

/// The phase of the frame that comes `frames` frames after one at phase 0.
pub open spec fn phase_after(every: u64, frames: nat) -> u64
    decreases frames,
{
    if frames == 0 {
        0
    } else {
        next_phase(phase_after(every, (frames - 1) as nat), every)
    }
}

/// The sum of `n` durations lies within `n` times the range of one.
pub proof fn lemma_total_bound(durations: Seq<Micros>)
    ensures
        -(durations.len() * 0x8000_0000_0000_0000) <= total_of(durations) <= durations.len()
            * 0x7fff_ffff_ffff_ffff,
    decreases durations.len(),
{
    if durations.len() > 0 {
        lemma_total_bound(durations.drop_last());
    }
}

/// The frame budget: while the modules take less than the budget, the sleep is
/// what is left of it; once they take the budget or more, the sleep is zero.
/// It is never negative.
pub proof fn lemma_sleep_fills_budget(budget: int, total: int)
    ensures
        total < budget ==> remaining(budget, total) == budget - total,
        total >= budget ==> remaining(budget, total) == 0,
        remaining(budget, total) >= 0,
{
}

/// The cadence: counted from a frame on which something is due, it is due on
/// every `every`-th frame and on no other.
pub proof fn lemma_due_every(every: u64, frames: nat)
    requires
        every > 0,
    ensures
        phase_after(every, frames) == frames % (every as nat),
        phase_after(every, frames) == 0 <==> frames % (every as nat) == 0,
    decreases frames,
{
    if frames > 0 {
        lemma_due_every(every, (frames - 1) as nat);
        let before = (frames - 1) as nat;
        let e = every as nat;
        assert(frames % e == if before % e + 1 >= e {
            0
        } else {
            before % e + 1
        }) by (nonlinear_arith)
            requires
                e > 0,
                frames == before + 1,
        ;
    }
}

/// Adds up the durations of a frame.
pub fn sum_durations(durations: &Vec<Micros>) -> (total: i128)
    ensures
        total == total_of(durations@),
{
    let mut total: i128 = 0;
    let mut i: usize = 0;
    while i < durations.len()
        invariant
            i <= durations@.len(),
            total == total_of(durations@.take(i as int)),
        decreases durations@.len() - i,
    {
        proof {
            lemma_total_bound(durations@.take(i as int));
            assert(durations@.take(i + 1).drop_last() =~= durations@.take(i as int));
        }
        total = total + durations[i] as i128;
        i += 1;
    }
    proof {
        assert(durations@.take(durations@.len() as int) =~= durations@);
    }
    total
}

/// How long to sleep so that a frame whose modules took `total` fills the
/// budget: what is left of the budget, and nothing if none is left.
pub fn sleep_for(budget: Micros, total: i128) -> (sleep: u128)
    ensures
        sleep == remaining(budget as int, total as int),
{
    if total >= budget as i128 {
        0
    } else if total >= 0 {
        (budget as i128 - total) as u128
    } else {
        let overdrawn: u128 = (-(total + 1)) as u128 + 1;
        if budget >= 0 {
            budget as u128 + overdrawn
        } else {
            overdrawn - ((-(budget + 1)) as u128 + 1)
        }
    }
}

/// What a frame does to the modules and the shared state: the modules are
/// updated in order on the state as it was, and report `durations`; then, on a
/// frame with source checks only, they are checked in order, and `reloads`
/// says how many of them swapped in a fresh implementation.
pub open spec fn frame_effect<M: Module>(
    modules: Seq<M>,
    before: M::State,
    elapsed: Micros,
    durations: Seq<Micros>,
    checks: bool,
    reloads: Option<usize>,
    modules_after: Seq<M>,
    after: M::State,
) -> bool {
    exists|mid: M::State|
        {
            &&& #[trigger] threaded(modules, before, elapsed, durations, mid)
            &&& if checks {
                &&& reloads matches Some(applied)
                &&& checked_through(modules, mid, modules_after, after, applied as nat)
            } else {
                &&& reloads is None
                &&& after == mid
                &&& modules_after == modules
            }
        }
}

/// The scheduler of the frame loop.
pub struct FrameScheduler {
    frame_budget: Micros,
    reload_every: u64,
    report_every: u64,
    reload_phase: u64,
    report_phase: u64,
    last_start: Timestamp,
}

impl FrameScheduler {
    /// The time that one frame is meant to take.
    pub closed spec fn frame_budget(&self) -> Micros {
        self.frame_budget
    }

    /// The modules check their sources on every frame out of this many.
    pub closed spec fn reload_every(&self) -> u64 {
        self.reload_every
    }

    /// A timing report is made on every frame out of this many.
    pub closed spec fn report_every(&self) -> u64 {
        self.report_every
    }

    /// How many frames have run since the modules last checked their sources,
    /// that frame included; 0 before the first frame and whenever the next
    /// frame is one on which they check.
    pub closed spec fn reload_phase(&self) -> u64 {
        self.reload_phase
    }

    /// The same count for the timing report.
    pub closed spec fn report_phase(&self) -> u64 {
        self.report_phase
    }

    /// When the frame before started; before the first frame, when the
    /// scheduler was made.
    pub closed spec fn last_start(&self) -> Timestamp {
        self.last_start
    }

    /// The intervals are at least one frame and the phases lie within them.
    #[verifier::type_invariant]
    pub closed spec fn inv(&self) -> bool {
        &&& self.reload_phase < self.reload_every
        &&& self.report_phase < self.report_every
    }

    /// A scheduler with the given budget and intervals, made at time `now`.
    /// The first frame is one on which the modules check their sources and a
    /// timing report is made. An interval of no frames is refused.
    pub fn new(frame_budget: Micros, reload_every: u64, report_every: u64, now: Timestamp) -> (res:
        Option<Self>)
        ensures
            res is Some <==> reload_every > 0 && report_every > 0,
            res matches Some(scheduler) ==> {
                &&& scheduler.frame_budget() == frame_budget
                &&& scheduler.reload_every() == reload_every
                &&& scheduler.report_every() == report_every
                &&& scheduler.reload_phase() == 0
                &&& scheduler.report_phase() == 0
                &&& scheduler.last_start() == now
            },
    {
        if reload_every == 0 || report_every == 0 {
            None
        } else {
            Some(
                FrameScheduler {
                    frame_budget,
                    reload_every,
                    report_every,
                    reload_phase: 0,
                    report_phase: 0,
                    last_start: now,
                },
            )
        }
    }

    /// A scheduler for 60 frames per second that has the modules check their
    /// sources every 30 frames and reports the timings every 300 frames.
    pub fn with_defaults(now: Timestamp) -> (scheduler: Self)
        ensures
            scheduler.frame_budget() == DEFAULT_FRAME_BUDGET,
            scheduler.reload_every() == DEFAULT_RELOAD_INTERVAL,
            scheduler.report_every() == DEFAULT_REPORT_INTERVAL,
            scheduler.reload_phase() == 0,
            scheduler.report_phase() == 0,
            scheduler.last_start() == now,
    {
        FrameScheduler {
            frame_budget: DEFAULT_FRAME_BUDGET,
            reload_every: DEFAULT_RELOAD_INTERVAL,
            report_every: DEFAULT_REPORT_INTERVAL,
            reload_phase: 0,
            report_phase: 0,
            last_start: now,
        }
    }

    /// Whether the next frame is one on which the modules check their sources.
    pub fn reload_due(&self) -> (due: bool)
        ensures
            due == (self.reload_phase() == 0),
    {
        self.reload_phase == 0
    }

    /// Whether the next frame is one on which a timing report is made.
    pub fn report_due(&self) -> (due: bool)
        ensures
            due == (self.report_phase() == 0),
    {
        self.report_phase == 0
    }

    /// A frame that starts at `now` may take the scheduler to `after`, the
    /// modules to `modules_after` and the shared state to `state_after`, and
    /// end in `outcome`:
    ///
    /// - the modules are handed the time since the start of the frame before
    ///   and updated in registration order;
    /// - if the modules are due to check their sources, they do, in the same
    ///   order;
    /// - if a timing report is due, the names of the modules are gathered;
    /// - the sleep is what the reported durations leave of the frame budget.
    pub open spec fn ran<M: Module>(
        &self,
        now: Timestamp,
        modules: Seq<M>,
        state: M::State,
        after: &Self,
        modules_after: Seq<M>,
        state_after: M::State,
        outcome: FrameOutcome,
    ) -> bool {
        &&& after.frame_budget() == self.frame_budget()
        &&& after.reload_every() == self.reload_every()
        &&& after.report_every() == self.report_every()
        &&& after.reload_phase() == next_phase(self.reload_phase(), self.reload_every())
        &&& after.report_phase() == next_phase(self.report_phase(), self.report_every())
        &&& after.last_start() == now
        &&& outcome.elapsed == span_between(self.last_start(), now)
        &&& frame_effect(
            modules,
            state,
            outcome.elapsed,
            outcome.stats.durations@,
            self.reload_phase() == 0,
            outcome.reloads,
            modules_after,
            state_after,
        )
        &&& modules_after.len() == modules.len()
        &&& outcome.stats.durations@.len() == modules.len()
        &&& outcome.stats.total == total_of(outcome.stats.durations@)
        &&& outcome.reloads matches Some(applied) ==> applied <= modules.len()
        &&& outcome.report is Some <==> self.report_phase() == 0
        &&& outcome.report matches Some(names) ==> {
            &&& names@.len() == modules.len()
            &&& forall|i: int|
                0 <= i < names@.len() ==> modules_after[i].named(#[trigger] names@[i]@)
        }
        &&& outcome.sleep == remaining(self.frame_budget() as int, outcome.stats.total as int)
    }

    /// Runs one frame that starts at `now`.
    pub fn run_frame<M: Module>(
        &mut self,
        host: &mut ModuleHost<M>,
        state: &mut M::State,
        now: Timestamp,
    ) -> (outcome: FrameOutcome)
        ensures
            old(self).ran(
                now,
                old(host)@,
                *old(state),
                final(self),
                final(host)@,
                *final(state),
                outcome,
            ),
    {
        proof {
            use_type_invariant(&*self);
        }
        let elapsed = self.last_start.micros_until(&now);
        self.last_start = now;

        let durations = host.update_all(state, elapsed);
        let ghost mid = *state;
        let total = sum_durations(&durations);
        let reloads = if self.reload_phase == 0 {
            Some(host.check_updates(state))
        } else {
            None
        };
        self.reload_phase = if self.reload_phase + 1 >= self.reload_every {
            0
        } else {
            self.reload_phase + 1
        };

        let report = if self.report_phase == 0 {
            Some(host.names())
        } else {
            None
        };
        self.report_phase = if self.report_phase + 1 >= self.report_every {
            0
        } else {
            self.report_phase + 1
        };

        let sleep = sleep_for(self.frame_budget, total);
        proof {
            assert(threaded(old(host)@, *old(state), elapsed, durations@, mid));
        }
        FrameOutcome { elapsed, stats: FrameStats { durations, total }, reloads, report, sleep }
    }

    /// Runs one frame that starts now, by the wall clock.
    pub fn tick<M: Module>(&mut self, host: &mut ModuleHost<M>, state: &mut M::State) -> (outcome:
        FrameOutcome)
        ensures
            old(self).ran(
                final(self).last_start(),
                old(host)@,
                *old(state),
                final(self),
                final(host)@,
                *final(state),
                outcome,
            ),
    {
        let now = Timestamp::now();
        self.run_frame(host, state, now)
    }
}

} // verus!
