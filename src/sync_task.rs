//! The decisions of the periodic sync task. The task is `Idle` until it is
//! spawned, then `Running`, syncing once on every tick of its timer; a stop
//! request moves it to `Stopping`, where it performs no further sync, and
//! its exit to `Stopped`. The timer, the cancellation channel and the join
//! are driven by whoever runs the task; this module says what the task does
//! on each signal.
use vstd::prelude::*;

verus! {

/// The phase of a periodic sync task.
#[derive(Debug, Clone, Copy, PartialEq, Eq, Structural)]
pub enum SyncPhase {
    /// No task has been spawned.
    Idle,
    /// The task runs and syncs on every tick.
    Running,
    /// Cancellation was requested; the task is leaving its loop.
    Stopping,
    /// The task has exited.
    Stopped,
}

/// What happens to a periodic sync task.
#[derive(Debug, Clone, Copy, PartialEq, Eq, Structural)]
pub enum SyncSignal {
    /// The task is spawned.
    Spawn,
    /// The timer ticked.
    Tick,
    /// Cancellation was requested.
    Cancel,
    /// The task's loop has returned.
    Exited,
}

/// What the task is to do in answer to a signal.
#[derive(Debug, Clone, Copy, PartialEq, Eq, Structural)]
pub enum SyncAction {
    /// Start the timer and the loop.
    Start,
    /// Sync the calendar once.
    Sync,
    /// Leave the loop without a further sync.
    Exit,
    /// Nothing.
    Ignore,
}

/// The next phase and the action for `signal` in `phase`.
pub open spec fn transition(phase: SyncPhase, signal: SyncSignal) -> (SyncPhase, SyncAction) {
    match (phase, signal) {
        (SyncPhase::Idle, SyncSignal::Spawn) => (SyncPhase::Running, SyncAction::Start),
        (SyncPhase::Running, SyncSignal::Tick) => (SyncPhase::Running, SyncAction::Sync),
        (SyncPhase::Running, SyncSignal::Cancel) => (SyncPhase::Stopping, SyncAction::Exit),
        (SyncPhase::Stopping, SyncSignal::Exited) => (SyncPhase::Stopped, SyncAction::Ignore),
        (p, _) => (p, SyncAction::Ignore),
    }
}

/// The phase after `signals` in turn, starting from `phase`.
pub open spec fn phase_after(phase: SyncPhase, signals: Seq<SyncSignal>) -> SyncPhase
    decreases signals.len(),
{
    if signals.len() == 0 {
        phase
    } else {
        transition(phase_after(phase, signals.drop_last()), signals.last()).0
    }
}

/// The number of syncs performed while `signals` arrive in turn, starting
/// from `phase`.
pub open spec fn syncs_after(phase: SyncPhase, signals: Seq<SyncSignal>) -> nat
    decreases signals.len(),
{
    if signals.len() == 0 {
        0
    } else {
        let before = syncs_after(phase, signals.drop_last());
        if transition(phase_after(phase, signals.drop_last()), signals.last()).1
            == SyncAction::Sync {
            before + 1
        } else {
            before
        }
    }
}

/// A periodic sync task: its period and its phase.
pub struct SyncTask {
    period_millis: u64,
    phase: SyncPhase,
}

impl SyncTask {
    /// A task with the given period, not yet spawned.
    pub fn new(period_millis: u64) -> (r: SyncTask)
        ensures
            r.phase() == SyncPhase::Idle,
            r.period() == period_millis,
    {
        SyncTask { period_millis, phase: SyncPhase::Idle }
    }

    /// The phase of the task.
    pub closed spec fn phase(&self) -> SyncPhase {
        self.phase
    }

    /// The period of the task, in milliseconds.
    pub closed spec fn period(&self) -> u64 {
        self.period_millis
    }

    /// The current phase.
    pub fn current_phase(&self) -> (r: SyncPhase)
        ensures
            r == self.phase(),
    {
        self.phase
    }

    /// The period between ticks, in milliseconds.
    pub fn period_millis(&self) -> (r: u64)
        ensures
            r == self.period(),
    {
        self.period_millis
    }

    /// Moves the task on by `signal` and says what to do.
    pub fn step(&mut self, signal: SyncSignal) -> (r: SyncAction)
        ensures
            (final(self).phase(), r) == transition(old(self).phase(), signal),
            final(self).period() == old(self).period(),
    {
        let (next, action) = match (self.phase, signal) {
            (SyncPhase::Idle, SyncSignal::Spawn) => (SyncPhase::Running, SyncAction::Start),
            (SyncPhase::Running, SyncSignal::Tick) => (SyncPhase::Running, SyncAction::Sync),
            (SyncPhase::Running, SyncSignal::Cancel) => (SyncPhase::Stopping, SyncAction::Exit),
            (SyncPhase::Stopping, SyncSignal::Exited) => (SyncPhase::Stopped, SyncAction::Ignore),
            (p, _) => (p, SyncAction::Ignore),
        };
        self.phase = next;
        action
    }
}

/// A running task syncs once on every tick: `n` ticks give `n` syncs, and
/// the task keeps running.
pub proof fn lemma_every_tick_syncs(n: nat)
    ensures
        phase_after(SyncPhase::Running, Seq::new(n, |i: int| SyncSignal::Tick))
            == SyncPhase::Running,
        syncs_after(SyncPhase::Running, Seq::new(n, |i: int| SyncSignal::Tick)) == n,
    decreases n,
{
    if n > 0 {
        let s = Seq::new(n, |i: int| SyncSignal::Tick);
        assert(s.drop_last() =~= Seq::new((n - 1) as nat, |i: int| SyncSignal::Tick));
        lemma_every_tick_syncs((n - 1) as nat);
    }
}

/// Once stopping has begun, whatever happens, the task never syncs again and
/// never runs again.
pub proof fn lemma_no_sync_after_stop(phase: SyncPhase, signals: Seq<SyncSignal>)
    requires
        phase == SyncPhase::Stopping || phase == SyncPhase::Stopped,
    ensures
        syncs_after(phase, signals) == 0,
        phase_after(phase, signals) == SyncPhase::Stopping || phase_after(phase, signals)
            == SyncPhase::Stopped,
    decreases signals.len(),
{
    if signals.len() > 0 {
        lemma_no_sync_after_stop(phase, signals.drop_last());
    }
}

} // verus!
