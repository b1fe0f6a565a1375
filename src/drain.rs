use vstd::prelude::*;

verus! {

/// Stage of the bounded shutdown drain.
#[derive(PartialEq, Eq, Structural, Clone, Copy, Debug)]
pub enum DrainState {
    /// Waiting, bounded by the wait timeout, for offline work to finish.
    Draining,
    /// Force-quit was broadcast; waiting, bounded by the quit timeout.
    ForceQuitting,
    Done,
}

/// What the driver observed since the last step.
#[derive(PartialEq, Eq, Structural, Clone, Copy, Debug)]
pub enum DrainEvent {
    /// A poll of the offline instances; `true` while some has work in flight.
    Polled(bool),
    /// The timeout of the current stage elapsed.
    TimedOut,
}

/// What the driver does next.
#[derive(PartialEq, Eq, Structural, Clone, Copy, Debug)]
pub enum DrainAction {
    /// Sleep for the poll interval, then poll again.
    PollLater,
    /// All work finished: sleep for the settle duration, then return.
    Settle,
    /// Switch every offline instance's quit policy to forced.
    ForceQuit,
    /// Report each offline instance still pending, then return.
    ReportPending,
    /// Nothing is left to do.
    Idle,
}

/// Seconds between two polls of the offline instances.
pub const POLL_INTERVAL_SECS: u64 = 4;

/// Seconds between two runs of the offline reaper.
pub const REAP_INTERVAL_SECS: u64 = 60;

pub open spec fn drain_spec(s: DrainState, e: DrainEvent) -> (DrainState, DrainAction) {
    match s {
        DrainState::Done => (DrainState::Done, DrainAction::Idle),
        DrainState::Draining => match e {
            DrainEvent::Polled(false) => (DrainState::Done, DrainAction::Settle),
            DrainEvent::Polled(true) => (DrainState::Draining, DrainAction::PollLater),
            DrainEvent::TimedOut => (DrainState::ForceQuitting, DrainAction::ForceQuit),
        },
        DrainState::ForceQuitting => match e {
            DrainEvent::Polled(false) => (DrainState::Done, DrainAction::Settle),
            DrainEvent::Polled(true) => (DrainState::ForceQuitting, DrainAction::PollLater),
            DrainEvent::TimedOut => (DrainState::Done, DrainAction::ReportPending),
        },
    }
}

/// The states and actions of a drain that starts in `s` and sees `evs`.
pub open spec fn drain_run(s: DrainState, evs: Seq<DrainEvent>) -> (DrainState, Seq<DrainAction>)
    decreases evs.len(),
{
    if evs.len() == 0 {
        (s, Seq::empty())
    } else {
        let (s1, a) = drain_spec(s, evs[0]);
        let (sn, rest) = drain_run(s1, evs.drop_first());
        (sn, seq![a] + rest)
    }
}

pub open spec fn count_actions(acts: Seq<DrainAction>, a: DrainAction) -> nat
    decreases acts.len(),
{
    if acts.len() == 0 {
        0
    } else {
        (if acts[0] == a { 1nat } else { 0nat }) + count_actions(acts.drop_first(), a)
    }
}

pub open spec fn count_timeouts(evs: Seq<DrainEvent>) -> nat
    decreases evs.len(),
{
    if evs.len() == 0 {
        0
    } else {
        (if evs[0] == DrainEvent::TimedOut { 1nat } else { 0nat }) + count_timeouts(evs.drop_first())
    }
}

impl DrainState {
    /// One decision of the drain: the next state and what to do.
    pub fn step(self, e: DrainEvent) -> (r: (DrainState, DrainAction))
        ensures
            r == drain_spec(self, e),
    {
        match self {
            DrainState::Done => (DrainState::Done, DrainAction::Idle),
            DrainState::Draining => match e {
                DrainEvent::Polled(false) => (DrainState::Done, DrainAction::Settle),
                DrainEvent::Polled(true) => (DrainState::Draining, DrainAction::PollLater),
                DrainEvent::TimedOut => (DrainState::ForceQuitting, DrainAction::ForceQuit),
            },
            DrainState::ForceQuitting => match e {
                DrainEvent::Polled(false) => (DrainState::Done, DrainAction::Settle),
                DrainEvent::Polled(true) => (DrainState::ForceQuitting, DrainAction::PollLater),
                DrainEvent::TimedOut => (DrainState::Done, DrainAction::ReportPending),
            },
        }
    }
}

proof fn lemma_run_front(s: DrainState, evs: Seq<DrainEvent>)
    requires
        evs.len() > 0,
    ensures
        drain_run(s, evs).1[0] == drain_spec(s, evs[0]).1,
        drain_run(s, evs).1.drop_first() == drain_run(drain_spec(s, evs[0]).0, evs.drop_first()).1,
        drain_run(s, evs).1.len() == evs.len(),
    decreases evs.len(),
{
    let (s1, a) = drain_spec(s, evs[0]);
    let rest = drain_run(s1, evs.drop_first()).1;
    assert((seq![a] + rest).drop_first() =~= rest);
    lemma_run_len(s1, evs.drop_first());
}

proof fn lemma_run_len(s: DrainState, evs: Seq<DrainEvent>)
    ensures
        drain_run(s, evs).1.len() == evs.len(),
    decreases evs.len(),
{
    if evs.len() > 0 {
        lemma_run_len(drain_spec(s, evs[0]).0, evs.drop_first());
    }
}

/// A finished drain does nothing more.
proof fn lemma_done_idle(evs: Seq<DrainEvent>)
    ensures
        drain_run(DrainState::Done, evs).0 == DrainState::Done,
        count_actions(drain_run(DrainState::Done, evs).1, DrainAction::ForceQuit) == 0,
        count_actions(drain_run(DrainState::Done, evs).1, DrainAction::ReportPending) == 0,
    decreases evs.len(),
{
    if evs.len() > 0 {
        lemma_run_front(DrainState::Done, evs);
        lemma_done_idle(evs.drop_first());
    }
}

/// Where every poll before index `i` saw work in flight, no stage timed out
/// before it, and the poll at `i` sees none, the drain is done after `i` and
/// never forces a quit.
pub proof fn law_drain_without_force_quit(evs: Seq<DrainEvent>, i: int)
    requires
        0 <= i < evs.len(),
        evs[i] == DrainEvent::Polled(false),
        forall|k: int| 0 <= k < i ==> evs[k] == DrainEvent::Polled(true),
    ensures
        drain_run(DrainState::Draining, evs.take(i + 1)).0 == DrainState::Done,
        count_actions(drain_run(DrainState::Draining, evs).1, DrainAction::ForceQuit) == 0,
    decreases i,
{
    lemma_run_front(DrainState::Draining, evs);
    lemma_run_front(DrainState::Draining, evs.take(i + 1));
    if i == 0 {
        assert(evs.take(1).drop_first() =~= Seq::<DrainEvent>::empty());
        lemma_done_idle(evs.drop_first());
    } else {
        let rest = evs.drop_first();
        assert(evs.take(i + 1).drop_first() =~= rest.take(i));
        law_drain_without_force_quit(rest, i - 1);
    }
}

proof fn lemma_force_quitting_counts(evs: Seq<DrainEvent>)
    requires
        forall|k: int| 0 <= k < evs.len() ==> evs[k] != DrainEvent::Polled(false),
    ensures
        count_actions(drain_run(DrainState::ForceQuitting, evs).1, DrainAction::ForceQuit) == 0,
        count_actions(drain_run(DrainState::ForceQuitting, evs).1, DrainAction::ReportPending)
            == if count_timeouts(evs) >= 1 { 1nat } else { 0nat },
    decreases evs.len(),
{
    if evs.len() > 0 {
        lemma_run_front(DrainState::ForceQuitting, evs);
        if evs[0] == DrainEvent::TimedOut {
            lemma_done_idle(evs.drop_first());
        } else {
            lemma_force_quitting_counts(evs.drop_first());
        }
    }
}

/// Where offline work never finishes, force-quit is broadcast exactly once
/// if the first stage timed out, and pending work is reported exactly once
/// if the second stage timed out too.
pub proof fn law_force_quit_escalation(evs: Seq<DrainEvent>)
    requires
        forall|k: int| 0 <= k < evs.len() ==> evs[k] != DrainEvent::Polled(false),
    ensures
        count_actions(drain_run(DrainState::Draining, evs).1, DrainAction::ForceQuit)
            == if count_timeouts(evs) >= 1 { 1nat } else { 0nat },
        count_actions(drain_run(DrainState::Draining, evs).1, DrainAction::ReportPending)
            == if count_timeouts(evs) >= 2 { 1nat } else { 0nat },
    decreases evs.len(),
{
    if evs.len() > 0 {
        lemma_run_front(DrainState::Draining, evs);
        if evs[0] == DrainEvent::TimedOut {
            lemma_force_quitting_counts(evs.drop_first());
        } else {
            law_force_quit_escalation(evs.drop_first());
        }
    }
}

} // verus!
