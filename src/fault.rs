//! Fault containment: a two-state machine. Ordinary outcomes, failures
//! included, keep the system running; only an unrecoverable contract
//! violation halts it, and nothing leaves the halted state but an external
//! reset.
use vstd::prelude::*;

verus! {

#[derive(Clone, Copy, Debug, PartialEq, Eq, Structural)]
pub enum FaultState {
    Running,
    Halted,
}

/// What a call into the library can end in.
#[derive(Clone, Copy, Debug, PartialEq, Eq, Structural)]
pub enum FaultEvent {
    /// The call returned a status code, success or failure alike.
    StatusReported,
    /// An internal contract was broken in a way no status code can report.
    UnrecoverableFault,
}

/// The state after one event.
pub open spec fn next_state(s: FaultState, e: FaultEvent) -> FaultState {
    match s {
        FaultState::Halted => FaultState::Halted,
        FaultState::Running => match e {
            FaultEvent::StatusReported => FaultState::Running,
            FaultEvent::UnrecoverableFault => FaultState::Halted,
        },
    }
}

/// The state after a sequence of events, in order.
pub open spec fn run(s: FaultState, events: Seq<FaultEvent>) -> FaultState
    decreases events.len(),
{
    if events.len() == 0 {
        s
    } else {
        run(next_state(s, events[0]), events.drop_first())
    }
}

impl FaultState {
    /// The state every execution starts in.
    pub fn initial() -> (r: FaultState)
        ensures
            r == FaultState::Running,
    {
        FaultState::Running
    }

    /// Takes one event.
    pub fn step(self, e: FaultEvent) -> (r: FaultState)
        ensures
            r == next_state(self, e),
    {
        match self {
            FaultState::Halted => FaultState::Halted,
            FaultState::Running => match e {
                FaultEvent::StatusReported => FaultState::Running,
                FaultEvent::UnrecoverableFault => FaultState::Halted,
            },
        }
    }

    /// Whether work may go on; false once halted.
    pub fn may_continue(&self) -> (r: bool)
        ensures
            r == (*self == FaultState::Running),
    {
        match self {
            FaultState::Running => true,
            FaultState::Halted => false,
        }
    }
}

/// Halted is terminal: no sequence of events leaves it.
pub proof fn lemma_halted_is_terminal(events: Seq<FaultEvent>)
    ensures
        run(FaultState::Halted, events) == FaultState::Halted,
    decreases events.len(),
{
    if events.len() > 0 {
        lemma_halted_is_terminal(events.drop_first());
    }
}

/// A running system halts after a sequence of events exactly when one of
/// them is an unrecoverable fault; reported statuses, failures included,
/// never halt it.
pub proof fn lemma_halts_only_on_fault(events: Seq<FaultEvent>)
    ensures
        run(FaultState::Running, events) == FaultState::Halted <==> exists|i: int|
            0 <= i < events.len() && #[trigger] events[i] == FaultEvent::UnrecoverableFault,
    decreases events.len(),
{
    if events.len() > 0 {
        let rest = events.drop_first();
        lemma_halts_only_on_fault(rest);
        if events[0] == FaultEvent::UnrecoverableFault {
            lemma_halted_is_terminal(rest);
        } else {
            if exists|i: int| 0 <= i < rest.len() && #[trigger] rest[i] == FaultEvent::UnrecoverableFault {
                let i = choose|i: int| 0 <= i < rest.len() && #[trigger] rest[i] == FaultEvent::UnrecoverableFault;
                assert(events[i + 1] == FaultEvent::UnrecoverableFault);
            }
            if exists|i: int| 0 <= i < events.len() && #[trigger] events[i] == FaultEvent::UnrecoverableFault {
                let i = choose|i: int| 0 <= i < events.len() && #[trigger] events[i] == FaultEvent::UnrecoverableFault;
                assert(rest[i - 1] == FaultEvent::UnrecoverableFault);
            }
        }
    }
}

} // verus!
