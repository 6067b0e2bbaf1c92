//! Remembering a committed round. The token is verified once more, for the
//! write itself: a grant to converse is not a grant to remember.
use crate::authz::{memory_write_denial, MemoryWriteDenial};
use crate::classify;
use crate::classify::{memory_failure_outcome, DeniedOutcome, EventOutcome, MemoryError};
use crate::classify::PublicDenialReason;
use crate::errors::CapTokenError;
use vstd::prelude::*;

verus! {

/// What a token must grant for a round to be remembered.
pub const MEMORY_WRITE_CAPABILITY: &'static str = "memory.write";

/// How the evidence classifies a failed token check.
#[derive(Clone, Copy, Debug, PartialEq, Eq)]
pub enum AuthOutcome {
    Compliant,
    Violation { public: PublicDenialReason, internal: &'static str },
    InsufficientEvidence { internal: &'static str },
}

/// The denial that is recorded for a refused memory write: as the evidence
/// classifies it, and never as a compliant event.
pub fn memory_denial(outcome: AuthOutcome) -> (r: DeniedOutcome)
    ensures
        r == (match outcome {
            AuthOutcome::Compliant => DeniedOutcome {
                public: PublicDenialReason::PolicyDenied,
                internal: "memory_write_denied",
            },
            AuthOutcome::Violation { public, internal } => DeniedOutcome { public, internal },
            AuthOutcome::InsufficientEvidence { internal } => DeniedOutcome {
                public: PublicDenialReason::InsufficientEvidence,
                internal,
            },
        }),
        outcome matches AuthOutcome::Violation { public, internal } ==> r.public == public
            && r.internal == internal,
        outcome is InsufficientEvidence ==> r.public is InsufficientEvidence && r.internal
            == outcome->InsufficientEvidence_internal,
        outcome is Compliant ==> r.public is PolicyDenied,
{
    match outcome {
        AuthOutcome::Compliant => DeniedOutcome {
            public: PublicDenialReason::PolicyDenied,
            internal: "memory_write_denied",
        },
        AuthOutcome::Violation { public, internal } => DeniedOutcome { public, internal },
        AuthOutcome::InsufficientEvidence { internal } => DeniedOutcome {
            public: PublicDenialReason::InsufficientEvidence,
            internal,
        },
    }
}

/// What remembering a round asks for.
#[derive(Clone, Copy, Debug, PartialEq, Eq)]
pub enum MemoryAction {
    /// Verify the token for memory writes.
    VerifyWrite,
    /// Record evidence that the memory is about to be written.
    RecordIntent,
    /// Write the memory.
    Write,
    /// Record evidence that the memory was written.
    RecordCompleted,
    /// Record evidence of a failed write.
    RecordFailure(EventOutcome),
    /// Record evidence that the token does not allow the write.
    RecordDenial,
    /// Fire the error hooks.
    FireError,
    Finish,
}

/// What came of an action.
#[derive(Clone, Copy, Debug, PartialEq, Eq)]
pub enum MemoryEvent {
    /// The step is over, whichever way.
    Done,
    Granted,
    Refused(CapTokenError),
    Written,
    WriteFailed(MemoryError),
}

/// The memory write of one round: the action that it waits for, and how its
/// token check failed, if it did.
#[derive(Clone, Copy, Debug, PartialEq, Eq)]
pub struct MemoryWrite {
    pub action: MemoryAction,
    pub refused: Option<CapTokenError>,
}

impl MemoryWrite {
    /// The event answers the action.
    pub open spec fn expects(self, event: MemoryEvent) -> bool {
        match self.action {
            MemoryAction::VerifyWrite => event is Granted || event is Refused,
            MemoryAction::Write => event is Written || event is WriteFailed,
            MemoryAction::Finish => false,
            _ => event is Done,
        }
    }

    /// A refusal is reported unless the token was never meant to write.
    pub open spec fn reports(self) -> bool {
        self.refused is Some && self.refused->0 != CapTokenError::ToolNotAllowed
    }

    /// What happens next.
    pub open spec fn next(self, event: MemoryEvent) -> MemoryWrite {
        match event {
            MemoryEvent::Granted => MemoryWrite { action: MemoryAction::RecordIntent, ..self },
            MemoryEvent::Refused(error) => MemoryWrite {
                action: MemoryAction::RecordDenial,
                refused: Some(error),
            },
            MemoryEvent::Written => MemoryWrite { action: MemoryAction::RecordCompleted, ..self },
            MemoryEvent::WriteFailed(error) => MemoryWrite {
                action: MemoryAction::RecordFailure(classify::memory_outcome(error)),
                ..self
            },
            MemoryEvent::Done => MemoryWrite {
                action: match self.action {
                    MemoryAction::RecordIntent => MemoryAction::Write,
                    MemoryAction::RecordFailure(_) => MemoryAction::FireError,
                    MemoryAction::RecordDenial => if self.reports() {
                        MemoryAction::FireError
                    } else {
                        MemoryAction::Finish
                    },
                    _ => MemoryAction::Finish,
                },
                ..self
            },
        }
    }

    /// Begins to remember a round.
    pub fn begin() -> (r: MemoryWrite)
        ensures
            r == begun(),
    {
        MemoryWrite { action: MemoryAction::VerifyWrite, refused: None }
    }

    /// Whether the event answers the action.
    pub fn is_expected(&self, event: &MemoryEvent) -> (r: bool)
        ensures
            r == self.expects(*event),
    {
        match (self.action, event) {
            (MemoryAction::VerifyWrite, MemoryEvent::Granted) => true,
            (MemoryAction::VerifyWrite, MemoryEvent::Refused(_)) => true,
            (MemoryAction::VerifyWrite, _) => false,
            (MemoryAction::Write, MemoryEvent::Written) => true,
            (MemoryAction::Write, MemoryEvent::WriteFailed(_)) => true,
            (MemoryAction::Write, _) => false,
            (MemoryAction::Finish, _) => false,
            (_, MemoryEvent::Done) => true,
            (_, _) => false,
        }
    }

    /// Goes on with what came of the last action.
    pub fn advance(&mut self, event: MemoryEvent) -> (r: MemoryAction)
        requires
            old(self).expects(event),
        ensures
            *final(self) == old(self).next(event),
            r == final(self).action,
    {
        let action: MemoryAction = match event {
            MemoryEvent::Granted => MemoryAction::RecordIntent,
            MemoryEvent::Refused(error) => {
                self.refused = Some(error);
                MemoryAction::RecordDenial
            },
            MemoryEvent::Written => MemoryAction::RecordCompleted,
            MemoryEvent::WriteFailed(error) => MemoryAction::RecordFailure(
                memory_failure_outcome(error),
            ),
            MemoryEvent::Done => match self.action {
                MemoryAction::RecordIntent => MemoryAction::Write,
                MemoryAction::RecordFailure(_) => MemoryAction::FireError,
                MemoryAction::RecordDenial => match self.refused {
                    None => MemoryAction::Finish,
                    Some(error) => match memory_write_denial(error) {
                        MemoryWriteDenial::Silent => MemoryAction::Finish,
                        MemoryWriteDenial::Reported => MemoryAction::FireError,
                    },
                },
                _ => MemoryAction::Finish,
            },
        };
        self.action = action;
        action
    }
}

/// A memory write at its beginning.
pub open spec fn begun() -> MemoryWrite {
    MemoryWrite { action: MemoryAction::VerifyWrite, refused: None }
}

/// The memory write after some events.
pub open spec fn reached(events: Seq<MemoryEvent>) -> MemoryWrite
    decreases events.len(),
{
    if events.len() == 0 {
        begun()
    } else {
        reached(events.drop_last()).next(events.last())
    }
}

/// Every event answers the action before it.
pub open spec fn answered(events: Seq<MemoryEvent>) -> bool
    decreases events.len(),
{
    events.len() == 0 || (answered(events.drop_last()) && reached(events.drop_last()).expects(
        events.last(),
    ))
}

/// A memory is written only behind a token check that granted the write and
/// behind the evidence that the write is about to happen.
pub proof fn law_a_memory_is_written_behind_its_checks(events: Seq<MemoryEvent>)
    requires
        answered(events),
        reached(events).action is Write,
    ensures
        events == seq![MemoryEvent::Granted, MemoryEvent::Done],
        reached(events.take(1)).action is RecordIntent,
{
    reveal_with_fuel(reached, 3);
    reveal_with_fuel(answered, 3);
    let before = events.drop_last();
    assert(reached(before).action is RecordIntent);
    assert(before.last() is Granted);
    assert(reached(before.drop_last()).action is VerifyWrite);
    lemma_only_the_first(before.drop_last());
    assert(events =~= seq![MemoryEvent::Granted, MemoryEvent::Done]);
    assert(events.take(1) =~= before);
}

proof fn lemma_only_the_first(events: Seq<MemoryEvent>)
    requires
        reached(events).action is VerifyWrite,
    ensures
        events.len() == 0,
{
}

/// A refused token leaves the memory alone: nothing is asked for but the
/// evidence of the denial and, unless the token was never meant to write, the
/// error hooks.
pub proof fn law_a_refused_write_leaves_the_memory_alone(
    events: Seq<MemoryEvent>,
    error: CapTokenError,
)
    requires
        answered(events),
        events.len() > 0,
        events[0] == MemoryEvent::Refused(error),
    ensures
        reached(events).refused == Some(error),
        reached(events).action is RecordDenial || reached(events).action is FireError || reached(
            events,
        ).action is Finish,
        error == CapTokenError::ToolNotAllowed ==> !(reached(events).action is FireError),
    decreases events.len(),
{
    reveal_with_fuel(reached, 2);
    if events.len() > 1 {
        assert(events.drop_last()[0] == events[0]);
        law_a_refused_write_leaves_the_memory_alone(events.drop_last(), error);
    }
}

/// Every write is observed: whatever came of it, evidence of it is what is
/// asked for next, and a failed one is classified as its failure.
pub proof fn law_a_memory_write_is_observed(m: MemoryWrite, event: MemoryEvent)
    requires
        m.action is Write,
        m.expects(event),
    ensures
        match event {
            MemoryEvent::WriteFailed(error) => m.next(event).action == MemoryAction::RecordFailure(
                classify::memory_outcome(error),
            ),
            _ => m.next(event).action is RecordCompleted,
        },
{
}

} // verus!
