//! The handshake between a turn's caller and the persistence of its receipt.
//!
//! A cancellation only wins while nothing is being persisted; persistence only
//! begins while no cancellation has won. A caller whose deadline passes during
//! persistence therefore waits for the outcome instead of giving up on a turn
//! that is being billed.
use vstd::prelude::*;

verus! {

/// The phase of one turn's handshake.
#[derive(Clone, Copy, Debug, PartialEq, Eq, Structural)]
pub enum HandshakePhase {
    /// Not cancelled, no persist in flight.
    Live,
    /// The caller is gone and no receipt was persisted.
    Cancelled,
    /// A receipt is being written; `committed` where an earlier one is durable.
    Persisting { committed: bool },
    /// At least one receipt is durable, and none is being written.
    Committed,
}

impl HandshakePhase {
    /// At least one receipt has finished its persist.
    pub open spec fn committed(self) -> bool {
        self == (HandshakePhase::Persisting { committed: true }) || self is Committed
    }
}

/// One turn's handshake.
#[derive(Debug)]
pub struct TurnCommitHandshake {
    phase: HandshakePhase,
}

impl View for TurnCommitHandshake {
    type V = HandshakePhase;

    closed spec fn view(&self) -> HandshakePhase {
        self.phase
    }
}

/// The phase after a cancellation was requested.
pub open spec fn after_request_cancel(phase: HandshakePhase) -> HandshakePhase {
    if phase is Live {
        HandshakePhase::Cancelled
    } else {
        phase
    }
}

/// The phase after persistence was asked for. Only a live or committed turn
/// begins to persist: not a cancelled one, and not one that is at it already.
pub open spec fn after_begin_persist(phase: HandshakePhase) -> HandshakePhase {
    match phase {
        HandshakePhase::Live => HandshakePhase::Persisting { committed: false },
        HandshakePhase::Committed => HandshakePhase::Persisting { committed: true },
        _ => phase,
    }
}

/// The phase after persistence was given up.
pub open spec fn after_abort_persist(
    phase: HandshakePhase,
    previously_committed: bool,
) -> HandshakePhase {
    if previously_committed || phase.committed() {
        HandshakePhase::Committed
    } else {
        HandshakePhase::Live
    }
}

impl TurnCommitHandshake {
    /// A live handshake: not cancelled, no persist in flight.
    pub fn new() -> (r: TurnCommitHandshake)
        ensures
            r@ is Live,
    {
        TurnCommitHandshake { phase: HandshakePhase::Live }
    }

    /// Marks the caller gone, but only if persistence has not begun.
    pub fn request_cancel(&mut self)
        ensures
            final(self)@ == after_request_cancel(old(self)@),
    {
        if self.phase == HandshakePhase::Live {
            self.phase = HandshakePhase::Cancelled;
        }
    }

    /// True only when a cancellation won.
    pub fn is_cancelled(&self) -> (r: bool)
        ensures
            r == (self@ is Cancelled),
    {
        self.phase == HandshakePhase::Cancelled
    }

    /// A receipt is being written, or at least one is durable: the caller must
    /// wait for the outcome.
    pub fn must_wait_for_outcome(&self) -> (r: bool)
        ensures
            r == (self@ is Persisting || self@ is Committed),
    {
        match self.phase {
            HandshakePhase::Persisting { .. } | HandshakePhase::Committed => true,
            _ => false,
        }
    }

    /// At least one receipt has finished its persist, whether or not another
    /// one is in flight.
    pub fn ever_committed(&self) -> (r: bool)
        ensures
            r == self@.committed(),
    {
        match self.phase {
            HandshakePhase::Persisting { committed } => committed,
            HandshakePhase::Committed => true,
            _ => false,
        }
    }

    /// Claims the right to persist a receipt. False if a cancellation won, and
    /// while another persist is in flight.
    pub fn begin_persist(&mut self) -> (r: bool)
        ensures
            r == (old(self)@ is Live || old(self)@ is Committed),
            final(self)@ == after_begin_persist(old(self)@),
    {
        match self.phase {
            HandshakePhase::Live => {
                self.phase = HandshakePhase::Persisting { committed: false };
                true
            },
            HandshakePhase::Committed => {
                self.phase = HandshakePhase::Persisting { committed: true };
                true
            },
            _ => false,
        }
    }

    /// The receipt is durable.
    pub fn finish_persist(&mut self)
        ensures
            final(self)@ is Committed,
    {
        self.phase = HandshakePhase::Committed;
    }

    /// The receipt was not written: live again, or committed if an earlier
    /// round was billed.
    pub fn abort_persist(&mut self, previously_committed: bool)
        ensures
            final(self)@ == after_abort_persist(old(self)@, previously_committed),
    {
        self.phase =
        if previously_committed || self.ever_committed() {
            HandshakePhase::Committed
        } else {
            HandshakePhase::Live
        };
    }
}

/// What each side's move does: a cancellation takes hold of a live turn and of
/// no other; persistence begins on a live or a committed turn and remembers
/// which; giving it up goes back to where it began, and never behind a receipt
/// that is durable.
pub proof fn law_each_move_does_what_it_says(phase: HandshakePhase, previously_committed: bool)
    ensures
        after_request_cancel(phase) is Cancelled <==> phase is Live || phase is Cancelled,
        !(phase is Live) ==> after_request_cancel(phase) == phase,
        after_begin_persist(phase) is Persisting <==> !(phase is Cancelled),
        after_begin_persist(phase).committed() == phase.committed(),
        phase is Cancelled ==> after_begin_persist(phase) is Cancelled,
        after_abort_persist(phase, previously_committed) is Committed <==> previously_committed
            || phase.committed(),
        after_abort_persist(phase, previously_committed) is Live <==> !(previously_committed
            || phase.committed()),
        phase.committed() <==> phase is Committed || (phase matches HandshakePhase::Persisting {
            committed,
        } && committed),
{
}

/// What may happen to a handshake. Persistence ends only where it began.
pub ghost enum HandshakeAction {
    RequestCancel,
    BeginPersist,
    FinishPersist,
    AbortPersist { previously_committed: bool },
}

/// The action is allowed in this phase.
pub open spec fn allowed(phase: HandshakePhase, action: HandshakeAction) -> bool {
    match action {
        HandshakeAction::FinishPersist => phase is Persisting,
        HandshakeAction::AbortPersist { .. } => phase is Persisting,
        _ => true,
    }
}

/// The phase after an action.
pub open spec fn acted(phase: HandshakePhase, action: HandshakeAction) -> HandshakePhase {
    match action {
        HandshakeAction::RequestCancel => after_request_cancel(phase),
        HandshakeAction::BeginPersist => after_begin_persist(phase),
        HandshakeAction::FinishPersist => HandshakePhase::Committed,
        HandshakeAction::AbortPersist { previously_committed } => after_abort_persist(
            phase,
            previously_committed,
        ),
    }
}

/// The phase after a sequence of actions.
pub open spec fn ran(phase: HandshakePhase, actions: Seq<HandshakeAction>) -> HandshakePhase
    decreases actions.len(),
{
    if actions.len() == 0 {
        phase
    } else {
        acted(ran(phase, actions.drop_last()), actions.last())
    }
}

/// Every action of a sequence is allowed where it happens.
pub open spec fn orderly(phase: HandshakePhase, actions: Seq<HandshakeAction>) -> bool
    decreases actions.len(),
{
    actions.len() == 0 || (orderly(phase, actions.drop_last()) && allowed(
        ran(phase, actions.drop_last()),
        actions.last(),
    ))
}

/// Once a cancellation has won, nothing is ever persisted: in whatever order
/// both sides act, the handshake stays cancelled and persistence is refused.
pub proof fn law_a_won_cancellation_is_final(actions: Seq<HandshakeAction>)
    requires
        orderly(HandshakePhase::Cancelled, actions),
    ensures
        ran(HandshakePhase::Cancelled, actions) is Cancelled,
    decreases actions.len(),
{
    if actions.len() > 0 {
        law_a_won_cancellation_is_final(actions.drop_last());
    }
}

/// Once a receipt has finished its persist, it stays so in every later state,
/// and no cancellation can win: the caller keeps waiting for the outcome.
pub proof fn law_a_committed_turn_is_never_cancelled(
    phase: HandshakePhase,
    actions: Seq<HandshakeAction>,
)
    requires
        phase.committed(),
    ensures
        ran(phase, actions).committed(),
        ran(phase, actions) is Committed || ran(phase, actions) is Persisting,
    decreases actions.len(),
{
    if actions.len() > 0 {
        law_a_committed_turn_is_never_cancelled(phase, actions.drop_last());
    }
}

/// One persist at a time: while one is in flight, asking for another changes
/// nothing until the first has ended.
pub proof fn law_persists_do_not_overlap(phase: HandshakePhase)
    requires
        phase is Live || phase is Committed,
    ensures
        after_begin_persist(phase) is Persisting,
        after_begin_persist(after_begin_persist(phase)) == after_begin_persist(phase),
        after_abort_persist(after_begin_persist(phase), false) == phase,
{
}

/// Of a cancellation and a persistence that race, exactly the first wins.
pub proof fn law_cancel_and_persist_exclude_each_other()
    ensures
        after_begin_persist(after_request_cancel(HandshakePhase::Live)) is Cancelled,
        after_request_cancel(after_begin_persist(HandshakePhase::Live)) is Persisting,
{
}

} // verus!
