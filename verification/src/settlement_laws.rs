//! What holds of the settlement registry as a whole.
use crate::evidence::{OwnedBudgetView, SettlementStoreError};
use crate::ids::TurnId;
use crate::settlement;
use crate::slot;
use crate::slot::{AdmissionAttempt, SettlementError};
use crate::slot_model;
use vstd::prelude::*;

verus! {

/// An ordinal is handed out once: an admission that enters the cost gate takes the
/// next one, and no later admission can take it again.
pub proof fn law_ordinals_are_never_reused(
    c: settlement::CoordinatorModel,
    id: TurnId,
    s: slot::SlotModel,
    attempt: AdmissionAttempt,
    preflight: Option<SettlementStoreError>,
)
    ensures
        settlement::admission(c, id, s, attempt, preflight).1 is Admit ==> {
            let taken = settlement::admission(c, id, s, attempt, preflight).0;
            &&& taken.projection_ordinal == Some(c.next_ordinal)
            &&& c.next_ordinal < u64::MAX
        },
{
}

/// Giving a slot back, losing an owner, accounting for one and reaping never
/// turn the ordinal counter back, reopen a stopped registry or forget an
/// earlier process's uncertainty.
pub proof fn law_latches_hold(
    c: settlement::CoordinatorModel,
    id: TurnId,
    observed: Option<OwnedBudgetView>,
    unwound: bool,
)
    ensures
        ({
            let later = seq![
                c.handed_back(observed, unwound),
                c.owner_gone(id),
                c.abandonment_accounted(id),
                c.reaped(id),
            ];
            forall|i: int|
                0 <= i < later.len() ==> {
                    &&& (#[trigger] later[i]).next_ordinal == c.next_ordinal
                    &&& later[i].stopped == c.stopped
                    &&& later[i].boot_problem == c.boot_problem
                    &&& later[i].epoch == c.epoch
                }
        }),
{
}

/// While anything is unresolved no turn is reserved and no round is admitted.
pub proof fn law_unresolved_work_closes_admission(
    c: settlement::CoordinatorModel,
    id: TurnId,
    s: slot::SlotModel,
    attempt: AdmissionAttempt,
    preflight: Option<SettlementStoreError>,
    encoding: Option<SettlementStoreError>,
)
    requires
        c.closed_to_work(),
    ensures
        settlement::reserve_refusal(c, encoding) is Some,
        c.taken(id) == Ok::<slot::SlotModel, SettlementError>(s) && s.quiet()
            ==> settlement::admission(c, id, s, attempt, preflight).1 == slot_model::finished(
            Err(SettlementError::AdmissionClosed),
        ),
{
    if c.taken(id) == Ok::<slot::SlotModel, SettlementError>(s) && s.quiet() {
        let d = settlement::CoordinatorModel { slots: c.slots.insert(id, None), ..c };
        if !c.stopped && c.boot_problem is None && c.abandoned == Set::<TurnId>::empty() {
            let other = choose|t: TurnId| #[trigger]
                c.slots.contains_key(t) && c.slots[t] is Some && !c.slots[t]->0.quiet();
            assert(d.slots.contains_key(other));
        }
    }
}

/// A slot leaves the registry only if it owes nothing, nobody executes it and
/// its owner did not disappear.
pub proof fn law_only_discharged_turns_leave(c: settlement::CoordinatorModel, id: TurnId)
    requires
        c.wf(),
        c.slots.contains_key(id),
        !c.reaped(id).slots.contains_key(id),
    ensures
        c.executing != Some(id),
        !c.abandoned.contains(id),
        c.slots[id] is Some,
        c.slots[id]->0.removable(),
        c.slots[id]->0.acknowledged is Some ==> c.reaped(id).inventory.contains(id),
{
}

/// An abandoned turn stays owned by the registry until it is accounted for.
pub proof fn law_abandonment_is_never_lost(
    c: settlement::CoordinatorModel,
    id: TurnId,
    observed: Option<OwnedBudgetView>,
    unwound: bool,
)
    requires
        c.wf(),
        c.slots.contains_key(id),
    ensures
        c.owner_gone(id).abandoned.contains(id),
        c.owner_gone(id).slots.contains_key(id),
        c.abandoned.contains(id) && c.busy is Some ==> c.handed_back(
            observed,
            unwound,
        ).abandoned.contains(id) && c.handed_back(observed, unwound).slots.contains_key(id),
{
}

/// A cancellation whose decision alone is recorded, without its credit, does
/// not account for an abandoned owner.
pub proof fn law_a_decision_alone_does_not_discharge_abandonment(
    c: settlement::CoordinatorModel,
    id: TurnId,
)
    requires
        c.slots.contains_key(id),
        c.slots[id] is Some,
        c.slots[id]->0.turn.rounds.len() > 0,
        c.slots[id]->0.turn.current().decision == Some(
            crate::evidence::SettlementDecision::Cancelled,
        ),
        c.slots[id]->0.view is None || c.slots[id]->0.view->0.refund is None,
        c.abandoned.contains(id),
    ensures
        c.abandonment_accounted(id) == c,
{
}

} // verus!
