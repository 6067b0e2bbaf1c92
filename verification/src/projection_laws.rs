//! What holds of every attempt to project a settled round.
use crate::cost::CostTuple;
use crate::evidence;
use crate::evidence::{
    InfrastructureFailureClass, JournalProjection, ReceiptBinding, ReceiptCandidate, RefusalClass,
    WriteResolution,
};
use crate::ids::BudgetEpoch;
use crate::slot;
use crate::slot::{
    AfterRetire, AfterWrite, Disposition, Event, ProjectionAttempt, RejectedObservation,
    SettlementError, Step,
};
use crate::slot_laws::SlotOp;
use crate::slot_model;
use crate::slot_model::ProjectionOutcome;
use vstd::prelude::*;

verus! {

/// The attempts that are outstanding stay the same.
pub open spec fn same_attempts(a: slot::SlotModel, b: slot::SlotModel) -> bool {
    b.projection_attempts == a.projection_attempts
}

proof fn lemma_attempts_retire(s: slot::SlotModel, next: AfterRetire)
    ensures
        same_attempts(s, s.retire(next).0),
        same_attempts(s, s.finish_resolve().0),
{
}

proof fn lemma_attempts_persist(s: slot::SlotModel, next: AfterWrite)
    ensures
        same_attempts(s, s.persist(next).0),
{
}

pub(crate) proof fn lemma_attempts_any_persist()
    ensures
        forall|s: slot::SlotModel, next: AfterWrite| same_attempts(s, (#[trigger] s.persist(next)).0),
{
    assert forall|s: slot::SlotModel, next: AfterWrite| same_attempts(
        s,
        (#[trigger] s.persist(next)).0,
    ) by {
        lemma_attempts_persist(s, next);
    }
}

proof fn lemma_attempts_observe(s: slot::SlotModel, o: RejectedObservation)
    ensures
        same_attempts(s, s.observe(o).0),
{
    lemma_attempts_any_persist();
}

proof fn lemma_attempts_prepare(s: slot::SlotModel, decision: Disposition, requested: CostTuple)
    ensures
        same_attempts(s, s.prepare(decision, requested).0),
{
    lemma_attempts_any_persist();
}

proof fn lemma_attempts_finalize(s: slot::SlotModel)
    ensures
        same_attempts(s, s.finalize().0),
{
    lemma_attempts_any_persist();
}

proof fn lemma_attempts_commit_disposition(s: slot::SlotModel)
    ensures
        same_attempts(s, s.commit_disposition().0),
{
    lemma_attempts_any_persist();
    lemma_attempts_retire(s, AfterRetire::Report);
}

proof fn lemma_attempts_finish_refused(s: slot::SlotModel, class: RefusalClass)
    ensures
        same_attempts(s, s.finish_refused(class).0),
{
    lemma_attempts_any_persist();
}

proof fn lemma_attempts_prepare_receipt(
    s: slot::SlotModel,
    candidate: ReceiptCandidate,
    final_answer: bool,
    requested: CostTuple,
)
    ensures
        same_attempts(s, s.prepare_receipt(candidate, final_answer, requested).0),
{
    lemma_attempts_any_persist();
}

proof fn lemma_attempts_receipt_unresolved(s: slot::SlotModel)
    ensures
        same_attempts(s, s.receipt_unresolved().0),
{
    lemma_attempts_any_persist();
}

proof fn lemma_attempts_commit_receipt(s: slot::SlotModel, binding: ReceiptBinding)
    ensures
        same_attempts(s, s.commit_receipt(binding).0),
{
    lemma_attempts_any_persist();
    lemma_attempts_retire(s, AfterRetire::Report);
}

proof fn lemma_attempts_refund(s: slot::SlotModel, failure: Option<InfrastructureFailureClass>)
    ensures
        same_attempts(s, s.refund(failure).0),
{
    lemma_attempts_any_persist();
}

proof fn lemma_attempts_resolve_storage(s: slot::SlotModel)
    ensures
        same_attempts(s, s.resolve_storage().0),
{
    lemma_attempts_any_persist();
    lemma_attempts_retire(s, AfterRetire::Report);
}

pub(crate) proof fn lemma_attempts_start(s: slot::SlotModel, op: SlotOp)
    requires
        !(op is Projected),
    ensures
        same_attempts(s, s.start(op).0),
{
    match op {
        SlotOp::Observe(o) => lemma_attempts_observe(s, o),
        SlotOp::Prepare { decision, requested } => lemma_attempts_prepare(s, decision, requested),
        SlotOp::Finalize => lemma_attempts_finalize(s),
        SlotOp::CommitDisposition => lemma_attempts_commit_disposition(s),
        SlotOp::FinishRefused(class) => lemma_attempts_finish_refused(s, class),
        SlotOp::PrepareReceipt { candidate, final_answer, requested } => {
            lemma_attempts_prepare_receipt(s, candidate, final_answer, requested)
        },
        SlotOp::ReceiptUnresolved => lemma_attempts_receipt_unresolved(s),
        SlotOp::CommitReceipt(binding) => lemma_attempts_commit_receipt(s, binding),
        SlotOp::Refund(failure) => lemma_attempts_refund(s, failure),
        SlotOp::ResolveStorage => lemma_attempts_resolve_storage(s),
        _ => lemma_attempts_any_persist(),
    }
}

proof fn lemma_attempts_written(s: slot::SlotModel, next: AfterWrite, result: Result<(), SettlementError>)
    requires
        !(next is Projected),
    ensures
        same_attempts(s, s.after_write(next, result).0),
{
    lemma_attempts_any_persist();
    if let AfterWrite::Retire(retire) = next {
        lemma_attempts_retire(s, retire);
    }
    lemma_attempts_retire(s, AfterRetire::Report);
}

/// No other operation touches an outstanding attempt, and neither does any
/// step of one, except the write that records that entry as acknowledged.
pub proof fn law_an_outstanding_attempt_stays(
    s: slot::SlotModel,
    op: SlotOp,
    step: Step,
    event: Event,
    epoch: BudgetEpoch,
    id: u128,
)
    requires
        s.attempted(id),
        op matches SlotOp::Projected { id: other, .. } ==> other != id,
        step != (Step::Write { then_do: AfterWrite::Projected(id) }),
    ensures
        s.start(op).0.attempted(id),
        s.advance(step, event, epoch).0.attempted(id),
{
    lemma_attempts_any_persist();
    if let SlotOp::Projected { id: other, .. } = op {
        lemma_forgetting_another(s, other, id);
    } else {
        lemma_attempts_start(s, op);
    }
    lemma_attempts_advance(s, step, event, epoch, id);
}

pub(crate) proof fn lemma_forgetting_another(s: slot::SlotModel, other: u128, id: u128)
    requires
        s.attempted(id),
        other != id,
    ensures
        s.forget_attempt(other).attempted(id),
{
    let kept = |a: ProjectionAttempt| a.id != other;
    let i = choose|i: int|
        0 <= i < s.projection_attempts.len() && (#[trigger] s.projection_attempts[i]).id == id;
    let rest = s.projection_attempts.filter(kept);
    assert(kept(s.projection_attempts[i]));
    s.projection_attempts.lemma_filter_contains(kept, i);
    assert(rest.contains(s.projection_attempts[i]));
    let j = choose|j: int| 0 <= j < rest.len() && rest[j] == s.projection_attempts[i];
    assert(s.forget_attempt(other).projection_attempts[j].id == id);
}

pub(crate) proof fn lemma_attempts_advance(
    s: slot::SlotModel,
    step: Step,
    event: Event,
    epoch: BudgetEpoch,
    id: u128,
)
    requires
        s.attempted(id),
        step != (Step::Write { then_do: AfterWrite::Projected(id) }),
    ensures
        s.advance(step, event, epoch).0.attempted(id),
{
    lemma_attempts_any_persist();
    match (step, event) {
        (Step::Encode { then_do, .. }, Event::Encoded(Err(e))) => {
            let error = SettlementError::Invalid(slot::encoding_problem(e));
            if !(then_do is Projected) {
                lemma_attempts_written(s.failing(error), then_do, Err(error));
            }
        },
        (Step::Write { then_do }, Event::Written(resolution)) => {
            let (b, result) = s.acknowledge(resolution);
            assert(b.attempted(id));
            if let AfterWrite::Projected(other) = then_do {
                lemma_forgetting_another(b, other, id);
            } else {
                lemma_attempts_written(b, then_do, result);
            }
        },
        (Step::Resolve, Event::Written(resolution)) => {
            lemma_attempts_retire(s.acknowledge(resolution).0, AfterRetire::Report);
        },
        (Step::Rewrite, Event::Written(resolution)) => {
            lemma_attempts_retire(s.acknowledge(resolution).0, AfterRetire::Report);
        },
        (Step::Money { settle, .. }, Event::Moved { result, view }) => {
            if let slot::AfterMoney::Retired(next) = settle {
                lemma_attempts_retired(s, next);
            }
        },
        _ => {},
    }
}

proof fn lemma_attempts_retired(s: slot::SlotModel, next: AfterRetire)
    ensures
        forall|b: slot::SlotModel, result: Result<(), SettlementError>|
            same_attempts(b, (#[trigger] b.after_retire(next, result)).0),
{
}

/// An entry counts as acknowledged only where the journal holds it and the
/// store has taken the record of that: any other answer ends with an error
/// and leaves the turn as it was. Nothing of it moves money.
pub proof fn law_only_a_durable_entry_is_acknowledged(
    s: slot::SlotModel,
    ordinal: int,
    id: u128,
    outcome: ProjectionOutcome,
    bytes: Vec<u8>,
    epoch: BudgetEpoch,
)
    ensures
        ({
            let (n, step) = s.projected(ordinal, id, outcome);
            &&& !(step is Money)
            &&& step matches Step::Finished { result, .. } ==> result is Err
            &&& !(outcome is Durable) ==> step is Finished && n.turn == s.turn
            &&& step matches Step::Encode { revision, .. } ==> ({
                let b = n.advance(step, Event::Encoded(Ok(bytes)), epoch);
                let c = b.0.advance(
                    b.1,
                    Event::Written(WriteResolution::Durable(revision)),
                    epoch,
                );
                &&& c.1 == slot_model::finished(Ok(()))
                &&& c.0.acknowledged_exactly()
                &&& c.0.turn.rounds[ordinal].projection == JournalProjection::Acknowledged(id)
            })
        }),
{
    let (n, step) = s.projected(ordinal, id, outcome);
    assert(evidence::same_turn(n.turn, n.turn));
}

} // verus!
