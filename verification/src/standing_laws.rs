//! That a projection, once made, stands.
use crate::cost::CostTuple;
use crate::evidence;
use crate::evidence::{
    InfrastructureFailureClass, JournalProjection, ReceiptBinding, ReceiptCandidate, RefusalClass,
    SettlementProblem,
};
use crate::ids::BudgetEpoch;
use crate::slot;
use crate::slot::{
    AdmissionAttempt, AfterMoney, AfterRetire, AfterWrite, Disposition, Event, RejectedObservation,
    SettlementError, Step,
};
use crate::slot_laws::SlotOp;
use crate::slot_model::ProjectionOutcome;
use vstd::prelude::*;

verus! {

/// An entry is owed or acknowledged only of a round that has its ordinal.
pub open spec fn placed(s: slot::SlotModel) -> bool {
    forall|i: int|
        0 <= i < s.turn.rounds.len() ==> ((#[trigger] s.turn.rounds[i]).projection is Pending
            || s.turn.rounds[i].projection is Acknowledged ==> s.turn.rounds[i].commit_ordinal
            is Some)
}

/// `b` is the round `a` later on: a round that has its ordinal keeps its
/// projection, and no other becomes acknowledged.
pub open spec fn keeps_round(a: evidence::RoundModel, b: evidence::RoundModel) -> bool {
    &&& a.commit_ordinal is Some ==> b.commit_ordinal is Some && b.projection == a.projection
    &&& a.commit_ordinal is None ==> !(b.projection is Acknowledged)
}

/// `b` is the slot `a` later on: no round is lost, every round keeps its
/// projection, and no new one is acknowledged.
pub open spec fn projections_kept(a: slot::SlotModel, b: slot::SlotModel) -> bool {
    &&& a.turn.rounds.len() <= b.turn.rounds.len()
    &&& forall|i: int|
        0 <= i < a.turn.rounds.len() ==> keeps_round(
            #[trigger] a.turn.rounds[i],
            b.turn.rounds[i],
        )
    &&& forall|i: int|
        a.turn.rounds.len() <= i < b.turn.rounds.len() ==> !((#[trigger] b.turn.rounds[i]).projection
            is Acknowledged)
    &&& placed(b)
}

proof fn lemma_same_turn_keeps(a: slot::SlotModel, b: slot::SlotModel)
    requires
        placed(a),
        a.turn.rounds == b.turn.rounds,
    ensures
        projections_kept(a, b),
{
}

/// Looking twice is looking once.
pub proof fn lemma_kept_twice(a: slot::SlotModel, b: slot::SlotModel, c: slot::SlotModel)
    requires
        projections_kept(a, b),
        projections_kept(b, c),
    ensures
        projections_kept(a, c),
{
    assert forall|i: int| 0 <= i < a.turn.rounds.len() implies keeps_round(
        #[trigger] a.turn.rounds[i],
        c.turn.rounds[i],
    ) by {
        assert(keeps_round(b.turn.rounds[i], c.turn.rounds[i]));
    }
    assert forall|i: int| a.turn.rounds.len() <= i < c.turn.rounds.len() implies !((
    #[trigger] c.turn.rounds[i]).projection is Acknowledged) by {
        if i < b.turn.rounds.len() {
            assert(keeps_round(b.turn.rounds[i], c.turn.rounds[i]));
            assert(!(b.turn.rounds[i].projection is Acknowledged));
        }
    }
}

pub(crate) proof fn lemma_rounds_persist()
    ensures
        forall|s: slot::SlotModel, next: AfterWrite|
            (#[trigger] s.persist(next)).0.turn.rounds == s.turn.rounds,
{
    assert forall|s: slot::SlotModel, next: AfterWrite|
        (#[trigger] s.persist(next)).0.turn.rounds == s.turn.rounds by {
        lemma_rounds_one_persist(s, next);
    }
}

proof fn lemma_rounds_one_persist(s: slot::SlotModel, next: AfterWrite)
    ensures
        s.persist(next).0.turn.rounds == s.turn.rounds,
{
}

proof fn lemma_rounds_retire(s: slot::SlotModel, next: AfterRetire)
    ensures
        s.retire(next).0.turn.rounds == s.turn.rounds,
        s.finish_resolve().0.turn.rounds == s.turn.rounds,
{
}

proof fn lemma_kept_admit_round(
    s: slot::SlotModel,
    attempt: AdmissionAttempt,
    preflight: Option<SettlementProblem>,
    ordinal: u64,
)
    requires
        placed(s),
    ensures
        projections_kept(s, s.admit_round(attempt, preflight, ordinal).0),
{
    lemma_rounds_persist();
}

proof fn lemma_kept_observe(s: slot::SlotModel, o: RejectedObservation)
    requires
        placed(s),
    ensures
        projections_kept(s, s.observe(o).0),
{
    lemma_rounds_persist();
}

proof fn lemma_kept_prepare(s: slot::SlotModel, decision: Disposition, requested: CostTuple)
    requires
        placed(s),
    ensures
        projections_kept(s, s.prepare(decision, requested).0),
{
    lemma_rounds_persist();
}

proof fn lemma_kept_finalize(s: slot::SlotModel)
    requires
        placed(s),
    ensures
        projections_kept(s, s.finalize().0),
{
    lemma_rounds_persist();
}

proof fn lemma_kept_commit_disposition(s: slot::SlotModel)
    requires
        placed(s),
    ensures
        projections_kept(s, s.commit_disposition().0),
{
    lemma_rounds_persist();
    lemma_rounds_retire(s, AfterRetire::Report);
}

proof fn lemma_kept_finish_refused(s: slot::SlotModel, class: RefusalClass)
    requires
        placed(s),
    ensures
        projections_kept(s, s.finish_refused(class).0),
{
    lemma_rounds_persist();
}

proof fn lemma_kept_prepare_receipt(
    s: slot::SlotModel,
    candidate: ReceiptCandidate,
    final_answer: bool,
    requested: CostTuple,
)
    requires
        placed(s),
    ensures
        projections_kept(s, s.prepare_receipt(candidate, final_answer, requested).0),
{
    lemma_rounds_persist();
}

proof fn lemma_kept_receipt_unresolved(s: slot::SlotModel)
    requires
        placed(s),
    ensures
        projections_kept(s, s.receipt_unresolved().0),
{
    lemma_rounds_persist();
}

proof fn lemma_kept_commit_receipt(s: slot::SlotModel, binding: ReceiptBinding)
    requires
        placed(s),
    ensures
        projections_kept(s, s.commit_receipt(binding).0),
{
    lemma_rounds_persist();
    lemma_rounds_retire(s, AfterRetire::Report);
}

proof fn lemma_kept_refund(s: slot::SlotModel, failure: Option<InfrastructureFailureClass>)
    requires
        placed(s),
    ensures
        projections_kept(s, s.refund(failure).0),
{
    lemma_rounds_persist();
}

proof fn lemma_kept_retry_refund(s: slot::SlotModel)
    requires
        placed(s),
    ensures
        projections_kept(s, s.retry_refund().0),
{
    lemma_rounds_persist();
}

proof fn lemma_kept_resolve_storage(s: slot::SlotModel)
    requires
        placed(s),
    ensures
        projections_kept(s, s.resolve_storage().0),
{
    lemma_rounds_persist();
    lemma_rounds_retire(s, AfterRetire::Report);
}

proof fn lemma_kept_compensate(s: slot::SlotModel)
    requires
        placed(s),
    ensures
        projections_kept(s, s.compensate().0),
{
    lemma_rounds_persist();
}

pub(crate) proof fn lemma_kept_start(s: slot::SlotModel, op: SlotOp)
    requires
        placed(s),
        !(op is Projected),
    ensures
        projections_kept(s, s.start(op).0),
{
    match op {
        SlotOp::AdmitRound { attempt, preflight, ordinal } => {
            lemma_kept_admit_round(s, attempt, preflight, ordinal)
        },
        SlotOp::Observe(o) => lemma_kept_observe(s, o),
        SlotOp::Prepare { decision, requested } => lemma_kept_prepare(s, decision, requested),
        SlotOp::Finalize => lemma_kept_finalize(s),
        SlotOp::CommitDisposition => lemma_kept_commit_disposition(s),
        SlotOp::FinishRefused(class) => lemma_kept_finish_refused(s, class),
        SlotOp::PrepareReceipt { candidate, final_answer, requested } => {
            lemma_kept_prepare_receipt(s, candidate, final_answer, requested)
        },
        SlotOp::ReceiptUnresolved => lemma_kept_receipt_unresolved(s),
        SlotOp::CommitReceipt(binding) => lemma_kept_commit_receipt(s, binding),
        SlotOp::Refund(failure) => lemma_kept_refund(s, failure),
        SlotOp::RetryRefund => lemma_kept_retry_refund(s),
        SlotOp::ResolveStorage => lemma_kept_resolve_storage(s),
        SlotOp::Compensate => lemma_kept_compensate(s),
        SlotOp::Projected { .. } => {},
    }
}

pub(crate) proof fn lemma_rounds_written(s: slot::SlotModel, next: AfterWrite, result: Result<(), SettlementError>)
    ensures
        s.after_write(next, result).0.turn.rounds == s.turn.rounds,
{
    if let AfterWrite::Retire(retire) = next {
        lemma_rounds_retire(s, retire);
    }
    lemma_rounds_retire(s, AfterRetire::Report);
}

proof fn lemma_kept_moved(
    s: slot::SlotModel,
    settle: AfterMoney,
    event: Event,
    epoch: BudgetEpoch,
)
    requires
        placed(s),
        s.turn.rounds.len() > 0,
        event is Moved,
    ensures
        projections_kept(s, s.moved(settle, event->Moved_result, event->Moved_view, epoch).0),
{
    lemma_rounds_persist();
}

pub(crate) proof fn lemma_kept_advance(s: slot::SlotModel, step: Step, event: Event, epoch: BudgetEpoch)
    requires
        placed(s),
        s.ready(step),
    ensures
        projections_kept(s, s.advance(step, event, epoch).0),
{
    lemma_rounds_persist();
    match (step, event) {
        (Step::Encode { then_do, .. }, Event::Encoded(Err(e))) => {
            let error = SettlementError::Invalid(slot::encoding_problem(e));
            lemma_rounds_written(s.failing(error), then_do, Err(error));
        },
        (Step::Write { then_do }, Event::Written(resolution)) => {
            let (b, result) = s.acknowledge(resolution);
            lemma_rounds_written(b, then_do, result);
        },
        (Step::Resolve, Event::Written(resolution)) => {
            lemma_rounds_retire(s.acknowledge(resolution).0, AfterRetire::Report);
        },
        (Step::Rewrite, Event::Written(resolution)) => {
            lemma_rounds_retire(s.acknowledge(resolution).0, AfterRetire::Report);
        },
        (Step::Money { settle, .. }, Event::Moved { result, view }) => {
            lemma_kept_moved(s, settle, event, epoch);
        },
        _ => {},
    }
}

pub(crate) proof fn lemma_projected_placed(
    s: slot::SlotModel,
    ordinal: int,
    id: u128,
    outcome: ProjectionOutcome,
)
    requires
        placed(s),
    ensures
        placed(s.projected(ordinal, id, outcome).0),
{
    lemma_rounds_persist();
}

/// Every operation but a projection, and every step of any operation, keeps the
/// projections of all rounds: what is owed stays owed, what is acknowledged
/// stays acknowledged, and nothing else becomes so.
pub proof fn law_projections_stand(
    s: slot::SlotModel,
    op: SlotOp,
    step: Step,
    event: Event,
    epoch: BudgetEpoch,
)
    requires
        placed(s),
        s.ready(step),
        !(op is Projected),
    ensures
        projections_kept(s, s.start(op).0),
        projections_kept(s, s.advance(step, event, epoch).0),
{
    lemma_kept_start(s, op);
    lemma_kept_advance(s, step, event, epoch);
}

/// An acknowledged projection stays acknowledged under every operation, the
/// projection of any round included, and under every step.
pub proof fn law_an_acknowledged_projection_stays(
    s: slot::SlotModel,
    op: SlotOp,
    step: Step,
    event: Event,
    epoch: BudgetEpoch,
    i: int,
    id: u128,
)
    requires
        placed(s),
        s.ready(step),
        0 <= i < s.turn.rounds.len(),
        s.turn.rounds[i].projection == JournalProjection::Acknowledged(id),
    ensures
        s.start(op).0.turn.rounds[i].projection == JournalProjection::Acknowledged(id),
        s.advance(step, event, epoch).0.turn.rounds[i].projection
            == JournalProjection::Acknowledged(id),
{
    lemma_rounds_persist();
    if !(op is Projected) {
        lemma_kept_start(s, op);
        assert(keeps_round(s.turn.rounds[i], s.start(op).0.turn.rounds[i]));
    }
    lemma_kept_advance(s, step, event, epoch);
    assert(keeps_round(s.turn.rounds[i], s.advance(step, event, epoch).0.turn.rounds[i]));
}

/// A slot without rounds owes nothing, and every operation and every step keep
/// it so that only a round with its ordinal owes an entry.
pub proof fn law_only_placed_rounds_owe(
    s: slot::SlotModel,
    op: SlotOp,
    step: Step,
    event: Event,
    epoch: BudgetEpoch,
)
    ensures
        s.turn.rounds.len() == 0 ==> placed(s),
        placed(s) ==> placed(s.start(op).0),
        placed(s) && s.ready(step) ==> placed(s.advance(step, event, epoch).0),
{
    if placed(s) {
        if let SlotOp::Projected { ordinal, id, outcome } = op {
            lemma_projected_placed(s, ordinal, id, outcome);
        } else {
            lemma_kept_start(s, op);
        }
        if s.ready(step) {
            lemma_kept_advance(s, step, event, epoch);
        }
    }
}

} // verus!
