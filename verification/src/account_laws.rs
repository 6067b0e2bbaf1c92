//! What a settled turn says of its holder's account: what was observed, what
//! was asked of the account, what the account did, and what the journal is
//! told of it.
use crate::cost::{amount, Dimension};
use crate::cost::CostTuple;
use crate::evidence;
use crate::evidence::{
    DebitApplication, InfrastructureFailureClass, JournalProjection, OwnedBudgetView,
    ProviderEvidence, ReceiptBinding, ReceiptCandidate, RefusalClass, RollbackStatus,
    SettlementDecision, SettlementPhase, SettlementProblem, ToolEffect, ToolEvidence, TurnTerminal,
};
use crate::ids::{BudgetEpoch, SessionId};
use crate::slot;
use crate::slot::{
    AfterMoney, AfterWrite, ClaimValidation, Disposition, Event, JournalEntry, MoneyCall,
    RejectedObservation, SettlementError, Step,
};
use crate::slot_laws::SlotOp;
use crate::slot_model;
use vstd::prelude::*;

verus! {

/// What a phase says was applied to the account.
pub open spec fn application_in(phase: SettlementPhase) -> Option<DebitApplication> {
    match phase {
        SettlementPhase::Finalized { application, .. } => Some(application),
        SettlementPhase::Settled { application, .. } => Some(application),
        SettlementPhase::Unresolved { application, .. } => application,
        _ => None,
    }
}

/// An entry that is handed out for the journal states what moved on the
/// account, whatever was decided of the round: the debit that was applied and
/// the credit that was given back. It states an expense of the operator instead
/// exactly if work is known that the caller does not pay for: the round was
/// cancelled, its debit was given back whole, or none was asked for. Only a
/// completed round has no reason.
pub proof fn law_a_journal_entry_states_what_moved(
    s: slot::SlotModel,
    ordinal: int,
    id: u128,
    journal: SessionId,
)
    ensures
        s.project(ordinal, id, journal).1 matches Ok(Some(entry)) ==> {
            let round = s.turn.rounds[ordinal];
            let applied = application_in(round.phase);
            &&& s.turn.journal_owner == Some(journal)
            &&& round.phase is Settled || round.phase is Finalized
            &&& applied is Some
            &&& entry matches JournalEntry::CostFinalized {
                reservation_id,
                actual,
                refunded,
                at,
                reason,
            } ==> {
                &&& actual == applied->0.applied_debit
                &&& refunded == applied->0.reserved_credit
                &&& reservation_id == round.settlement_id.0
                &&& at == s.turn.started_at
                &&& reason is None <==> (round.decision matches Some(
                    SettlementDecision::Completion { .. },
                ))
                &&& (forall|d: Dimension| #[trigger]
                    amount(applied->0.applied_debit, d) + amount(applied->0.reserved_credit, d)
                        == amount(round.reserved, d)) ==> forall|d: Dimension| #[trigger]
                    amount(actual, d) + amount(refunded, d) == amount(round.reserved, d)
            }
            &&& entry matches JournalEntry::OperatorExpense {
                session_id,
                reservation_id,
                provider_cost,
                at,
                ..
            } ==> {
                &&& provider_cost == round.known_incurred
                &&& session_id == s.turn.request_session
                &&& reservation_id == round.settlement_id.0
                &&& at == s.turn.started_at
            }
            &&& entry is OperatorExpense <==> round.known_incurred != CostTuple::zero() && (
            round.decision == Some(SettlementDecision::Cancelled) || applied->0.rollback
                == RollbackStatus::Applied(applied->0.applied_debit) || applied->0.requested_debit
                == CostTuple::zero())
        },
{
    if let Ok(Some(entry)) = s.project(ordinal, id, journal).1 {
        let round = s.turn.rounds[ordinal];
        let application = application_in(round.phase)->0;
        if let JournalEntry::CostFinalized { actual, refunded, .. } = entry {
            assert(actual == application.applied_debit);
            assert(refunded == application.reserved_credit);
            assert forall|d: Dimension|
                (forall|e: Dimension| #[trigger]
                    amount(application.applied_debit, e) + amount(application.reserved_credit, e)
                        == amount(round.reserved, e)) implies #[trigger] amount(actual, d) + amount(
                refunded,
                d,
            ) == amount(round.reserved, d) by {
                assert(amount(application.applied_debit, d) + amount(
                    application.reserved_credit,
                    d,
                ) == amount(round.reserved, d));
            }
        }
    }
}

/// A settled round whose entry is owed is handed out to its journal: nothing
/// but an error, an unfinished write or an open attempt stands in the way.
pub proof fn law_a_settled_round_is_handed_out(
    s: slot::SlotModel,
    ordinal: int,
    id: u128,
    journal: SessionId,
)
    requires
        s.error is None,
        !(s.validation is Invalid),
        s.pending is None,
        !s.dirty,
        s.turn.journal_owner == Some(journal),
        forall|k: int|
            0 <= k < s.projection_attempts.len() ==> (#[trigger] s.projection_attempts[k]).id != id,
        s.turn.rounds[ordinal].phase is Settled || (s.turn.rounds[ordinal].phase is Finalized && !(
        s.turn.rounds[ordinal].decision matches Some(SettlementDecision::Completion { .. }))),
    ensures
        s.project(ordinal, id, journal).1 matches Ok(Some(_)),
        s.project(ordinal, id, journal).0.attempted(id),
        s.project(ordinal, id, journal).0.turn == s.turn,
{
    assert(!s.attempted(id));
    let n = s.project(ordinal, id, journal).0;
    assert(n.projection_attempts.last().id == id);
}

/// What a provider's evidence says that its call cost.
pub open spec fn call_amount(provider: ProviderEvidence, d: Dimension) -> int {
    match provider {
        ProviderEvidence::Observed { cost, .. } => amount(cost, d),
        _ => 0,
    }
}

/// What a tool's evidence says that its run cost.
pub open spec fn run_amount(tool: ToolEvidence, d: Dimension) -> int {
    match tool.effect {
        ToolEffect::Completed { cost, .. } => amount(cost, d),
        _ => 0,
    }
}

/// What the tools of a round cost together.
pub open spec fn runs_amount(tools: Seq<ToolEvidence>, d: Dimension) -> int
    decreases tools.len(),
{
    if tools.len() == 0 {
        0
    } else {
        runs_amount(tools.drop_last(), d) + run_amount(tools.last(), d)
    }
}

proof fn lemma_known(base: CostTuple, tools: Seq<ToolEvidence>, d: Dimension)
    ensures
        slot_model::known_cost(base, tools) matches Some(known) ==> amount(known, d) == amount(
            base,
            d,
        ) + runs_amount(tools, d),
    decreases tools.len(),
{
    if tools.len() > 0 {
        lemma_known(base, tools.drop_last(), d);
    }
}

/// Once something was observed of a round, its known cost is exactly what its
/// evidence adds up to, the call and every completed tool, in every dimension.
/// The observation itself stands in the evidence, the others stay, and earlier
/// rounds are not touched.
pub proof fn law_known_cost_is_the_sum_of_the_evidence(
    s: slot::SlotModel,
    observation: RejectedObservation,
)
    requires
        s.start(SlotOp::Observe(observation)).1 is Encode,
    ensures
        ({
            let n = s.start(SlotOp::Observe(observation)).0;
            let round = n.turn.rounds.last();
            let before = s.turn.rounds.last();
            &&& n.turn.rounds.len() == s.turn.rounds.len()
            &&& forall|i: int|
                0 <= i < s.turn.rounds.len() - 1 ==> #[trigger] n.turn.rounds[i]
                    == s.turn.rounds[i]
            &&& forall|d: Dimension| #[trigger]
                amount(round.known_incurred, d) == call_amount(round.provider_evidence, d)
                    + runs_amount(round.tools, d)
            &&& round.phase == SettlementPhase::WorkObserved
            &&& round.decision is None
            &&& round.reserved == before.reserved
            &&& match observation {
                RejectedObservation::Provider(provider) => {
                    &&& round.provider_evidence == provider
                    &&& round.tools == before.tools
                },
                RejectedObservation::Tool(tool) => {
                    &&& round.provider_evidence == before.provider_evidence
                    &&& tool.ordinal < round.tools.len()
                    &&& round.tools[tool.ordinal as int] == tool
                    &&& round.tools.len() == (if tool.ordinal == before.tools.len() {
                        before.tools.len() + 1
                    } else {
                        before.tools.len()
                    })
                    &&& forall|k: int|
                        0 <= k < before.tools.len() && k != tool.ordinal
                            ==> #[trigger] round.tools[k] == before.tools[k]
                },
            }
        }),
{
    let n = s.start(SlotOp::Observe(observation)).0;
    let round = n.turn.rounds.last();
    assert(s.turn.rounds.len() > 0);
    assert forall|d: Dimension| #[trigger] amount(round.known_incurred, d) == call_amount(
        round.provider_evidence,
        d,
    ) + runs_amount(round.tools, d) by {
        lemma_known(slot_model::provider_cost(round.provider_evidence), round.tools, d);
    }
}

/// A decision that is frozen is the one that was asked for, with exactly the
/// debit that was asked for, which no dimension of the known work falls short
/// of. Freezing it changes nothing of the work, gives the round its place in
/// the order of commits, and owes its entry to the journal where there is one.
pub proof fn law_a_frozen_decision_is_the_one_asked_for(
    s: slot::SlotModel,
    decision: Disposition,
    requested: CostTuple,
)
    requires
        s.start(SlotOp::Prepare { decision, requested }).1 is Encode,
    ensures
        ({
            let n = s.start(SlotOp::Prepare { decision, requested }).0;
            let round = n.turn.rounds.last();
            let before = s.turn.rounds.last();
            &&& n.requested == Some(requested)
            &&& forall|d: Dimension| #[trigger]
                amount(before.known_incurred, d) >= amount(requested, d)
            &&& before.decision is None
            &&& match decision {
                Disposition::Refusal(class) => round.decision == Some(
                    SettlementDecision::Refusal(class),
                ),
                Disposition::Infrastructure(class) => round.decision == Some(
                    SettlementDecision::InfrastructureFailure(class),
                ),
            }
            &&& round.phase == (SettlementPhase::Prepared { candidate: None })
            &&& same_work(before, round)
            &&& placed_in_order(s, round)
            &&& others_stay(s, n)
            &&& n.turn.terminal == s.turn.terminal
        }),
{
    let n = s.start(SlotOp::Prepare { decision, requested }).0;
    assert(s.turn.rounds.len() > 0);
    let before = s.turn.rounds.last();
    assert forall|d: Dimension| #[trigger] amount(before.known_incurred, d) >= amount(
        requested,
        d,
    ) by {
        crate::cost::law_costs_are_counted_in_each_dimension(before.known_incurred, requested);
    }
}

/// The work of a round and what was held for it.
pub open spec fn same_work(a: evidence::RoundModel, b: evidence::RoundModel) -> bool {
    &&& a.settlement_id == b.settlement_id
    &&& a.ordinal == b.ordinal
    &&& a.provider_request_id == b.provider_request_id
    &&& a.provider == b.provider
    &&& a.model == b.model
    &&& a.request_digest == b.request_digest
    &&& a.reserved == b.reserved
    &&& a.provider_evidence == b.provider_evidence
    &&& a.tools == b.tools
    &&& a.known_incurred == b.known_incurred
}

/// The round has its place in the order of commits, the one that it had or the
/// one that was set aside at admission, and owes its entry to the journal.
pub open spec fn placed_in_order(s: slot::SlotModel, round: evidence::RoundModel) -> bool {
    let before = s.turn.rounds.last();
    if before.commit_ordinal is Some {
        round.commit_ordinal == before.commit_ordinal && round.projection == before.projection
    } else {
        &&& s.projection_ordinal is Some
        &&& round.commit_ordinal == s.projection_ordinal
        &&& s.turn.journal_owner is Some ==> round.projection == JournalProjection::Pending(
            round.settlement_id.0,
        )
        &&& s.turn.journal_owner is None ==> round.projection == before.projection
    }
}

/// The rounds before the last one stay, and so does whose turn it is.
pub open spec fn others_stay(s: slot::SlotModel, n: slot::SlotModel) -> bool {
    &&& n.turn.rounds.len() == s.turn.rounds.len()
    &&& forall|i: int|
        0 <= i < s.turn.rounds.len() - 1 ==> #[trigger] n.turn.rounds[i] == s.turn.rounds[i]
    &&& n.turn.turn_id == s.turn.turn_id
    &&& n.turn.request_session == s.turn.request_session
    &&& n.turn.journal_owner == s.turn.journal_owner
    &&& n.turn.verified_subject == s.turn.verified_subject
    &&& n.turn.budget_holder == s.turn.budget_holder
    &&& n.turn.cap_token_id == s.turn.cap_token_id
    &&& n.turn.started_at == s.turn.started_at
}

/// A completed round is charged for all of its known work, no more and no less,
/// and freezes exactly the receipt that was signed for it.
pub proof fn law_a_completion_is_charged_for_its_known_work(
    s: slot::SlotModel,
    candidate: ReceiptCandidate,
    final_answer: bool,
    requested: CostTuple,
)
    requires
        s.start(SlotOp::PrepareReceipt { candidate, final_answer, requested }).1 is Encode,
    ensures
        ({
            let n = s.start(SlotOp::PrepareReceipt { candidate, final_answer, requested }).0;
            let round = n.turn.rounds.last();
            let before = s.turn.rounds.last();
            &&& n.requested == Some(requested)
            &&& requested == before.known_incurred
            &&& before.decision is None
            &&& round.decision == Some(SettlementDecision::Completion { final_answer })
            &&& round.phase == (SettlementPhase::Prepared { candidate: Some(candidate) })
            &&& same_work(before, round)
            &&& placed_in_order(s, round)
            &&& others_stay(s, n)
            &&& n.turn.terminal == s.turn.terminal
        }),
{
}

/// Money is asked to move in four ways only, each with what the turn knows: a
/// finalization asks for the frozen debit over the known work, a release and a
/// retry of one give back a hold over the known work, a rollback is asked for a
/// debit that is to be compensated, and a commit retires what is paid for.
pub open spec fn asks_for_what_it_knows(s: slot::SlotModel, op: SlotOp) -> bool {
    s.start(op).1 matches Step::Money { call, settle } ==> match call {
        MoneyCall::Finalize { known, requested } => {
            &&& op is Finalize
            &&& settle == AfterMoney::Applied
            &&& known == s.turn.rounds.last().known_incurred
            &&& s.requested == Some(requested)
            &&& !s.finalize_started
            &&& s.start(op).0.finalize_started
        },
        MoneyCall::Release { known } => {
            ||| {
                &&& op is RetryRefund
                &&& settle == AfterMoney::Credited
                &&& s.view is Some && s.view->0.status is ReleasePending
                &&& s.view->0.attempt is Some && known == s.view->0.attempt->0.known_incurred
            }
            ||| {
                &&& op is Refund
                &&& settle is Released
                &&& s.turn.rounds.last().decision is None
                &&& known == s.turn.rounds.last().known_incurred
            }
        },
        MoneyCall::Rollback => {
            &&& settle == AfterMoney::Applied
            &&& s.view is Some
            &&& op is RetryRefund && s.view->0.status is RollbackPending || op is Compensate
                && s.view->0.status is Finalized && !(s.turn.rounds.last().phase is Settled)
        },
        MoneyCall::Commit => {
            &&& op is CommitDisposition || op is ResolveStorage
            &&& settle is Retired
            &&& s.retirement_pending
            &&& s.turn.rounds.last().phase is Settled
        },
    }
}

proof fn lemma_asks_observe(s: slot::SlotModel, op: SlotOp)
    requires
        op is Observe,
    ensures
        asks_for_what_it_knows(s, op),
{
}

proof fn lemma_asks_prepare(s: slot::SlotModel, op: SlotOp)
    requires
        op is Prepare,
    ensures
        asks_for_what_it_knows(s, op),
{
}

proof fn lemma_asks_commit_disposition(s: slot::SlotModel, op: SlotOp)
    requires
        op is CommitDisposition,
    ensures
        asks_for_what_it_knows(s, op),
{
}

proof fn lemma_asks_prepare_receipt(s: slot::SlotModel, op: SlotOp)
    requires
        op is PrepareReceipt,
    ensures
        asks_for_what_it_knows(s, op),
{
}

proof fn lemma_asks_receipt_unresolved(s: slot::SlotModel, op: SlotOp)
    requires
        op is ReceiptUnresolved,
    ensures
        asks_for_what_it_knows(s, op),
{
}

proof fn lemma_asks_commit_receipt(s: slot::SlotModel, op: SlotOp)
    requires
        op is CommitReceipt,
    ensures
        asks_for_what_it_knows(s, op),
{
}

proof fn lemma_asks_refund(s: slot::SlotModel, op: SlotOp)
    requires
        op is Refund,
    ensures
        asks_for_what_it_knows(s, op),
{
}

proof fn lemma_asks_resolve_storage(s: slot::SlotModel, op: SlotOp)
    requires
        op is ResolveStorage,
    ensures
        asks_for_what_it_knows(s, op),
{
}

proof fn lemma_asks_projected(s: slot::SlotModel, op: SlotOp)
    requires
        op is Projected,
    ensures
        asks_for_what_it_knows(s, op),
{
}

/// Whatever operation is started, the account is asked for what the turn knows
/// and for nothing else.
pub proof fn law_the_account_is_asked_for_what_the_turn_knows(s: slot::SlotModel, op: SlotOp)
    ensures
        asks_for_what_it_knows(s, op),
{
    match op {
        SlotOp::Observe(_) => lemma_asks_observe(s, op),
        SlotOp::Prepare { .. } => lemma_asks_prepare(s, op),
        SlotOp::CommitDisposition => lemma_asks_commit_disposition(s, op),
        SlotOp::PrepareReceipt { .. } => lemma_asks_prepare_receipt(s, op),
        SlotOp::ReceiptUnresolved => lemma_asks_receipt_unresolved(s, op),
        SlotOp::CommitReceipt(_) => lemma_asks_commit_receipt(s, op),
        SlotOp::Refund(_) => lemma_asks_refund(s, op),
        SlotOp::ResolveStorage => lemma_asks_resolve_storage(s, op),
        SlotOp::Projected { .. } => lemma_asks_projected(s, op),
        _ => {},
    }
}

/// Behind a write, money moves only to release a hold over the known work or to
/// retire what is paid for.
pub proof fn law_a_write_is_followed_by_a_release_or_a_commit(
    s: slot::SlotModel,
    step: Step,
    event: Event,
    epoch: BudgetEpoch,
)
    requires
        !(step is Money),
    ensures
        s.advance(step, event, epoch).1 matches Step::Money { call, settle } ==> {
            ||| call == (MoneyCall::Release { known: s.turn.rounds.last().known_incurred })
                && settle is Released
            ||| call == MoneyCall::Commit && settle is Retired && s.turn.rounds.last().phase
                is Settled
        },
{
}

/// What the account reports of a finalization or of its compensation is what
/// the round records, number for number. It is final where the account has
/// paid all that it owes, and stays open with the credit that is still owed
/// otherwise.
pub proof fn law_a_debit_is_recorded_as_the_account_reports_it(
    s: slot::SlotModel,
    call: MoneyCall,
    v: OwnedBudgetView,
    epoch: BudgetEpoch,
)
    requires
        s.turn.rounds.len() > 0,
        v.attempt is Some,
        v.application is Some,
        evidence::refunded_rollback(v),
    ensures
        ({
            let step = Step::Money { call, settle: AfterMoney::Applied };
            let (n, next) = s.advance(step, Event::Moved { result: Ok(()), view: Ok(v) }, epoch);
            let phase = n.turn.rounds.last().phase;
            let applied = application_in(phase);
            let owed = v.status is RollbackPending || (!(v.status is RolledBack) && exists|
                d: Dimension,
            | #[trigger]
                amount(v.application->0.reserved_credit, d) + amount(
                    v.attempt->0.requested_debit,
                    d,
                ) < amount(v.reserved, d));
            &&& n.view == Some(v)
            &&& applied is Some
            &&& applied->0.epoch == epoch
            &&& applied->0.requested_debit == v.attempt->0.requested_debit
            &&& applied->0.applied_debit == v.application->0.applied_debit
            &&& applied->0.reserved_credit == v.application->0.reserved_credit
            &&& applied->0.additional_debit == v.application->0.additional_debit
            &&& applied->0.shortfall == v.application->0.shortfall
            &&& applied->0.rollback == (if v.status is RollbackPending || v.status is RolledBack {
                RollbackStatus::Applied(v.refund->0.applied_credit)
            } else {
                RollbackStatus::NotApplied
            })
            &&& phase is Unresolved <==> owed
            &&& phase is Settled <==> v.status is RolledBack
            &&& same_work(s.turn.rounds.last(), n.turn.rounds.last())
            &&& n.turn.rounds.last().decision == s.turn.rounds.last().decision
            &&& others_stay(s, n)
            &&& n.dirty
        }),
{
    let step = Step::Money { call, settle: AfterMoney::Applied };
    let (n, next) = s.advance(step, Event::Moved { result: Ok(()), view: Ok(v) }, epoch);
    let credit = v.application->0.reserved_credit;
    let asked = v.attempt->0.requested_debit;
    crate::cost::law_costs_are_counted_in_each_dimension(v.reserved, asked);
    let owed = v.reserved.monus(asked);
    crate::cost::law_costs_are_counted_in_each_dimension(credit, owed);
    if !credit.at_least(owed) {
        let d = choose|d: Dimension| !(amount(credit, d) >= #[trigger] amount(owed, d));
        assert(amount(owed, d) == amount(v.reserved, d) - amount(asked, d));
        assert(amount(credit, d) + amount(asked, d) < amount(v.reserved, d));
    } else {
        assert forall|d: Dimension| #[trigger] amount(credit, d) + amount(asked, d) >= amount(
            v.reserved,
            d,
        ) by {
            assert(amount(credit, d) >= amount(owed, d));
        }
    }
}

/// What the account reports of a release is what the round records: nothing was
/// asked for, what was given back is the credit, and the rest of the hold stays
/// debited, so that the two are the hold in every dimension. The round is
/// settled exactly if the account says that the release is complete.
pub proof fn law_a_release_is_recorded_as_the_account_reports_it(
    s: slot::SlotModel,
    call: MoneyCall,
    settle: AfterMoney,
    v: OwnedBudgetView,
    epoch: BudgetEpoch,
)
    requires
        s.turn.rounds.len() > 0,
        settle is Credited || settle is Released,
        v.refund is Some,
        evidence::bounded_credit(v),
    ensures
        ({
            let step = Step::Money { call, settle };
            let (n, next) = s.advance(step, Event::Moved { result: Ok(()), view: Ok(v) }, epoch);
            let phase = n.turn.rounds.last().phase;
            let applied = application_in(phase);
            &&& n.view == Some(v)
            &&& applied is Some
            &&& applied->0.epoch == epoch
            &&& applied->0.requested_debit == CostTuple::zero()
            &&& applied->0.reserved_credit == v.refund->0.applied_credit
            &&& forall|d: Dimension| #[trigger]
                amount(applied->0.applied_debit, d) + amount(applied->0.reserved_credit, d)
                    == amount(v.reserved, d)
            &&& applied->0.additional_debit == CostTuple::zero()
            &&& applied->0.shortfall == CostTuple::zero()
            &&& applied->0.rollback == RollbackStatus::NotApplied
            &&& phase == (if v.status is Released {
                SettlementPhase::Settled { application: applied->0, receipt: None }
            } else {
                SettlementPhase::Unresolved {
                    last_definite: evidence::DefinitePhase::Finalized,
                    problem: SettlementProblem::ReleaseCreditPending,
                    application: applied,
                    candidate: None,
                }
            })
            &&& same_work(s.turn.rounds.last(), n.turn.rounds.last())
            &&& n.turn.rounds.last().decision == s.turn.rounds.last().decision
            &&& others_stay(s, n)
            &&& n.dirty
        }),
{
}

/// Credit that the account still owes keeps the slot from going on, until the
/// account has paid it; a storage error that stands is not covered up by it.
pub proof fn law_owed_credit_is_an_error_until_paid(
    s: slot::SlotModel,
    call: MoneyCall,
    v: OwnedBudgetView,
    epoch: BudgetEpoch,
)
    requires
        s.turn.rounds.len() > 0,
        v.refund is Some,
        evidence::bounded_credit(v),
    ensures
        ({
            let step = Step::Money { call, settle: AfterMoney::Credited };
            let n = s.advance(step, Event::Moved { result: Ok(()), view: Ok(v) }, epoch).0;
            &&& !(v.status is Released) ==> n.error is Some && (s.error matches Some(
                SettlementError::Storage(_),
            ) ==> n.error == s.error)
            &&& v.status is Released && (s.error matches Some(SettlementError::CreditPending(_)))
                ==> n.error is None
        }),
{
}

/// A claimed hold opens a round of exactly that hold, for the request that was
/// admitted, with nothing known of it yet. The claim is valid exactly if the
/// holder is the expected one.
pub proof fn law_a_claim_opens_a_round_of_its_hold(
    s: slot::SlotModel,
    v: OwnedBudgetView,
    epoch: BudgetEpoch,
)
    requires
        s.admission_attempt is Some,
        s.turn.rounds.len() < u32::MAX,
    ensures
        ({
            let (n, next) = s.advance(Step::Claim, Event::Claimed(Ok(Ok(v))), epoch);
            let round = n.turn.rounds.last();
            let attempt = s.admission_attempt->0;
            &&& n.turn.rounds.len() == s.turn.rounds.len() + 1
            &&& forall|i: int|
                0 <= i < s.turn.rounds.len() ==> #[trigger] n.turn.rounds[i] == s.turn.rounds[i]
            &&& round.settlement_id.0 == v.reservation_id
            &&& round.reserved == v.reserved
            &&& round.ordinal == s.turn.rounds.len()
            &&& round.provider_request_id == attempt.provider_request_id
            &&& round.provider == attempt.request.provider_id
            &&& round.model == attempt.request.model_id
            &&& round.request_digest == attempt.request.request_digest
            &&& round.known_incurred == CostTuple::zero()
            &&& round.provider_evidence == ProviderEvidence::NotDispatched
            &&& round.tools.len() == 0
            &&& round.decision is None
            &&& round.phase == SettlementPhase::Reserved
            &&& round.commit_ordinal is None
            &&& !(round.projection is Pending)
            &&& n.view == Some(v)
            &&& n.claimed
            &&& n.unclaimed is None
            &&& n.turn.budget_holder == v.holder
            &&& n.validation == ClaimValidation::Valid <==> s.expected_holder.0@ == v.holder.0@
            &&& n.validation != ClaimValidation::Valid ==> n.validation == ClaimValidation::Invalid
            &&& n.dirty
        }),
{
}

/// A round whose receipt the log took is settled with that receipt and with
/// what was applied to the account; it ends the turn exactly if it was frozen
/// as the final answer. A receipt other than the frozen one settles nothing.
pub proof fn law_a_receipt_settles_its_own_round(s: slot::SlotModel, binding: ReceiptBinding)
    ensures
        ({
            let (n, next) = s.start(SlotOp::CommitReceipt(binding));
            let before = s.turn.rounds.last();
            let round = n.turn.rounds.last();
            next is Encode ==> {
                &&& s.turn.rounds.len() > 0
                &&& (before.phase matches SettlementPhase::Finalized {
                    application,
                    candidate: Some(candidate),
                } && candidate.receipt_id == binding.receipt_id && candidate.jws_digest
                    == binding.jws_digest && round.phase == (SettlementPhase::Settled {
                    application,
                    receipt: Some(binding),
                }))
                &&& (before.decision matches Some(SettlementDecision::Completion { final_answer })
                    && n.turn.terminal == (if final_answer {
                    TurnTerminal::FinalAnswer(binding.receipt_id)
                } else {
                    s.turn.terminal
                }))
                &&& same_work(before, round)
                &&& round.decision == before.decision
                &&& others_stay(s, n)
                &&& n.retirement_pending
            }
        }),
        s.start(SlotOp::CommitReceipt(binding)).1 matches Step::Finished { result, .. } ==> result
            is Err && s.start(SlotOp::CommitReceipt(binding)).0.turn.terminal == s.turn.terminal || (
        s.acknowledged is Some && s.acknowledged->0.revision == u64::MAX),
{
}

/// A decision without a receipt is settled with what was applied to the
/// account, and ends the turn as what it was decided to be.
pub proof fn law_a_disposition_settles_as_decided(s: slot::SlotModel)
    requires
        s.start(SlotOp::CommitDisposition).1 is Encode,
    ensures
        ({
            let n = s.start(SlotOp::CommitDisposition).0;
            let before = s.turn.rounds.last();
            let round = n.turn.rounds.last();
            &&& before.phase is Finalized
            &&& round.phase == (SettlementPhase::Settled {
                application: application_in(before.phase)->0,
                receipt: None,
            })
            &&& match before.decision {
                Some(SettlementDecision::Refusal(class)) => n.turn.terminal
                    == TurnTerminal::Refused(class),
                Some(SettlementDecision::InfrastructureFailure(class)) => n.turn.terminal
                    == TurnTerminal::Failed(class),
                _ => false,
            }
            &&& same_work(before, round)
            &&& round.decision == before.decision
            &&& others_stay(s, n)
            &&& n.retirement_pending
        }),
{
}

/// A turn whose last round is paid for and that may not go on ends as refused
/// under the given class; its rounds stay as they are.
pub proof fn law_a_refused_end_changes_no_round(s: slot::SlotModel, class: RefusalClass)
    ensures
        ({
            let (n, next) = s.start(SlotOp::FinishRefused(class));
            &&& n.turn.rounds == s.turn.rounds
            &&& next is Encode ==> s.turn.rounds.len() > 0 && s.turn.rounds.last().phase is Settled
                && n.turn.terminal == TurnTerminal::Refused(class)
            &&& !(next is Encode) && s.pending is None && (s.acknowledged is Some
                ==> s.acknowledged->0.revision < u64::MAX) ==> n.turn.terminal == s.turn.terminal
        }),
{
}

/// A refund that is selected says why: a cancellation, or the given failure.
/// Work that was under way counts as interrupted, what is known of it stays.
pub proof fn law_a_refund_says_why_and_interrupts_open_work(
    s: slot::SlotModel,
    failure: Option<InfrastructureFailureClass>,
)
    requires
        s.turn.rounds.len() > 0,
        s.turn.rounds.last().decision is None,
        s.start(SlotOp::Refund(failure)).1 is Encode,
    ensures
        ({
            let (n, next) = s.start(SlotOp::Refund(failure));
            let before = s.turn.rounds.last();
            let round = n.turn.rounds.last();
            &&& (next matches Step::Encode { then_do, .. } && then_do == AfterWrite::Release)
            &&& round.decision == (match failure {
                Some(class) => Some(SettlementDecision::InfrastructureFailure(class)),
                None => Some(SettlementDecision::Cancelled),
            })
            &&& n.turn.terminal == (match failure {
                Some(class) => TurnTerminal::Failed(class),
                None => TurnTerminal::Cancelled,
            })
            &&& round.phase == (SettlementPhase::Prepared { candidate: None })
            &&& round.known_incurred == before.known_incurred
            &&& round.reserved == before.reserved
            &&& round.settlement_id == before.settlement_id
            &&& round.tools.len() == before.tools.len()
            &&& forall|k: int|
                0 <= k < before.tools.len() ==> {
                    &&& (#[trigger] round.tools[k]).effect == (if before.tools[k].effect
                        is DispatchIntent {
                        ToolEffect::InterruptedUnknown
                    } else {
                        before.tools[k].effect
                    })
                    &&& round.tools[k].ordinal == before.tools[k].ordinal
                    &&& round.tools[k].call_id == before.tools[k].call_id
                    &&& round.tools[k].name == before.tools[k].name
                }
            &&& match before.provider_evidence {
                ProviderEvidence::Observed { usage, cost, provenance, finished, interrupted } => {
                    round.provider_evidence == (ProviderEvidence::Observed {
                        usage,
                        cost,
                        provenance,
                        finished,
                        interrupted: interrupted || !finished,
                    })
                },
                other => round.provider_evidence == other,
            }
            &&& placed_in_order(s, round)
            &&& others_stay(s, n)
        }),
{
}

} // verus!
