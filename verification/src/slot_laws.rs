//! What holds of every operation on a settlement slot.
use crate::cost::CostTuple;
use crate::evidence;
use crate::evidence::{
    DefinitePhase, InfrastructureFailureClass, JournalProjection, OwnedBudgetView, ReceiptBinding,
    ReceiptCandidate, RefusalClass, SettlementDecision, SettlementPhase, SettlementProblem,
    ToolEffect, ToolEvidence, TurnTerminal, WriteResolution,
};
use crate::ids::BudgetEpoch;
use crate::slot;
use crate::slot::{
    AdmissionAttempt, AdmissionError, AfterMoney, AfterRetire, AfterWrite, ClaimValidation,
    Disposition, Event, MoneyCall, RejectedObservation, SettlementError, Step, MAX_TOOLS_PER_ROUND,
};
use crate::slot_model;
use crate::slot_model::ProjectionOutcome;
use vstd::prelude::*;

verus! {

/// An operation on a slot.
#[allow(inconsistent_fields)]
pub ghost enum SlotOp {
    AdmitRound { attempt: AdmissionAttempt, preflight: Option<SettlementProblem>, ordinal: u64 },
    Observe(RejectedObservation),
    Prepare { decision: Disposition, requested: CostTuple },
    Finalize,
    CommitDisposition,
    FinishRefused(RefusalClass),
    PrepareReceipt { candidate: ReceiptCandidate, final_answer: bool, requested: CostTuple },
    ReceiptUnresolved,
    CommitReceipt(ReceiptBinding),
    Refund(Option<InfrastructureFailureClass>),
    RetryRefund,
    ResolveStorage,
    Compensate,
    Projected { ordinal: int, id: u128, outcome: ProjectionOutcome },
}

impl slot::SlotModel {
    /// The first step of an operation.
    pub open spec fn start(self, op: SlotOp) -> slot_model::Move {
        match op {
            SlotOp::AdmitRound { attempt, preflight, ordinal } => self.admit_round(
                attempt,
                preflight,
                ordinal,
            ),
            SlotOp::Observe(observation) => self.observe(observation),
            SlotOp::Prepare { decision, requested } => self.prepare(decision, requested),
            SlotOp::Finalize => self.finalize(),
            SlotOp::CommitDisposition => self.commit_disposition(),
            SlotOp::FinishRefused(class) => self.finish_refused(class),
            SlotOp::PrepareReceipt { candidate, final_answer, requested } => self.prepare_receipt(
                candidate,
                final_answer,
                requested,
            ),
            SlotOp::ReceiptUnresolved => self.receipt_unresolved(),
            SlotOp::CommitReceipt(binding) => self.commit_receipt(binding),
            SlotOp::Refund(failure) => self.refund(failure),
            SlotOp::RetryRefund => self.retry_refund(),
            SlotOp::ResolveStorage => self.resolve_storage(),
            SlotOp::Compensate => self.compensate(),
            SlotOp::Projected { ordinal, id, outcome } => self.projected(ordinal, id, outcome),
        }
    }

    /// Every decision that `self` has selected stands in `later`, for the same
    /// settlement and at the same ordinal.
    pub open spec fn decisions_stand_in(self, later: slot::SlotModel) -> bool {
        &&& self.turn.rounds.len() <= later.turn.rounds.len()
        &&& forall|i: int|
            0 <= i < self.turn.rounds.len() && (#[trigger] self.turn.rounds[i]).decision is Some
                ==> {
                &&& later.turn.rounds[i].decision == self.turn.rounds[i].decision
                &&& later.turn.rounds[i].settlement_id == self.turn.rounds[i].settlement_id
                &&& later.turn.rounds[i].commit_ordinal == self.turn.rounds[i].commit_ordinal
                &&& later.turn.rounds[i].known_incurred == self.turn.rounds[i].known_incurred
            }
    }

    /// What waits for the store in `self` still waits unchanged in `later`, or
    /// it is what the store has acknowledged there.
    pub open spec fn pending_stands_in(self, later: slot::SlotModel) -> bool {
        self.pending is Some ==> later.pending == self.pending || (later.acknowledged == Some(
            self.pending->0.encoded,
        ))
    }

    /// The acknowledged revision of `self` is not above that of `later`.
    pub open spec fn history_grows_to(self, later: slot::SlotModel) -> bool {
        self.acknowledged is Some ==> later.acknowledged is Some
            && self.acknowledged->0.revision <= later.acknowledged->0.revision
    }
}

/// `b` is a well-formed slot that waits for `step`, reached from `a` without
/// relabelling a decision, rewriting pending bytes or losing history. It is
/// still the same turn.
pub open spec fn evolves(a: slot::SlotModel, b: slot::SlotModel, step: Step) -> bool {
    &&& b.turn.turn_id == a.turn.turn_id
    &&& b.wf()
    &&& b.ready(step)
    &&& a.decisions_stand_in(b)
    &&& a.pending_stands_in(b)
    &&& a.history_grows_to(b)
}

/// The same evidence, history and reservation.
pub open spec fn same_facts(a: slot::SlotModel, b: slot::SlotModel) -> bool {
    &&& a.turn == b.turn
    &&& a.acknowledged == b.acknowledged
    &&& a.pending == b.pending
    &&& a.view == b.view
    &&& a.claimed == b.claimed
}

proof fn lemma_after_retire(s: slot::SlotModel, next: AfterRetire, result: Result<(), SettlementError>)
    ensures
        same_facts(s, s.after_retire(next, result).0),
        s.after_retire(next, result).1 is Finished,
{
}

proof fn lemma_retire(s: slot::SlotModel, next: AfterRetire)
    ensures
        same_facts(s, s.retire(next).0),
        s.retire(next).0.ready(s.retire(next).1),
{
    lemma_after_retire(s, next, Ok(()));
    lemma_after_retire(s, next, Err(SettlementError::AdmissionClosed));
    lemma_after_retire(s, next, Err(SettlementError::State));
}

proof fn lemma_after_write(s: slot::SlotModel, next: AfterWrite, result: Result<(), SettlementError>)
    requires
        next is Release ==> s.turn.rounds.len() > 0,
    ensures
        same_facts(s, s.after_write(next, result).0),
        s.after_write(next, result).0.ready(s.after_write(next, result).1),
{
    match next {
        AfterWrite::Retire(retire) => {
            lemma_retire(s, retire);
        },
        AfterWrite::FinishResolve => {
            lemma_retire(slot::SlotModel { rejected: None, ..s }, AfterRetire::FinishResolve);
        },
        _ => {},
    }
}

proof fn lemma_persist(s: slot::SlotModel, next: AfterWrite)
    requires
        next is Release ==> s.turn.rounds.len() > 0,
    ensures
        same_facts(s, s.persist(next).0),
        s.persist(next).0.ready(s.persist(next).1),
{
    let d = slot::SlotModel { dirty: true, ..s };
    lemma_after_write(
        d,
        next,
        Err(
            match d.error {
                Some(e) => e,
                None => SettlementError::Storage(SettlementProblem::Unhealthy),
            },
        ),
    );
    lemma_after_write(d, next, Err(SettlementError::Invalid(SettlementProblem::Bounds)));
}

/// Replacing the last round by one that keeps a selected decision evolves the slot.
proof fn lemma_with_current(a: slot::SlotModel, b: slot::SlotModel, round: evidence::RoundModel)
    requires
        a.wf(),
        a.turn.rounds.len() > 0,
        b.turn.rounds == a.turn.rounds.update(a.turn.rounds.len() - 1, round),
        b.acknowledged == a.acknowledged,
        b.pending == a.pending,
        round.ordinal == a.turn.current().ordinal,
        round.tools.len() <= MAX_TOOLS_PER_ROUND,
        a.turn.current().decision is Some ==> {
            &&& round.decision == a.turn.current().decision
            &&& round.settlement_id == a.turn.current().settlement_id
            &&& round.commit_ordinal == a.turn.current().commit_ordinal
            &&& round.known_incurred == a.turn.current().known_incurred
        },
    ensures
        b.wf(),
        a.decisions_stand_in(b),
        a.pending_stands_in(b),
        a.history_grows_to(b),
{
}

proof fn lemma_start_observe(s: slot::SlotModel, o: RejectedObservation)
    requires
        s.wf(),
    ensures
        evolves(s, s.observe(o).0, s.observe(o).1),
{
    let d = slot::SlotModel { rejected: Some(o), dirty: true, ..s };
    let round = s.turn.current();
    if s.turn.rounds.len() > 0 {
        let (provider, tools) = match o {
            RejectedObservation::Provider(p) => (p, round.tools),
            RejectedObservation::Tool(t) => (
                round.provider_evidence,
                slot_model::with_tool(round.tools, t),
            ),
        };
        match slot_model::known_cost(slot_model::provider_cost(provider), tools) {
            Some(known) => {
                let changed = evidence::RoundModel {
                    provider_evidence: provider,
                    tools,
                    known_incurred: known,
                    phase: SettlementPhase::WorkObserved,
                    ..round
                };
                let b = d.with_current(changed);
                lemma_persist(b, AfterWrite::DropRejected);
                if round.decision is None && tools.len() <= MAX_TOOLS_PER_ROUND {
                    lemma_with_current(s, b, changed);
                }
            },
            None => {},
        }
    }
}

proof fn lemma_allocate(s: slot::SlotModel)
    requires
        s.wf(),
    ensures
        s.allocate_projection() matches Ok(b) ==> {
            &&& b.turn.rounds.len() == s.turn.rounds.len()
            &&& s.turn.rounds.len() > 0
            &&& b.turn.rounds == s.turn.rounds.update(
                s.turn.rounds.len() - 1,
                b.turn.current(),
            )
            &&& b.turn.current().ordinal == s.turn.current().ordinal
            &&& b.turn.current().tools == s.turn.current().tools
            &&& b.acknowledged == s.acknowledged
            &&& b.pending == s.pending
        },
{
    if s.turn.rounds.len() > 0 {
        assert(s.turn.rounds.update(s.turn.rounds.len() - 1, s.turn.current()) =~= s.turn.rounds);
    }
}

proof fn lemma_start_prepare(s: slot::SlotModel, decision: Disposition, requested: CostTuple)
    requires
        s.wf(),
    ensures
        evolves(s, s.prepare(decision, requested).0, s.prepare(decision, requested).1),
{
    lemma_allocate(s);
    match s.allocate_projection() {
        Ok(a) => {
            let changed = evidence::RoundModel {
                decision: Some(
                    match decision {
                        Disposition::Refusal(c) => SettlementDecision::Refusal(c),
                        Disposition::Infrastructure(c) => SettlementDecision::InfrastructureFailure(
                            c,
                        ),
                    },
                ),
                phase: SettlementPhase::Prepared { candidate: None },
                ..a.turn.current()
            };
            let b = slot::SlotModel { requested: Some(requested), ..a.with_current(changed) };
            assert(b.turn.rounds =~= s.turn.rounds.update(s.turn.rounds.len() - 1, changed));
            lemma_persist(b, AfterWrite::Report);
            if s.turn.current().decision is None {
                lemma_with_current(s, b, changed);
            }
        },
        Err(_) => {},
    }
}

proof fn lemma_start_prepare_receipt(
    s: slot::SlotModel,
    candidate: ReceiptCandidate,
    final_answer: bool,
    requested: CostTuple,
)
    requires
        s.wf(),
    ensures
        evolves(
            s,
            s.prepare_receipt(candidate, final_answer, requested).0,
            s.prepare_receipt(candidate, final_answer, requested).1,
        ),
{
    lemma_allocate(s);
    match s.allocate_projection() {
        Ok(a) => {
            let changed = evidence::RoundModel {
                decision: Some(SettlementDecision::Completion { final_answer }),
                phase: SettlementPhase::Prepared { candidate: Some(candidate) },
                ..a.turn.current()
            };
            let b = slot::SlotModel { requested: Some(requested), ..a.with_current(changed) };
            assert(b.turn.rounds =~= s.turn.rounds.update(s.turn.rounds.len() - 1, changed));
            lemma_persist(b, AfterWrite::Report);
            if s.turn.current().decision is None {
                lemma_with_current(s, b, changed);
            }
        },
        Err(_) => {},
    }
}

proof fn lemma_start_refund(s: slot::SlotModel, failure: Option<InfrastructureFailureClass>)
    requires
        s.wf(),
    ensures
        evolves(s, s.refund(failure).0, s.refund(failure).1),
{
    lemma_allocate(s);
    let ended = slot::SlotModel {
        turn: evidence::TurnModel { terminal: TurnTerminal::Cancelled, ..s.turn },
        ..s
    };
    lemma_persist(ended, AfterWrite::Report);
    match s.allocate_projection() {
        Ok(a) => {
            let b = a.refund_selected(failure);
            let changed = b.turn.current();
            assert(b.turn.rounds =~= s.turn.rounds.update(s.turn.rounds.len() - 1, changed));
            lemma_persist(b, AfterWrite::Release);
            if s.turn.current().decision is None {
                lemma_with_current(s, b, changed);
            }
        },
        Err(_) => {},
    }
}

proof fn lemma_start_commit_disposition(s: slot::SlotModel)
    requires
        s.wf(),
    ensures
        evolves(s, s.commit_disposition().0, s.commit_disposition().1),
{
    lemma_retire(s, AfterRetire::Report);
    if s.turn.rounds.len() > 0 {
        match s.turn.current().phase {
            SettlementPhase::Finalized { application, .. } => {
                let changed = evidence::RoundModel {
                    phase: SettlementPhase::Settled { application, receipt: None },
                    ..s.turn.current()
                };
                let w = s.with_current(changed);
                let b = slot::SlotModel {
                    turn: evidence::TurnModel {
                        terminal: slot_model::paid_terminal(
                            s.turn.current().decision,
                            s.turn.terminal,
                        ),
                        ..w.turn
                    },
                    retirement_pending: true,
                    ..w
                };
                lemma_with_current(s, b, changed);
                lemma_persist(b, AfterWrite::Retire(AfterRetire::Report));
            },
            _ => {},
        }
    }
}

proof fn lemma_start_commit_receipt(s: slot::SlotModel, binding: ReceiptBinding)
    requires
        s.wf(),
    ensures
        evolves(s, s.commit_receipt(binding).0, s.commit_receipt(binding).1),
{
    if s.turn.rounds.len() > 0 {
        match (s.turn.current().phase, s.turn.current().decision) {
            (
                SettlementPhase::Finalized { application, .. },
                Some(SettlementDecision::Completion { final_answer }),
            ) => {
                let changed = evidence::RoundModel {
                    phase: SettlementPhase::Settled { application, receipt: Some(binding) },
                    ..s.turn.current()
                };
                let w = s.with_current(changed);
                let b = slot::SlotModel {
                    turn: evidence::TurnModel {
                        terminal: if final_answer {
                            TurnTerminal::FinalAnswer(binding.receipt_id)
                        } else {
                            s.turn.terminal
                        },
                        ..w.turn
                    },
                    retirement_pending: true,
                    ..w
                };
                lemma_with_current(s, b, changed);
                lemma_persist(
                    b,
                    AfterWrite::Retire(AfterRetire::ReceiptCommitted { final_answer }),
                );
            },
            _ => {},
        }
    }
}

proof fn lemma_start_receipt_unresolved(s: slot::SlotModel)
    requires
        s.wf(),
    ensures
        evolves(s, s.receipt_unresolved().0, s.receipt_unresolved().1),
{
    if s.turn.rounds.len() > 0 {
        match s.turn.current().phase {
            SettlementPhase::Finalized { application, candidate } => {
                let changed = evidence::RoundModel {
                    phase: SettlementPhase::Unresolved {
                        last_definite: DefinitePhase::Finalized,
                        problem: SettlementProblem::Io,
                        application: Some(application),
                        candidate,
                    },
                    ..s.turn.current()
                };
                let w = s.with_current(changed);
                let b = slot::SlotModel {
                    turn: evidence::TurnModel {
                        terminal: TurnTerminal::Unresolved(SettlementProblem::Io),
                        ..w.turn
                    },
                    ..w
                };
                lemma_with_current(s, b, changed);
                lemma_persist(b, AfterWrite::ReceiptUnknown);
            },
            _ => {},
        }
    }
}

proof fn lemma_start_finish_refused(s: slot::SlotModel, class: RefusalClass)
    requires
        s.wf(),
    ensures
        evolves(s, s.finish_refused(class).0, s.finish_refused(class).1),
{
    let ended = slot::SlotModel {
        turn: evidence::TurnModel { terminal: TurnTerminal::Refused(class), ..s.turn },
        ..s
    };
    lemma_persist(ended, AfterWrite::Report);
}

proof fn lemma_start_projected(
    s: slot::SlotModel,
    ordinal: int,
    id: u128,
    outcome: ProjectionOutcome,
)
    requires
        s.wf(),
    ensures
        evolves(s, s.projected(ordinal, id, outcome).0, s.projected(ordinal, id, outcome).1),
{
    let b = slot::SlotModel {
        turn: evidence::TurnModel {
            rounds: s.turn.rounds.update(
                ordinal,
                evidence::RoundModel {
                    projection: JournalProjection::Acknowledged(id),
                    ..s.turn.rounds[ordinal]
                },
            ),
            ..s.turn
        },
        ..s
    };
    lemma_persist(b, AfterWrite::Projected(id));
}

proof fn lemma_start_rest(s: slot::SlotModel, op: SlotOp)
    requires
        s.wf(),
        op is AdmitRound || op is Finalize || op is RetryRefund || op is ResolveStorage || op
            is Compensate,
    ensures
        evolves(s, s.start(op).0, s.start(op).1),
{
    lemma_retire(s, AfterRetire::Report);
}

/// Starting an operation keeps the slot well formed, leaves it waiting for
/// what the operation needs next, relabels no selected decision, rewrites no
/// pending bytes and loses no acknowledged history.
pub proof fn law_start_evolves(s: slot::SlotModel, op: SlotOp)
    requires
        s.wf(),
    ensures
        evolves(s, s.start(op).0, s.start(op).1),
{
    match op {
        SlotOp::Observe(o) => lemma_start_observe(s, o),
        SlotOp::Prepare { decision, requested } => lemma_start_prepare(s, decision, requested),
        SlotOp::CommitDisposition => lemma_start_commit_disposition(s),
        SlotOp::FinishRefused(class) => lemma_start_finish_refused(s, class),
        SlotOp::PrepareReceipt { candidate, final_answer, requested } =>
            lemma_start_prepare_receipt(s, candidate, final_answer, requested),
        SlotOp::ReceiptUnresolved => lemma_start_receipt_unresolved(s),
        SlotOp::CommitReceipt(binding) => lemma_start_commit_receipt(s, binding),
        SlotOp::Refund(failure) => lemma_start_refund(s, failure),
        SlotOp::Projected { ordinal, id, outcome } => lemma_start_projected(
            s,
            ordinal,
            id,
            outcome,
        ),
        _ => lemma_start_rest(s, op),
    }
}

proof fn lemma_record_application(s: slot::SlotModel, epoch: BudgetEpoch)
    requires
        s.wf(),
        s.turn.rounds.len() > 0,
    ensures
        s.record_application(epoch).wf(),
        s.decisions_stand_in(s.record_application(epoch)),
        s.record_application(epoch).acknowledged == s.acknowledged,
        s.record_application(epoch).pending == s.pending,
        s.record_application(epoch).turn.rounds.len() == s.turn.rounds.len(),
        s.record_application(epoch).claimed == s.claimed,
        s.record_application(epoch).turn.turn_id == s.turn.turn_id,
{
    let b = s.record_application(epoch);
    assert(b.turn.rounds =~= s.turn.rounds.update(s.turn.rounds.len() - 1, b.turn.current()));
    lemma_with_current(s, b, b.turn.current());
}

proof fn lemma_record_release(s: slot::SlotModel, epoch: BudgetEpoch)
    requires
        s.wf(),
        s.turn.rounds.len() > 0,
    ensures
        s.record_release(epoch).wf(),
        s.decisions_stand_in(s.record_release(epoch)),
        s.record_release(epoch).acknowledged == s.acknowledged,
        s.record_release(epoch).pending == s.pending,
        s.record_release(epoch).turn.rounds.len() == s.turn.rounds.len(),
        s.record_release(epoch).claimed == s.claimed,
        s.record_release(epoch).turn.turn_id == s.turn.turn_id,
{
    let b = s.record_release(epoch);
    assert(b.turn.rounds =~= s.turn.rounds.update(s.turn.rounds.len() - 1, b.turn.current()));
    lemma_with_current(s, b, b.turn.current());
}

proof fn lemma_moved(
    s: slot::SlotModel,
    settle: AfterMoney,
    result: Result<(), AdmissionError>,
    view: Result<OwnedBudgetView, AdmissionError>,
    epoch: BudgetEpoch,
)
    requires
        s.wf(),
        s.claimed,
        s.turn.rounds.len() > 0,
    ensures
        evolves(
            s,
            s.moved(settle, result, view, epoch).0,
            s.moved(settle, result, view, epoch).1,
        ),
{
    match view {
        Err(e) => {
            match settle {
                AfterMoney::Retired(next) => {
                    lemma_after_retire(s, next, Err(SettlementError::Budget(e)));
                },
                _ => {},
            }
        },
        Ok(v) => {
            let w = slot::SlotModel { view: Some(v), ..s };
            match settle {
                AfterMoney::Retired(next) => {
                    match result {
                        Err(e) => {
                            lemma_after_retire(
                                w.failing(SettlementError::Budget(e)),
                                next,
                                Err(SettlementError::Budget(e)),
                            );
                        },
                        Ok(_) => {
                            lemma_after_retire(
                                slot::SlotModel { retirement_pending: false, ..w },
                                next,
                                Ok(()),
                            );
                            lemma_after_retire(w, next, Err(SettlementError::State));
                        },
                    }
                },
                _ => {
                    lemma_record_application(w, epoch);
                    lemma_record_release(w, epoch);
                    lemma_persist(w.record_application(epoch), AfterWrite::Outcome);
                    lemma_persist(w.record_release(epoch), AfterWrite::Outcome);
                },
            }
        },
    }
}

proof fn lemma_claim(
    s: slot::SlotModel,
    reply: Result<Result<OwnedBudgetView, AdmissionError>, AdmissionError>,
)
    requires
        s.wf(),
        s.awaits(Step::Claim),
    ensures
        evolves(s, s.claim(reply).0, s.claim(reply).1),
{
    match reply {
        Ok(Ok(view)) => {
            let attempt = s.admission_attempt->0;
            let round = slot_model::opened_round(
                attempt.request,
                attempt.provider_request_id,
                s.turn.rounds.len() as int,
                s.turn.journal_owner is Some,
                view,
            );
            let b = slot::SlotModel {
                claimed: true,
                unclaimed: None,
                validation: if s.expected_holder.0@ == view.holder.0@ {
                    ClaimValidation::Valid
                } else {
                    ClaimValidation::Invalid
                },
                view: Some(view),
                turn: evidence::TurnModel {
                    budget_holder: view.holder,
                    rounds: s.turn.rounds.push(round),
                    ..s.turn
                },
                ..s
            };
            lemma_persist(b, AfterWrite::Outcome);
        },
        _ => {},
    }
}

proof fn lemma_acknowledge(s: slot::SlotModel, resolution: WriteResolution)
    requires
        s.wf(),
        s.pending is Some,
    ensures
        ({
            let b = s.acknowledge(resolution).0;
            &&& b.wf()
            &&& b.turn == s.turn
            &&& b.view == s.view
            &&& b.claimed == s.claimed
            &&& s.pending_stands_in(b)
            &&& s.history_grows_to(b)
            &&& s.acknowledge(resolution).1 is Ok ==> b.pending is None
        }),
{
}

proof fn lemma_resolved(s: slot::SlotModel, resolution: WriteResolution)
    requires
        s.wf(),
        s.pending is Some,
    ensures
        evolves(s, s.resolved(resolution).0, s.resolved(resolution).1),
{
    lemma_acknowledge(s, resolution);
    let b = s.acknowledge(resolution).0;
    lemma_persist(b, AfterWrite::FinishResolve);
    lemma_retire(slot::SlotModel { rejected: None, ..b }, AfterRetire::FinishResolve);
}

/// What comes back from outside keeps the slot well formed, leaves it waiting
/// for what the operation needs next, relabels no selected decision, rewrites
/// no pending bytes and loses no acknowledged history.
pub proof fn law_advance_evolves(s: slot::SlotModel, step: Step, event: Event, epoch: BudgetEpoch)
    requires
        s.wf(),
        s.awaits(step),
        s.answers(step, event),
    ensures
        evolves(s, s.advance(step, event, epoch).0, s.advance(step, event, epoch).1),
{
    match (step, event) {
        (Step::Encode { then_do, .. }, Event::Encoded(Err(e))) => {
            let error = SettlementError::Invalid(slot::encoding_problem(e));
            lemma_after_write(s.failing(error), then_do, Err(error));
        },
        (Step::Write { then_do }, Event::Written(resolution)) => {
            lemma_acknowledge(s, resolution);
            let (b, result) = s.acknowledge(resolution);
            lemma_after_write(b, then_do, result);
        },
        (Step::Resolve, Event::Written(resolution)) => {
            lemma_resolved(s, resolution);
        },
        (Step::Rewrite, Event::Written(resolution)) => {
            lemma_resolved(s, resolution);
        },
        (Step::Claim, Event::Claimed(reply)) => {
            lemma_claim(s, reply);
        },
        (Step::Money { settle, .. }, Event::Moved { result, view }) => {
            lemma_moved(s, settle, result, view, epoch);
        },
        _ => {},
    }
}

/// A step that asks the cost gate to give the hold back, now or once a snapshot
/// has been written.
pub open spec fn leads_to_release(step: Step) -> bool {
    match step {
        Step::Money { call: MoneyCall::Release { .. }, .. } => true,
        Step::Encode { then_do, .. } => then_do is Release,
        Step::Write { then_do } => then_do is Release,
        _ => false,
    }
}

/// Money is debited only over a prepared, paid decision whose exact evidence
/// the store acknowledged, and only for the frozen amount.
pub proof fn law_debit_needs_exact_acknowledged_evidence(s: slot::SlotModel)
    ensures
        s.finalize().1 is Money ==> {
            &&& s.acknowledged_exactly()
            &&& s.settled_facts()
            &&& s.claimed
            &&& s.turn.current().phase is Prepared
            &&& slot_model::is_paid(s.turn.current().decision)
            &&& s.finalize().1 == (Step::Money {
                call: MoneyCall::Finalize {
                    known: s.turn.current().known_incurred,
                    requested: s.requested->0,
                },
                settle: AfterMoney::Applied,
            })
        },
{
}

/// A debit is asked for at most once: a started finalization refuses to start
/// again, and stays started until a following round is admitted.
pub proof fn law_debit_is_asked_for_once(
    s: slot::SlotModel,
    op: SlotOp,
    step: Step,
    event: Event,
    epoch: BudgetEpoch,
)
    requires
        s.wf(),
        s.finalize_started,
    ensures
        s.finalize() == (s, slot_model::finished(Err(SettlementError::State))),
        !(op is AdmitRound) ==> s.start(op).0.finalize_started,
        s.advance(step, event, epoch).0.finalize_started,
{
    lemma_flags_start(s, op);
    lemma_flags_advance(s, step, event, epoch);
}

/// A capability is retired only over a settled, paid decision whose exact
/// evidence the store acknowledged.
pub proof fn law_retirement_needs_exact_acknowledged_evidence(s: slot::SlotModel, next: AfterRetire)
    ensures
        s.retire(next).1 is Money ==> {
            &&& s.acknowledged_exactly()
            &&& s.settled_facts()
            &&& s.claimed
            &&& s.retirement_pending
            &&& s.turn.current().phase is Settled
            &&& slot_model::is_paid(s.turn.current().decision)
        },
{
    lemma_after_retire(s, next, Ok(()));
    lemma_after_retire(s, next, Err(SettlementError::AdmissionClosed));
    lemma_after_retire(s, next, Err(SettlementError::State));
}

/// A round that has a decision is never refunded again: asking for a refund
/// reports, or ends the turn, without a release.
pub proof fn law_a_decided_round_is_not_released_again(
    s: slot::SlotModel,
    failure: Option<InfrastructureFailureClass>,
)
    requires
        s.turn.rounds.len() > 0,
        s.turn.current().decision is Some,
    ensures
        !leads_to_release(s.refund(failure).1),
{
}

/// Repeating a cancellation that has fully settled changes nothing and succeeds.
pub proof fn law_settled_cancellation_repeats_without_credit(s: slot::SlotModel)
    requires
        s.turn.rounds.len() > 0,
        s.turn.current().decision == Some(SettlementDecision::Cancelled),
        s.turn.current().phase matches SettlementPhase::Settled { receipt: None, .. },
        s.acknowledged_exactly(),
        s.outcome() is Ok,
        s.pending is None,
        !s.dirty,
        s.view is Some,
        s.view->0.status is Released,
    ensures
        s.refund(None) == (s, slot_model::finished(Ok(()))),
{
}

/// An abandoned round: the selected cancellation is written, the hold is
/// released, and what the release did is written. The store takes both
/// snapshots and the cost gate answers with `view`.
pub open spec fn abandoned(
    s: slot::SlotModel,
    first: Vec<u8>,
    view: OwnedBudgetView,
    second: Vec<u8>,
    epoch: BudgetEpoch,
) -> Seq<slot_model::Move> {
    let revision = s.next_revision();
    let a = s.refund(None);
    let b = a.0.advance(a.1, Event::Encoded(Ok(first)), epoch);
    let c = b.0.advance(b.1, Event::Written(WriteResolution::Durable(revision)), epoch);
    let d = c.0.advance(c.1, Event::Moved { result: Ok(()), view: Ok(view) }, epoch);
    let e = d.0.advance(d.1, Event::Encoded(Ok(second)), epoch);
    let f = e.0.advance(
        e.1,
        Event::Written(WriteResolution::Durable((revision + 1) as u64)),
        epoch,
    );
    seq![a, b, c, d, e, f]
}

/// Abandoning an admitted, undecided round releases its hold exactly once,
/// between two durable snapshots, and leaves it cancelled and settled for
/// exactly what the release did. Abandoning it again succeeds, asks for
/// nothing and changes nothing.
pub proof fn law_an_abandoned_round_is_released_once(
    s: slot::SlotModel,
    first: Vec<u8>,
    view: OwnedBudgetView,
    second: Vec<u8>,
    epoch: BudgetEpoch,
)
    requires
        s.wf(),
        s.turn.rounds.len() > 0,
        s.turn.current().decision is None,
        s.allocate_projection() is Ok,
        s.claimed,
        s.pending is None,
        s.outcome() is Ok,
        s.acknowledged is Some ==> s.acknowledged->0.revision + 2 <= u64::MAX,
        view.status is Released,
        view.refund is Some,
        evidence::bounded_credit(view),
    ensures
        ({
            let run = abandoned(s, first, view, second, epoch);
            let known = s.turn.current().known_incurred;
            let last = run[5].0;
            &&& run[0].1 is Encode && run[1].1 is Write
            &&& run[2].1 == (Step::Money {
                call: MoneyCall::Release { known },
                settle: AfterMoney::Released { before: Ok(()) },
            })
            &&& run[3].1 is Encode && run[4].1 is Write
            &&& run[5].1 == slot_model::finished(Ok(()))
            &&& last.acknowledged_exactly()
            &&& last.turn.current().decision == Some(SettlementDecision::Cancelled)
            &&& last.turn.current().phase == (SettlementPhase::Settled {
                application: slot_model::released_application(epoch, view),
                receipt: None,
            })
            &&& view.refund->0.applied_credit == view.reserved
                ==> slot_model::released_application(epoch, view).applied_debit == CostTuple::zero()
            &&& last.refund(None) == (last, slot_model::finished(Ok(())))
        }),
{
    let run = abandoned(s, first, view, second, epoch);
    let a = run[0].0;
    let c = run[2].0;
    let d = run[3].0;
    let last = run[5].0;
    lemma_same_turn(a.turn);
    assert(a.turn.rounds.len() == s.turn.rounds.len());
    assert(a.turn.current().known_incurred == s.turn.current().known_incurred);
    assert(run[1].0.turn == a.turn);
    assert(c.turn == a.turn && c.claimed && c.pending is None);
    assert(d.turn.current().phase == (SettlementPhase::Settled {
        application: slot_model::released_application(epoch, view),
        receipt: None,
    }));
    lemma_same_turn(d.turn);
    assert(last.turn == d.turn);
}

proof fn lemma_same_turn(turn: evidence::TurnModel)
    ensures
        evidence::same_turn(turn, turn),
{
}

/// A round whose receipt is prepared is not abandoned: asking for it reports
/// `State` and changes nothing.
pub proof fn law_a_prepared_round_is_not_abandoned(
    s: slot::SlotModel,
    failure: Option<InfrastructureFailureClass>,
)
    requires
        s.turn.rounds.len() > 0,
        s.turn.current().phase is Prepared,
        slot_model::is_paid(s.turn.current().decision),
        !s.quarantined(),
    ensures
        s.refund(failure) == (s, slot_model::finished(Err(SettlementError::State))),
{
}

/// A release accounts for the whole hold: what was credited and what stays
/// debited add up to it.
pub proof fn law_release_accounts_for_the_hold(epoch: BudgetEpoch, view: OwnedBudgetView)
    requires
        evidence::bounded_credit(view),
        view.refund is Some,
    ensures
        slot_model::released_application(epoch, view).applied_debit.plus(
            slot_model::released_application(epoch, view).reserved_credit,
        ) == view.reserved,
{
}

/// An admission that may have had an effect keeps its attempt and its error,
/// admits nothing more, and never counts as unused capacity.
pub proof fn law_uncertain_admission_is_retained(
    s: slot::SlotModel,
    e: AdmissionError,
    attempt: AdmissionAttempt,
    preflight: Option<SettlementProblem>,
    ordinal: u64,
)
    requires
        s.awaits(Step::Admit),
        e is ReservationExpired || e is Unavailable,
    ensures
        ({
            let (b, step) = s.admitted(Err(e));
            &&& b.admission_attempt == s.admission_attempt
            &&& b.error == Some(SettlementError::Budget(e))
            &&& !b.unused()
            &&& b.admit_round(attempt, preflight, ordinal).1 == slot_model::finished(
                Err(SettlementError::State),
            )
        }),
{
}

/// The known cost covers the provider's cost and that of every completed tool.
pub proof fn law_known_cost_covers_its_parts(base: CostTuple, tools: Seq<ToolEvidence>, i: int)
    requires
        slot_model::known_cost(base, tools) is Some,
        0 <= i < tools.len(),
    ensures
        slot_model::known_cost(base, tools)->0.at_least(base),
        tools[i].effect matches ToolEffect::Completed { cost, .. }
            ==> slot_model::known_cost(base, tools)->0.at_least(cost),
    decreases tools.len(),
{
    let front = tools.drop_last();
    reveal_with_fuel(slot_model::known_cost, 2);
    if front.len() > 0 {
        law_known_cost_covers_its_parts(base, front, if i < front.len() { i } else { 0 });
    }
}

/// Only claiming a reservation decides whether the holder was the expected
/// one: no other answer from outside makes a rejected claim valid.
pub proof fn law_only_a_claim_validates(
    s: slot::SlotModel,
    op: SlotOp,
    step: Step,
    event: Event,
    epoch: BudgetEpoch,
)
    requires
        s.wf(),
    ensures
        s.start(op).0.validation == s.validation,
        !(step is Claim) ==> s.advance(step, event, epoch).0.validation == s.validation,
{
    lemma_flags_start(s, op);
    lemma_flags_advance(s, step, event, epoch);
}

/// `b` has the same finalization flag and validation as `a`.
spec fn same_flags(a: slot::SlotModel, b: slot::SlotModel) -> bool {
    a.finalize_started == b.finalize_started && a.validation == b.validation
}

proof fn lemma_tails_keep_flags(s: slot::SlotModel, next: AfterWrite, result: Result<(), SettlementError>)
    ensures
        same_flags(s, s.after_write(next, result).0),
{
    match next {
        AfterWrite::Retire(r) => {
            lemma_retire_keeps_flags(s, r);
        },
        AfterWrite::FinishResolve => {
            lemma_retire_keeps_flags(
                slot::SlotModel { rejected: None, ..s },
                AfterRetire::FinishResolve,
            );
        },
        _ => {},
    }
}

proof fn lemma_retire_keeps_flags(s: slot::SlotModel, next: AfterRetire)
    ensures
        same_flags(s, s.retire(next).0),
{
}

proof fn lemma_persist_flags(s: slot::SlotModel, next: AfterWrite)
    ensures
        same_flags(s, s.persist(next).0),
{
    let d = slot::SlotModel { dirty: true, ..s };
    lemma_tails_keep_flags(
        d,
        next,
        Err(
            match d.error {
                Some(e) => e,
                None => SettlementError::Storage(SettlementProblem::Unhealthy),
            },
        ),
    );
    lemma_tails_keep_flags(d, next, Err(SettlementError::Invalid(SettlementProblem::Bounds)));
}

proof fn lemma_persist_keeps_flags(s: slot::SlotModel)
    ensures
        forall|b: slot::SlotModel, next: AfterWrite| same_flags(b, (#[trigger] b.persist(next)).0),
{
    assert forall|b: slot::SlotModel, next: AfterWrite| same_flags(
        b,
        (#[trigger] b.persist(next)).0,
    ) by {
        lemma_persist_flags(b, next);
    }
}

proof fn lemma_observe_keeps_flags(s: slot::SlotModel, o: RejectedObservation)
    ensures
        s.observe(o).0.validation == s.validation,
        s.finalize_started ==> s.observe(o).0.finalize_started,
{
    lemma_persist_keeps_flags(s);
}

proof fn lemma_prepare_keeps_flags(s: slot::SlotModel, decision: Disposition, requested: CostTuple)
    ensures
        s.prepare(decision, requested).0.validation == s.validation,
        s.finalize_started ==> s.prepare(decision, requested).0.finalize_started,
{
    lemma_persist_keeps_flags(s);
}

proof fn lemma_finalize_keeps_flags(s: slot::SlotModel)
    ensures
        s.finalize().0.validation == s.validation,
        s.finalize_started ==> s.finalize().0.finalize_started,
{
    lemma_persist_keeps_flags(s);
}

proof fn lemma_commit_disposition_keeps_flags(s: slot::SlotModel)
    ensures
        s.commit_disposition().0.validation == s.validation,
        s.finalize_started ==> s.commit_disposition().0.finalize_started,
{
    lemma_persist_keeps_flags(s);
    lemma_retire_keeps_flags(s, AfterRetire::Report);
}

proof fn lemma_finish_refused_keeps_flags(s: slot::SlotModel, class: RefusalClass)
    ensures
        s.finish_refused(class).0.validation == s.validation,
        s.finalize_started ==> s.finish_refused(class).0.finalize_started,
{
    lemma_persist_keeps_flags(s);
}

proof fn lemma_prepare_receipt_keeps_flags(s: slot::SlotModel, candidate: ReceiptCandidate, final_answer: bool, requested: CostTuple)
    ensures
        s.prepare_receipt(candidate, final_answer, requested).0.validation == s.validation,
        s.finalize_started ==> s.prepare_receipt(candidate, final_answer, requested).0.finalize_started,
{
    lemma_persist_keeps_flags(s);
}

proof fn lemma_receipt_unresolved_keeps_flags(s: slot::SlotModel)
    ensures
        s.receipt_unresolved().0.validation == s.validation,
        s.finalize_started ==> s.receipt_unresolved().0.finalize_started,
{
    lemma_persist_keeps_flags(s);
}

proof fn lemma_commit_receipt_keeps_flags(s: slot::SlotModel, binding: ReceiptBinding)
    ensures
        s.commit_receipt(binding).0.validation == s.validation,
        s.finalize_started ==> s.commit_receipt(binding).0.finalize_started,
{
    lemma_persist_keeps_flags(s);
}

proof fn lemma_refund_keeps_flags(s: slot::SlotModel, failure: Option<InfrastructureFailureClass>)
    ensures
        s.refund(failure).0.validation == s.validation,
        s.finalize_started ==> s.refund(failure).0.finalize_started,
{
    lemma_persist_keeps_flags(s);
}

proof fn lemma_flags_start(s: slot::SlotModel, op: SlotOp)
    ensures
        s.start(op).0.validation == s.validation,
        !(op is AdmitRound) && s.finalize_started ==> s.start(op).0.finalize_started,
{
    match op {
        SlotOp::Observe(o) => lemma_observe_keeps_flags(s, o),
        SlotOp::Prepare { decision, requested } => lemma_prepare_keeps_flags(s, decision, requested),
        SlotOp::Finalize => lemma_finalize_keeps_flags(s),
        SlotOp::CommitDisposition => lemma_commit_disposition_keeps_flags(s),
        SlotOp::FinishRefused(class) => lemma_finish_refused_keeps_flags(s, class),
        SlotOp::PrepareReceipt { candidate, final_answer, requested } => lemma_prepare_receipt_keeps_flags(s, candidate, final_answer, requested),
        SlotOp::ReceiptUnresolved => lemma_receipt_unresolved_keeps_flags(s),
        SlotOp::CommitReceipt(binding) => lemma_commit_receipt_keeps_flags(s, binding),
        SlotOp::Refund(failure) => lemma_refund_keeps_flags(s, failure),
        SlotOp::ResolveStorage => lemma_retire_keeps_flags(s, AfterRetire::Report),
        _ => lemma_persist_keeps_flags(s),
    }
}

proof fn lemma_flags_advance(s: slot::SlotModel, step: Step, event: Event, epoch: BudgetEpoch)
    ensures
        !(step is Claim) ==> s.advance(step, event, epoch).0.validation == s.validation,
        s.finalize_started ==> s.advance(step, event, epoch).0.finalize_started,
{
    lemma_persist_keeps_flags(s);
    match (step, event) {
        (Step::Encode { then_do, .. }, Event::Encoded(Err(e))) => {
            let error = SettlementError::Invalid(slot::encoding_problem(e));
            lemma_tails_keep_flags(s.failing(error), then_do, Err(error));
        },
        (Step::Write { then_do }, Event::Written(resolution)) => {
            let (b, result) = s.acknowledge(resolution);
            lemma_tails_keep_flags(b, then_do, result);
        },
        (Step::Resolve, Event::Written(resolution)) => {
            let b = s.acknowledge(resolution).0;
            lemma_retire_keeps_flags(
                slot::SlotModel { rejected: None, ..b },
                AfterRetire::FinishResolve,
            );
        },
        (Step::Rewrite, Event::Written(resolution)) => {
            let b = s.acknowledge(resolution).0;
            lemma_retire_keeps_flags(
                slot::SlotModel { rejected: None, ..b },
                AfterRetire::FinishResolve,
            );
        },
        _ => {},
    }
}

} // verus!
