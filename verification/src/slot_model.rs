//! The transitions of a settlement slot, on its model.
//!
//! Every function here gives the slot after a step and what the operation
//! needs next. The executable operations are proved equal to these.
use crate::cost::CostTuple;
use crate::evidence;
use crate::evidence::{
    AdmissionRequest, DebitApplication, DefinitePhase, InfrastructureFailureClass,
    JournalProjection, OwnedBudgetView, ProviderEvidence, ReceiptBinding, ReceiptCandidate,
    RefusalClass, Reservation, RollbackStatus, SettlementDecision, SettlementPhase,
    SettlementProblem, ToolEffect, ToolEvidence, TurnTerminal, WriteResolution,
};
use crate::ids::{BudgetEpoch, SessionId, SettlementId};
use crate::slot;
use crate::slot::{
    AdmissionAttempt, AdmissionError, AfterMoney, AfterRetire, AfterWrite, ClaimValidation,
    Disposition, Event, JournalEntry, MoneyCall, ProjectionAttempt, RejectedObservation,
    SettlementError, Step, MAX_METADATA_BYTES, MAX_ROUNDS, MAX_TOOLS_PER_ROUND,
};
use vstd::prelude::*;

verus! {

/// A slot and what its operation needs next.
pub type Move = (slot::SlotModel, Step);

/// The operation is over with this result.
pub open spec fn finished(result: Result<(), SettlementError>) -> Step {
    Step::Finished { result, final_answer: false }
}

/// A tool that was dispatched and never heard of again has an unknown effect.
pub open spec fn interrupted_tool(tool: ToolEvidence) -> ToolEvidence {
    if tool.effect is DispatchIntent {
        ToolEvidence { effect: ToolEffect::InterruptedUnknown, ..tool }
    } else {
        tool
    }
}

/// `interrupted_tool` on each tool.
pub open spec fn interrupted_tools(tools: Seq<ToolEvidence>) -> Seq<ToolEvidence> {
    Seq::new(tools.len(), |i: int| interrupted_tool(tools[i]))
}

/// A provider call that had not finished was interrupted.
pub open spec fn interrupted_provider(evidence: ProviderEvidence) -> ProviderEvidence {
    match evidence {
        ProviderEvidence::Observed { usage, cost, provenance, finished: false, .. } =>
            ProviderEvidence::Observed { usage, cost, provenance, finished: false, interrupted: true },
        other => other,
    }
}

/// What a provider call is known to have cost.
pub open spec fn provider_cost(evidence: ProviderEvidence) -> CostTuple {
    match evidence {
        ProviderEvidence::Observed { cost, .. } => cost,
        _ => CostTuple::zero(),
    }
}

/// `base` plus the cost of every completed tool, or `None` if the sum overflows.
pub open spec fn known_cost(base: CostTuple, tools: Seq<ToolEvidence>) -> Option<CostTuple>
    decreases tools.len(),
{
    if tools.len() == 0 {
        Some(base)
    } else {
        match known_cost(base, tools.drop_last()) {
            None => None,
            Some(known) => match tools.last().effect {
                ToolEffect::Completed { cost, .. } => if known.sum_fits(cost) {
                    Some(known.plus(cost))
                } else {
                    None
                },
                _ => Some(known),
            },
        }
    }
}

/// A decision that is charged for: everything but cancellation.
pub open spec fn is_paid(decision: Option<SettlementDecision>) -> bool {
    match decision {
        Some(SettlementDecision::Refusal(_)) => true,
        Some(SettlementDecision::InfrastructureFailure(_)) => true,
        Some(SettlementDecision::Completion { .. }) => true,
        _ => false,
    }
}

/// The candidate that a phase carries.
pub open spec fn phase_candidate(phase: SettlementPhase) -> Option<ReceiptCandidate> {
    match phase {
        SettlementPhase::Prepared { candidate } => candidate,
        SettlementPhase::Finalized { candidate, .. } => candidate,
        SettlementPhase::Unresolved { candidate, .. } => candidate,
        _ => None,
    }
}

/// The terminal state that a decision without a receipt leads to.
pub open spec fn paid_terminal(
    decision: Option<SettlementDecision>,
    otherwise: TurnTerminal,
) -> TurnTerminal {
    match decision {
        Some(SettlementDecision::Refusal(c)) => TurnTerminal::Refused(c),
        Some(SettlementDecision::InfrastructureFailure(c)) => TurnTerminal::Failed(c),
        _ => otherwise,
    }
}

/// An error that pending credit may not overwrite.
pub open spec fn with_credit_pending(
    error: Option<SettlementError>,
    problem: SettlementProblem,
) -> Option<SettlementError> {
    match error {
        Some(SettlementError::Storage(p)) => Some(SettlementError::Storage(p)),
        _ => Some(SettlementError::CreditPending(problem)),
    }
}

/// An error once the pending credit has been paid.
pub open spec fn without_credit_pending(error: Option<SettlementError>) -> Option<SettlementError> {
    match error {
        Some(SettlementError::CreditPending(_)) => None,
        other => other,
    }
}

/// The application that a view gives evidence of.
pub open spec fn recorded_application(
    epoch: BudgetEpoch,
    view: OwnedBudgetView,
    rollback: RollbackStatus,
) -> DebitApplication {
    DebitApplication {
        epoch,
        requested_debit: view.attempt->0.requested_debit,
        applied_debit: view.application->0.applied_debit,
        reserved_credit: view.application->0.reserved_credit,
        additional_debit: view.application->0.additional_debit,
        shortfall: view.application->0.shortfall,
        rollback,
    }
}

/// The application that a release gives evidence of: nothing was asked, and
/// what was not credited back stays debited.
pub open spec fn released_application(epoch: BudgetEpoch, view: OwnedBudgetView) -> DebitApplication {
    DebitApplication {
        epoch,
        requested_debit: CostTuple::zero(),
        applied_debit: view.reserved.minus(view.refund->0.applied_credit),
        reserved_credit: view.refund->0.applied_credit,
        additional_debit: CostTuple::zero(),
        shortfall: CostTuple::zero(),
        rollback: RollbackStatus::NotApplied,
    }
}

/// The round that an admitted request starts with.
pub open spec fn opened_round(
    request: AdmissionRequest,
    provider_request_id: u128,
    ordinal: int,
    journal: bool,
    view: OwnedBudgetView,
) -> evidence::RoundModel {
    evidence::RoundModel {
        settlement_id: SettlementId(view.reservation_id),
        ordinal: ordinal as u32,
        provider_request_id,
        provider: request.provider_id,
        model: request.model_id,
        request_digest: request.request_digest,
        reserved: view.reserved,
        provider_evidence: ProviderEvidence::NotDispatched,
        tools: Seq::empty(),
        known_incurred: CostTuple::zero(),
        decision: None,
        phase: SettlementPhase::Reserved,
        commit_ordinal: None,
        projection: if journal {
            JournalProjection::NotRequired
        } else {
            JournalProjection::NotConfigured
        },
    }
}

/// The tools of a round with one more observation, which replaces the one of
/// the same ordinal.
pub open spec fn with_tool(tools: Seq<ToolEvidence>, tool: ToolEvidence) -> Seq<ToolEvidence> {
    if tool.ordinal == tools.len() {
        tools.push(tool)
    } else {
        tools.update(tool.ordinal as int, tool)
    }
}

/// The journal entry that a settled round is projected to.
pub open spec fn projected_entry(
    turn: evidence::TurnModel,
    round: evidence::RoundModel,
    application: DebitApplication,
) -> JournalEntry {
    let compensated = application.rollback == RollbackStatus::Applied(application.applied_debit);
    let failed = round.decision matches Some(SettlementDecision::InfrastructureFailure(_));
    if round.known_incurred != CostTuple::zero() && (round.decision == Some(
        SettlementDecision::Cancelled,
    ) || compensated || application.requested_debit == CostTuple::zero()) {
        JournalEntry::OperatorExpense {
            session_id: turn.request_session,
            reservation_id: round.settlement_id.0,
            provider_cost: round.known_incurred,
            class: if compensated || failed {
                "compensated_failure"
            } else {
                "cancelled_precommit"
            },
            reason: if compensated || failed {
                "settlement compensation; known operator expense retained"
            } else {
                "settlement cancellation; caller refunded, known operator expense retained"
            },
            at: turn.started_at,
        }
    } else {
        JournalEntry::CostFinalized {
            reservation_id: round.settlement_id.0,
            actual: application.applied_debit,
            refunded: application.reserved_credit,
            at: turn.started_at,
            reason: if round.decision matches Some(SettlementDecision::Completion { .. }) {
                None
            } else if failed && exists|i: int|
                0 <= i < round.tools.len() && (#[trigger] round.tools[i]).effect
                    is InterruptedUnknown {
                Some("refusal:tool_timeout_uncertain_effect")
            } else {
                Some(slot::reason_label(round.decision))
            },
        }
    }
}

impl AfterMoney {
    /// The view can be recorded as what the movement did: a release credits no
    /// more than the hold, and a rollback has a refund.
    pub open spec fn admits(self, view: OwnedBudgetView) -> bool {
        match self {
            AfterMoney::Applied => evidence::refunded_rollback(view),
            AfterMoney::Credited | AfterMoney::Released { .. } => evidence::bounded_credit(view),
            AfterMoney::Retired(_) => true,
        }
    }
}

impl slot::SlotModel {
    /// The facts that hold of every slot between operations: the rounds and
    /// tools are within their bounds, each round knows its place, and no money
    /// has moved on a reservation before its round was recorded.
    pub open spec fn wf(self) -> bool {
        &&& self.turn.rounds.len() <= MAX_ROUNDS
        &&& forall|i: int|
            0 <= i < self.turn.rounds.len() ==> (#[trigger] self.turn.rounds[i]).ordinal == i
                && self.turn.rounds[i].tools.len() <= MAX_TOOLS_PER_ROUND
        &&& self.view is Some && !(self.view->0.status is Active) ==> self.turn.rounds.len() > 0
        &&& self.pending is Some ==> self.pending->0.previous == self.acknowledged_revision() && (
        self.acknowledged is Some ==> self.acknowledged->0.revision < u64::MAX)
            && self.pending->0.encoded.revision == self.next_revision()
    }

    /// The revision that the store acknowledged last.
    pub open spec fn acknowledged_revision(self) -> Option<u64> {
        match self.acknowledged {
            Some(s) => Some(s.revision),
            None => None,
        }
    }

    /// Nothing is unresolved: the retained error, or else a failed validation.
    pub open spec fn outcome(self) -> Result<(), SettlementError> {
        match self.error {
            Some(e) => Err(e),
            None => if self.validation is Invalid {
                Err(SettlementError::IdentityMismatch)
            } else {
                Ok(())
            },
        }
    }

    /// The slot has never been used.
    pub open spec fn unused(self) -> bool {
        &&& self.admission_attempt is None
        &&& !self.claimed
        &&& self.unclaimed is None
        &&& self.view is None
        &&& self.turn.rounds.len() == 0
        &&& self.error is None
        &&& self.acknowledged is None
        &&& self.pending is None
        &&& !self.dirty
        &&& self.rejected is None
    }

    /// The store acknowledged exactly the turn as it stands.
    pub open spec fn acknowledged_exactly(self) -> bool {
        self.acknowledged is Some && evidence::same_turn(self.acknowledged->0.turn, self.turn)
    }

    /// This slot does not stand in the way of admitting new work.
    pub open spec fn quiet(self) -> bool {
        &&& self.outcome() is Ok
        &&& self.projection_attempts.len() == 0
        &&& self.pending is None
        &&& !self.dirty
        &&& !self.retirement_pending
        &&& self.unclaimed is None
    }

    /// A snapshot in which the current round's decision is selected.
    pub open spec fn selected_in(self, snapshot: slot::SnapshotModel) -> bool {
        &&& snapshot.turn.rounds.len() > 0
        &&& snapshot.turn.current().settlement_id == self.turn.current().settlement_id
        &&& snapshot.turn.current().decision == self.turn.current().decision
        &&& snapshot.turn.current().commit_ordinal is Some
        &&& snapshot.turn.current().commit_ordinal == self.turn.current().commit_ordinal
    }

    /// The current round's decision has a continuation of its own: a
    /// cancellation has its credit, any other decision has its evidence.
    pub open spec fn disposition_continuation(self) -> bool {
        &&& self.turn.rounds.len() > 0
        &&& match self.turn.current().decision {
            Some(SettlementDecision::Cancelled) => self.view is Some && (
            self.view->0.status is Released || self.view->0.status is ReleasePending)
                && self.view->0.refund is Some,
            None => false,
            _ => (self.acknowledged is Some && self.selected_in(self.acknowledged->0)) || (
            self.pending is Some && self.selected_in(self.pending->0.encoded)),
        }
    }

    /// A slot that may leave the registry.
    pub open spec fn removable(self) -> bool {
        &&& self.outcome() is Ok
        &&& self.pending is None
        &&& !self.dirty
        &&& !self.retirement_pending
        &&& self.unclaimed is None
        &&& self.view is Some || self.unused()
        &&& self.view is Some ==> (self.view->0.status is Released || self.view->0.status
            is RolledBack || self.view->0.status is Committed)
        &&& forall|i: int|
            0 <= i < self.turn.rounds.len() ==> !((#[trigger] self.turn.rounds[i]).projection
                is Pending)
    }

    /// This slot with a retained error.
    pub open spec fn failing(self, error: SettlementError) -> slot::SlotModel {
        slot::SlotModel { error: Some(error), ..self }
    }

    /// This slot with its last round replaced.
    pub open spec fn with_current(self, round: evidence::RoundModel) -> slot::SlotModel {
        slot::SlotModel { turn: self.turn.with_current(round), ..self }
    }

    /// Starts making the turn durable.
    pub open spec fn persist(self, next: AfterWrite) -> Move {
        let s = slot::SlotModel { dirty: true, ..self };
        if s.pending is Some {
            s.after_write(
                next,
                Err(
                    match s.error {
                        Some(e) => e,
                        None => SettlementError::Storage(SettlementProblem::Unhealthy),
                    },
                ),
            )
        } else if s.acknowledged is Some && s.acknowledged->0.revision == u64::MAX {
            s.after_write(next, Err(SettlementError::Invalid(SettlementProblem::Bounds)))
        } else {
            (s, Step::Encode { revision: s.next_revision(), then_do: next })
        }
    }

    /// The revision after the acknowledged one.
    pub open spec fn next_revision(self) -> u64 {
        match self.acknowledged {
            Some(s) => (s.revision + 1) as u64,
            None => 1,
        }
    }

    /// The snapshot was encoded: it is retained before it is written.
    pub open spec fn encoded(self, revision: u64, bytes: Seq<u8>) -> slot::SlotModel {
        slot::SlotModel {
            pending: Some(
                slot::PendingModel {
                    previous: self.acknowledged_revision(),
                    encoded: slot::SnapshotModel { revision, bytes, turn: self.turn },
                },
            ),
            ..self
        }
    }

    /// The store's answer to the pending write.
    pub open spec fn acknowledge(self, resolution: WriteResolution) -> (
        slot::SlotModel,
        Result<(), SettlementError>,
    ) {
        if self.pending is Some && resolution == WriteResolution::Durable(
            self.pending->0.encoded.revision,
        ) {
            (
                slot::SlotModel {
                    pending: None,
                    dirty: !evidence::same_turn(self.pending->0.encoded.turn, self.turn),
                    acknowledged: Some(self.pending->0.encoded),
                    error: match self.error {
                        Some(SettlementError::Storage(_)) => None,
                        other => other,
                    },
                    ..self
                },
                Ok(()),
            )
        } else {
            let error = SettlementError::Storage(
                match resolution {
                    WriteResolution::Unresolved(p) => p,
                    _ => SettlementProblem::VerificationFailed,
                },
            );
            (self.failing(error), Err(error))
        }
    }

    /// How the operation goes on once its snapshot was written or was refused.
    pub open spec fn after_write(
        self,
        next: AfterWrite,
        result: Result<(), SettlementError>,
    ) -> Move {
        match (next, result) {
            (AfterWrite::Report, r) => (self, finished(r)),
            (AfterWrite::Release, r) => self.release(r),
            (_, Err(e)) => (self, finished(Err(e))),
            (AfterWrite::Outcome, Ok(_)) => (self, finished(self.outcome())),
            (AfterWrite::DropRejected, Ok(_)) => (
                slot::SlotModel { rejected: None, ..self },
                finished(Ok(())),
            ),
            (AfterWrite::Retire(retire), Ok(_)) => self.retire(retire),
            (AfterWrite::ReceiptUnknown, Ok(_)) => (
                self.failing(SettlementError::ReceiptUnknown),
                finished(Ok(())),
            ),
            (AfterWrite::FinishResolve, Ok(_)) => self.finish_resolve(),
            (AfterWrite::Projected(id), Ok(_)) => (self.forget_attempt(id), finished(Ok(()))),
        }
    }

    /// Asks the cost gate to release the hold, remembering what came of the write.
    pub open spec fn release(self, before: Result<(), SettlementError>) -> Move {
        if self.claimed {
            (
                self,
                Step::Money {
                    call: MoneyCall::Release { known: self.turn.current().known_incurred },
                    settle: AfterMoney::Released { before },
                },
            )
        } else {
            (self, finished(Err(SettlementError::State)))
        }
    }

    /// Retires an acknowledged decision's capability, if one is to be retired.
    pub open spec fn retire(self, next: AfterRetire) -> Move {
        if !self.retirement_pending {
            self.after_retire(next, Ok(()))
        } else if !(self.validation is Valid && self.pending is None && !self.dirty && self.error
            is None && self.acknowledged_exactly() && self.turn.rounds.len() > 0
            && self.turn.current().phase is Settled && is_paid(self.turn.current().decision)) {
            self.after_retire(next, Err(SettlementError::AdmissionClosed))
        } else if !self.claimed {
            self.after_retire(next, Err(SettlementError::State))
        } else {
            (self, Step::Money { call: MoneyCall::Commit, settle: AfterMoney::Retired(next) })
        }
    }

    /// How the operation goes on after a retirement.
    pub open spec fn after_retire(
        self,
        next: AfterRetire,
        result: Result<(), SettlementError>,
    ) -> Move {
        match (next, result) {
            (AfterRetire::Report, r) => (self, finished(r)),
            (AfterRetire::ReceiptCommitted { final_answer }, r) => (
                self,
                Step::Finished { result: r, final_answer: final_answer && r is Ok },
            ),
            (AfterRetire::FinishResolve, Err(e)) => (self, finished(Err(e))),
            (AfterRetire::FinishResolve, Ok(_)) => {
                let s = self.recall_credit();
                (s, finished(s.outcome()))
            },
        }
    }

    /// Storage health alone does not discharge a credit obligation.
    pub open spec fn recall_credit(self) -> slot::SlotModel {
        if self.turn.rounds.len() == 0 {
            self
        } else {
            match self.turn.current().phase {
                SettlementPhase::Unresolved {
                    problem: SettlementProblem::ReleaseCreditPending,
                    ..
                } => self.failing(
                    SettlementError::CreditPending(SettlementProblem::ReleaseCreditPending),
                ),
                SettlementPhase::Unresolved {
                    problem: SettlementProblem::RollbackCreditPending,
                    ..
                } => self.failing(
                    SettlementError::CreditPending(SettlementProblem::RollbackCreditPending),
                ),
                _ => self,
            }
        }
    }

    /// The last part of resolving storage.
    pub open spec fn finish_resolve(self) -> Move {
        slot::SlotModel { rejected: None, ..self }.retire(AfterRetire::FinishResolve)
    }

    /// The store's answer while storage is being resolved.
    pub open spec fn resolved(self, resolution: WriteResolution) -> Move {
        let (s, result) = self.acknowledge(resolution);
        match result {
            Err(e) => (s, finished(Err(e))),
            Ok(_) => if s.dirty {
                s.persist(AfterWrite::FinishResolve)
            } else {
                s.finish_resolve()
            },
        }
    }

    /// This slot without the attempt of this identity.
    pub open spec fn forget_attempt(self, id: u128) -> slot::SlotModel {
        slot::SlotModel {
            projection_attempts: self.projection_attempts.filter(|a: ProjectionAttempt| a.id != id),
            ..self
        }
    }

    /// Records what a finalization or a rollback did to the account.
    pub open spec fn record_application(self, epoch: BudgetEpoch) -> slot::SlotModel {
        let view = self.view->0;
        let round = self.turn.current();
        let candidate = phase_candidate(round.phase);
        if view.attempt is None || view.application is None {
            self
        } else if view.status is RolledBack {
            let application = recorded_application(
                epoch,
                view,
                RollbackStatus::Applied(view.refund->0.applied_credit),
            );
            let s = self.with_current(
                evidence::RoundModel {
                    phase: SettlementPhase::Settled { application, receipt: None },
                    ..round
                },
            );
            slot::SlotModel {
                error: without_credit_pending(self.error),
                turn: evidence::TurnModel {
                    terminal: paid_terminal(round.decision, self.turn.terminal),
                    ..s.turn
                },
                dirty: true,
                ..s
            }
        } else if view.status is RollbackPending {
            let application = recorded_application(
                epoch,
                view,
                RollbackStatus::Applied(view.refund->0.applied_credit),
            );
            let s = self.with_current(
                evidence::RoundModel {
                    phase: SettlementPhase::Unresolved {
                        last_definite: DefinitePhase::Finalized,
                        problem: SettlementProblem::RollbackCreditPending,
                        application: Some(application),
                        candidate,
                    },
                    ..round
                },
            );
            slot::SlotModel {
                error: with_credit_pending(self.error, SettlementProblem::RollbackCreditPending),
                dirty: true,
                ..s
            }
        } else {
            let application = recorded_application(epoch, view, RollbackStatus::NotApplied);
            if application.reserved_credit.at_least(
                view.reserved.monus(application.requested_debit),
            ) {
                let s = self.with_current(
                    evidence::RoundModel {
                        phase: SettlementPhase::Finalized { application, candidate },
                        ..round
                    },
                );
                slot::SlotModel { dirty: true, ..s }
            } else {
                let s = self.with_current(
                    evidence::RoundModel {
                        phase: SettlementPhase::Unresolved {
                            last_definite: DefinitePhase::Finalized,
                            problem: SettlementProblem::ReleaseCreditPending,
                            application: Some(application),
                            candidate,
                        },
                        ..round
                    },
                );
                slot::SlotModel {
                    error: with_credit_pending(self.error, SettlementProblem::ReleaseCreditPending),
                    dirty: true,
                    ..s
                }
            }
        }
    }

    /// Records what a release credited back.
    pub open spec fn record_release(self, epoch: BudgetEpoch) -> slot::SlotModel {
        let view = self.view->0;
        let round = self.turn.current();
        if view.refund is None {
            self
        } else if view.status is Released {
            let s = self.with_current(
                evidence::RoundModel {
                    phase: SettlementPhase::Settled {
                        application: released_application(epoch, view),
                        receipt: None,
                    },
                    ..round
                },
            );
            slot::SlotModel { error: without_credit_pending(self.error), dirty: true, ..s }
        } else {
            let s = self.with_current(
                evidence::RoundModel {
                    phase: SettlementPhase::Unresolved {
                        last_definite: DefinitePhase::Finalized,
                        problem: SettlementProblem::ReleaseCreditPending,
                        application: Some(released_application(epoch, view)),
                        candidate: None,
                    },
                    ..round
                },
            );
            slot::SlotModel {
                error: with_credit_pending(self.error, SettlementProblem::ReleaseCreditPending),
                dirty: true,
                ..s
            }
        }
    }

    /// The cost gate's answer to a movement of money.
    pub open spec fn moved(
        self,
        settle: AfterMoney,
        result: Result<(), AdmissionError>,
        view: Result<OwnedBudgetView, AdmissionError>,
        epoch: BudgetEpoch,
    ) -> Move {
        match (settle, view) {
            (AfterMoney::Retired(next), Err(e)) => self.after_retire(
                next,
                Err(SettlementError::Budget(e)),
            ),
            (AfterMoney::Retired(next), Ok(v)) => {
                let s = slot::SlotModel { view: Some(v), ..self };
                match result {
                    Err(e) => s.failing(SettlementError::Budget(e)).after_retire(
                        next,
                        Err(SettlementError::Budget(e)),
                    ),
                    Ok(_) => if v.status is Committed {
                        slot::SlotModel { retirement_pending: false, ..s }.after_retire(
                            next,
                            Ok(()),
                        )
                    } else {
                        s.after_retire(next, Err(SettlementError::State))
                    },
                }
            },
            (_, Err(e)) => (self, finished(Err(SettlementError::Budget(e)))),
            (_, Ok(v)) => {
                let s = slot::SlotModel { view: Some(v), ..self };
                let recorded = if settle is Applied {
                    s.record_application(epoch)
                } else {
                    s.record_release(epoch)
                };
                match (result, settle) {
                    (Err(e), _) => (
                        recorded.failing(SettlementError::Budget(e)),
                        finished(Err(SettlementError::Budget(e))),
                    ),
                    (Ok(_), AfterMoney::Released { before: Err(e) }) => (
                        recorded,
                        finished(Err(e)),
                    ),
                    (Ok(_), _) => recorded.persist(AfterWrite::Outcome),
                }
            },
        }
    }

    /// The cost gate's answer to an admission. A verdict that precedes any hold
    /// discharges the attempt; any other failure stays uncertain.
    pub open spec fn admitted(self, reply: Result<Reservation, AdmissionError>) -> Move {
        match reply {
            Ok(reservation) => (
                slot::SlotModel { unclaimed: Some(reservation), ..self },
                Step::Claim,
            ),
            Err(e) => {
                let unused = e is BudgetExhausted || e is CapTokenInvalid || e
                    is ProviderNotAllowed || e is PolicyDenied;
                let s = if unused {
                    slot::SlotModel { admission_attempt: None, projection_ordinal: None, ..self }
                } else {
                    self.failing(SettlementError::Budget(e))
                };
                (s, finished(Err(SettlementError::Budget(e))))
            },
        }
    }

    /// The cost gate's answer to a claim. The expected holder is compared with the
    /// actual one before anything is written.
    pub open spec fn claim(
        self,
        reply: Result<Result<OwnedBudgetView, AdmissionError>, AdmissionError>,
    ) -> Move {
        match reply {
            Err(e) => (
                self.failing(SettlementError::Budget(e)),
                finished(Err(SettlementError::Budget(e))),
            ),
            Ok(Err(e)) => (
                slot::SlotModel { claimed: true, unclaimed: None, ..self },
                finished(Err(SettlementError::Budget(e))),
            ),
            Ok(Ok(view)) => {
                let attempt = self.admission_attempt->0;
                let round = opened_round(
                    attempt.request,
                    attempt.provider_request_id,
                    self.turn.rounds.len() as int,
                    self.turn.journal_owner is Some,
                    view,
                );
                slot::SlotModel {
                    claimed: true,
                    unclaimed: None,
                    validation: if self.expected_holder.0@ == view.holder.0@ {
                        ClaimValidation::Valid
                    } else {
                        ClaimValidation::Invalid
                    },
                    view: Some(view),
                    turn: evidence::TurnModel {
                        budget_holder: view.holder,
                        rounds: self.turn.rounds.push(round),
                        ..self.turn
                    },
                    ..self
                }.persist(AfterWrite::Outcome)
            },
        }
    }

    /// The event is an answer to the step.
    pub open spec fn answers(self, step: Step, event: Event) -> bool {
        match (step, event) {
            (Step::Encode { .. }, Event::Encoded(_)) => true,
            (Step::Write { .. }, Event::Written(_)) => true,
            (Step::Resolve, Event::Written(_)) => true,
            (Step::Rewrite, Event::Written(_)) => true,
            (Step::Admit, Event::Admitted(_)) => true,
            (Step::Claim, Event::Claimed(_)) => true,
            (Step::Money { settle, .. }, Event::Moved { view, .. }) => match view {
                Ok(v) => settle.admits(v),
                Err(_) => true,
            },
            _ => false,
        }
    }

    /// The slot waits for this step with what it needs for it.
    pub open spec fn awaits(self, step: Step) -> bool {
        match step {
            Step::Finished { .. } => false,
            Step::Encode { revision, then_do } => {
                &&& self.pending is None
                &&& revision == self.next_revision()
                &&& self.acknowledged is Some ==> self.acknowledged->0.revision < u64::MAX
                &&& then_do is Release ==> self.turn.rounds.len() > 0
            },
            Step::Write { then_do } => self.pending is Some && (then_do is Release
                ==> self.turn.rounds.len() > 0),
            Step::Resolve => self.pending is Some,
            Step::Rewrite => self.pending is Some,
            Step::Admit => self.admission_attempt is Some && !self.claimed
                && self.turn.rounds.len() < MAX_ROUNDS,
            Step::Claim => self.admission_attempt is Some && self.unclaimed is Some
                && !self.claimed && self.turn.rounds.len() < MAX_ROUNDS,
            Step::Money { .. } => self.claimed && self.turn.rounds.len() > 0,
        }
    }

    /// The operation is over, or the slot waits for its next step.
    pub open spec fn ready(self, step: Step) -> bool {
        step is Finished || self.awaits(step)
    }

    /// The next step, given the answer to the current one.
    pub open spec fn advance(self, step: Step, event: Event, epoch: BudgetEpoch) -> Move {
        match (step, event) {
            (Step::Encode { revision, then_do }, Event::Encoded(Ok(bytes))) => (
                self.encoded(revision, bytes@),
                Step::Write { then_do },
            ),
            (Step::Encode { then_do, .. }, Event::Encoded(Err(e))) => {
                let error = SettlementError::Invalid(slot::encoding_problem(e));
                self.failing(error).after_write(then_do, Err(error))
            },
            (Step::Write { then_do }, Event::Written(resolution)) => {
                let (s, result) = self.acknowledge(resolution);
                s.after_write(then_do, result)
            },
            (Step::Resolve, Event::Written(WriteResolution::DefinitelyNotApplied)) => (
                self,
                Step::Rewrite,
            ),
            (Step::Resolve, Event::Written(resolution)) => self.resolved(resolution),
            (Step::Rewrite, Event::Written(resolution)) => self.resolved(resolution),
            (Step::Admit, Event::Admitted(reply)) => self.admitted(reply),
            (Step::Claim, Event::Claimed(reply)) => self.claim(reply),
            (Step::Money { settle, .. }, Event::Moved { result, view }) => self.moved(
                settle,
                result,
                view,
                epoch,
            ),
            _ => (self, step),
        }
    }

    /// Selecting a decision installs the reserved ordinal and, where there is a
    /// journal, makes its entry owed.
    pub open spec fn allocate_projection(self) -> Result<slot::SlotModel, SettlementError> {
        if self.turn.rounds.len() == 0 {
            Err(SettlementError::State)
        } else if self.turn.current().commit_ordinal is Some {
            Ok(self)
        } else if self.projection_ordinal is None {
            Err(SettlementError::Invalid(SettlementProblem::Bounds))
        } else {
            Ok(
                self.with_current(
                    evidence::RoundModel {
                        commit_ordinal: self.projection_ordinal,
                        projection: if self.turn.journal_owner is Some {
                            JournalProjection::Pending(self.turn.current().settlement_id.0)
                        } else {
                            self.turn.current().projection
                        },
                        ..self.turn.current()
                    },
                ),
            )
        }
    }

    /// A continuation needs the preceding capability to be durably committed;
    /// its traces are then cleared.
    pub open spec fn cleared_for_next_round(self) -> slot::SlotModel {
        if self.turn.rounds.len() > 0 && self.turn.terminal is Open && self.view is Some
            && self.view->0.status is Committed && self.pending is None && !self.dirty
            && !self.retirement_pending && self.error is None {
            slot::SlotModel {
                claimed: false,
                view: None,
                admission_attempt: None,
                requested: None,
                finalize_started: false,
                ..self
            }
        } else {
            self
        }
    }

    /// Starts admitting a round. `ordinal` is the next free projection ordinal
    /// and `preflight` what the encoding of the turn with its new round found.
    pub open spec fn admit_round(
        self,
        attempt: AdmissionAttempt,
        preflight: Option<SettlementProblem>,
        ordinal: u64,
    ) -> Move {
        let s = self.cleared_for_next_round();
        if self.turn.rounds.len() >= MAX_ROUNDS {
            (self, finished(Err(SettlementError::Invalid(SettlementProblem::Bounds))))
        } else if !(s.turn.terminal is Open) || s.error is Some || s.claimed || s.unclaimed is Some
            || s.admission_attempt is Some {
            (s, finished(Err(SettlementError::State)))
        } else if attempt.request.cap_token_id != s.turn.cap_token_id {
            (s, finished(Err(SettlementError::IdentityMismatch)))
        } else if preflight is Some {
            (s, finished(Err(SettlementError::Invalid(preflight->0))))
        } else if ordinal == u64::MAX {
            (s, finished(Err(SettlementError::Invalid(SettlementProblem::Bounds))))
        } else {
            (
                slot::SlotModel {
                    projection_ordinal: Some(ordinal),
                    admission_attempt: Some(attempt),
                    ..s
                },
                Step::Admit,
            )
        }
    }

    /// Starts recording an observation. It is retained before anything is
    /// derived from it.
    pub open spec fn observe(self, observation: RejectedObservation) -> Move {
        let s = slot::SlotModel { rejected: Some(observation), dirty: true, ..self };
        let bounds = SettlementError::Invalid(SettlementProblem::Bounds);
        let corrupt = SettlementError::Invalid(SettlementProblem::Corrupt);
        let round = self.turn.current();
        if !(self.validation is Valid) || self.pending is Some || self.error is Some
            || self.rejected is Some {
            (self, finished(Err(SettlementError::AdmissionClosed)))
        } else if self.turn.rounds.len() == 0 || round.decision is Some {
            (self, finished(Err(SettlementError::State)))
        } else {
            match observation {
                RejectedObservation::Provider(provider) => s.observed(provider, round.tools),
                RejectedObservation::Tool(tool) => if label_len(tool.call_id) > MAX_METADATA_BYTES
                    || label_len(tool.name) > MAX_METADATA_BYTES || tool.ordinal
                    >= MAX_TOOLS_PER_ROUND {
                    (s.failing(bounds), finished(Err(bounds)))
                } else if tool.ordinal > round.tools.len() {
                    (s.failing(corrupt), finished(Err(corrupt)))
                } else {
                    s.observed(round.provider_evidence, with_tool(round.tools, tool))
                },
            }
        }
    }

    /// The current round with these observations, made durable.
    pub open spec fn observed(self, provider: ProviderEvidence, tools: Seq<ToolEvidence>) -> Move {
        let corrupt = SettlementError::Invalid(SettlementProblem::Corrupt);
        match known_cost(provider_cost(provider), tools) {
            None => (self.failing(corrupt), finished(Err(corrupt))),
            Some(known) => self.with_current(
                evidence::RoundModel {
                    provider_evidence: provider,
                    tools,
                    known_incurred: known,
                    phase: SettlementPhase::WorkObserved,
                    ..self.turn.current()
                },
            ).persist(AfterWrite::DropRejected),
        }
    }

    /// Nothing is pending, unwritten, failed or unvalidated.
    pub open spec fn settled_facts(self) -> bool {
        self.validation is Valid && self.error is None && self.pending is None && !self.dirty
    }

    /// Starts freezing a decision and the debit it asks for.
    pub open spec fn prepare(self, decision: Disposition, requested: CostTuple) -> Move {
        if !self.settled_facts() {
            (self, finished(Err(SettlementError::AdmissionClosed)))
        } else if self.turn.rounds.len() == 0 || self.turn.current().decision is Some
            || !self.turn.current().known_incurred.at_least(requested) {
            (self, finished(Err(SettlementError::State)))
        } else {
            match self.allocate_projection() {
                Err(e) => (self.failing(e), finished(Err(e))),
                Ok(s) => slot::SlotModel {
                    requested: Some(requested),
                    ..s.with_current(
                        evidence::RoundModel {
                            decision: Some(
                                match decision {
                                    Disposition::Refusal(c) => SettlementDecision::Refusal(c),
                                    Disposition::Infrastructure(c) =>
                                        SettlementDecision::InfrastructureFailure(c),
                                },
                            ),
                            phase: SettlementPhase::Prepared { candidate: None },
                            ..s.turn.current()
                        },
                    )
                }.persist(AfterWrite::Report),
            }
        }
    }

    /// Starts applying the frozen debit. Money moves only over facts that the
    /// store acknowledged exactly.
    pub open spec fn finalize(self) -> Move {
        if self.finalize_started {
            (self, finished(Err(SettlementError::State)))
        } else if !self.settled_facts() {
            (self, finished(Err(SettlementError::AdmissionClosed)))
        } else if self.turn.rounds.len() == 0 || !(self.turn.current().phase is Prepared)
            || !is_paid(self.turn.current().decision) {
            (self, finished(Err(SettlementError::State)))
        } else if !self.acknowledged_exactly() {
            (
                slot::SlotModel {
                    dirty: true,
                    error: Some(SettlementError::Invalid(SettlementProblem::InvalidTransition)),
                    ..self
                },
                finished(Err(SettlementError::AdmissionClosed)),
            )
        } else if self.requested is None {
            (self, finished(Err(SettlementError::State)))
        } else {
            let s = slot::SlotModel { finalize_started: true, ..self };
            if !self.claimed {
                (s, finished(Err(SettlementError::State)))
            } else {
                (
                    s,
                    Step::Money {
                        call: MoneyCall::Finalize {
                            known: self.turn.current().known_incurred,
                            requested: self.requested->0,
                        },
                        settle: AfterMoney::Applied,
                    },
                )
            }
        }
    }

    /// Starts settling a finalized decision without a receipt.
    pub open spec fn commit_disposition(self) -> Move {
        if !self.settled_facts() {
            (self, finished(Err(SettlementError::AdmissionClosed)))
        } else if self.retirement_pending {
            self.retire(AfterRetire::Report)
        } else if self.view is Some && self.view->0.status is Committed {
            (self, finished(Ok(())))
        } else if self.turn.rounds.len() == 0 {
            (self, finished(Err(SettlementError::State)))
        } else {
            match (self.turn.current().phase, self.turn.current().decision) {
                (
                    SettlementPhase::Finalized { application, .. },
                    Some(SettlementDecision::Refusal(_)),
                )
                | (
                    SettlementPhase::Finalized { application, .. },
                    Some(SettlementDecision::InfrastructureFailure(_)),
                ) => {
                    let s = self.with_current(
                        evidence::RoundModel {
                            phase: SettlementPhase::Settled { application, receipt: None },
                            ..self.turn.current()
                        },
                    );
                    slot::SlotModel {
                        turn: evidence::TurnModel {
                            terminal: paid_terminal(
                                self.turn.current().decision,
                                self.turn.terminal,
                            ),
                            ..s.turn
                        },
                        retirement_pending: true,
                        ..s
                    }.persist(AfterWrite::Retire(AfterRetire::Report))
                },
                _ => (self, finished(Err(SettlementError::State))),
            }
        }
    }

    /// Starts ending a turn whose last round is already paid for.
    pub open spec fn finish_refused(self, class: RefusalClass) -> Move {
        match self.outcome() {
            Err(e) => (self, finished(Err(e))),
            Ok(_) => if !(self.turn.terminal is Open) || self.pending is Some || self.dirty
                || self.turn.rounds.len() == 0 || !(self.turn.current().phase is Settled) {
                (self, finished(Err(SettlementError::State)))
            } else {
                slot::SlotModel {
                    turn: evidence::TurnModel {
                        terminal: TurnTerminal::Refused(class),
                        ..self.turn
                    },
                    ..self
                }.persist(AfterWrite::Report)
            },
        }
    }

    /// Starts freezing the exact signed receipt of a completed round.
    pub open spec fn prepare_receipt(
        self,
        candidate: ReceiptCandidate,
        final_answer: bool,
        requested: CostTuple,
    ) -> Move {
        match self.outcome() {
            Err(e) => (self, finished(Err(e))),
            Ok(_) => if self.pending is Some || self.dirty || !(self.validation is Valid) {
                (self, finished(Err(SettlementError::AdmissionClosed)))
            } else if self.turn.rounds.len() == 0 || self.turn.current().decision is Some
                || requested != self.turn.current().known_incurred {
                (self, finished(Err(SettlementError::State)))
            } else {
                match self.allocate_projection() {
                    Err(e) => (self, finished(Err(e))),
                    Ok(s) => slot::SlotModel {
                        requested: Some(requested),
                        ..s.with_current(
                            evidence::RoundModel {
                                decision: Some(SettlementDecision::Completion { final_answer }),
                                phase: SettlementPhase::Prepared { candidate: Some(candidate) },
                                ..s.turn.current()
                            },
                        )
                    }.persist(AfterWrite::Report),
                }
            },
        }
    }

    /// Starts recording that the receipt may or may not have been appended.
    pub open spec fn receipt_unresolved(self) -> Move {
        if self.turn.rounds.len() == 0 {
            (self, finished(Err(SettlementError::State)))
        } else {
            match self.turn.current().phase {
                SettlementPhase::Finalized { application, candidate } => {
                    let s = self.with_current(
                        evidence::RoundModel {
                            phase: SettlementPhase::Unresolved {
                                last_definite: DefinitePhase::Finalized,
                                problem: SettlementProblem::Io,
                                application: Some(application),
                                candidate,
                            },
                            ..self.turn.current()
                        },
                    );
                    slot::SlotModel {
                        turn: evidence::TurnModel {
                            terminal: TurnTerminal::Unresolved(SettlementProblem::Io),
                            ..s.turn
                        },
                        ..s
                    }.persist(AfterWrite::ReceiptUnknown)
                },
                _ => (self, finished(Err(SettlementError::State))),
            }
        }
    }

    /// Starts settling a round whose exact receipt the log acknowledged.
    pub open spec fn commit_receipt(self, binding: ReceiptBinding) -> Move {
        match self.outcome() {
            Err(e) => (self, finished(Err(e))),
            Ok(_) => if self.pending is Some || self.dirty {
                (self, finished(Err(SettlementError::AdmissionClosed)))
            } else if self.turn.rounds.len() == 0 {
                (self, finished(Err(SettlementError::State)))
            } else {
                match self.turn.current().phase {
                    SettlementPhase::Finalized { application, candidate: Some(candidate) } =>
                        if binding.receipt_id != candidate.receipt_id || binding.jws_digest
                            != candidate.jws_digest {
                            (self, finished(Err(SettlementError::IdentityMismatch)))
                        } else {
                            match self.turn.current().decision {
                                Some(SettlementDecision::Completion { final_answer }) => {
                                    let s = self.with_current(
                                        evidence::RoundModel {
                                            phase: SettlementPhase::Settled {
                                                application,
                                                receipt: Some(binding),
                                            },
                                            ..self.turn.current()
                                        },
                                    );
                                    slot::SlotModel {
                                        turn: evidence::TurnModel {
                                            terminal: if final_answer {
                                                TurnTerminal::FinalAnswer(binding.receipt_id)
                                            } else {
                                                self.turn.terminal
                                            },
                                            ..s.turn
                                        },
                                        retirement_pending: true,
                                        ..s
                                    }.persist(
                                        AfterWrite::Retire(
                                            AfterRetire::ReceiptCommitted { final_answer },
                                        ),
                                    )
                                },
                                _ => (self, finished(Err(SettlementError::State))),
                            }
                        },
                    _ => (self, finished(Err(SettlementError::State))),
                }
            },
        }
    }

    /// An error under which no cancellation may be selected.
    pub open spec fn quarantined(self) -> bool {
        match self.error {
            Some(SettlementError::Invalid(_)) => true,
            Some(SettlementError::Storage(p)) => p is InvalidTransition || p is Corrupt || p
                is Bounds,
            _ => false,
        }
    }

    /// Starts refunding the hold: a cancellation, or the given failure. A
    /// decision that was selected before is never relabelled.
    pub open spec fn refund(self, failure: Option<InfrastructureFailureClass>) -> Move {
        let round = self.turn.current();
        if self.quarantined() {
            (self, finished(Err(SettlementError::AdmissionClosed)))
        } else if self.turn.rounds.len() == 0 {
            (self, finished(Err(SettlementError::State)))
        } else if round.decision == Some(SettlementDecision::Cancelled) {
            match self.outcome() {
                Err(e) => (self, finished(Err(e))),
                Ok(_) => if self.acknowledged_exactly() && self.pending is None && !self.dirty && (
                round.phase matches SettlementPhase::Settled { receipt: None, .. }) && self.view
                    is Some && self.view->0.status is Released {
                    (self, finished(Ok(())))
                } else {
                    (
                        slot::SlotModel {
                            dirty: self.dirty || !self.acknowledged_exactly(),
                            error: Some(
                                SettlementError::Invalid(SettlementProblem::InvalidTransition),
                            ),
                            ..self
                        },
                        finished(Err(SettlementError::AdmissionClosed)),
                    )
                },
            }
        } else if round.decision == Some(SettlementDecision::Completion { final_answer: false })
            && round.phase is Settled && self.turn.terminal is Open {
            slot::SlotModel {
                turn: evidence::TurnModel { terminal: TurnTerminal::Cancelled, ..self.turn },
                ..self
            }.persist(AfterWrite::Report)
        } else if round.decision is Some {
            (self, finished(Err(SettlementError::State)))
        } else {
            match self.allocate_projection() {
                Err(e) => (self.failing(e), finished(Err(e))),
                Ok(s) => s.refund_selected(failure).persist(AfterWrite::Release),
            }
        }
    }

    /// The current round with a refund selected and its open work interrupted.
    pub open spec fn refund_selected(
        self,
        failure: Option<InfrastructureFailureClass>,
    ) -> slot::SlotModel {
        let round = self.turn.current();
        let s = self.with_current(
            evidence::RoundModel {
                decision: Some(
                    match failure {
                        Some(c) => SettlementDecision::InfrastructureFailure(c),
                        None => SettlementDecision::Cancelled,
                    },
                ),
                provider_evidence: interrupted_provider(round.provider_evidence),
                tools: interrupted_tools(round.tools),
                phase: SettlementPhase::Prepared { candidate: None },
                ..round
            },
        );
        slot::SlotModel {
            turn: evidence::TurnModel {
                terminal: match failure {
                    Some(c) => TurnTerminal::Failed(c),
                    None => TurnTerminal::Cancelled,
                },
                ..s.turn
            },
            ..s
        }
    }

    /// Starts paying the rest of a release or of a rollback.
    pub open spec fn retry_refund(self) -> Move {
        if self.pending is Some || self.dirty {
            (self, finished(Err(SettlementError::AdmissionClosed)))
        } else if self.view is None || !(self.view->0.status is ReleasePending
            || self.view->0.status is RollbackPending) || self.view->0.attempt is None
            || !self.claimed {
            (self, finished(Err(SettlementError::State)))
        } else if self.view->0.status is RollbackPending {
            (self, Step::Money { call: MoneyCall::Rollback, settle: AfterMoney::Applied })
        } else {
            (
                self,
                Step::Money {
                    call: MoneyCall::Release { known: self.view->0.attempt->0.known_incurred },
                    settle: AfterMoney::Credited,
                },
            )
        }
    }

    /// Starts finding out what became of the pending write.
    pub open spec fn resolve_storage(self) -> Move {
        if self.pending is None && self.retirement_pending {
            self.retire(AfterRetire::Report)
        } else if self.pending is None {
            (self, finished(Err(SettlementError::State)))
        } else {
            (self, Step::Resolve)
        }
    }

    /// Starts a full compensation of a finalized round that is not settled.
    pub open spec fn compensate(self) -> Move {
        if self.pending is Some || self.dirty {
            (self, finished(Err(SettlementError::AdmissionClosed)))
        } else if self.view is None || !(self.view->0.status is Finalized)
            || self.turn.current().phase is Settled || !self.claimed {
            (self, finished(Err(SettlementError::State)))
        } else {
            (self, Step::Money { call: MoneyCall::Rollback, settle: AfterMoney::Applied })
        }
    }

    /// The application to project for a round, if it is settled far enough.
    pub open spec fn projectable(round: evidence::RoundModel) -> Option<DebitApplication> {
        match round.phase {
            SettlementPhase::Settled { application, .. } => Some(application),
            SettlementPhase::Finalized { application, .. } => if round.decision matches Some(
                SettlementDecision::Completion { .. },
            ) {
                None
            } else {
                Some(application)
            },
            _ => None,
        }
    }

    /// Starts projecting a round to the journal: the entry to append, or
    /// `None` where the round is not ready. The attempt is retained first.
    pub open spec fn project(
        self,
        ordinal: int,
        id: u128,
        journal: SessionId,
    ) -> (slot::SlotModel, Result<Option<JournalEntry>, SettlementError>) {
        let round = self.turn.rounds[ordinal];
        match self.outcome() {
            Err(e) => (self, Err(e)),
            Ok(_) => if self.pending is Some || self.dirty {
                (self, Err(SettlementError::AdmissionClosed))
            } else if self.turn.journal_owner != Some(journal) {
                (self, Err(SettlementError::IdentityMismatch))
            } else if self.attempted(id) {
                (self, Err(SettlementError::ProjectionUnknown))
            } else {
                match Self::projectable(round) {
                    None => (self, Ok(None)),
                    Some(application) => {
                        let entry = projected_entry(self.turn, round, application);
                        (
                            slot::SlotModel {
                                projection_attempts: self.projection_attempts.push(
                                    ProjectionAttempt { id, entry },
                                ),
                                ..self
                            },
                            Ok(Some(entry)),
                        )
                    },
                }
            },
        }
    }

    /// An attempt of this identity is outstanding.
    pub open spec fn attempted(self, id: u128) -> bool {
        exists|i: int|
            0 <= i < self.projection_attempts.len() && (#[trigger] self.projection_attempts[i]).id
                == id
    }

    /// The journal's answer to an append.
    pub open spec fn projected(self, ordinal: int, id: u128, outcome: ProjectionOutcome) -> Move {
        if !(0 <= ordinal < self.turn.rounds.len()) || self.turn.rounds[ordinal].projection
            != JournalProjection::Pending(id) {
            (self, finished(Err(SettlementError::State)))
        } else {
            match outcome {
                ProjectionOutcome::Durable => slot::SlotModel {
                    turn: evidence::TurnModel {
                        rounds: self.turn.rounds.update(
                            ordinal,
                            evidence::RoundModel {
                                projection: JournalProjection::Acknowledged(id),
                                ..self.turn.rounds[ordinal]
                            },
                        ),
                        ..self.turn
                    },
                    ..self
                }.persist(AfterWrite::Projected(id)),
                ProjectionOutcome::DefinitelyNotApplied => (
                    self.forget_attempt(id),
                    finished(Err(SettlementError::ProjectionNotApplied)),
                ),
                ProjectionOutcome::Unknown => (
                    self.failing(SettlementError::ProjectionUnknown),
                    finished(Err(SettlementError::ProjectionUnknown)),
                ),
            }
        }
    }
}

/// What became of a journal append.
#[derive(Clone, Copy, Debug, PartialEq, Eq, Structural)]
pub enum ProjectionOutcome {
    Durable,
    DefinitelyNotApplied,
    Unknown,
}

/// The length of a label in bytes.
pub open spec fn label_len(label: String) -> nat {
    vstd::utf8::encode_utf8(label@).len()
}

} // verus!
