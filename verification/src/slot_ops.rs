//! The executable operations of a settlement slot.
use crate::cost::{positive_difference, CostTuple};
use crate::evidence;
use crate::evidence::{
    copy_candidate, DebitApplication, DefinitePhase, InfrastructureFailureClass, JournalProjection,
    OwnedBudgetStatus, OwnedBudgetView, ProviderEvidence, ReceiptBinding, ReceiptCandidate,
    RefusalClass, Reservation, RollbackStatus, RoundObligation, SettlementDecision,
    SettlementPhase, SettlementProblem, ToolEffect, ToolEvidence, TurnTerminal, WriteResolution,
};
use crate::ids::{BudgetEpoch, SessionId, SettlementId};
use crate::slot;
use crate::slot::{
    encoding_error, projection_reason, AdmissionAttempt, AdmissionError, AfterMoney, AfterRetire,
    AfterWrite, ClaimValidation, Disposition, EncodedSnapshot, Event, JournalEntry, MoneyCall,
    Pending, ProjectionAttempt, RejectedObservation, SettlementError, Slot, Step,
    MAX_METADATA_BYTES, MAX_ROUNDS, MAX_TOOLS_PER_ROUND,
};
use crate::slot_model;
use crate::slot_model::ProjectionOutcome;
use vstd::prelude::*;

verus! {

fn finished(result: Result<(), SettlementError>) -> (step: Step)
    ensures
        step == slot_model::finished(result),
{
    Step::Finished { result, final_answer: false }
}

fn label_len(label: &String) -> (n: usize)
    ensures
        n == slot_model::label_len(*label),
{
    label.as_str().as_bytes().len()
}

fn is_paid(decision: Option<SettlementDecision>) -> (r: bool)
    ensures
        r == slot_model::is_paid(decision),
{
    match decision {
        Some(SettlementDecision::Refusal(_)) => true,
        Some(SettlementDecision::InfrastructureFailure(_)) => true,
        Some(SettlementDecision::Completion { .. }) => true,
        _ => false,
    }
}

fn phase_candidate(phase: &SettlementPhase) -> (r: Option<ReceiptCandidate>)
    ensures
        r == slot_model::phase_candidate(*phase),
{
    match phase {
        SettlementPhase::Prepared { candidate } => copy_candidate(candidate),
        SettlementPhase::Finalized { candidate, .. } => copy_candidate(candidate),
        SettlementPhase::Unresolved { candidate, .. } => copy_candidate(candidate),
        _ => None,
    }
}

fn paid_terminal(decision: Option<SettlementDecision>, otherwise: TurnTerminal) -> (r: TurnTerminal)
    ensures
        r == slot_model::paid_terminal(decision, otherwise),
{
    match decision {
        Some(SettlementDecision::Refusal(c)) => TurnTerminal::Refused(c),
        Some(SettlementDecision::InfrastructureFailure(c)) => TurnTerminal::Failed(c),
        _ => otherwise,
    }
}

fn with_credit_pending(error: Option<SettlementError>, problem: SettlementProblem) -> (r: Option<
    SettlementError,
>)
    ensures
        r == slot_model::with_credit_pending(error, problem),
{
    match error {
        Some(SettlementError::Storage(p)) => Some(SettlementError::Storage(p)),
        _ => Some(SettlementError::CreditPending(problem)),
    }
}

fn without_credit_pending(error: Option<SettlementError>) -> (r: Option<SettlementError>)
    ensures
        r == slot_model::without_credit_pending(error),
{
    match error {
        Some(SettlementError::CreditPending(_)) => None,
        other => other,
    }
}

fn interrupted_provider(provider: ProviderEvidence) -> (r: ProviderEvidence)
    ensures
        r == slot_model::interrupted_provider(provider),
{
    match provider {
        ProviderEvidence::Observed { usage, cost, provenance, finished, interrupted } => {
            if finished {
                provider
            } else {
                ProviderEvidence::Observed {
                    usage,
                    cost,
                    provenance,
                    finished: false,
                    interrupted: true,
                }
            }
        },
        other => other,
    }
}

fn interrupted_tools(tools: &Vec<ToolEvidence>) -> (r: Vec<ToolEvidence>)
    ensures
        r@ == slot_model::interrupted_tools(tools@),
{
    let mut r: Vec<ToolEvidence> = Vec::new();
    let mut i: usize = 0;
    while i < tools.len()
        invariant
            i <= tools.len(),
            r.len() == i,
            forall|j: int|
                0 <= j < i ==> #[trigger] r@[j] == slot_model::interrupted_tool(tools@[j]),
        decreases tools.len() - i,
    {
        let mut tool = tools[i].clone();
        if let ToolEffect::DispatchIntent = tool.effect {
            tool.effect = ToolEffect::InterruptedUnknown;
        }
        r.push(tool);
        i += 1;
    }
    assert(r@ =~= slot_model::interrupted_tools(tools@));
    r
}

fn known_cost(base: CostTuple, tools: &Vec<ToolEvidence>) -> (r: Option<CostTuple>)
    ensures
        r == slot_model::known_cost(base, tools@),
{
    let mut known = base;
    let mut i: usize = 0;
    while i < tools.len()
        invariant
            i <= tools.len(),
            slot_model::known_cost(base, tools@.take(i as int)) == Some(known),
        decreases tools.len() - i,
    {
        proof {
            assert(tools@.take(i + 1).drop_last() =~= tools@.take(i as int));
            lemma_known_cost_prefix(base, tools@, i + 1);
        }
        if let ToolEffect::Completed { cost, .. } = tools[i].effect {
            match known.checked_add(&cost) {
                Some(sum) => {
                    known = sum;
                },
                None => {
                    return None;
                },
            }
        }
        i += 1;
    }
    assert(tools@.take(tools.len() as int) =~= tools@);
    Some(known)
}

/// A sum that overflows on a prefix overflows.
proof fn lemma_known_cost_prefix(base: CostTuple, tools: Seq<ToolEvidence>, n: int)
    requires
        0 <= n <= tools.len(),
    ensures
        slot_model::known_cost(base, tools.take(n)) is None ==> slot_model::known_cost(
            base,
            tools,
        ) is None,
    decreases tools.len(),
{
    if n < tools.len() {
        assert(tools.drop_last().take(n) =~= tools.take(n));
        lemma_known_cost_prefix(base, tools.drop_last(), n);
    } else {
        assert(tools.take(n) =~= tools);
    }
}

impl Slot {
    /// The facts that hold of every slot between operations.
    pub open spec fn wf(&self) -> bool {
        self@.wf()
    }

    /// The retained error, or else a failed validation.
    pub fn outcome(&self) -> (r: Result<(), SettlementError>)
        ensures
            r == self@.outcome(),
    {
        match self.error {
            Some(e) => Err(e),
            None => {
                if self.validation == ClaimValidation::Invalid {
                    Err(SettlementError::IdentityMismatch)
                } else {
                    Ok(())
                }
            },
        }
    }

    /// Whether the slot has never been used.
    pub fn unused(&self) -> (r: bool)
        ensures
            r == self@.unused(),
    {
        self.admission_attempt.is_none() && !self.claimed && self.unclaimed.is_none()
            && self.view.is_none() && self.turn.rounds.len() == 0 && self.error.is_none()
            && self.acknowledged.is_none() && self.pending.is_none() && !self.dirty
            && self.rejected.is_none()
    }

    /// Whether the store acknowledged exactly the turn as it stands.
    pub fn acknowledged_exactly(&self) -> (r: bool)
        ensures
            r == self@.acknowledged_exactly(),
    {
        match &self.acknowledged {
            Some(s) => s.turn.same(&self.turn),
            None => false,
        }
    }

    /// Whether this slot leaves the way free for new work.
    pub fn quiet(&self) -> (r: bool)
        ensures
            r == self@.quiet(),
    {
        self.outcome().is_ok() && self.projection_attempts.len() == 0 && self.pending.is_none()
            && !self.dirty && !self.retirement_pending && self.unclaimed.is_none()
    }

    fn selected_in(&self, snapshot: &EncodedSnapshot) -> (r: bool)
        requires
            self.turn.rounds@.len() > 0,
        ensures
            r == self@.selected_in(snapshot@),
    {
        let n: usize = snapshot.turn.rounds.len();
        if n == 0 {
            return false;
        }
        let theirs = &snapshot.turn.rounds[n - 1];
        let ours = &self.turn.rounds[self.turn.rounds.len() - 1];
        theirs.settlement_id == ours.settlement_id && theirs.decision == ours.decision
            && theirs.commit_ordinal.is_some() && theirs.commit_ordinal == ours.commit_ordinal
    }

    /// Whether the current round's decision has a continuation of its own.
    pub fn disposition_continuation(&self) -> (r: bool)
        ensures
            r == self@.disposition_continuation(),
    {
        let n: usize = self.turn.rounds.len();
        if n == 0 {
            return false;
        }
        match self.turn.rounds[n - 1].decision {
            Some(SettlementDecision::Cancelled) => match &self.view {
                Some(v) => (v.status == OwnedBudgetStatus::Released || v.status
                    == OwnedBudgetStatus::ReleasePending) && v.refund.is_some(),
                None => false,
            },
            None => false,
            _ => {
                let durable = match &self.acknowledged {
                    Some(s) => self.selected_in(s),
                    None => false,
                };
                let retained = match &self.pending {
                    Some(p) => self.selected_in(&p.encoded),
                    None => false,
                };
                durable || retained
            },
        }
    }

    /// Whether this slot may leave the registry.
    pub fn removable(&self) -> (r: bool)
        ensures
            r == self@.removable(),
    {
        if !(self.outcome().is_ok() && self.pending.is_none() && !self.dirty
            && !self.retirement_pending && self.unclaimed.is_none()) {
            return false;
        }
        match &self.view {
            Some(v) => {
                if !(v.status == OwnedBudgetStatus::Released || v.status
                    == OwnedBudgetStatus::RolledBack || v.status == OwnedBudgetStatus::Committed) {
                    return false;
                }
            },
            None => {
                if !self.unused() {
                    return false;
                }
            },
        }
        let mut i: usize = 0;
        while i < self.turn.rounds.len()
            invariant
                i <= self.turn.rounds.len(),
                forall|j: int|
                    0 <= j < i ==> !((#[trigger] self@.turn.rounds[j]).projection is Pending),
            decreases self.turn.rounds.len() - i,
        {
            if let JournalProjection::Pending(_) = self.turn.rounds[i].projection {
                assert(self@.turn.rounds[i as int].projection is Pending);
                return false;
            }
            i += 1;
        }
        true
    }

    fn persist(&mut self, next: AfterWrite) -> (step: Step)
        requires
            old(self).turn.rounds@.len() > 0 || !(next is Release),
        ensures
            (final(self)@, step) == old(self)@.persist(next),
    {
        self.dirty = true;
        if self.pending.is_some() {
            let error = match self.error {
                Some(e) => e,
                None => SettlementError::Storage(SettlementProblem::Unhealthy),
            };
            return self.after_write(next, Err(error));
        }
        let previous: u64 = match &self.acknowledged {
            Some(s) => s.revision,
            None => 0,
        };
        if previous == u64::MAX {
            return self.after_write(
                next,
                Err(SettlementError::Invalid(SettlementProblem::Bounds)),
            );
        }
        Step::Encode { revision: previous + 1, then_do: next }
    }

    fn after_write(&mut self, next: AfterWrite, result: Result<(), SettlementError>) -> (step: Step)
        requires
            old(self).turn.rounds@.len() > 0 || !(next is Release),
        ensures
            (final(self)@, step) == old(self)@.after_write(next, result),
    {
        match next {
            AfterWrite::Report => {
                return finished(result);
            },
            AfterWrite::Release => {
                return self.release(result);
            },
            _ => {},
        }
        if let Err(e) = result {
            return finished(Err(e));
        }
        match next {
            AfterWrite::Outcome => finished(self.outcome()),
            AfterWrite::DropRejected => {
                self.rejected = None;
                finished(Ok(()))
            },
            AfterWrite::Retire(retire) => self.retire(retire),
            AfterWrite::ReceiptUnknown => {
                self.error = Some(SettlementError::ReceiptUnknown);
                finished(Ok(()))
            },
            AfterWrite::FinishResolve => self.finish_resolve(),
            AfterWrite::Projected(id) => {
                self.forget_attempt(id);
                finished(Ok(()))
            },
            AfterWrite::Report | AfterWrite::Release => finished(Ok(())),
        }
    }

    fn release(&mut self, before: Result<(), SettlementError>) -> (step: Step)
        requires
            old(self).turn.rounds@.len() > 0,
        ensures
            (final(self)@, step) == old(self)@.release(before),
    {
        if self.claimed {
            let known = self.turn.rounds[self.turn.rounds.len() - 1].known_incurred;
            Step::Money {
                call: MoneyCall::Release { known },
                settle: AfterMoney::Released { before },
            }
        } else {
            finished(Err(SettlementError::State))
        }
    }

    fn retire(&mut self, next: AfterRetire) -> (step: Step)
        ensures
            (final(self)@, step) == old(self)@.retire(next),
    {
        if !self.retirement_pending {
            return self.after_retire(next, Ok(()));
        }
        let n: usize = self.turn.rounds.len();
        let ready = if !(self.validation == ClaimValidation::Valid && self.pending.is_none()
            && !self.dirty && self.error.is_none() && n > 0) {
            false
        } else {
            let settled = match self.turn.rounds[n - 1].phase {
                SettlementPhase::Settled { .. } => true,
                _ => false,
            };
            settled && is_paid(self.turn.rounds[n - 1].decision) && self.acknowledged_exactly()
        };
        if !ready {
            return self.after_retire(next, Err(SettlementError::AdmissionClosed));
        }
        if !self.claimed {
            return self.after_retire(next, Err(SettlementError::State));
        }
        Step::Money { call: MoneyCall::Commit, settle: AfterMoney::Retired(next) }
    }

    fn after_retire(&mut self, next: AfterRetire, result: Result<(), SettlementError>) -> (step:
        Step)
        ensures
            (final(self)@, step) == old(self)@.after_retire(next, result),
    {
        match next {
            AfterRetire::Report => finished(result),
            AfterRetire::ReceiptCommitted { final_answer } => Step::Finished {
                result,
                final_answer: final_answer && result.is_ok(),
            },
            AfterRetire::FinishResolve => match result {
                Err(e) => finished(Err(e)),
                Ok(_) => {
                    self.recall_credit();
                    finished(self.outcome())
                },
            },
        }
    }

    fn recall_credit(&mut self)
        ensures
            final(self)@ == old(self)@.recall_credit(),
    {
        let n: usize = self.turn.rounds.len();
        if n == 0 {
            return;
        }
        if let SettlementPhase::Unresolved { problem, .. } = self.turn.rounds[n - 1].phase {
            match problem {
                SettlementProblem::ReleaseCreditPending
                | SettlementProblem::RollbackCreditPending => {
                    self.error = Some(SettlementError::CreditPending(problem));
                },
                _ => {},
            }
        }
    }

    fn finish_resolve(&mut self) -> (step: Step)
        ensures
            (final(self)@, step) == old(self)@.finish_resolve(),
    {
        self.rejected = None;
        self.retire(AfterRetire::FinishResolve)
    }

    fn acknowledge(&mut self, resolution: WriteResolution) -> (r: Result<(), SettlementError>)
        ensures
            (final(self)@, r) == old(self)@.acknowledge(resolution),
    {
        let matched = match (&self.pending, resolution) {
            (Some(p), WriteResolution::Durable(revision)) => p.encoded.revision == revision,
            _ => false,
        };
        if matched {
            if let Some(p) = self.pending.take() {
                self.dirty = !p.encoded.turn.same(&self.turn);
                self.acknowledged = Some(p.encoded);
                if let Some(SettlementError::Storage(_)) = self.error {
                    self.error = None;
                }
            }
            return Ok(());
        }
        let problem = match resolution {
            WriteResolution::Unresolved(p) => p,
            _ => SettlementProblem::VerificationFailed,
        };
        let error = SettlementError::Storage(problem);
        self.error = Some(error);
        Err(error)
    }

    fn resolved(&mut self, resolution: WriteResolution) -> (step: Step)
        ensures
            (final(self)@, step) == old(self)@.resolved(resolution),
    {
        match self.acknowledge(resolution) {
            Err(e) => finished(Err(e)),
            Ok(_) => {
                if self.dirty {
                    self.persist(AfterWrite::FinishResolve)
                } else {
                    self.finish_resolve()
                }
            },
        }
    }

    fn forget_attempt(&mut self, id: u128)
        ensures
            final(self)@ == old(self)@.forget_attempt(id),
    {
        let mut kept: Vec<ProjectionAttempt> = Vec::new();
        let mut i: usize = 0;
        let ghost p = |a: ProjectionAttempt| a.id != id;
        while i < self.projection_attempts.len()
            invariant
                i <= self.projection_attempts.len(),
                *self == *old(self),
                p == (|a: ProjectionAttempt| a.id != id),
                kept@ == self.projection_attempts@.take(i as int).filter(p),
            decreases self.projection_attempts.len() - i,
        {
            proof {
                reveal(Seq::filter);
                assert(self.projection_attempts@.take(i + 1).drop_last()
                    =~= self.projection_attempts@.take(i as int));
            }
            if self.projection_attempts[i].id != id {
                kept.push(self.projection_attempts[i]);
            }
            i += 1;
        }
        assert(self.projection_attempts@.take(self.projection_attempts.len() as int)
            =~= self.projection_attempts@);
        self.projection_attempts = kept;
    }
}

impl AfterMoney {
    /// Whether the view can be recorded as what the movement did.
    pub fn is_admitted(&self, view: &OwnedBudgetView) -> (r: bool)
        ensures
            r == self.admits(*view),
    {
        match self {
            AfterMoney::Applied => view.has_refunded_rollback(),
            AfterMoney::Credited => view.has_bounded_credit(),
            AfterMoney::Released { .. } => view.has_bounded_credit(),
            AfterMoney::Retired(_) => true,
        }
    }
}

impl Slot {
    fn record_application(&mut self, epoch: BudgetEpoch)
        requires
            old(self).turn.rounds@.len() > 0,
            old(self).view is Some,
            evidence::refunded_rollback(old(self).view->0),
        ensures
            final(self)@ == old(self)@.record_application(epoch),
    {
        let n: usize = self.turn.rounds.len();
        let mut round = self.turn.rounds[n - 1].clone();
        if let Some(view) = &self.view {
            if let (Some(attempt), Some(actual)) = (view.attempt, view.application) {
                let candidate = phase_candidate(&round.phase);
                let mut application = DebitApplication {
                    epoch,
                    requested_debit: attempt.requested_debit,
                    applied_debit: actual.applied_debit,
                    reserved_credit: actual.reserved_credit,
                    additional_debit: actual.additional_debit,
                    shortfall: actual.shortfall,
                    rollback: RollbackStatus::NotApplied,
                };
                let complete_credit = application.reserved_credit.covers(
                    &positive_difference(view.reserved, application.requested_debit),
                );
                let status = view.status;
                if status == OwnedBudgetStatus::RollbackPending || status
                    == OwnedBudgetStatus::RolledBack {
                    if let Some(refund) = view.refund {
                        application.rollback = RollbackStatus::Applied(refund.applied_credit);
                    }
                    if status == OwnedBudgetStatus::RolledBack {
                        self.error = without_credit_pending(self.error);
                        self.turn.terminal = paid_terminal(round.decision, self.turn.terminal);
                        round.phase = SettlementPhase::Settled { application, receipt: None };
                    } else {
                        self.error =
                        with_credit_pending(
                            self.error,
                            SettlementProblem::RollbackCreditPending,
                        );
                        round.phase =
                        SettlementPhase::Unresolved {
                            last_definite: DefinitePhase::Finalized,
                            problem: SettlementProblem::RollbackCreditPending,
                            application: Some(application),
                            candidate,
                        };
                    }
                } else if complete_credit {
                    round.phase = SettlementPhase::Finalized { application, candidate };
                } else {
                    self.error =
                    with_credit_pending(self.error, SettlementProblem::ReleaseCreditPending);
                    round.phase =
                    SettlementPhase::Unresolved {
                        last_definite: DefinitePhase::Finalized,
                        problem: SettlementProblem::ReleaseCreditPending,
                        application: Some(application),
                        candidate,
                    };
                }
                self.turn.set_current(round);
                self.dirty = true;
            }
        }
    }

    fn record_release(&mut self, epoch: BudgetEpoch)
        requires
            old(self).turn.rounds@.len() > 0,
            old(self).view is Some,
            evidence::bounded_credit(old(self).view->0),
        ensures
            final(self)@ == old(self)@.record_release(epoch),
    {
        let n: usize = self.turn.rounds.len();
        let mut round = self.turn.rounds[n - 1].clone();
        if let Some(view) = &self.view {
            if let Some(refund) = view.refund {
                let applied_debit = match view.reserved.checked_sub(&refund.applied_credit) {
                    Some(debit) => debit,
                    None => CostTuple::zero(),
                };
                let application = DebitApplication {
                    epoch,
                    requested_debit: CostTuple::zero(),
                    applied_debit,
                    reserved_credit: refund.applied_credit,
                    additional_debit: CostTuple::zero(),
                    shortfall: CostTuple::zero(),
                    rollback: RollbackStatus::NotApplied,
                };
                if view.status == OwnedBudgetStatus::Released {
                    self.error = without_credit_pending(self.error);
                    round.phase = SettlementPhase::Settled { application, receipt: None };
                } else {
                    self.error =
                    with_credit_pending(self.error, SettlementProblem::ReleaseCreditPending);
                    round.phase =
                    SettlementPhase::Unresolved {
                        last_definite: DefinitePhase::Finalized,
                        problem: SettlementProblem::ReleaseCreditPending,
                        application: Some(application),
                        candidate: None,
                    };
                }
                self.turn.set_current(round);
                self.dirty = true;
            }
        }
    }

    fn moved(
        &mut self,
        settle: AfterMoney,
        result: Result<(), AdmissionError>,
        view: Result<OwnedBudgetView, AdmissionError>,
        epoch: BudgetEpoch,
    ) -> (step: Step)
        requires
            old(self).turn.rounds@.len() > 0,
            view is Ok ==> settle.admits(view->Ok_0),
        ensures
            (final(self)@, step) == old(self)@.moved(settle, result, view, epoch),
    {
        let view = match view {
            Ok(v) => v,
            Err(e) => {
                let error = SettlementError::Budget(e);
                return match settle {
                    AfterMoney::Retired(next) => self.after_retire(next, Err(error)),
                    _ => finished(Err(error)),
                };
            },
        };
        let committed = view.status == OwnedBudgetStatus::Committed;
        self.view = Some(view);
        match settle {
            AfterMoney::Retired(next) => {
                if let Err(e) = result {
                    let error = SettlementError::Budget(e);
                    self.error = Some(error);
                    return self.after_retire(next, Err(error));
                }
                if committed {
                    self.retirement_pending = false;
                    self.after_retire(next, Ok(()))
                } else {
                    self.after_retire(next, Err(SettlementError::State))
                }
            },
            AfterMoney::Applied => {
                self.record_application(epoch);
                self.persist_recorded(result)
            },
            AfterMoney::Credited => {
                self.record_release(epoch);
                self.persist_recorded(result)
            },
            AfterMoney::Released { before } => {
                self.record_release(epoch);
                if let (Ok(_), Err(e)) = (result, before) {
                    return finished(Err(e));
                }
                self.persist_recorded(result)
            },
        }
    }

    fn persist_recorded(&mut self, result: Result<(), AdmissionError>) -> (step: Step)
        ensures
            (final(self)@, step) == (match result {
                Ok(_) => old(self)@.persist(AfterWrite::Outcome),
                Err(e) => (
                    old(self)@.failing(SettlementError::Budget(e)),
                    slot_model::finished(Err(SettlementError::Budget(e))),
                ),
            }),
    {
        match result {
            Ok(_) => self.persist(AfterWrite::Outcome),
            Err(e) => {
                let error = SettlementError::Budget(e);
                self.error = Some(error);
                finished(Err(error))
            },
        }
    }

    fn admitted(&mut self, reply: Result<Reservation, AdmissionError>) -> (step: Step)
        ensures
            (final(self)@, step) == old(self)@.admitted(reply),
    {
        match reply {
            Ok(reservation) => {
                self.unclaimed = Some(reservation);
                Step::Claim
            },
            Err(e) => {
                let error = SettlementError::Budget(e);
                match e {
                    AdmissionError::BudgetExhausted
                    | AdmissionError::CapTokenInvalid
                    | AdmissionError::ProviderNotAllowed
                    | AdmissionError::PolicyDenied => {
                        self.admission_attempt = None;
                        self.projection_ordinal = None;
                    },
                    _ => {
                        self.error = Some(error);
                    },
                }
                finished(Err(error))
            },
        }
    }

    fn claim(&mut self, reply: Result<Result<OwnedBudgetView, AdmissionError>, AdmissionError>)
        -> (step: Step)
        requires
            old(self).admission_attempt is Some,
            old(self).turn.rounds@.len() < MAX_ROUNDS,
        ensures
            (final(self)@, step) == old(self)@.claim(reply),
    {
        let view = match reply {
            Err(e) => {
                let error = SettlementError::Budget(e);
                self.error = Some(error);
                return finished(Err(error));
            },
            Ok(Err(e)) => {
                self.claimed = true;
                self.unclaimed = None;
                return finished(Err(SettlementError::Budget(e)));
            },
            Ok(Ok(view)) => view,
        };
        self.claimed = true;
        self.unclaimed = None;
        if let Some(attempt) = &self.admission_attempt {
            let ordinal: usize = self.turn.rounds.len();
            let round = RoundObligation {
                settlement_id: SettlementId(view.reservation_id),
                ordinal: ordinal as u32,
                provider_request_id: attempt.provider_request_id,
                provider: attempt.request.provider_id.clone(),
                model: attempt.request.model_id.clone(),
                request_digest: attempt.request.request_digest,
                reserved: view.reserved,
                provider_evidence: ProviderEvidence::NotDispatched,
                tools: Vec::new(),
                known_incurred: CostTuple::zero(),
                decision: None,
                phase: SettlementPhase::Reserved,
                commit_ordinal: None,
                projection: if self.turn.journal_owner.is_some() {
                    JournalProjection::NotRequired
                } else {
                    JournalProjection::NotConfigured
                },
            };
            self.validation =
            if self.expected_holder.same(&view.holder) {
                ClaimValidation::Valid
            } else {
                ClaimValidation::Invalid
            };
            self.turn.budget_holder = view.holder.clone();
            self.view = Some(view);
            self.turn.push_round(round);
        }
        self.persist(AfterWrite::Outcome)
    }

    fn encoded(&mut self, revision: u64, bytes: Vec<u8>)
        ensures
            final(self)@ == old(self)@.encoded(revision, bytes@),
    {
        let previous = match &self.acknowledged {
            Some(s) => Some(s.revision),
            None => None,
        };
        let turn = self.turn.clone();
        self.pending =
        Some(Pending { previous, encoded: EncodedSnapshot { revision, bytes, turn } });
    }

    /// Whether the event answers the step.
    pub fn answers(&self, step: &Step, event: &Event) -> (r: bool)
        ensures
            r == self@.answers(*step, *event),
    {
        match (step, event) {
            (Step::Encode { .. }, Event::Encoded(_)) => true,
            (Step::Write { .. }, Event::Written(_)) => true,
            (Step::Resolve, Event::Written(_)) => true,
            (Step::Rewrite, Event::Written(_)) => true,
            (Step::Admit, Event::Admitted(_)) => true,
            (Step::Claim, Event::Claimed(_)) => true,
            (Step::Money { settle, .. }, Event::Moved { view, .. }) => match view {
                Ok(v) => settle.is_admitted(v),
                Err(_) => true,
            },
            _ => false,
        }
    }

    /// Advances the operation with the answer to its current step.
    pub fn advance(&mut self, step: Step, event: Event, epoch: BudgetEpoch) -> (next: Step)
        requires
            old(self)@.awaits(step),
            old(self)@.answers(step, event),
        ensures
            (final(self)@, next) == old(self)@.advance(step, event, epoch),
    {
        match (step, event) {
            (Step::Encode { revision, then_do }, Event::Encoded(reply)) => match reply {
                Ok(bytes) => {
                    self.encoded(revision, bytes);
                    Step::Write { then_do }
                },
                Err(e) => {
                    let error = encoding_error(e);
                    self.error = Some(error);
                    self.after_write(then_do, Err(error))
                },
            },
            (Step::Write { then_do }, Event::Written(resolution)) => {
                let result = self.acknowledge(resolution);
                self.after_write(then_do, result)
            },
            (Step::Resolve, Event::Written(resolution)) => match resolution {
                WriteResolution::DefinitelyNotApplied => Step::Rewrite,
                _ => self.resolved(resolution),
            },
            (Step::Rewrite, Event::Written(resolution)) => self.resolved(resolution),
            (Step::Admit, Event::Admitted(reply)) => self.admitted(reply),
            (Step::Claim, Event::Claimed(reply)) => self.claim(reply),
            (Step::Money { settle, .. }, Event::Moved { result, view }) => self.moved(
                settle,
                result,
                view,
                epoch,
            ),
            _ => step,
        }
    }
}

impl Slot {
    fn allocate_projection(&mut self) -> (r: Result<(), SettlementError>)
        ensures
            r is Ok == old(self)@.allocate_projection() is Ok,
            r matches Err(e) ==> old(self)@.allocate_projection() == Err::<slot::SlotModel, _>(e)
                && final(self)@ == old(self)@,
            r is Ok ==> old(self)@.allocate_projection() == Ok::<_, SettlementError>(final(self)@),
            final(self).turn.rounds@.len() == old(self).turn.rounds@.len(),
    {
        let n: usize = self.turn.rounds.len();
        if n == 0 {
            return Err(SettlementError::State);
        }
        if self.turn.rounds[n - 1].commit_ordinal.is_some() {
            return Ok(());
        }
        if self.projection_ordinal.is_none() {
            return Err(SettlementError::Invalid(SettlementProblem::Bounds));
        }
        let mut round = self.turn.rounds[n - 1].clone();
        round.commit_ordinal = self.projection_ordinal;
        if self.turn.journal_owner.is_some() {
            round.projection = JournalProjection::Pending(round.settlement_id.0);
        }
        self.turn.set_current(round);
        Ok(())
    }

    fn clear_for_next_round(&mut self)
        ensures
            final(self)@ == old(self)@.cleared_for_next_round(),
    {
        let committed = match &self.view {
            Some(v) => v.status == OwnedBudgetStatus::Committed,
            None => false,
        };
        if self.turn.rounds.len() > 0 && self.turn.terminal == TurnTerminal::Open && committed
            && self.pending.is_none() && !self.dirty && !self.retirement_pending
            && self.error.is_none() {
            self.claimed = false;
            self.view = None;
            self.admission_attempt = None;
            self.requested = None;
            self.finalize_started = false;
        }
    }

    /// Starts admitting a round.
    pub fn admit_round(
        &mut self,
        attempt: AdmissionAttempt,
        preflight: Option<SettlementProblem>,
        ordinal: u64,
    ) -> (step: Step)
        ensures
            (final(self)@, step) == old(self)@.admit_round(attempt, preflight, ordinal),
    {
        if self.turn.rounds.len() >= MAX_ROUNDS {
            return finished(Err(SettlementError::Invalid(SettlementProblem::Bounds)));
        }
        self.clear_for_next_round();
        if self.turn.terminal != TurnTerminal::Open || self.error.is_some() || self.claimed
            || self.unclaimed.is_some() || self.admission_attempt.is_some() {
            return finished(Err(SettlementError::State));
        }
        if attempt.request.cap_token_id != self.turn.cap_token_id {
            return finished(Err(SettlementError::IdentityMismatch));
        }
        if let Some(problem) = preflight {
            return finished(Err(SettlementError::Invalid(problem)));
        }
        if ordinal == u64::MAX {
            return finished(Err(SettlementError::Invalid(SettlementProblem::Bounds)));
        }
        self.projection_ordinal = Some(ordinal);
        self.admission_attempt = Some(attempt);
        Step::Admit
    }

    /// Starts recording an observation.
    pub fn observe(&mut self, observation: RejectedObservation) -> (step: Step)
        ensures
            (final(self)@, step) == old(self)@.observe(observation),
    {
        if self.validation != ClaimValidation::Valid || self.pending.is_some()
            || self.error.is_some() || self.rejected.is_some() {
            return finished(Err(SettlementError::AdmissionClosed));
        }
        let n: usize = self.turn.rounds.len();
        if n == 0 || self.turn.rounds[n - 1].decision.is_some() {
            return finished(Err(SettlementError::State));
        }
        let mut round = self.turn.rounds[n - 1].clone();
        self.dirty = true;
        match &observation {
            RejectedObservation::Provider(provider) => {
                round.provider_evidence = *provider;
            },
            RejectedObservation::Tool(tool) => {
                let index: usize = tool.ordinal as usize;
                if label_len(&tool.call_id) > MAX_METADATA_BYTES || label_len(&tool.name)
                    > MAX_METADATA_BYTES || index >= MAX_TOOLS_PER_ROUND {
                    let error = SettlementError::Invalid(SettlementProblem::Bounds);
                    self.rejected = Some(observation);
                    self.error = Some(error);
                    return finished(Err(error));
                }
                let copy = tool.clone();
                if index == round.tools.len() {
                    round.tools.push(copy);
                } else if index < round.tools.len() {
                    round.tools.set(index, copy);
                } else {
                    let error = SettlementError::Invalid(SettlementProblem::Corrupt);
                    self.rejected = Some(observation);
                    self.error = Some(error);
                    return finished(Err(error));
                }
            },
        }
        self.rejected = Some(observation);
        let base = match round.provider_evidence {
            ProviderEvidence::Observed { cost, .. } => cost,
            _ => CostTuple::zero(),
        };
        match known_cost(base, &round.tools) {
            None => {
                let error = SettlementError::Invalid(SettlementProblem::Corrupt);
                self.error = Some(error);
                finished(Err(error))
            },
            Some(known) => {
                round.known_incurred = known;
                round.phase = SettlementPhase::WorkObserved;
                self.turn.set_current(round);
                self.persist(AfterWrite::DropRejected)
            },
        }
    }

    fn settled_facts(&self) -> (r: bool)
        ensures
            r == self@.settled_facts(),
    {
        self.validation == ClaimValidation::Valid && self.error.is_none() && self.pending.is_none()
            && !self.dirty
    }

    /// Starts freezing a decision and the debit it asks for.
    pub fn prepare(&mut self, decision: Disposition, requested: CostTuple) -> (step: Step)
        ensures
            (final(self)@, step) == old(self)@.prepare(decision, requested),
    {
        if !self.settled_facts() {
            return finished(Err(SettlementError::AdmissionClosed));
        }
        let n: usize = self.turn.rounds.len();
        if n == 0 || self.turn.rounds[n - 1].decision.is_some()
            || !self.turn.rounds[n - 1].known_incurred.covers(&requested) {
            return finished(Err(SettlementError::State));
        }
        if let Err(error) = self.allocate_projection() {
            self.error = Some(error);
            return finished(Err(error));
        }
        let mut round = self.turn.rounds[n - 1].clone();
        round.decision =
        Some(
            match decision {
                Disposition::Refusal(c) => SettlementDecision::Refusal(c),
                Disposition::Infrastructure(c) => SettlementDecision::InfrastructureFailure(c),
            },
        );
        round.phase = SettlementPhase::Prepared { candidate: None };
        self.turn.set_current(round);
        self.requested = Some(requested);
        self.persist(AfterWrite::Report)
    }

    /// Starts applying the frozen debit.
    pub fn finalize(&mut self) -> (step: Step)
        ensures
            (final(self)@, step) == old(self)@.finalize(),
    {
        if self.finalize_started {
            return finished(Err(SettlementError::State));
        }
        if !self.settled_facts() {
            return finished(Err(SettlementError::AdmissionClosed));
        }
        let n: usize = self.turn.rounds.len();
        if n == 0 || !is_paid(self.turn.rounds[n - 1].decision) {
            return finished(Err(SettlementError::State));
        }
        match self.turn.rounds[n - 1].phase {
            SettlementPhase::Prepared { .. } => {},
            _ => {
                return finished(Err(SettlementError::State));
            },
        }
        if !self.acknowledged_exactly() {
            self.dirty = true;
            self.error = Some(SettlementError::Invalid(SettlementProblem::InvalidTransition));
            return finished(Err(SettlementError::AdmissionClosed));
        }
        let known = self.turn.rounds[n - 1].known_incurred;
        match self.requested {
            None => finished(Err(SettlementError::State)),
            Some(requested) => {
                self.finalize_started = true;
                if !self.claimed {
                    return finished(Err(SettlementError::State));
                }
                Step::Money {
                    call: MoneyCall::Finalize { known, requested },
                    settle: AfterMoney::Applied,
                }
            },
        }
    }

    /// Starts settling a finalized decision without a receipt.
    pub fn commit_disposition(&mut self) -> (step: Step)
        ensures
            (final(self)@, step) == old(self)@.commit_disposition(),
    {
        if !self.settled_facts() {
            return finished(Err(SettlementError::AdmissionClosed));
        }
        if self.retirement_pending {
            return self.retire(AfterRetire::Report);
        }
        let committed = match &self.view {
            Some(v) => v.status == OwnedBudgetStatus::Committed,
            None => false,
        };
        if committed {
            return finished(Ok(()));
        }
        let n: usize = self.turn.rounds.len();
        if n == 0 {
            return finished(Err(SettlementError::State));
        }
        let mut round = self.turn.rounds[n - 1].clone();
        let application = match &round.phase {
            SettlementPhase::Finalized { application, .. } => *application,
            _ => {
                return finished(Err(SettlementError::State));
            },
        };
        match round.decision {
            Some(SettlementDecision::Refusal(c)) => {
                self.turn.terminal = TurnTerminal::Refused(c);
            },
            Some(SettlementDecision::InfrastructureFailure(c)) => {
                self.turn.terminal = TurnTerminal::Failed(c);
            },
            _ => {
                return finished(Err(SettlementError::State));
            },
        }
        round.phase = SettlementPhase::Settled { application, receipt: None };
        self.turn.set_current(round);
        self.retirement_pending = true;
        self.persist(AfterWrite::Retire(AfterRetire::Report))
    }

    /// Starts ending a turn whose last round is already paid for.
    pub fn finish_refused(&mut self, class: RefusalClass) -> (step: Step)
        ensures
            (final(self)@, step) == old(self)@.finish_refused(class),
    {
        if let Err(e) = self.outcome() {
            return finished(Err(e));
        }
        let n: usize = self.turn.rounds.len();
        if self.turn.terminal != TurnTerminal::Open || self.pending.is_some() || self.dirty || n
            == 0 {
            return finished(Err(SettlementError::State));
        }
        match self.turn.rounds[n - 1].phase {
            SettlementPhase::Settled { .. } => {},
            _ => {
                return finished(Err(SettlementError::State));
            },
        }
        self.turn.terminal = TurnTerminal::Refused(class);
        self.persist(AfterWrite::Report)
    }

    /// Starts freezing the exact signed receipt of a completed round.
    pub fn prepare_receipt(
        &mut self,
        candidate: ReceiptCandidate,
        final_answer: bool,
        requested: CostTuple,
    ) -> (step: Step)
        ensures
            (final(self)@, step) == old(self)@.prepare_receipt(candidate, final_answer, requested),
    {
        if let Err(e) = self.outcome() {
            return finished(Err(e));
        }
        if self.pending.is_some() || self.dirty || self.validation != ClaimValidation::Valid {
            return finished(Err(SettlementError::AdmissionClosed));
        }
        let n: usize = self.turn.rounds.len();
        if n == 0 || self.turn.rounds[n - 1].decision.is_some() || requested
            != self.turn.rounds[n - 1].known_incurred {
            return finished(Err(SettlementError::State));
        }
        if let Err(error) = self.allocate_projection() {
            return finished(Err(error));
        }
        let mut round = self.turn.rounds[n - 1].clone();
        round.decision = Some(SettlementDecision::Completion { final_answer });
        round.phase = SettlementPhase::Prepared { candidate: Some(candidate) };
        self.turn.set_current(round);
        self.requested = Some(requested);
        self.persist(AfterWrite::Report)
    }

    /// Starts recording that the receipt may or may not have been appended.
    pub fn receipt_unresolved(&mut self) -> (step: Step)
        ensures
            (final(self)@, step) == old(self)@.receipt_unresolved(),
    {
        let n: usize = self.turn.rounds.len();
        if n == 0 {
            return finished(Err(SettlementError::State));
        }
        let mut round = self.turn.rounds[n - 1].clone();
        match &round.phase {
            SettlementPhase::Finalized { application, candidate } => {
                let application = *application;
                let candidate = copy_candidate(candidate);
                round.phase =
                SettlementPhase::Unresolved {
                    last_definite: DefinitePhase::Finalized,
                    problem: SettlementProblem::Io,
                    application: Some(application),
                    candidate,
                };
                self.turn.set_current(round);
                self.turn.terminal = TurnTerminal::Unresolved(SettlementProblem::Io);
                self.persist(AfterWrite::ReceiptUnknown)
            },
            _ => finished(Err(SettlementError::State)),
        }
    }

    /// Starts settling a round whose exact receipt the log acknowledged.
    pub fn commit_receipt(&mut self, binding: ReceiptBinding) -> (step: Step)
        ensures
            (final(self)@, step) == old(self)@.commit_receipt(binding),
    {
        if let Err(e) = self.outcome() {
            return finished(Err(e));
        }
        if self.pending.is_some() || self.dirty {
            return finished(Err(SettlementError::AdmissionClosed));
        }
        let n: usize = self.turn.rounds.len();
        if n == 0 {
            return finished(Err(SettlementError::State));
        }
        let mut round = self.turn.rounds[n - 1].clone();
        let application = match &round.phase {
            SettlementPhase::Finalized { application, candidate: Some(candidate) } => {
                if binding.receipt_id != candidate.receipt_id || binding.jws_digest
                    != candidate.jws_digest {
                    return finished(Err(SettlementError::IdentityMismatch));
                }
                *application
            },
            _ => {
                return finished(Err(SettlementError::State));
            },
        };
        match round.decision {
            Some(SettlementDecision::Completion { final_answer }) => {
                if final_answer {
                    self.turn.terminal = TurnTerminal::FinalAnswer(binding.receipt_id);
                }
                round.phase = SettlementPhase::Settled { application, receipt: Some(binding) };
                self.turn.set_current(round);
                self.retirement_pending = true;
                self.persist(AfterWrite::Retire(AfterRetire::ReceiptCommitted { final_answer }))
            },
            _ => finished(Err(SettlementError::State)),
        }
    }

    fn quarantined(&self) -> (r: bool)
        ensures
            r == self@.quarantined(),
    {
        match self.error {
            Some(SettlementError::Invalid(_)) => true,
            Some(SettlementError::Storage(p)) => match p {
                SettlementProblem::InvalidTransition
                | SettlementProblem::Corrupt
                | SettlementProblem::Bounds => true,
                _ => false,
            },
            _ => false,
        }
    }

    /// Starts refunding the hold: a cancellation, or the given failure.
    pub fn refund(&mut self, failure: Option<InfrastructureFailureClass>) -> (step: Step)
        ensures
            (final(self)@, step) == old(self)@.refund(failure),
    {
        if self.quarantined() {
            return finished(Err(SettlementError::AdmissionClosed));
        }
        let n: usize = self.turn.rounds.len();
        if n == 0 {
            return finished(Err(SettlementError::State));
        }
        match self.turn.rounds[n - 1].decision {
            Some(SettlementDecision::Cancelled) => {
                if let Err(e) = self.outcome() {
                    return finished(Err(e));
                }
                let exact = self.acknowledged_exactly();
                let settled = match self.turn.rounds[n - 1].phase {
                    SettlementPhase::Settled { receipt: None, .. } => true,
                    _ => false,
                };
                let released = match &self.view {
                    Some(v) => v.status == OwnedBudgetStatus::Released,
                    None => false,
                };
                if exact && self.pending.is_none() && !self.dirty && settled && released {
                    finished(Ok(()))
                } else {
                    self.dirty = self.dirty || !exact;
                    self.error =
                    Some(SettlementError::Invalid(SettlementProblem::InvalidTransition));
                    finished(Err(SettlementError::AdmissionClosed))
                }
            },
            Some(decision) => {
                let settled = match self.turn.rounds[n - 1].phase {
                    SettlementPhase::Settled { .. } => true,
                    _ => false,
                };
                if decision == (SettlementDecision::Completion { final_answer: false }) && settled
                    && self.turn.terminal == TurnTerminal::Open {
                    self.turn.terminal = TurnTerminal::Cancelled;
                    return self.persist(AfterWrite::Report);
                }
                finished(Err(SettlementError::State))
            },
            None => {
                if let Err(error) = self.allocate_projection() {
                    self.error = Some(error);
                    return finished(Err(error));
                }
                let mut round = self.turn.rounds[n - 1].clone();
                round.decision =
                Some(
                    match failure {
                        Some(c) => SettlementDecision::InfrastructureFailure(c),
                        None => SettlementDecision::Cancelled,
                    },
                );
                round.provider_evidence = interrupted_provider(round.provider_evidence);
                round.tools = interrupted_tools(&round.tools);
                round.phase = SettlementPhase::Prepared { candidate: None };
                self.turn.set_current(round);
                self.turn.terminal =
                match failure {
                    Some(c) => TurnTerminal::Failed(c),
                    None => TurnTerminal::Cancelled,
                };
                self.persist(AfterWrite::Release)
            },
        }
    }

    /// Starts paying the rest of a release or of a rollback.
    pub fn retry_refund(&mut self) -> (step: Step)
        ensures
            (final(self)@, step) == old(self)@.retry_refund(),
    {
        if self.pending.is_some() || self.dirty {
            return finished(Err(SettlementError::AdmissionClosed));
        }
        if !self.claimed {
            return finished(Err(SettlementError::State));
        }
        match &self.view {
            Some(view) => match (view.status, view.attempt) {
                (OwnedBudgetStatus::RollbackPending, Some(_)) => Step::Money {
                    call: MoneyCall::Rollback,
                    settle: AfterMoney::Applied,
                },
                (OwnedBudgetStatus::ReleasePending, Some(attempt)) => Step::Money {
                    call: MoneyCall::Release { known: attempt.known_incurred },
                    settle: AfterMoney::Credited,
                },
                _ => finished(Err(SettlementError::State)),
            },
            None => finished(Err(SettlementError::State)),
        }
    }

    /// Starts finding out what became of the pending write.
    pub fn resolve_storage(&mut self) -> (step: Step)
        ensures
            (final(self)@, step) == old(self)@.resolve_storage(),
    {
        if self.pending.is_some() {
            return Step::Resolve;
        }
        if self.retirement_pending {
            return self.retire(AfterRetire::Report);
        }
        finished(Err(SettlementError::State))
    }

    /// Starts a full compensation of a finalized round that is not settled.
    pub fn compensate(&mut self) -> (step: Step)
        requires
            old(self).wf(),
        ensures
            (final(self)@, step) == old(self)@.compensate(),
    {
        if self.pending.is_some() || self.dirty {
            return finished(Err(SettlementError::AdmissionClosed));
        }
        let finalized = match &self.view {
            Some(v) => v.status == OwnedBudgetStatus::Finalized,
            None => false,
        };
        if !finalized || !self.claimed {
            return finished(Err(SettlementError::State));
        }
        let n: usize = self.turn.rounds.len();
        match self.turn.rounds[n - 1].phase {
            SettlementPhase::Settled { .. } => finished(Err(SettlementError::State)),
            _ => Step::Money { call: MoneyCall::Rollback, settle: AfterMoney::Applied },
        }
    }

    fn attempted(&self, id: u128) -> (r: bool)
        ensures
            r == self@.attempted(id),
    {
        let mut i: usize = 0;
        while i < self.projection_attempts.len()
            invariant
                i <= self.projection_attempts.len(),
                forall|j: int| 0 <= j < i ==> (#[trigger] self@.projection_attempts[j]).id != id,
            decreases self.projection_attempts.len() - i,
        {
            if self.projection_attempts[i].id == id {
                assert(self@.projection_attempts[i as int].id == id);
                return true;
            }
            i += 1;
        }
        false
    }

    fn entry_for(&self, ordinal: usize, application: DebitApplication) -> (r: JournalEntry)
        requires
            ordinal < self.turn.rounds@.len(),
        ensures
            r == slot_model::projected_entry(
                self@.turn,
                self@.turn.rounds[ordinal as int],
                application,
            ),
    {
        let round = &self.turn.rounds[ordinal];
        let compensated = match application.rollback {
            RollbackStatus::Applied(credit) => credit == application.applied_debit,
            RollbackStatus::NotApplied => false,
        };
        let failed = match round.decision {
            Some(SettlementDecision::InfrastructureFailure(_)) => true,
            _ => false,
        };
        let cancelled = match round.decision {
            Some(SettlementDecision::Cancelled) => true,
            _ => false,
        };
        let completed = match round.decision {
            Some(SettlementDecision::Completion { .. }) => true,
            _ => false,
        };
        if round.known_incurred != CostTuple::zero() && (cancelled || compensated
            || application.requested_debit == CostTuple::zero()) {
            return JournalEntry::OperatorExpense {
                session_id: self.turn.request_session,
                reservation_id: round.settlement_id.0,
                provider_cost: round.known_incurred,
                class: if compensated || failed {
                    "compensated_failure"
                } else {
                    "cancelled_precommit"
                },
                reason: if compensated || failed {
                    "settlement compensation; known operator expense retained"
                } else {
                    "settlement cancellation; caller refunded, known operator expense retained"
                },
                at: self.turn.started_at,
            };
        }
        let mut uncertain = false;
        let mut i: usize = 0;
        while i < round.tools.len() && !uncertain
            invariant
                i <= round.tools.len(),
                *round == self.turn.rounds@[ordinal as int],
                !uncertain ==> forall|j: int|
                    0 <= j < i ==> !((#[trigger] round.tools@[j]).effect is InterruptedUnknown),
                uncertain ==> exists|j: int|
                    0 <= j < round.tools@.len() && (#[trigger] round.tools@[j]).effect
                        is InterruptedUnknown,
            decreases round.tools.len() - i,
        {
            if let ToolEffect::InterruptedUnknown = round.tools[i].effect {
                assert(round.tools@[i as int].effect is InterruptedUnknown);
                uncertain = true;
            }
            i += 1;
        }
        JournalEntry::CostFinalized {
            reservation_id: round.settlement_id.0,
            actual: application.applied_debit,
            refunded: application.reserved_credit,
            at: self.turn.started_at,
            reason: if completed {
                None
            } else if failed && uncertain {
                Some("refusal:tool_timeout_uncertain_effect")
            } else {
                Some(projection_reason(round.decision))
            },
        }
    }

    /// Starts projecting a round to the journal.
    pub fn project(&mut self, ordinal: usize, id: u128, journal: SessionId) -> (r: Result<
        Option<JournalEntry>,
        SettlementError,
    >)
        requires
            ordinal < old(self).turn.rounds@.len(),
        ensures
            (final(self)@, r) == old(self)@.project(ordinal as int, id, journal),
    {
        if let Err(e) = self.outcome() {
            return Err(e);
        }
        if self.pending.is_some() || self.dirty {
            return Err(SettlementError::AdmissionClosed);
        }
        if self.turn.journal_owner != Some(journal) {
            return Err(SettlementError::IdentityMismatch);
        }
        if self.attempted(id) {
            return Err(SettlementError::ProjectionUnknown);
        }
        let completed = match self.turn.rounds[ordinal].decision {
            Some(SettlementDecision::Completion { .. }) => true,
            _ => false,
        };
        let application = match &self.turn.rounds[ordinal].phase {
            SettlementPhase::Settled { application, .. } => *application,
            SettlementPhase::Finalized { application, .. } => {
                if completed {
                    return Ok(None);
                }
                *application
            },
            _ => {
                return Ok(None);
            },
        };
        let entry = self.entry_for(ordinal, application);
        self.projection_attempts.push(ProjectionAttempt { id, entry });
        Ok(Some(entry))
    }

    /// Goes on with a projection, given what became of the journal append.
    pub fn projected(&mut self, ordinal: usize, id: u128, outcome: ProjectionOutcome) -> (step:
        Step)
        ensures
            (final(self)@, step) == old(self)@.projected(ordinal as int, id, outcome),
    {
        if ordinal >= self.turn.rounds.len() || self.turn.rounds[ordinal].projection
            != JournalProjection::Pending(id) {
            return finished(Err(SettlementError::State));
        }
        match outcome {
            ProjectionOutcome::Durable => {
                let mut round = self.turn.rounds[ordinal].clone();
                round.projection = JournalProjection::Acknowledged(id);
                let ghost before = self.turn.rounds@;
                self.turn.rounds.set(ordinal, round);
                assert(evidence::round_models(self.turn.rounds@) =~= evidence::round_models(
                    before,
                ).update(ordinal as int, round@));
                self.persist(AfterWrite::Projected(id))
            },
            ProjectionOutcome::DefinitelyNotApplied => {
                self.forget_attempt(id);
                finished(Err(SettlementError::ProjectionNotApplied))
            },
            ProjectionOutcome::Unknown => {
                self.error = Some(SettlementError::ProjectionUnknown);
                finished(Err(SettlementError::ProjectionUnknown))
            },
        }
    }
}

impl Clone for AdmissionAttempt {
    fn clone(&self) -> (r: Self)
        ensures
            r == *self,
    {
        AdmissionAttempt {
            request: self.request.clone(),
            provider_request_id: self.provider_request_id,
        }
    }
}

impl Clone for RejectedObservation {
    fn clone(&self) -> (r: Self)
        ensures
            r == *self,
    {
        match self {
            RejectedObservation::Provider(p) => RejectedObservation::Provider(*p),
            RejectedObservation::Tool(t) => RejectedObservation::Tool(t.clone()),
        }
    }
}

} // verus!
