//! What a turn does with an answer that is late, partial or refused, and how
//! what was left open is taken up again.
use crate::evidence;
use crate::evidence::{
    InfrastructureFailureClass, OwnedBudgetStatus, OwnedBudgetView, RefusalClass, Reservation,
    SettlementDecision, SettlementPhase, SettlementProblem, TurnTerminal, WriteResolution,
};
use crate::ids::BudgetEpoch;
use crate::slot;
use crate::slot::{
    AdmissionError, AfterMoney, AfterRetire, AfterWrite, ClaimValidation, Event, MoneyCall,
    SettlementError, Step,
};
use crate::slot_model;
use vstd::prelude::*;

verus! {

/// A refused admission is forgotten exactly if the refusal came before anything
/// was held: the budget, the token, the provider or the policy said no. After
/// any other failure something may be held, so the attempt is kept, with the
/// error. An admitted hold is kept until it is claimed.
pub proof fn law_only_a_verdict_before_the_hold_discharges_an_admission(
    s: slot::SlotModel,
    reply: Result<Reservation, AdmissionError>,
)
    ensures
        match reply {
            Ok(reservation) => s.admitted(reply).0.unclaimed == Some(reservation) && s.admitted(
                reply,
            ).1 is Claim && s.admitted(reply).0.admission_attempt == s.admission_attempt,
            Err(e) => {
                let (n, step) = s.admitted(reply);
                let verdict = e is BudgetExhausted || e is CapTokenInvalid || e
                    is ProviderNotAllowed || e is PolicyDenied;
                &&& step == slot_model::finished(Err(SettlementError::Budget(e)))
                &&& verdict ==> n.admission_attempt is None && n.projection_ordinal is None
                    && n.error == s.error
                &&& !verdict ==> n.admission_attempt == s.admission_attempt && n.error == Some(
                    SettlementError::Budget(e),
                )
                &&& n.unclaimed == s.unclaimed
                &&& n.turn == s.turn
            },
        },
{
}

/// A capability is retired exactly when the account says that it is committed;
/// whatever else the account answers leaves it to be retired.
pub proof fn law_a_capability_is_retired_once_committed(
    s: slot::SlotModel,
    result: Result<(), AdmissionError>,
    view: Result<OwnedBudgetView, AdmissionError>,
    epoch: BudgetEpoch,
)
    requires
        s.retirement_pending,
    ensures
        ({
            let (n, step) = s.moved(
                AfterMoney::Retired(AfterRetire::Report),
                result,
                view,
                epoch,
            );
            let retired = result is Ok && (view matches Ok(v) && v.status
                == OwnedBudgetStatus::Committed);
            &&& !n.retirement_pending <==> retired
            &&& retired ==> step == slot_model::finished(Ok(()))
            &&& !retired ==> (step matches Step::Finished { result: Err(_), final_answer: false })
            &&& view matches Err(e) ==> step == slot_model::finished(Err(SettlementError::Budget(e)))
            &&& n.turn == s.turn
            &&& view matches Ok(v) ==> n.view == Some(v)
        }),
{
}

/// A receipt is an answer only once its capability is retired: a retirement
/// that fails is reported, and is no answer.
pub proof fn law_an_answer_waits_for_its_retirement(
    s: slot::SlotModel,
    final_answer: bool,
    e: SettlementError,
)
    ensures
        s.after_retire(AfterRetire::ReceiptCommitted { final_answer }, Err(e)) == (
            s,
            slot_model::finished(Err(e)),
        ),
        s.after_retire(AfterRetire::ReceiptCommitted { final_answer }, Ok(())) == (
            s,
            Step::Finished { result: Ok(()), final_answer },
        ),
        s.after_retire(AfterRetire::Report, Err(e)) == (s, slot_model::finished(Err(e))),
        s.after_retire(AfterRetire::FinishResolve, Err(e)) == (s, slot_model::finished(Err(e))),
{
}

/// A turn is ended as refused exactly if it is open, in order and written, and
/// its last round is settled; its end then names the class, and nothing else of
/// it changes.
pub proof fn law_only_an_open_turn_ends_as_refused(s: slot::SlotModel, class: RefusalClass)
    ensures
        ({
            let (n, step) = s.finish_refused(class);
            let taken = s.error is None && s.validation != ClaimValidation::Invalid
                && s.turn.terminal is Open && s.pending is None && !s.dirty && s.turn.rounds.len()
                > 0 && s.turn.rounds.last().phase is Settled;
            &&& taken ==> n.turn.terminal == TurnTerminal::Refused(class) && n.turn.rounds
                == s.turn.rounds && n.dirty
            &&& taken && (s.acknowledged is None || s.acknowledged->0.revision < u64::MAX) ==> step
                is Encode
            &&& !taken ==> n == s && (step matches Step::Finished { result: Err(_), .. })
        }),
{
}

/// A receipt of which nobody knows whether the log holds it leaves its round
/// and its turn unresolved, with what was applied and the candidate; once that
/// is written the turn says so.
pub proof fn law_an_unknown_receipt_leaves_the_turn_unresolved(s: slot::SlotModel)
    ensures
        ({
            let (n, step) = s.receipt_unresolved();
            let round = s.turn.rounds.last();
            if s.turn.rounds.len() > 0 && round.phase is Finalized {
                &&& n.turn.terminal == TurnTerminal::Unresolved(SettlementProblem::Io)
                &&& n.turn.rounds.last().phase is Unresolved
                &&& n.turn.rounds.last().phase->problem == SettlementProblem::Io
                &&& n.turn.rounds.last().phase->Unresolved_application == Some(
                    round.phase->Finalized_application,
                )
                &&& n.turn.rounds.last().phase->Unresolved_candidate
                    == round.phase->Finalized_candidate
                &&& n.turn.rounds.last().decision == round.decision
                &&& step matches Step::Encode { then_do, .. } ==> then_do
                    == AfterWrite::ReceiptUnknown
            } else {
                n == s && step == slot_model::finished(Err(SettlementError::State))
            }
        }),
{
}

/// A debit is rolled back exactly if it was applied, its round is not settled,
/// everything is written and the capability is in hand.
pub proof fn law_only_an_unsettled_debit_is_rolled_back(s: slot::SlotModel)
    ensures
        ({
            let (n, step) = s.compensate();
            let taken = s.pending is None && !s.dirty && (s.view matches Some(view) && view.status
                == OwnedBudgetStatus::Finalized) && !(s.turn.rounds.last().phase is Settled)
                && s.claimed;
            &&& n == s
            &&& taken <==> step == (Step::Money {
                call: MoneyCall::Rollback,
                settle: AfterMoney::Applied,
            })
            &&& !taken ==> (step matches Step::Finished { result: Err(_), .. })
        }),
{
}

/// Credit that is still owed is asked for in the way it came about: the rest of
/// a rollback by a rollback, the rest of a release by a release over the same
/// known work; and only over a turn that is written.
pub proof fn law_owed_credit_is_asked_for_as_it_came_about(s: slot::SlotModel)
    ensures
        ({
            let (n, step) = s.retry_refund();
            let asked = s.pending is None && !s.dirty && s.claimed && (s.view matches Some(view)
                && view.attempt is Some && (view.status == OwnedBudgetStatus::ReleasePending
                || view.status == OwnedBudgetStatus::RollbackPending));
            &&& n == s
            &&& step is Money <==> asked
            &&& asked && s.view->0.status == OwnedBudgetStatus::RollbackPending ==> step == (
            Step::Money { call: MoneyCall::Rollback, settle: AfterMoney::Applied })
            &&& asked && s.view->0.status == OwnedBudgetStatus::ReleasePending ==> step == (
            Step::Money {
                call: MoneyCall::Release { known: s.view->0.attempt->0.known_incurred },
                settle: AfterMoney::Credited,
            })
            &&& !asked ==> (step matches Step::Finished { result: Err(_), .. })
        }),
{
}

/// A turn is under quarantine exactly if what it is or what the store holds of
/// it cannot be trusted: it is invalid, or the store found it corrupt, out of
/// bounds or out of order. No refund is chosen for such a turn.
pub proof fn law_a_turn_that_cannot_be_trusted_is_not_refunded(
    s: slot::SlotModel,
    failure: Option<InfrastructureFailureClass>,
)
    ensures
        s.quarantined() <==> (s.error matches Some(e) && match e {
            SettlementError::Invalid(_) => true,
            SettlementError::Storage(p) => p == SettlementProblem::Corrupt || p
                == SettlementProblem::Bounds || p == SettlementProblem::InvalidTransition,
            _ => false,
        }),
        s.quarantined() ==> s.refund(failure) == (
            s,
            slot_model::finished(Err(SettlementError::AdmissionClosed)),
        ),
{
}

/// A turn that is given up between two rounds is cancelled, with its paid
/// rounds as they are; one that was decided in any other way is not decided
/// anew.
pub proof fn law_a_turn_given_up_between_rounds_is_cancelled(
    s: slot::SlotModel,
    failure: Option<InfrastructureFailureClass>,
)
    requires
        !s.quarantined(),
        s.turn.rounds.len() > 0,
        s.turn.rounds.last().decision is Some,
        s.turn.rounds.last().decision != Some(SettlementDecision::Cancelled),
    ensures
        ({
            let (n, step) = s.refund(failure);
            let between = s.turn.rounds.last().decision == Some(
                SettlementDecision::Completion { final_answer: false },
            ) && s.turn.rounds.last().phase is Settled && s.turn.terminal is Open;
            &&& between ==> n.turn.terminal == TurnTerminal::Cancelled
            &&& !between ==> n == s && step == slot_model::finished(Err(SettlementError::State))
            &&& n.turn.rounds == s.turn.rounds
        }),
{
}

/// An open write is resolved by asking the store for it; where it was not
/// applied, it is written again, as it was. With no write open, only a
/// capability that is still to be retired is left to resolve.
pub proof fn law_an_open_write_is_asked_for_and_written_again(
    s: slot::SlotModel,
    epoch: BudgetEpoch,
    resolution: WriteResolution,
)
    ensures
        s.pending is Some ==> s.resolve_storage() == (s, Step::Resolve),
        s.pending is None && !s.retirement_pending ==> s.resolve_storage() == (
            s,
            slot_model::finished(Err(SettlementError::State)),
        ),
        s.pending is None && s.retirement_pending && s.claimed && s.validation is Valid && !s.dirty
            && s.error is None && s.acknowledged_exactly() && s.turn.rounds.len() > 0
            && s.turn.rounds.last().phase is Settled && (s.turn.rounds.last().decision is Some
            && s.turn.rounds.last().decision != Some(SettlementDecision::Cancelled))
            ==> s.resolve_storage() == (
            s,
            Step::Money { call: MoneyCall::Commit, settle: AfterMoney::Retired(AfterRetire::Report) },
        ),
        s.advance(
            Step::Resolve,
            Event::Written(WriteResolution::DefinitelyNotApplied),
            epoch,
        ) == (s, Step::Rewrite),
        s.advance(Step::Rewrite, Event::Written(resolution), epoch).0.turn == s.turn,
        s.pending matches Some(p) ==> (resolution != WriteResolution::Durable(p.encoded.revision)
            ==> s.advance(Step::Rewrite, Event::Written(resolution), epoch).0.pending == s.pending),
{
}

/// Credit that is owed is recalled when the store is healthy again: a turn
/// whose round still waits for it keeps that as its error.
pub proof fn law_a_healthy_store_does_not_pay_what_is_owed(s: slot::SlotModel)
    requires
        s.turn.rounds.len() > 0,
    ensures
        s.turn.rounds.last().phase matches SettlementPhase::Unresolved { problem, .. } ==> (problem
            == SettlementProblem::ReleaseCreditPending || problem
            == SettlementProblem::RollbackCreditPending ==> s.recall_credit().error == Some(
            SettlementError::CreditPending(problem),
        )),
        !(s.turn.rounds.last().phase is Unresolved) ==> s.recall_credit() == s,
        s.recall_credit().turn == s.turn,
{
}

/// A release over a write that failed reports that failure, whatever the
/// account did; a movement that the account refuses is remembered as an error,
/// with what the account shows.
pub proof fn law_a_release_reports_the_write_before_it(
    s: slot::SlotModel,
    view: OwnedBudgetView,
    e: SettlementError,
    refused: AdmissionError,
    settle: AfterMoney,
    epoch: BudgetEpoch,
)
    requires
        s.turn.rounds.len() > 0,
        !(settle is Retired),
    ensures
        s.moved(AfterMoney::Released { before: Err(e) }, Ok(()), Ok(view), epoch).1
            == slot_model::finished(Err(e)),
        s.moved(AfterMoney::Released { before: Err(e) }, Ok(()), Ok(view), epoch).0.view == Some(
            view,
        ),
        s.moved(settle, Err(refused), Ok(view), epoch).1 == slot_model::finished(
            Err(SettlementError::Budget(refused)),
        ),
        s.moved(settle, Err(refused), Ok(view), epoch).0.error == Some(
            SettlementError::Budget(refused),
        ),
        s.moved(settle, Err(refused), Ok(view), epoch).0.view == Some(view),
        s.moved(settle, Ok(()), Err(refused), epoch) == (
            s,
            slot_model::finished(Err(SettlementError::Budget(refused))),
        ),
{
}

/// A turn whose encoding is refused is invalid from then on, and whoever waits
/// for the write is told.
pub proof fn law_a_turn_that_cannot_be_encoded_is_invalid(
    s: slot::SlotModel,
    revision: u64,
    error: evidence::SettlementStoreError,
    epoch: BudgetEpoch,
)
    ensures
        ({
            let problem = match error {
                evidence::SettlementStoreError::Invalid(p) => p,
                evidence::SettlementStoreError::Unreadable => SettlementProblem::Corrupt,
            };
            let (n, step) = s.advance(
                Step::Encode { revision, then_do: AfterWrite::Report },
                Event::Encoded(Err(error)),
                epoch,
            );
            &&& n.error == Some(SettlementError::Invalid(problem))
            &&& n.pending == s.pending
            &&& step == slot_model::finished(Err(SettlementError::Invalid(problem)))
        }),
{
}

} // verus!
