//! When a turn stands in the way of others, when it leaves the registry, and
//! what its store and its journal have to answer first.
use crate::evidence;
use crate::evidence::{
    AdmissionRequest, JournalProjection, OwnedBudgetStatus, OwnedBudgetView, SettlementDecision,
    SettlementPhase, SettlementProblem, SettlementStoreError, ToolEvidence, WriteResolution,
};
use crate::ids::{BudgetEpoch, SessionId, SettlementId, TurnId};
use crate::projection;
use crate::projection::ProjectionWork;
use crate::settlement;
use crate::slot;
use crate::slot::{
    AdmissionAttempt, AfterWrite, ClaimValidation, EncodedSnapshot, JournalEntry, MoneyCall,
    RejectedObservation, SettlementError, Step, MAX_ROUNDS, MAX_TOOLS_PER_ROUND,
};
use crate::slot_model;
use crate::slot_model::ProjectionOutcome;
use vstd::prelude::*;

verus! {

/// A retained error comes first, a failed validation next; only without both is
/// a turn's standing in order.
pub proof fn law_a_retained_error_is_the_outcome(s: slot::SlotModel)
    ensures
        s.error matches Some(e) ==> s.outcome() == Err::<(), SettlementError>(e),
        s.error is None && s.validation == ClaimValidation::Invalid ==> s.outcome() == Err::<
            (),
            SettlementError,
        >(SettlementError::IdentityMismatch),
        s.error is None && s.validation != ClaimValidation::Invalid ==> s.outcome() is Ok,
{
}

/// A turn does not stand in the way of others exactly if nothing of it is
/// unresolved: no error, no failed validation, no open journal attempt, no
/// write without an answer, nothing unwritten, no capability to retire and no
/// hold that was not claimed.
pub proof fn law_a_turn_is_quiet_once_nothing_is_unresolved(s: slot::SlotModel)
    ensures
        s.quiet() <==> {
            &&& s.error is None
            &&& s.validation != ClaimValidation::Invalid
            &&& s.projection_attempts.len() == 0
            &&& s.pending is None
            &&& !s.dirty
            &&& !s.retirement_pending
            &&& s.unclaimed is None
        },
{
}

/// A turn may leave exactly if it is in order and written, its hold is over or
/// never was, and its rounds owe the journal nothing.
pub proof fn law_a_turn_leaves_once_nothing_is_owed(s: slot::SlotModel)
    ensures
        s.removable() <==> {
            &&& s.error is None
            &&& s.validation != ClaimValidation::Invalid
            &&& s.pending is None
            &&& !s.dirty
            &&& !s.retirement_pending
            &&& s.unclaimed is None
            &&& match s.view {
                Some(view) => view.status == OwnedBudgetStatus::Released || view.status
                    == OwnedBudgetStatus::RolledBack || view.status == OwnedBudgetStatus::Committed,
                None => s.admission_attempt is None && !s.claimed && s.turn.rounds.len() == 0
                    && s.acknowledged is None && s.rejected is None,
            }
            &&& forall|i: int|
                0 <= i < s.turn.rounds.len() ==> !((#[trigger] s.turn.rounds[i]).projection
                    is Pending)
        },
{
}

/// A turn that was only reserved has not been used, and whatever then happens
/// to it leaves a trace: an admission, a claim, a hold, a round, an error, a
/// write or an observation.
pub proof fn law_any_trace_is_use(s: slot::SlotModel, turn: evidence::TurnModel)
    ensures
        turn.rounds.len() == 0 ==> settlement::fresh_slot(turn).unused(),
        s.unused() <==> s.admission_attempt is None && !s.claimed && s.unclaimed is None && s.view
            is None && s.turn.rounds.len() == 0 && s.error is None && s.acknowledged is None
            && s.pending is None && !s.dirty && s.rejected is None,
{
}

/// A decision has its own way to an end, without its owner, exactly once it is
/// out of the owner's hands: the credit of a cancellation is under way, and any
/// other decision is written, or being written, together with its place.
pub proof fn law_a_decision_goes_on_without_its_owner(s: slot::SlotModel)
    ensures
        s.disposition_continuation() ==> s.turn.rounds.len() > 0 && s.turn.rounds.last().decision
            is Some,
        s.turn.rounds.len() > 0 && s.turn.rounds.last().decision == Some(
            SettlementDecision::Cancelled,
        ) ==> (s.disposition_continuation() <==> (s.view matches Some(view) && (view.status
            == OwnedBudgetStatus::Released || view.status == OwnedBudgetStatus::ReleasePending)
            && view.refund is Some)),
        s.turn.rounds.len() > 0 && s.turn.rounds.last().decision is Some
            && s.turn.rounds.last().decision != Some(SettlementDecision::Cancelled) ==> (
        s.disposition_continuation() <==> ((s.acknowledged matches Some(snapshot)
            && placed_in(s, snapshot.turn)) || (s.pending matches Some(pending) && placed_in(
            s,
            pending.encoded.turn,
        )))),
{
}

/// A written turn holds the decision of the round in progress, with its place.
pub open spec fn placed_in(s: slot::SlotModel, written: evidence::TurnModel) -> bool {
    &&& written.rounds.len() > 0
    &&& written.rounds.last().settlement_id == s.turn.rounds.last().settlement_id
    &&& written.rounds.last().decision == s.turn.rounds.last().decision
    &&& written.rounds.last().commit_ordinal is Some
    &&& written.rounds.last().commit_ordinal == s.turn.rounds.last().commit_ordinal
}

/// A write is over only when the store says that exactly its revision is
/// durable. The written turn is acknowledged, the turn stays unwritten if it
/// moved on meanwhile, and only an error of the store is forgotten. Any other
/// answer keeps the write as it is, and is an error of the store.
pub proof fn law_a_write_stays_until_it_is_durable(s: slot::SlotModel, resolution: WriteResolution)
    ensures
        ({
            let (n, result) = s.acknowledge(resolution);
            let durable = s.pending matches Some(p) && resolution == WriteResolution::Durable(
                p.encoded.revision,
            );
            &&& result is Ok <==> durable
            &&& durable ==> {
                &&& n.pending is None
                &&& n.acknowledged == Some(s.pending->0.encoded)
                &&& n.dirty <==> !evidence::same_turn(s.pending->0.encoded.turn, s.turn)
                &&& n.error == (if s.error matches Some(SettlementError::Storage(_)) {
                    None
                } else {
                    s.error
                })
            }
            &&& !durable ==> {
                &&& n.pending == s.pending
                &&& n.acknowledged == s.acknowledged
                &&& n.dirty == s.dirty
                &&& n.error is Some
                &&& n.error == Some(result->Err_0)
                &&& result->Err_0 is Storage
                &&& resolution matches WriteResolution::Unresolved(p) ==> result->Err_0
                    == SettlementError::Storage(p)
                &&& !(resolution is Unresolved) ==> result->Err_0 == SettlementError::Storage(
                    SettlementProblem::VerificationFailed,
                )
            }
            &&& n.turn == s.turn
            &&& n.view == s.view
            &&& n.claimed == s.claimed
            &&& n.projection_attempts == s.projection_attempts
            &&& n.retirement_pending == s.retirement_pending
        }),
{
}

/// Revisions begin at one and go up by one, and what is written is the turn as
/// it stands, behind the revision that was acknowledged last.
pub proof fn law_a_write_carries_the_next_revision(
    s: slot::SlotModel,
    next: AfterWrite,
    revision: u64,
    bytes: Seq<u8>,
)
    ensures
        s.acknowledged is None ==> s.next_revision() == 1,
        s.acknowledged matches Some(a) ==> (a.revision < u64::MAX ==> s.next_revision()
            == a.revision + 1),
        s.persist(next).1 matches Step::Encode { revision: asked, then_do } ==> asked
            == s.next_revision() && then_do == next && s.pending is None && s.persist(next).0.dirty
            && s.persist(next).0.turn == s.turn,
        s.pending is None && (s.acknowledged is None || s.acknowledged->0.revision < u64::MAX)
            ==> s.persist(next).1 is Encode,
        s.encoded(revision, bytes).pending matches Some(p) && p.encoded.turn == s.turn
            && p.encoded.revision == revision && p.encoded.bytes == bytes && p.previous == (
        match s.acknowledged {
            Some(a) => Some(a.revision),
            None => None,
        }),
{
}

/// A turn that cannot be written is reported to whoever asked, and stays
/// unwritten; nothing newer is written over a write without an answer.
pub proof fn law_an_open_write_is_not_written_over(s: slot::SlotModel)
    requires
        s.pending is Some,
    ensures
        s.persist(AfterWrite::Report).1 == slot_model::finished(
            Err(
                match s.error {
                    Some(e) => e,
                    None => SettlementError::Storage(SettlementProblem::Unhealthy),
                },
            ),
        ),
        s.persist(AfterWrite::Report).0 == (slot::SlotModel { dirty: true, ..s }),
{
}

/// Two written turns are the same only if every round of theirs is: its hold,
/// its costs, its evidence, its decision, its place and its entry.
pub proof fn law_sameness_overlooks_nothing(
    a: evidence::TurnModel,
    b: evidence::TurnModel,
    i: int,
    k: int,
)
    requires
        evidence::same_turn(a, b),
    ensures
        a.turn_id == b.turn_id,
        a.budget_epoch == b.budget_epoch,
        a.request_session == b.request_session,
        a.journal_owner == b.journal_owner,
        a.verified_subject.0@ == b.verified_subject.0@,
        a.budget_holder.0@ == b.budget_holder.0@,
        a.cap_token_id == b.cap_token_id,
        a.started_at == b.started_at,
        a.terminal == b.terminal,
        a.rounds.len() == b.rounds.len(),
        0 <= i < a.rounds.len() ==> {
            let x = a.rounds[i];
            let y = b.rounds[i];
            &&& x.settlement_id == y.settlement_id
            &&& x.ordinal == y.ordinal
            &&& x.provider_request_id == y.provider_request_id
            &&& x.provider@ == y.provider@
            &&& x.model@ == y.model@
            &&& x.request_digest == y.request_digest
            &&& x.reserved == y.reserved
            &&& x.provider_evidence == y.provider_evidence
            &&& x.known_incurred == y.known_incurred
            &&& x.decision == y.decision
            &&& x.commit_ordinal == y.commit_ordinal
            &&& x.projection == y.projection
            &&& x.tools.len() == y.tools.len()
            &&& 0 <= k < x.tools.len() ==> {
                &&& x.tools[k].ordinal == y.tools[k].ordinal
                &&& x.tools[k].call_id@ == y.tools[k].call_id@
                &&& x.tools[k].name@ == y.tools[k].name@
                &&& x.tools[k].arguments_digest == y.tools[k].arguments_digest
                &&& x.tools[k].effect == y.tools[k].effect
                &&& x.tools[k].output_admission == y.tools[k].output_admission
            }
            &&& x.phase is Reserved <==> y.phase is Reserved
            &&& x.phase is WorkObserved <==> y.phase is WorkObserved
            &&& x.phase is Prepared <==> y.phase is Prepared
            &&& x.phase is Finalized <==> y.phase is Finalized
            &&& x.phase is Settled <==> y.phase is Settled
            &&& x.phase is Unresolved <==> y.phase is Unresolved
            &&& (x.phase matches SettlementPhase::Settled { application: p, receipt: r } ==> (
            y.phase matches SettlementPhase::Settled { application: q, receipt: s } ==> p == q && r
                == s))
            &&& (x.phase matches SettlementPhase::Finalized { application: p, .. } ==> (
            y.phase matches SettlementPhase::Finalized { application: q, .. } ==> p == q))
            &&& (x.phase matches SettlementPhase::Unresolved { problem: p, application: d, .. } ==> (
            y.phase matches SettlementPhase::Unresolved { problem: q, application: e, .. } ==> p
                == q && d == e))
        },
{
    if 0 <= i < a.rounds.len() {
        assert(evidence::same_round(a.rounds[i], b.rounds[i]));
        if 0 <= k < a.rounds[i].tools.len() {
            assert(evidence::same_tool(a.rounds[i].tools[k], b.rounds[i].tools[k]));
        }
    }
}

/// A turn is the same as itself.
pub proof fn law_a_turn_is_the_same_as_itself(a: evidence::TurnModel)
    ensures
        evidence::same_turn(a, a),
{
    assert forall|i: int| 0 <= i < a.rounds.len() implies evidence::same_round(
        #[trigger] a.rounds[i],
        a.rounds[i],
    ) by {}
}

/// Once its write was refused or done, a release is asked of the account either
/// way, and remembers which; everything else goes on only behind a write that
/// was done.
pub proof fn law_a_refused_write_stops_all_but_a_release(
    s: slot::SlotModel,
    next: AfterWrite,
    e: SettlementError,
)
    ensures
        !(next is Release) ==> s.after_write(next, Err(e)) == (s, slot_model::finished(Err(e))),
        s.claimed ==> (s.after_write(AfterWrite::Release, Err(e)).1 matches Step::Money {
            call: MoneyCall::Release { known },
            settle: slot::AfterMoney::Released { before },
        } && known == s.turn.rounds.last().known_incurred && before == Err::<(), SettlementError>(e)),
        s.after_write(AfterWrite::Report, Ok(())) == (s, slot_model::finished(Ok(()))),
        s.after_write(AfterWrite::DropRejected, Ok(())).0.rejected is None,
        s.after_write(AfterWrite::ReceiptUnknown, Ok(())).0.error == Some(
            SettlementError::ReceiptUnknown,
        ),
{
}

/// A round's entry is ready exactly once its application stands: it is settled,
/// or it is finalized and there is no receipt to wait for.
pub proof fn law_an_entry_waits_for_its_receipt(
    s: slot::SlotModel,
    ordinal: int,
    id: u128,
    journal: SessionId,
)
    requires
        s.error is None,
        s.validation != ClaimValidation::Invalid,
        s.pending is None,
        !s.dirty,
        s.turn.journal_owner == Some(journal),
        !s.attempted(id),
    ensures
        s.project(ordinal, id, journal).1 is Ok,
        s.project(ordinal, id, journal).1->Ok_0 is Some <==> match s.turn.rounds[ordinal].phase {
            SettlementPhase::Settled { .. } => true,
            SettlementPhase::Finalized { .. } => !(s.turn.rounds[ordinal].decision is Some
                && s.turn.rounds[ordinal].decision->0 is Completion),
            _ => false,
        },
        s.project(ordinal, id, journal).1->Ok_0 is None ==> s.project(ordinal, id, journal).0 == s,
{
}

/// An entry that is asked for in vain is refused for what stands in its way,
/// and the turn stays as it is.
pub proof fn law_a_refused_entry_says_why(
    s: slot::SlotModel,
    ordinal: int,
    id: u128,
    journal: SessionId,
)
    ensures
        ({
            let (n, result) = s.project(ordinal, id, journal);
            &&& s.error matches Some(e) ==> result == Err::<Option<JournalEntry>, SettlementError>(e)
            &&& s.outcome() is Ok && (s.pending is Some || s.dirty) ==> result == Err::<
                Option<JournalEntry>,
                SettlementError,
            >(SettlementError::AdmissionClosed)
            &&& s.outcome() is Ok && s.pending is None && !s.dirty && s.turn.journal_owner != Some(
                journal,
            ) ==> result == Err::<Option<JournalEntry>, SettlementError>(
                SettlementError::IdentityMismatch,
            )
            &&& result is Err ==> n == s
            &&& result matches Ok(Some(entry)) ==> {
                &&& n.projection_attempts.len() == s.projection_attempts.len() + 1
                &&& n.projection_attempts.last().id == id
                &&& n.projection_attempts.last().entry == entry
                &&& n == (slot::SlotModel { projection_attempts: n.projection_attempts, ..s })
                &&& forall|i: int|
                    0 <= i < s.projection_attempts.len() ==> n.projection_attempts[i]
                        == #[trigger] s.projection_attempts[i]
            }
        }),
{
}

/// An entry that the journal did not take is owed as before and can be asked
/// for again: its attempt is forgotten, and no other.
pub proof fn law_an_entry_not_taken_is_owed_again(s: slot::SlotModel, ordinal: int, id: u128)
    requires
        0 <= ordinal < s.turn.rounds.len(),
        s.turn.rounds[ordinal].projection == JournalProjection::Pending(id),
    ensures
        ({
            let (n, step) = s.projected(ordinal, id, ProjectionOutcome::DefinitelyNotApplied);
            &&& step == slot_model::finished(Err(SettlementError::ProjectionNotApplied))
            &&& n.turn == s.turn
            &&& n.error == s.error
            &&& !n.attempted(id)
            &&& forall|other: u128| other != id ==> (#[trigger] n.attempted(other) <==> s.attempted(
                other,
            ))
        }),
{
    let n = s.projected(ordinal, id, ProjectionOutcome::DefinitelyNotApplied).0;
    let keeps = |a: slot::ProjectionAttempt| a.id != id;
    let kept = s.projection_attempts.filter(keeps);
    assert(n.projection_attempts == kept);
    assert forall|other: u128| other != id implies (#[trigger] n.attempted(other) <==> s.attempted(
        other,
    )) by {
        if n.attempted(other) {
            let i = choose|i: int| 0 <= i < kept.len() && (#[trigger] kept[i]).id == other;
            s.projection_attempts.lemma_filter_contains_rev(keeps, kept[i]);
            let j = choose|j: int|
                0 <= j < s.projection_attempts.len() && s.projection_attempts[j] == kept[i];
            assert(s.projection_attempts[j].id == other);
        }
        if s.attempted(other) {
            let j = choose|j: int|
                0 <= j < s.projection_attempts.len() && (#[trigger] s.projection_attempts[j]).id
                    == other;
            s.projection_attempts.lemma_filter_contains(keeps, j);
            assert(kept.contains(s.projection_attempts[j]));
            let i = choose|i: int| 0 <= i < kept.len() && kept[i] == s.projection_attempts[j];
            assert(n.projection_attempts[i].id == other);
        }
    }
    if n.attempted(id) {
        let i = choose|i: int| 0 <= i < kept.len() && (#[trigger] kept[i]).id == id;
        s.projection_attempts.lemma_filter_pred(keeps, i);
    }
}

/// An answer for an entry that no round owes, or not this round, is refused and
/// changes nothing.
pub proof fn law_only_an_owed_entry_is_answered(
    s: slot::SlotModel,
    ordinal: int,
    id: u128,
    outcome: ProjectionOutcome,
)
    requires
        !(0 <= ordinal < s.turn.rounds.len()) || s.turn.rounds[ordinal].projection
            != JournalProjection::Pending(id),
    ensures
        s.projected(ordinal, id, outcome) == (
            s,
            slot_model::finished(Err(SettlementError::State)),
        ),
{
}

/// Every round whose entry is pending is listed, with its place, and nothing
/// else is.
pub proof fn law_every_pending_entry_is_owed(turn: evidence::TurnModel, n: int)
    requires
        0 <= n <= turn.rounds.len(),
    ensures
        forall|i: int|
            0 <= i < n && (#[trigger] turn.rounds[i]).projection is Pending ==> exists|k: int|
                0 <= k < projection::owed_by(turn, n).len() && projection::owed_by(turn, n)[k] == (
                ProjectionWork {
                    commit_ordinal: turn.rounds[i].commit_ordinal,
                    turn: turn.turn_id,
                    ordinal: turn.rounds[i].ordinal,
                    id: turn.rounds[i].projection->Pending_0,
                }),
        forall|k: int|
            0 <= k < projection::owed_by(turn, n).len() ==> exists|i: int|
                0 <= i < n && (#[trigger] turn.rounds[i]).projection == JournalProjection::Pending(
                    (#[trigger] projection::owed_by(turn, n)[k]).id,
                ) && projection::owed_by(turn, n)[k].ordinal == turn.rounds[i].ordinal
                    && projection::owed_by(turn, n)[k].commit_ordinal == turn.rounds[i].commit_ordinal
                    && projection::owed_by(turn, n)[k].turn == turn.turn_id,
    decreases n,
{
    if n > 0 {
        law_every_pending_entry_is_owed(turn, n - 1);
        let rest = projection::owed_by(turn, n - 1);
        let all = projection::owed_by(turn, n);
        assert forall|i: int|
            0 <= i < n && (#[trigger] turn.rounds[i]).projection is Pending implies exists|k: int|
            0 <= k < all.len() && all[k] == (ProjectionWork {
                commit_ordinal: turn.rounds[i].commit_ordinal,
                turn: turn.turn_id,
                ordinal: turn.rounds[i].ordinal,
                id: turn.rounds[i].projection->Pending_0,
            }) by {
            let item = ProjectionWork {
                commit_ordinal: turn.rounds[i].commit_ordinal,
                turn: turn.turn_id,
                ordinal: turn.rounds[i].ordinal,
                id: turn.rounds[i].projection->Pending_0,
            };
            if i < n - 1 {
                let k = choose|k: int| 0 <= k < rest.len() && rest[k] == item;
                assert(all[k] == item);
            } else {
                assert(all[all.len() - 1] == item);
            }
        }
        assert forall|k: int| 0 <= k < all.len() implies exists|i: int|
            0 <= i < n && (#[trigger] turn.rounds[i]).projection == JournalProjection::Pending(
                (#[trigger] all[k]).id,
            ) && all[k].ordinal == turn.rounds[i].ordinal && all[k].commit_ordinal
                == turn.rounds[i].commit_ordinal && all[k].turn == turn.turn_id by {
            if k < rest.len() {
                assert(all[k] == rest[k]);
                let i = choose|i: int|
                    0 <= i < n - 1 && (#[trigger] turn.rounds[i]).projection
                        == JournalProjection::Pending((#[trigger] rest[k]).id) && rest[k].ordinal
                        == turn.rounds[i].ordinal && rest[k].commit_ordinal
                        == turn.rounds[i].commit_ordinal && rest[k].turn == turn.turn_id;
                assert(turn.rounds[i].projection == JournalProjection::Pending(all[k].id));
            } else {
                assert(turn.rounds[n - 1].projection == JournalProjection::Pending(all[k].id));
            }
        }
    }
}

/// Entries are tried in the order of their places, and one without a place
/// comes before all that have one.
pub proof fn law_entries_come_in_the_order_of_their_places(
    work: Seq<ProjectionWork>,
    i: int,
    j: int,
)
    requires
        projection::in_commit_order(work),
        0 <= i < j < work.len(),
    ensures
        work[i].commit_ordinal matches Some(x) ==> (work[j].commit_ordinal matches Some(y) && x
            <= y),
{
    assert(projection::no_later(work[i], work[j]));
}

/// An earlier process left a turn unsettled exactly if its end or its marker is
/// open, or if one of its rounds is not settled or still owes its entry.
pub proof fn law_any_open_end_is_unsettled(turn: evidence::TurnModel, j: int)
    ensures
        turn.terminal is Open || turn.terminal is Unresolved ==> settlement::unsettled(turn),
        turn.cancellation_marker is Prepared ==> settlement::unsettled(turn),
        0 <= j < turn.rounds.len() && (!(turn.rounds[j].phase is Settled)
            || turn.rounds[j].projection is Pending) ==> settlement::unsettled(turn),
        settlement::unsettled(turn) ==> turn.terminal is Open || turn.terminal is Unresolved
            || turn.cancellation_marker is Prepared || exists|k: int|
            0 <= k < turn.rounds.len() && (!((#[trigger] turn.rounds[k]).phase is Settled)
                || turn.rounds[k].projection is Pending),
{
}

/// A reservation that is refused is refused for the first thing in its way.
pub proof fn law_a_refused_reservation_says_why(
    c: settlement::CoordinatorModel,
    encoding: Option<SettlementStoreError>,
)
    ensures
        settlement::reserve_refusal(c, encoding) is None <==> {
            &&& encoding is None
            &&& c.busy is None
            &&& c.executing is None
            &&& !c.stopped
            &&& c.boot_problem is None
            &&& c.abandoned == Set::<TurnId>::empty()
            &&& forall|id: TurnId| #[trigger]
                c.slots.contains_key(id) && c.slots[id] is Some ==> c.slots[id]->0.quiet()
            &&& c.slots.dom().len() < settlement::MAX_SLOTS
            &&& c.inventory.len() < settlement::MAX_INVENTORY_RECORDS
            &&& c.next_ordinal < u64::MAX
        },
        match settlement::reserve_refusal(c, encoding) {
            None => true,
            Some(SettlementError::Busy) => c.busy is Some || c.executing is Some,
            Some(SettlementError::AdmissionClosed) => c.stopped || c.boot_problem is Some
                || c.abandoned != Set::<TurnId>::empty() || exists|id: TurnId| #[trigger]
                c.slots.contains_key(id) && c.slots[id] is Some && !c.slots[id]->0.quiet(),
            Some(SettlementError::SlotsFull) => c.slots.dom().len() >= settlement::MAX_SLOTS,
            Some(SettlementError::InventoryFull) => c.inventory.len()
                >= settlement::MAX_INVENTORY_RECORDS,
            Some(SettlementError::Invalid(p)) => (encoding matches Some(e) && p == (match e {
                SettlementStoreError::Invalid(q) => q,
                SettlementStoreError::Unreadable => SettlementProblem::Corrupt,
            })) || (c.next_ordinal == u64::MAX && p == SettlementProblem::Bounds),
            Some(_) => false,
        },
{
}

/// A slot is lent to one operation at a time, and only where it is there.
pub proof fn law_one_operation_holds_one_turn(c: settlement::CoordinatorModel, id: TurnId)
    ensures
        c.taken(id) is Ok <==> c.busy is None && c.slots.contains_key(id) && c.slots[id] is Some,
        c.taken(id) matches Ok(s) ==> c.slots[id] == Some(s),
        c.taken(id) is Err ==> c.taken(id) == Err::<slot::SlotModel, SettlementError>(
            if c.busy is None && !c.slots.contains_key(id) {
                SettlementError::State
            } else {
                SettlementError::Busy
            },
        ),
{
}

/// A turn that may leave does, unless it is executed or was abandoned; then it
/// is gone from the registry and no other is. It stays on record exactly if the
/// store has acknowledged it.
pub proof fn law_a_discharged_turn_leaves(c: settlement::CoordinatorModel, id: TurnId, other: TurnId)
    requires
        c.slots.contains_key(id),
        c.slots[id] is Some,
        c.inventory.contains(id),
    ensures
        !c.reaped(id).slots.contains_key(id) <==> c.slots[id]->0.removable() && c.executing != Some(
            id,
        ) && !c.abandoned.contains(id),
        other != id ==> (c.reaped(id).slots.contains_key(other) <==> c.slots.contains_key(other)),
        other != id && c.slots.contains_key(other) ==> c.reaped(id).slots[other]
            == c.slots[other],
        other != id ==> (c.reaped(id).inventory.contains(other) <==> c.inventory.contains(other)),
        c.reaped(id).inventory.contains(id) <==> c.reaped(id).slots.contains_key(id)
            || c.slots[id]->0.acknowledged is Some,
        c.reaped(id).executing == c.executing,
        c.reaped(id).abandoned == c.abandoned,
        c.reaped(id).busy == c.busy,
{
}

/// Giving a slot back ends the operation and changes no other turn. The turn is
/// executed no more only if it was answered; an operation that broke off leaves
/// its turn with an error, which keeps it in the registry.
pub proof fn law_a_slot_comes_back_as_it_was_left(
    c: settlement::CoordinatorModel,
    observed: Option<OwnedBudgetView>,
    unwound: bool,
    other: TurnId,
)
    requires
        c.busy is Some,
        c.slots.contains_key(c.busy->0.id),
        c.slots[c.busy->0.id] is None,
    ensures
        ({
            let busy = c.busy->0;
            let n = c.handed_back(observed, unwound);
            let answered = busy.step matches Step::Finished { final_answer, .. } && final_answer;
            &&& n.busy is None
            &&& n.abandoned == c.abandoned
            &&& n.executing == (if c.executing == Some(busy.id) && answered && !unwound {
                None
            } else {
                c.executing
            })
            &&& unwound ==> n.slots.contains_key(busy.id) && (n.slots[busy.id] matches Some(s)
                && s.error == Some(SettlementError::Panicked) && s.turn == busy.slot.turn)
            &&& n.slots.contains_key(busy.id) ==> (n.slots[busy.id] matches Some(s) && s.turn
                == busy.slot.turn && s.pending == busy.slot.pending && s.dirty == busy.slot.dirty
                && s.view == (if busy.slot.claimed && observed is Some {
                observed
            } else {
                busy.slot.view
            }) && (!unwound ==> s.error == busy.slot.error))
            &&& other != busy.id ==> (n.slots.contains_key(other) <==> c.slots.contains_key(other))
                && (c.slots.contains_key(other) ==> n.slots[other] == c.slots[other])
        }),
{
}

/// An owner that is gone leaves its turn abandoned if it still has one, and
/// executes it no more; nobody else's turn is touched.
pub proof fn law_a_gone_owner_leaves_its_turn(
    c: settlement::CoordinatorModel,
    id: TurnId,
    other: TurnId,
)
    ensures
        c.owner_gone(id).abandoned.contains(id) <==> c.slots.contains_key(id)
            || c.abandoned.contains(id),
        other != id ==> (c.owner_gone(id).abandoned.contains(other) <==> c.abandoned.contains(
            other,
        )),
        c.owner_gone(id).executing == (if c.executing == Some(id) {
            None
        } else {
            c.executing
        }),
        c.owner_gone(id).slots == c.slots || !c.slots.contains_key(id),
        c.owner_gone(id).slots.contains_key(id) <==> c.slots.contains_key(id),
{
}

/// An abandoned turn is accounted for exactly if it goes on without its owner
/// or was never used; until then it stays abandoned.
pub proof fn law_an_abandoned_turn_is_accounted_for(
    c: settlement::CoordinatorModel,
    id: TurnId,
    other: TurnId,
)
    requires
        c.abandoned.contains(id),
    ensures
        !c.abandonment_accounted(id).abandoned.contains(id) <==> c.slots.contains_key(id) && (
        c.slots[id] matches Some(s) && (s.disposition_continuation() || s.unused())),
        other != id ==> (c.abandonment_accounted(id).abandoned.contains(other)
            <==> c.abandoned.contains(other)),
{
}

/// A round is admitted exactly if the turn is open and in order, holds nothing,
/// has room, and presents its own token; the attempt and its place are kept.
pub proof fn law_a_round_is_admitted_into_an_open_turn(
    s: slot::SlotModel,
    attempt: AdmissionAttempt,
    preflight: Option<SettlementProblem>,
    ordinal: u64,
)
    ensures
        ({
            let (n, step) = s.admit_round(attempt, preflight, ordinal);
            let goes_on = s.turn.rounds.len() > 0 && s.turn.terminal is Open && (
            s.view matches Some(view) && view.status == OwnedBudgetStatus::Committed) && s.pending
                is None && !s.dirty && !s.retirement_pending && s.error is None;
            &&& step is Admit <==> {
                &&& s.turn.rounds.len() < MAX_ROUNDS
                &&& s.turn.terminal is Open
                &&& s.error is None
                &&& s.unclaimed is None
                &&& goes_on || (!s.claimed && s.admission_attempt is None)
                &&& attempt.request.cap_token_id == s.turn.cap_token_id
                &&& preflight is None
                &&& ordinal < u64::MAX
            }
            &&& step is Admit ==> n.admission_attempt == Some(attempt) && n.projection_ordinal
                == Some(ordinal) && n.turn == s.turn && !n.claimed
            &&& !(step is Admit) ==> (step matches Step::Finished { result, final_answer }
                && !final_answer && match result {
                Ok(_) => false,
                Err(SettlementError::State) => !(s.turn.terminal is Open) || s.error is Some
                    || s.unclaimed is Some || s.claimed || s.admission_attempt is Some,
                Err(SettlementError::IdentityMismatch) => attempt.request.cap_token_id
                    != s.turn.cap_token_id,
                Err(SettlementError::Invalid(p)) => preflight == Some(p) || (p
                    == SettlementProblem::Bounds && (s.turn.rounds.len() >= MAX_ROUNDS || ordinal
                    == u64::MAX)),
                Err(_) => false,
            })
            &&& n.turn == s.turn
        }),
{
}

/// An observation is taken exactly if the turn is validated and in order and
/// its round is undecided; otherwise the turn stays as it is.
pub proof fn law_an_observation_needs_an_undecided_round(
    s: slot::SlotModel,
    observation: RejectedObservation,
)
    ensures
        ({
            let (n, step) = s.observe(observation);
            let taken = s.validation is Valid && s.pending is None && s.error is None && s.rejected
                is None && s.turn.rounds.len() > 0 && s.turn.rounds.last().decision is None;
            &&& !taken ==> n == s && (step == slot_model::finished(
                Err(SettlementError::AdmissionClosed),
            ) || step == slot_model::finished(Err(SettlementError::State)))
            &&& taken ==> n.rejected == Some(observation) && n.dirty
            &&& taken && (s.acknowledged is None || s.acknowledged->0.revision < u64::MAX) ==> (step
                is Encode || n.error is Some)
        }),
{
}

/// An observed tool stands in its own place: a new one behind the others, a
/// known one in place of what was observed of it before; no other moves.
pub proof fn law_an_observed_tool_stands_in_its_place(
    tools: Seq<ToolEvidence>,
    tool: ToolEvidence,
    i: int,
)
    requires
        tool.ordinal <= tools.len(),
    ensures
        slot_model::with_tool(tools, tool)[tool.ordinal as int] == tool,
        slot_model::with_tool(tools, tool).len() == (if tool.ordinal == tools.len() {
            tools.len() + 1
        } else {
            tools.len()
        }),
        0 <= i < tools.len() && i != tool.ordinal ==> slot_model::with_tool(tools, tool)[i]
            == tools[i],
{
}

/// A tool whose place is beyond its round's bound, or leaves a gap, is refused
/// and remembered as an error.
pub proof fn law_a_misplaced_tool_is_refused(s: slot::SlotModel, tool: ToolEvidence)
    requires
        s.validation is Valid,
        s.pending is None,
        s.error is None,
        s.rejected is None,
        s.turn.rounds.len() > 0,
        s.turn.rounds.last().decision is None,
        tool.ordinal >= MAX_TOOLS_PER_ROUND || tool.ordinal > s.turn.rounds.last().tools.len(),
    ensures
        ({
            let (n, step) = s.observe(RejectedObservation::Tool(tool));
            &&& n.error is Some
            &&& n.turn == s.turn
            &&& step == slot_model::finished(Err(n.error->0))
            &&& tool.ordinal >= MAX_TOOLS_PER_ROUND ==> n.error == Some(
                SettlementError::Invalid(SettlementProblem::Bounds),
            )
        }),
{
}

/// Choosing what becomes of a round gives it its place, once, and makes its
/// entry owed where there is a journal.
pub proof fn law_a_decided_round_takes_its_place(s: slot::SlotModel)
    requires
        s.turn.rounds.len() > 0,
    ensures
        s.turn.rounds.last().commit_ordinal is Some ==> s.allocate_projection() == Ok::<
            slot::SlotModel,
            SettlementError,
        >(s),
        s.turn.rounds.last().commit_ordinal is None ==> {
            &&& s.allocate_projection() is Ok <==> s.projection_ordinal is Some
            &&& s.allocate_projection() matches Ok(n) ==> {
                let round = n.turn.rounds.last();
                &&& n.turn.rounds.len() == s.turn.rounds.len()
                &&& round.commit_ordinal == s.projection_ordinal
                &&& s.turn.journal_owner is Some ==> round.projection == JournalProjection::Pending(
                    s.turn.rounds.last().settlement_id.0,
                )
                &&& s.turn.journal_owner is None ==> round.projection
                    == s.turn.rounds.last().projection
                &&& round.known_incurred == s.turn.rounds.last().known_incurred
                &&& forall|i: int|
                    0 <= i < s.turn.rounds.len() - 1 ==> n.turn.rounds[i]
                        == #[trigger] s.turn.rounds[i]
            }
        },
{
}

/// A turn starts open and without rounds, under the identity that it was
/// reserved for, in the epoch of its registry; and its slot expects the holder
/// of that identity.
pub proof fn law_a_turn_starts_with_its_identity(
    epoch: BudgetEpoch,
    identity: settlement::TurnIdentity,
    id: TurnId,
)
    ensures
        ({
            let turn = settlement::opened_turn(epoch, identity, id);
            let s = settlement::fresh_slot(turn);
            &&& turn.turn_id == id
            &&& turn.budget_epoch == epoch
            &&& turn.request_session == identity.request_session
            &&& turn.journal_owner == identity.journal_owner
            &&& turn.verified_subject == identity.verified_subject
            &&& turn.budget_holder == identity.budget_holder
            &&& turn.cap_token_id == identity.cap_token_id
            &&& turn.started_at == identity.started_at
            &&& turn.rounds.len() == 0
            &&& turn.terminal is Open
            &&& turn.cancellation_marker is NotRequired
            &&& s.turn == turn
            &&& s.expected_holder == identity.budget_holder
            &&& s.validation is Unchecked
            &&& s.unused()
            &&& s.quiet()
            &&& s.removable()
        }),
{
}

/// A drafted round is the next one of its turn, with the whole of its envelope
/// held and nothing yet known of it; the rounds before it stay as they are.
pub proof fn law_a_drafted_round_holds_its_envelope(
    turn: evidence::TurnModel,
    request: AdmissionRequest,
    provider_request_id: u128,
    placeholder: SettlementId,
    i: int,
)
    requires
        turn.rounds.len() < u32::MAX,
    ensures
        ({
            let n = settlement::drafted_turn(turn, request, provider_request_id, placeholder);
            let round = n.rounds.last();
            &&& n.rounds.len() == turn.rounds.len() + 1
            &&& 0 <= i < turn.rounds.len() ==> n.rounds[i] == turn.rounds[i]
            &&& round.ordinal == turn.rounds.len()
            &&& round.settlement_id == placeholder
            &&& round.provider_request_id == provider_request_id
            &&& round.provider == request.provider_id
            &&& round.model == request.model_id
            &&& round.request_digest == request.request_digest
            &&& round.reserved == request.projected_envelope.as_cost()
            &&& round.known_incurred == crate::cost::CostTuple::zero()
            &&& round.tools.len() == 0
            &&& round.decision is None
            &&& round.phase is Reserved
            &&& round.commit_ordinal is None
            &&& round.projection is NotRequired <==> turn.journal_owner is Some
            &&& round.projection is NotConfigured <==> turn.journal_owner is None
            &&& n.terminal == turn.terminal
        }),
{
}

/// A reservation is closed exactly if it was never used and no operation is
/// under way; otherwise its owner is told which.
pub proof fn law_only_an_unused_reservation_is_closed(
    c: settlement::CoordinatorModel,
    id: TurnId,
)
    ensures
        settlement::close_verdict(c, id) is Ok <==> c.busy is None && c.slots.contains_key(id) && (
        c.slots[id] matches Some(s) && s.unused()),
        c.busy is Some ==> settlement::close_verdict(c, id) == Err::<(), SettlementError>(
            SettlementError::Busy,
        ),
        c.busy is None && settlement::close_verdict(c, id) is Err ==> settlement::close_verdict(
            c,
            id,
        ) == Err::<(), SettlementError>(SettlementError::State),
{
}

/// The largest record must leave its headroom free: one that fits has room for
/// the headroom, one byte more than fits does not, and a smaller one fits too.
pub proof fn law_the_largest_record_leaves_its_headroom(bytes: usize, less: usize)
    requires
        bytes < usize::MAX,
    ensures
        settlement::fits_record(bytes) ==> bytes <= settlement::MAX_RECORD_BYTES
            - settlement::RECORD_HEADROOM_BYTES,
        bytes == settlement::MAX_RECORD_BYTES - settlement::RECORD_HEADROOM_BYTES
            ==> settlement::fits_record(bytes) && !settlement::fits_record((bytes + 1) as usize),
        settlement::fits_record(bytes) && less <= bytes ==> settlement::fits_record(less),
{
}

/// A registry that is opened over a history takes no new work while a turn of
/// that history is unsettled, hands out no turn that is on record, and gives no
/// place a second time.
pub proof fn law_a_reopened_registry_heeds_its_history(
    epoch: BudgetEpoch,
    probe_bytes: usize,
    snapshots: Seq<EncodedSnapshot>,
    c: settlement::CoordinatorModel,
    i: int,
    j: int,
)
    requires
        settlement::reopened(epoch, probe_bytes, snapshots, c),
        0 <= i < snapshots.len(),
    ensures
        settlement::unsettled(snapshots[i].turn@) ==> c.closed_to_work(),
        !c.is_fresh(snapshots[i].turn.turn_id),
        0 <= j < snapshots[i].turn@.rounds.len() ==> (
        snapshots[i].turn@.rounds[j].commit_ordinal matches Some(n) ==> n < c.next_ordinal),
        (forall|k: int| 0 <= k < snapshots.len() ==> !settlement::unsettled(
            (#[trigger] snapshots[k]).turn@,
        )) ==> !c.closed_to_work(),
{
    let ids = Seq::new(snapshots.len(), |k: int| snapshots[k].turn.turn_id);
    assert(ids[i] == snapshots[i].turn.turn_id);
    assert(ids.to_set().contains(snapshots[i].turn.turn_id));
    if 0 <= j < snapshots[i].turn@.rounds.len() {
        if let Some(n) = snapshots[i].turn@.rounds[j].commit_ordinal {
            assert(settlement::retains_ordinal(snapshots, n));
        }
    }
}

/// Over the registry as a whole, every entry that a round of a listed turn owes
/// is among the work, and every piece of work is owed by one.
pub proof fn law_every_owed_entry_is_work(
    turns: Seq<settlement::TurnSettlementStatus>,
    n: int,
    m: int,
    i: int,
)
    requires
        0 <= m < n <= turns.len(),
        0 <= i < turns[m].turn@.rounds.len(),
        turns[m].turn@.rounds[i].projection is Pending,
    ensures
        projection::owed_by_all(turns, n).contains(
            ProjectionWork {
                commit_ordinal: turns[m].turn@.rounds[i].commit_ordinal,
                turn: turns[m].turn@.turn_id,
                ordinal: turns[m].turn@.rounds[i].ordinal,
                id: turns[m].turn@.rounds[i].projection->Pending_0,
            },
        ),
    decreases n,
{
    let item = ProjectionWork {
        commit_ordinal: turns[m].turn@.rounds[i].commit_ordinal,
        turn: turns[m].turn@.turn_id,
        ordinal: turns[m].turn@.rounds[i].ordinal,
        id: turns[m].turn@.rounds[i].projection->Pending_0,
    };
    let rest = projection::owed_by_all(turns, n - 1);
    let turn = turns[n - 1].turn@;
    let own = projection::owed_by(turn, turn.rounds.len() as int);
    let all = projection::owed_by_all(turns, n);
    assert(all == rest + own);
    if m < n - 1 {
        law_every_owed_entry_is_work(turns, n - 1, m, i);
        let k = choose|k: int| 0 <= k < rest.len() && rest[k] == item;
        assert(all[k] == item);
    } else {
        law_every_pending_entry_is_owed(turn, turn.rounds.len() as int);
        let k = choose|k: int| 0 <= k < own.len() && own[k] == item;
        assert(all[rest.len() + k] == item);
    }
}

} // verus!
