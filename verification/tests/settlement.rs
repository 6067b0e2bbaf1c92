//! The settlement registry, run against a ledger and a store in memory.
use std::collections::BTreeMap;

use fused_runtime::cost::{CostEnvelope, CostTuple};
use fused_runtime::evidence::{
    AdmissionRequest, BudgetApplication, BudgetAttempt, BudgetRefund, CostProvenance,
    DebitApplication, HolderId, InfrastructureFailureClass, JournalProjection, MarkerProjection,
    OutputAdmission, OwnedBudgetStatus, OwnedBudgetView, ProviderEvidence, ReceiptBinding,
    ReceiptCandidate, RefusalClass, Reservation, RollbackStatus, RoundObligation,
    SettlementDecision, SettlementPhase, SettlementProblem, SettlementStoreError, ToolEffect,
    ToolEvidence, TurnObligation, TurnTerminal, WriteResolution,
};
use fused_runtime::ids::{
    BudgetEpoch, ReceiptId, SessionId, SettlementId, Sha256Digest, TokenId, TurnId, UnixTsMillis,
};
use fused_runtime::headroom::headroom_probe;
use fused_runtime::projection::{ProjectionPass, ProjectionWork, Tried};
use fused_runtime::settlement::{
    check_record_headroom, SettlementCoordinator, SettlementSupervisor, TurnIdentity,
    TurnSettlementOwner, TurnSettlementStatus,
};
use fused_runtime::slot_model::ProjectionOutcome;
use fused_runtime::slot::{
    projection_reason, AdmissionAttempt, AdmissionError, AfterMoney, Disposition, EncodedSnapshot,
    Event, JournalEntry, MoneyCall, SettlementError, Slot, Step,
};

/// One claimed or unclaimed hold.
struct Hold {
    holder: String,
    reserved: u64,
    status: OwnedBudgetStatus,
    attempt: Option<BudgetAttempt>,
    application: Option<BudgetApplication>,
    refund: Option<BudgetRefund>,
}

/// A ledger in cents, a snapshot store, and the registry between them.
struct Bench {
    c: SettlementCoordinator,
    balances: BTreeMap<String, u64>,
    holds: BTreeMap<u128, Hold>,
    saved: BTreeMap<u128, (u64, Vec<u8>)>,
    next_id: u128,
    finalize_calls: u32,
    /// The write of this revision reaches the store, its acknowledgement does not.
    ack_fault: Option<(TurnId, u64)>,
    expired: bool,
    lost_in_admission: bool,
    /// A turn can no longer be put into bytes.
    encode_fault: bool,
}

const HOLDER: &str = "holder";
const TOKEN: TokenId = TokenId(77);
const SESSION: SessionId = SessionId(5);

fn opened(snapshots: &Vec<EncodedSnapshot>) -> SettlementCoordinator {
    SettlementCoordinator::open(BudgetEpoch(9), Ok(1_000), snapshots).unwrap()
}

fn request() -> AdmissionRequest {
    AdmissionRequest {
        cap_token_id: TOKEN,
        projected_envelope: CostEnvelope {
            tokens_in_max: 0,
            tokens_out_max: 0,
            cents_max: 10,
            wall_ms_max: 0,
            attention_score_max: 0,
        },
        provider_id: "provider".to_string(),
        model_id: "model".to_string(),
        request_digest: Sha256Digest::of(b"request"),
    }
}

fn known9() -> ProviderEvidence {
    ProviderEvidence::Observed {
        usage: None,
        cost: CostTuple::cents(9),
        provenance: CostProvenance::ReportedCost,
        finished: false,
        interrupted: false,
    }
}

impl Bench {
    fn new() -> Bench {
        Bench {
            c: opened(&Vec::new()),
            balances: BTreeMap::from([(HOLDER.to_string(), 30)]),
            holds: BTreeMap::new(),
            saved: BTreeMap::new(),
            next_id: 100,
            finalize_calls: 0,
            ack_fault: None,
            expired: false,
            lost_in_admission: false,
            encode_fault: false,
        }
    }

    fn balance(&self, holder: &str) -> u64 {
        self.balances[holder]
    }

    fn identity(&self, journal: bool) -> TurnIdentity {
        TurnIdentity {
            request_session: SessionId(1),
            journal_owner: if journal { Some(SESSION) } else { None },
            verified_subject: HolderId("subject".to_string()),
            budget_holder: HolderId(HOLDER.to_string()),
            cap_token_id: TOKEN,
            started_at: UnixTsMillis(123),
        }
    }

    fn fresh(&mut self) -> u128 {
        self.next_id += 1;
        self.next_id
    }

    fn reserve_as(
        &mut self,
        identity: TurnIdentity,
    ) -> Result<TurnSettlementOwner, SettlementError> {
        let id = TurnId(self.fresh());
        self.c.reserve_turn(identity, id, None)
    }

    fn reserve(&mut self, journal: bool) -> Result<TurnSettlementOwner, SettlementError> {
        let identity = self.identity(journal);
        self.reserve_as(identity)
    }

    fn open_round(&mut self, owner: &TurnSettlementOwner) -> Result<(), SettlementError> {
        let provider_request_id = self.fresh();
        self.open_round_for(owner, provider_request_id).0
    }

    /// Admits a round for a provider request; the second value is the hold that
    /// was returned and not claimed.
    fn open_round_for(
        &mut self,
        owner: &TurnSettlementOwner,
        provider_request_id: u128,
    ) -> (Result<(), SettlementError>, Option<Reservation>) {
        let attempt = AdmissionAttempt {
            request: request(),
            provider_request_id,
        };
        if let Err(error) = owner.admit_round(&mut self.c, attempt, None) {
            return (Err(error), None);
        }
        self.run_steps();
        let returned = self.c.busy_slot().and_then(|slot| slot.unclaimed);
        let result = self.give_back(false);
        self.drain();
        (result, returned)
    }

    /// The stored snapshot of a turn holds exactly the turn that is shown.
    fn stored_is_shown(&self, id: TurnId) -> bool {
        let status = self.c.status();
        let shown = status
            .turns
            .iter()
            .find(|turn| turn.turn.turn_id == id)
            .unwrap();
        let revision = self.saved[&id.0].0;
        self.text(id) == format!("{revision} {:?}", shown.turn)
    }

    fn owner(&mut self, journal: bool) -> TurnSettlementOwner {
        let owner = self.reserve(journal).unwrap();
        self.open_round(&owner).unwrap();
        owner
    }

    fn view(&self, id: u128) -> OwnedBudgetView {
        let hold = &self.holds[&id];
        OwnedBudgetView {
            reservation_id: id,
            holder: HolderId(hold.holder.clone()),
            reserved: CostTuple::cents(hold.reserved),
            status: hold.status,
            attempt: hold.attempt,
            application: hold.application,
            refund: hold.refund,
        }
    }

    fn credit(&mut self, holder: &str, cents: u64) -> u64 {
        let balance = self.balances.get_mut(holder).unwrap();
        let room = u64::MAX - *balance;
        let paid = if room < cents { room } else { cents };
        *balance += paid;
        paid
    }

    fn pay_refund(&mut self, id: u128, owed: u64, pending: OwnedBudgetStatus, done: OwnedBudgetStatus) {
        let holder = self.holds[&id].holder.clone();
        let paid_before = match self.holds[&id].refund {
            Some(refund) => refund.applied_credit.cents,
            None => 0,
        };
        let paid = paid_before + self.credit(&holder, owed - paid_before);
        let hold = self.holds.get_mut(&id).unwrap();
        hold.refund = Some(BudgetRefund {
            applied_credit: CostTuple::cents(paid),
            remaining_credit: CostTuple::cents(owed - paid),
        });
        hold.status = if paid == owed { done } else { pending };
    }

    fn move_money(&mut self, id: u128, call: MoneyCall) {
        match call {
            MoneyCall::Finalize { known, requested } => {
                self.finalize_calls += 1;
                let holder = self.holds[&id].holder.clone();
                let reserved = self.holds[&id].reserved;
                let spare = reserved.saturating_sub(requested.cents);
                let over = requested.cents.saturating_sub(reserved);
                let balance = self.balances.get_mut(&holder).unwrap();
                let extra = if *balance < over { *balance } else { over };
                *balance -= extra;
                let paid = self.credit(&holder, spare);
                let hold = self.holds.get_mut(&id).unwrap();
                hold.attempt = Some(BudgetAttempt {
                    known_incurred: known,
                    requested_debit: requested,
                });
                hold.application = Some(BudgetApplication {
                    applied_debit: CostTuple::cents(reserved - spare + extra),
                    reserved_credit: CostTuple::cents(paid),
                    additional_debit: CostTuple::cents(extra),
                    shortfall: CostTuple::cents(over - extra),
                });
                hold.status = OwnedBudgetStatus::Finalized;
            }
            MoneyCall::Release { known } => {
                let reserved = self.holds[&id].reserved;
                self.holds.get_mut(&id).unwrap().attempt = Some(BudgetAttempt {
                    known_incurred: known,
                    requested_debit: CostTuple::zero(),
                });
                self.pay_refund(
                    id,
                    reserved,
                    OwnedBudgetStatus::ReleasePending,
                    OwnedBudgetStatus::Released,
                );
            }
            MoneyCall::Rollback => {
                let applied = self.holds[&id].application.unwrap().applied_debit.cents;
                self.pay_refund(
                    id,
                    applied,
                    OwnedBudgetStatus::RollbackPending,
                    OwnedBudgetStatus::RolledBack,
                );
            }
            MoneyCall::Commit => {
                self.holds.get_mut(&id).unwrap().status = OwnedBudgetStatus::Committed;
            }
        }
    }

    fn write_pending(&mut self) -> WriteResolution {
        let slot = self.c.busy_slot().unwrap();
        let turn = slot.turn.turn_id;
        let pending = slot.pending.as_ref().unwrap();
        let revision = pending.encoded.revision;
        let stored = self.saved.get(&turn.0).map(|entry| entry.0);
        assert_eq!(pending.previous, stored);
        self.saved
            .insert(turn.0, (revision, pending.encoded.bytes.clone()));
        if self.ack_fault == Some((turn, revision)) {
            self.ack_fault = None;
            return WriteResolution::Unresolved(SettlementProblem::VerificationFailed);
        }
        WriteResolution::Durable(revision)
    }

    fn perform(&mut self, step: Step) -> Event {
        match step {
            Step::Encode { revision, .. } => {
                if self.encode_fault {
                    return Event::Encoded(Err(SettlementStoreError::Unreadable));
                }
                let slot = self.c.busy_slot().unwrap();
                Event::Encoded(Ok(format!("{revision} {:?}", slot.turn).into_bytes()))
            }
            Step::Write { .. } | Step::Rewrite => Event::Written(self.write_pending()),
            Step::Resolve => {
                let slot = self.c.busy_slot().unwrap();
                let pending = slot.pending.as_ref().unwrap();
                let (revision, bytes) = &self.saved[&slot.turn.turn_id.0];
                Event::Written(
                    if *revision == pending.encoded.revision && *bytes == pending.encoded.bytes {
                        WriteResolution::Durable(*revision)
                    } else {
                        WriteResolution::DefinitelyNotApplied
                    },
                )
            }
            Step::Admit => {
                let slot = self.c.busy_slot().unwrap();
                let asked = &slot.admission_attempt.as_ref().unwrap().request;
                let envelope = asked.projected_envelope;
                let cents = envelope.cents_max;
                if self.balance(HOLDER) < cents {
                    return Event::Admitted(Err(AdmissionError::BudgetExhausted));
                }
                *self.balances.get_mut(HOLDER).unwrap() -= cents;
                let id = self.fresh();
                self.holds.insert(
                    id,
                    Hold {
                        holder: HOLDER.to_string(),
                        reserved: cents,
                        status: OwnedBudgetStatus::Active,
                        attempt: None,
                        application: None,
                        refund: None,
                    },
                );
                Event::Admitted(Ok(Reservation {
                    reservation_id: id,
                    cap_token_id: TOKEN,
                    envelope,
                    reserved_at: UnixTsMillis(123),
                    expires_at: UnixTsMillis(123),
                }))
            }
            Step::Claim => {
                if self.expired {
                    return Event::Claimed(Err(AdmissionError::ReservationExpired));
                }
                let slot = self.c.busy_slot().unwrap();
                let id = slot.unclaimed.unwrap().reservation_id;
                Event::Claimed(Ok(Ok(self.view(id))))
            }
            Step::Money { call, .. } => {
                let slot = self.c.busy_slot().unwrap();
                let id = slot.view.as_ref().unwrap().reservation_id;
                self.move_money(id, call);
                Event::Moved {
                    result: Ok(()),
                    view: Ok(self.view(id)),
                }
            }
            Step::Finished { .. } => unreachable!(),
        }
    }

    /// Performs the steps of the operation in hand, without giving it back.
    fn run_steps(&mut self) {
        while let Some(step) = self.c.step() {
            if let Step::Finished { .. } = step {
                break;
            }
            if self.lost_in_admission && matches!(step, Step::Claim) {
                break;
            }
            let event = self.perform(step);
            self.c.resume(event);
        }
    }

    fn give_back(&mut self, unwound: bool) -> Result<(), SettlementError> {
        let observed = match self.c.busy_slot() {
            Some(slot) if slot.claimed => {
                let id = slot.view.as_ref().unwrap().reservation_id;
                Some(self.view(id))
            }
            _ => None,
        };
        self.c.hand_back(observed, unwound)
    }

    fn finish_only(&mut self, first: Result<Step, SettlementError>) -> Result<(), SettlementError> {
        first?;
        self.run_steps();
        self.give_back(false)
    }

    fn finish(&mut self, first: Result<Step, SettlementError>) -> Result<(), SettlementError> {
        let result = self.finish_only(first);
        self.drain();
        result
    }

    fn drain(&mut self) {
        if self.c.status().busy.is_some() {
            return;
        }
        for id in self.c.begin_drain() {
            let first = self.c.cancel(id);
            let _ = self.finish_only(first);
            self.c.account_abandonment(id);
        }
        self.c.end_drain();
    }

    fn drop_owner(&mut self, owner: TurnSettlementOwner) {
        owner.disown(&mut self.c);
        self.drain();
    }

    fn observe(&mut self, owner: &TurnSettlementOwner) -> Result<(), SettlementError> {
        let first = owner.observe_provider(&mut self.c, known9());
        self.finish(first)
    }

    fn prepare(&mut self, owner: &TurnSettlementOwner, cents: u64) -> Result<(), SettlementError> {
        let first = owner.prepare(
            &mut self.c,
            Disposition::Refusal(RefusalClass::Authorization),
            CostTuple::cents(cents),
        );
        self.finish(first)
    }

    fn finalize(&mut self, owner: &TurnSettlementOwner) -> Result<(), SettlementError> {
        let first = owner.finalize_sync(&mut self.c);
        self.finish(first)
    }

    fn commit(&mut self, owner: &TurnSettlementOwner) -> Result<(), SettlementError> {
        let first = owner.commit_disposition(&mut self.c);
        self.finish(first)
    }

    fn abandon(&mut self, owner: &TurnSettlementOwner) -> Result<(), SettlementError> {
        let first = owner.abandon_sync(&mut self.c);
        self.finish(first)
    }

    fn supervisor(&self) -> SettlementSupervisor {
        self.c.supervisor()
    }

    fn resolve(&mut self, id: TurnId) -> Result<(), SettlementError> {
        let first = self.supervisor().resolve_storage(&mut self.c, id);
        self.finish(first)
    }

    fn retry_abandonment(&mut self, id: TurnId) -> Result<(), SettlementError> {
        self.drain();
        self.supervisor().retry_abandonment(&self.c, id)
    }

    fn closes(&mut self) -> bool {
        self.supervisor().try_close(&mut self.c)
    }

    fn work(&self) -> Vec<ProjectionWork> {
        self.supervisor().pending_work(&self.c)
    }

    /// Appends every owed entry, as a journal that is always durable would.
    fn project_all(&mut self) -> usize {
        let mut pass = ProjectionPass::new(self.work());
        while let Some(work) = pass.current() {
            let entry = self
                .supervisor()
                .begin_projection(&mut self.c, &work, SESSION);
            let _ = self.give_back(false);
            let tried = match entry {
                Ok(Some(_)) => Tried::Acknowledged,
                Ok(None) => Tried::Skipped,
                Err(error) => Tried::Failed(error),
            };
            if tried == Tried::Acknowledged {
                let first = self.supervisor().complete_projection(
                    &mut self.c,
                    &work,
                    ProjectionOutcome::Durable,
                );
                self.finish(first).unwrap();
            }
            pass.advance(tried);
        }
        pass.result().unwrap_or(0)
    }

    fn bytes(&self, id: TurnId) -> Vec<u8> {
        self.saved[&id.0].1.clone()
    }

    fn text(&self, id: TurnId) -> String {
        String::from_utf8(self.bytes(id)).unwrap()
    }
}

#[test]
fn only_a_release_is_bounded_by_its_hold() {
    let rolled_back = OwnedBudgetView {
        reservation_id: 1,
        holder: HolderId(HOLDER.to_string()),
        reserved: CostTuple::cents(10),
        status: OwnedBudgetStatus::RolledBack,
        attempt: None,
        application: None,
        refund: Some(BudgetRefund {
            applied_credit: CostTuple::cents(15),
            remaining_credit: CostTuple::zero(),
        }),
    };
    assert!(AfterMoney::Applied.is_admitted(&rolled_back));
    assert!(!AfterMoney::Credited.is_admitted(&rolled_back));
    assert!(!AfterMoney::Released { before: Ok(()) }.is_admitted(&rolled_back));
    let unpaid = OwnedBudgetView {
        refund: None,
        ..rolled_back
    };
    assert!(!AfterMoney::Applied.is_admitted(&unpaid));
    assert!(AfterMoney::Credited.is_admitted(&unpaid));
}

#[test]
fn a_recorded_turn_is_not_fresh() {
    let mut f = Bench::new();
    let owner = f.owner(false);
    let id = owner.turn_id();
    assert!(!f.c.is_fresh(id));
    let inventory = f.c.status().inventory_count;
    f.abandon(&owner).unwrap();
    f.drop_owner(owner);
    assert!(!f.c.status().turns.iter().any(|turn| turn.turn.turn_id == id));
    assert!(!f.c.is_fresh(id));
    let next = f.reserve(false).unwrap();
    assert_eq!(f.c.status().inventory_count, inventory + 1);
    f.drop_owner(next);
}

#[test]
fn abandoning_twice_credits_once() {
    let mut f = Bench::new();
    let before = f.balance(HOLDER);
    let owner = f.owner(false);
    let id = owner.turn_id();
    assert_eq!(f.balance(HOLDER), before - 10);
    f.abandon(&owner).unwrap();
    assert_eq!(f.balance(HOLDER), before);
    let stored = f.bytes(id);
    f.abandon(&owner).unwrap();
    assert_eq!(f.balance(HOLDER), before);
    assert_eq!(f.bytes(id), stored);

    let mut paid = Bench::new();
    let owner = paid.owner(false);
    let id = owner.turn_id();
    paid.observe(&owner).unwrap();
    paid.prepare(&owner, 9).unwrap();
    let (balance, stored) = (paid.balance(HOLDER), paid.bytes(id));
    assert_eq!(paid.abandon(&owner), Err(SettlementError::State));
    assert_eq!(paid.balance(HOLDER), balance);
    assert_eq!(paid.bytes(id), stored);
}

#[test]
fn a_pass_stops_at_its_first_failure() {
    let entry = |id: u128| ProjectionWork {
        commit_ordinal: Some(id as u64),
        turn: TurnId(1),
        ordinal: 0,
        id,
    };
    let mut pass = ProjectionPass::new(vec![entry(1), entry(2), entry(3)]);
    pass.advance(Tried::Acknowledged);
    assert_eq!(pass.current(), Some(entry(2)));
    pass.advance(Tried::Failed(SettlementError::ProjectionUnknown));
    assert_eq!(pass.current(), None);
    assert_eq!(pass.result(), Err(SettlementError::ProjectionUnknown));
    let mut whole = ProjectionPass::new(vec![entry(1), entry(2)]);
    whole.advance(Tried::Skipped);
    whole.advance(Tried::Acknowledged);
    assert_eq!(whole.current(), None);
    assert_eq!(whole.result(), Ok(1));
}

#[test]
fn exact_prepared_ack_enters_gate_once_and_keeps_paid_disposition() {
    let mut f = Bench::new();
    let owner = f.owner(false);
    let id = owner.turn_id();
    f.observe(&owner).unwrap();
    f.prepare(&owner, 9).unwrap();
    assert!(f.stored_is_shown(id));
    let calls = f.finalize_calls;
    f.finalize(&owner).unwrap();
    assert_eq!(f.finalize_calls, calls + 1);
    assert_eq!(f.finalize(&owner), Err(SettlementError::State));
    assert_eq!(f.finalize_calls, calls + 1);
    f.commit(&owner).unwrap();
    f.drop_owner(owner);
    assert_eq!(f.balance(HOLDER), 21);
    assert!(f.closes());
}

#[test]
fn expired_claim_retains_first_hold_and_latches_admission() {
    let mut f = Bench::new();
    f.expired = true;
    let owner = f.reserve(false).unwrap();
    let id = owner.turn_id();
    let provider = f.fresh();
    assert_eq!(
        f.open_round_for(&owner, provider).0,
        Err(SettlementError::Budget(AdmissionError::ReservationExpired))
    );
    let first_id = f.c.status().turns[0].unclaimed_reservation.unwrap();
    let before = f.balance(HOLDER);
    assert_eq!(before, 20);
    let other = f.fresh();
    let (second, returned) = f.open_round_for(&owner, other);
    assert_eq!(f.balance(HOLDER), before);
    assert_eq!(f.c.status().turns[0].unclaimed_reservation, Some(first_id));
    let status = f.c.status();
    let retained = status.turns[0].admission_attempt.as_ref().unwrap();
    assert_eq!(retained.request.cap_token_id, TOKEN);
    assert_eq!(
        retained.request.projected_envelope,
        request().projected_envelope
    );
    assert_eq!(retained.request.provider_id, "provider");
    assert_eq!(retained.request.model_id, "model");
    assert_eq!(retained.request.request_digest, request().request_digest);
    assert_eq!(retained.provider_request_id, provider);
    let returned = returned.unwrap();
    assert_eq!(returned.reservation_id, first_id);
    assert_eq!(returned.cap_token_id, TOKEN);
    assert_eq!(returned.envelope, request().projected_envelope);
    assert_eq!(returned.reserved_at, returned.expires_at);
    assert!(matches!(
        second,
        Err(SettlementError::State | SettlementError::AdmissionClosed)
    ));
    assert!(matches!(
        f.c.status().turns[0].error,
        Some(SettlementError::Budget(_))
    ));
    f.drop_owner(owner);
    assert!(matches!(
        f.reserve(false),
        Err(SettlementError::AdmissionClosed)
    ));
    assert_eq!(f.c.status().turns[0].turn.turn_id, id);
    assert_eq!(f.c.status().turns[0].unclaimed_reservation, Some(first_id));
    assert!(!f.closes());
}

fn settled_ack_case(drop_before_ack: bool, journal: bool) {
    let mut f = Bench::new();
    let owner = f.owner(journal);
    let id = owner.turn_id();
    f.observe(&owner).unwrap();
    f.prepare(&owner, 9).unwrap();
    f.finalize(&owner).unwrap();
    let before = f.saved[&id.0].clone();
    let hold = f.c.status().turns[0].turn.rounds[0].settlement_id.0;
    let balance = f.balance(HOLDER);
    assert_eq!(balance, 21);
    f.ack_fault = Some((id, before.0 + 1));
    assert_eq!(
        f.commit(&owner),
        Err(SettlementError::Storage(
            SettlementProblem::VerificationFailed
        ))
    );
    assert!(f.ack_fault.is_none());
    let durable = f.saved[&id.0].clone();
    assert_ne!(durable.1, before.1);
    assert_ne!(Sha256Digest::of(&durable.1), Sha256Digest::of(&before.1));
    assert_eq!(durable.0, before.0 + 1);
    assert!(f.stored_is_shown(id));
    {
        let status = f.c.status();
        let status = &status.turns[0];
        assert_eq!(status.pending_revision, Some(durable.0));
        assert_eq!(status.pending_digest, Some(Sha256Digest::of(&durable.1)));
        assert_eq!(status.acknowledged_revision, Some(before.0));
        assert_eq!(
            status.view.as_ref().unwrap().status,
            OwnedBudgetStatus::Finalized
        );
        assert!(status.retirement_pending);
        assert!(matches!(
            status.turn.rounds[0].phase,
            SettlementPhase::Settled { .. }
        ));
    }
    let mut owner = Some(owner);
    if drop_before_ack {
        f.drop_owner(owner.take().unwrap());
    }
    let first = f.supervisor().resolve_storage(&mut f.c, id);
    {
        let pending = f.c.busy_slot().unwrap().pending.as_ref().unwrap();
        assert_eq!(pending.previous, Some(before.0));
        assert_eq!(pending.encoded.bytes, durable.1);
    }
    f.finish(first).unwrap();
    assert_eq!(f.holds[&hold].status, OwnedBudgetStatus::Committed);
    if let Some(owner) = &owner {
        assert_eq!(
            f.c.status().turns[0].view.as_ref().unwrap().status,
            OwnedBudgetStatus::Committed
        );
        f.commit(owner).unwrap();
    }
    assert_eq!(f.resolve(id), Err(SettlementError::State));
    assert_eq!(f.bytes(id), durable.1);
    assert_eq!(f.balance(HOLDER), balance);
    if let Some(owner) = owner {
        f.drop_owner(owner);
    }
    if journal {
        let retained = f.c.status();
        assert_eq!(retained.turns.len(), 1);
        assert_eq!(
            retained.turns[0].view.as_ref().unwrap().status,
            OwnedBudgetStatus::Committed
        );
        assert!(matches!(
            retained.turns[0].turn.rounds[0].projection,
            JournalProjection::Pending(_)
        ));
        assert!(!f.closes());
    } else {
        assert!(f.c.status().turns.is_empty());
        assert!(f.closes());
    }
}

#[test]
fn settled_ack_retires_retained_owner_without_recharge() {
    settled_ack_case(false, false);
}

#[test]
fn settled_ack_retires_dropped_owner_and_allows_closure() {
    settled_ack_case(true, false);
}

#[test]
fn settled_ack_retires_authority_but_keeps_projection_backlog() {
    settled_ack_case(true, true);
}

fn initial_ack_mismatch_case(fault: bool) {
    let mut f = Bench::new();
    let expected = "expected-holder-A";
    f.balances.insert(expected.to_string(), 30);
    let mut identity = f.identity(false);
    identity.budget_holder = HolderId(expected.to_string());
    let owner = f.reserve_as(identity).unwrap();
    let id = owner.turn_id();
    assert!(f.saved.is_empty());
    if fault {
        f.ack_fault = Some((id, 1));
    }
    let admission = f.open_round(&owner);
    if fault {
        assert_eq!(
            admission,
            Err(SettlementError::Storage(
                SettlementProblem::VerificationFailed
            ))
        );
    } else {
        assert_eq!(admission, Err(SettlementError::IdentityMismatch));
    }
    let disk = f.bytes(id);
    {
        let status = f.c.status();
        assert_eq!(status.turns[0].expected_holder.0, expected);
        assert_eq!(
            status.turns[0].validation_error,
            Some(SettlementError::IdentityMismatch)
        );
        if fault {
            assert!(matches!(
                status.turns[0].error,
                Some(SettlementError::Storage(_))
            ));
        }
        assert_eq!(status.turns[0].turn.budget_holder.0, HOLDER);
    }
    assert_eq!(f.saved[&id.0].0, 1);
    assert_eq!(f.balance(HOLDER), 20);
    assert_eq!(f.balance(expected), 30);
    if fault {
        assert_eq!(
            f.c.status().turns[0].pending_digest,
            Some(Sha256Digest::of(&disk))
        );
        let resolved = f.resolve(id);
        assert_eq!(
            f.c.status().turns[0].error,
            Some(SettlementError::IdentityMismatch)
        );
        assert_eq!(resolved, Err(SettlementError::IdentityMismatch));
        assert_eq!(f.bytes(id), disk);
    }
    assert_eq!(f.observe(&owner), Err(SettlementError::AdmissionClosed));
    assert_eq!(f.prepare(&owner, 0), Err(SettlementError::AdmissionClosed));
    assert!(f.open_round(&owner).is_err());
    assert_eq!(f.balance(HOLDER), 20);
    assert_eq!(
        f.c.status().turns[0].view.as_ref().unwrap().status,
        OwnedBudgetStatus::Active
    );
    f.drop_owner(owner);
    assert_eq!(f.balance(HOLDER), 30);
    assert_eq!(f.c.status().turns[0].turn.terminal, TurnTerminal::Cancelled);
    assert!(f.text(id).contains("terminal: Cancelled"));
    assert_eq!(
        f.c.status().turns[0].error,
        Some(SettlementError::IdentityMismatch)
    );
    assert!(matches!(
        f.reserve(false),
        Err(SettlementError::AdmissionClosed)
    ));
}

#[test]
fn initial_ack_recovery_cannot_validate_wrong_holder() {
    initial_ack_mismatch_case(true);
}

#[test]
fn initial_ack_no_fault_mismatch_stays_invalid() {
    initial_ack_mismatch_case(false);
}

#[test]
fn initial_ack_valid_holder_recovery_allows_work() {
    let mut f = Bench::new();
    let owner = f.reserve(false).unwrap();
    let id = owner.turn_id();
    f.ack_fault = Some((id, 1));
    assert!(matches!(f.open_round(&owner), Err(SettlementError::Storage(_))));
    let disk = f.saved[&id.0].clone();
    assert_eq!(disk.0, 1);
    f.resolve(id).unwrap();
    assert_eq!(f.bytes(id), disk.1);
    f.observe(&owner).unwrap();
    f.prepare(&owner, 9).unwrap();
    f.finalize(&owner).unwrap();
    f.commit(&owner).unwrap();
    f.drop_owner(owner);
    assert_eq!(f.balance(HOLDER), 21);
    assert!(f.closes());
}

#[test]
fn recovered_reserved_ack_keeps_independent_pending_credit() {
    let mut f = Bench::new();
    let owner = f.reserve(false).unwrap();
    let id = owner.turn_id();
    f.ack_fault = Some((id, 1));
    assert!(matches!(f.open_round(&owner), Err(SettlementError::Storage(_))));
    f.balances.insert(HOLDER.to_string(), u64::MAX - 3);
    assert!(matches!(f.abandon(&owner), Err(SettlementError::Storage(_))));
    {
        let before = f.c.status();
        let view = before.turns[0].view.as_ref().unwrap();
        assert_eq!(view.status, OwnedBudgetStatus::ReleasePending);
        assert_eq!(
            view.refund.as_ref().unwrap().remaining_credit,
            CostTuple::cents(7)
        );
    }
    assert_eq!(
        f.resolve(id),
        Err(SettlementError::CreditPending(
            SettlementProblem::ReleaseCreditPending
        ))
    );
    assert!(matches!(
        f.c.status().turns[0].error,
        Some(SettlementError::CreditPending(_))
    ));
    assert!(!f.c.status().turns[0].retirement_pending);
    assert!(f.commit(&owner).is_err());
    f.drop_owner(owner);
    *f.balances.get_mut(HOLDER).unwrap() -= 7;
    let first = f.supervisor().retry_refund(&mut f.c, id);
    f.finish(first).unwrap();
    assert_eq!(f.balance(HOLDER), u64::MAX);
    assert!(f.closes());
}

#[test]
fn dropped_invalid_owner_recovery_retains_validation_after_release() {
    let mut f = Bench::new();
    let mut identity = f.identity(false);
    identity.budget_holder = HolderId("expected-other".to_string());
    let owner = f.reserve_as(identity).unwrap();
    let id = owner.turn_id();
    f.ack_fault = Some((id, 1));
    assert!(matches!(f.open_round(&owner), Err(SettlementError::Storage(_))));
    let original = f.bytes(id);
    f.drop_owner(owner);
    assert_eq!(f.balance(HOLDER), 30);
    assert_eq!(f.bytes(id), original);
    assert_eq!(
        f.c.status().turns[0].validation_error,
        Some(SettlementError::IdentityMismatch)
    );
    assert_eq!(f.resolve(id), Err(SettlementError::IdentityMismatch));
    assert_eq!(
        f.c.status().turns[0].view.as_ref().unwrap().status,
        OwnedBudgetStatus::Released
    );
    assert_eq!(
        f.c.status().turns[0].error,
        Some(SettlementError::IdentityMismatch)
    );
    assert!(f.text(id).contains("terminal: Cancelled"));
    assert!(!f.closes());
}

#[test]
fn refused_admission_closes_unused_capacity_without_reusing_ordinal() {
    let mut f = Bench::new();
    f.balances.insert(HOLDER.to_string(), 5);
    let owner = f.reserve(false).unwrap();
    let refused_id = owner.turn_id();
    assert_eq!(
        f.open_round(&owner),
        Err(SettlementError::Budget(AdmissionError::BudgetExhausted))
    );
    assert_eq!(f.balance(HOLDER), 5);
    {
        let status = f.c.status();
        assert!(status.turns[0].admission_attempt.is_none());
        assert!(status.turns[0].unclaimed_reservation.is_none());
        assert!(status.turns[0].error.is_none());
    }
    owner.close_empty(&mut f.c).unwrap();
    assert!(f.c.status().turns.is_empty());
    assert_eq!(f.c.status().inventory_count, 0);
    assert_eq!(f.balance(HOLDER), 5);
    assert!(f.saved.is_empty());

    f.balances.insert(HOLDER.to_string(), 30);
    let funded = f.owner(false);
    assert_ne!(funded.turn_id(), refused_id);
    f.abandon(&funded).unwrap();
    assert_eq!(
        f.c.status().turns[0].turn.rounds[0].commit_ordinal,
        Some(1)
    );
    assert_eq!(f.balance(HOLDER), 30);
    f.drop_owner(funded);
    assert!(f.closes());
}

#[test]
fn admission_panic_cannot_close_uncertain_empty_slot() {
    let mut f = Bench::new();
    f.balances.insert(HOLDER.to_string(), 10);
    let owner = f.reserve(false).unwrap();
    let id = owner.turn_id();
    let attempt = AdmissionAttempt {
        request: request(),
        provider_request_id: 1,
    };
    let first = owner.admit_round(&mut f.c, attempt, None).unwrap();
    assert_eq!(first, Step::Admit);
    // The hold is taken, and the call that took it never returns.
    let _ = f.perform(first);
    assert_eq!(f.give_back(true), Err(SettlementError::Panicked));
    assert_eq!(f.balance(HOLDER), 0);
    assert_eq!(f.c.status().turns[0].error, Some(SettlementError::Panicked));
    assert!(owner.close_empty(&mut f.c).is_err());
    f.drain();
    assert!(!f.closes());
    assert_eq!(f.c.status().turns[0].turn.turn_id, id);
    assert_eq!(f.c.status().turns[0].error, Some(SettlementError::Panicked));
    assert_eq!(f.c.status().inventory_count, 1);
    assert!(matches!(
        f.reserve(false),
        Err(SettlementError::AdmissionClosed)
    ));
    assert!(f.saved.is_empty());
}

#[test]
fn untouched_capacity_closes_without_economic_record() {
    let mut f = Bench::new();
    let owner = f.reserve(false).unwrap();
    owner.close_empty(&mut f.c).unwrap();
    assert!(f.c.status().turns.is_empty());
    assert_eq!(f.c.status().inventory_count, 0);
    assert!(f.saved.is_empty());
    assert!(f.closes());
}

#[test]
fn busy_same_slot_handback_finishes_owner_abandonment() {
    let mut f = Bench::new();
    let owner = f.owner(false);
    f.observe(&owner).unwrap();
    let id = owner.turn_id();
    let _ = f.supervisor().resolve_storage(&mut f.c, id).unwrap();
    f.drop_owner(owner);
    assert!(f.c.status().turns[0].abandonment_pending);
    let _ = f.give_back(false);
    f.drain();
    assert_eq!(f.balance(HOLDER), 30);
    assert!(f.text(id).contains("terminal: Cancelled"));
    assert!(f.closes());
}

#[test]
fn busy_handback_preserves_prepared_and_finalized_decisions() {
    for finalized in [false, true] {
        let mut f = Bench::new();
        let owner = f.owner(false);
        f.observe(&owner).unwrap();
        f.prepare(&owner, 9).unwrap();
        if finalized {
            f.finalize(&owner).unwrap();
        }
        let id = owner.turn_id();
        let before = f.bytes(id);
        let balance = f.balance(HOLDER);
        let _ = f.supervisor().resolve_storage(&mut f.c, id).unwrap();
        f.drop_owner(owner);
        let _ = f.give_back(false);
        f.drain();
        assert_eq!(f.bytes(id), before);
        assert_eq!(f.balance(HOLDER), balance);
        {
            let status = f.c.status();
            assert!(!status.turns[0].abandonment_pending);
            assert_eq!(
                status.turns[0].view.as_ref().unwrap().status,
                if finalized {
                    OwnedBudgetStatus::Finalized
                } else {
                    OwnedBudgetStatus::Active
                }
            );
        }
        assert!(!f.closes());
    }
}

#[test]
fn unwinding_handback_retains_public_abandonment_continuation() {
    let mut f = Bench::new();
    let owner = f.owner(false);
    f.observe(&owner).unwrap();
    let id = owner.turn_id();
    let _ = f.supervisor().resolve_storage(&mut f.c, id).unwrap();
    f.drop_owner(owner);
    let _ = f.give_back(true);
    assert!(f.c.status().turns[0].abandonment_pending);
    assert!(matches!(
        f.reserve(false),
        Err(SettlementError::AdmissionClosed)
    ));
    assert_eq!(f.retry_abandonment(id), Err(SettlementError::Panicked));
    assert_eq!(f.balance(HOLDER), 30);
    assert!(f.text(id).contains("terminal: Cancelled"));
    assert!(!f.c.status().turns[0].abandonment_pending);
}

#[test]
fn busy_unrelated_handback_finishes_owner_abandonment() {
    let mut f = Bench::new();
    let a = f.owner(true);
    let aid = a.turn_id();
    f.drop_owner(a);
    assert!(matches!(
        f.c.status().turns[0].turn.rounds[0].projection,
        JournalProjection::Pending(_)
    ));
    let b = f.owner(true);
    let bid = b.turn_id();
    f.observe(&b).unwrap();
    let before = f.bytes(bid);
    assert_eq!(f.balance(HOLDER), 20);
    let _ = f.supervisor().resolve_storage(&mut f.c, aid).unwrap();
    assert!(f.c.busy_slot().unwrap().pending.is_none());
    f.drop_owner(b);
    assert_eq!(f.c.status().busy, Some(aid));
    let _ = f.give_back(false);
    f.drain();
    assert_eq!(f.balance(HOLDER), 30);
    assert_ne!(f.bytes(bid), before);
    let status = f.c.status();
    let turn = &status
        .turns
        .iter()
        .find(|shown| shown.turn.turn_id == bid)
        .unwrap()
        .turn;
    assert_eq!(turn.terminal, TurnTerminal::Cancelled);
    assert_eq!(turn.rounds[0].known_incurred, CostTuple::cents(9));
    match &turn.rounds[0].phase {
        SettlementPhase::Settled {
            application,
            receipt: None,
        } => {
            assert_eq!(application.requested_debit, CostTuple::zero());
            assert_eq!(application.applied_debit, CostTuple::zero());
            assert_eq!(application.reserved_credit, CostTuple::cents(10));
        }
        _ => panic!("durable cancelled closure required"),
    }
    assert_eq!(status.executing, None);
}

#[test]
fn approval_and_scanner_errors_project_their_own_reason_strings() {
    assert_eq!(
        projection_reason(Some(SettlementDecision::Refusal(
            RefusalClass::ApprovalError
        ))),
        "refusal:approval_evaluation_error"
    );
    assert_eq!(
        projection_reason(Some(SettlementDecision::Refusal(
            RefusalClass::ScannerError
        ))),
        "refusal:output_scan_error"
    );
}

#[test]
fn every_decision_has_its_own_label() {
    let classes = [
        (RefusalClass::UnknownTool, "refusal:unknown_tool"),
        (RefusalClass::Authorization, "refusal:tool_authorization"),
        (RefusalClass::MissingCapability, "refusal:capability_denied"),
        (RefusalClass::ApprovalRequired, "refusal:approval_required"),
        (RefusalClass::ApprovalRejected, "refusal:approval_rejected"),
        (RefusalClass::OutputBlocked, "refusal:output_scan"),
        (RefusalClass::IterationLimit, "refusal:iteration_limit"),
        (RefusalClass::Capacity, "refusal:capacity"),
    ];
    for (class, label) in classes {
        assert_eq!(
            projection_reason(Some(SettlementDecision::Refusal(class))),
            label
        );
    }
    assert_eq!(
        projection_reason(Some(SettlementDecision::InfrastructureFailure(
            InfrastructureFailureClass::Provider
        ))),
        "refusal:tool_error"
    );
    assert_eq!(
        projection_reason(Some(SettlementDecision::Cancelled)),
        "settlement:cancelled_zero_debit_unknown_expense_not_zero"
    );
    assert_eq!(
        projection_reason(Some(SettlementDecision::Completion { final_answer: true })),
        "settlement:completion"
    );
}

fn candidate(id: u128) -> ReceiptCandidate {
    ReceiptCandidate {
        receipt_id: ReceiptId(id),
        expected_parent: None,
        expected_log_end: 0,
        jws_digest: Sha256Digest::of(b"jws"),
        jws_compact: "jws".to_string(),
    }
}

#[test]
fn a_final_answer_is_charged_and_projected_once() {
    let mut f = Bench::new();
    let owner = f.owner(true);
    let id = owner.turn_id();
    f.observe(&owner).unwrap();
    let first = owner.prepare_receipt(&mut f.c, candidate(4), true, CostTuple::cents(9));
    f.finish(first).unwrap();
    f.finalize(&owner).unwrap();
    assert_eq!(f.balance(HOLDER), 21);
    let binding = ReceiptBinding {
        receipt_id: ReceiptId(4),
        jws_digest: Sha256Digest::of(b"jws"),
    };
    let first = owner.commit_receipt(&mut f.c, binding);
    f.finish(first).unwrap();
    assert_eq!(
        f.c.status().turns[0].turn.terminal,
        TurnTerminal::FinalAnswer(ReceiptId(4))
    );
    assert_eq!(f.c.status().executing, None);
    f.drop_owner(owner);

    let work = f.work();
    assert_eq!(work.len(), 1);
    let item = work[0];
    let entry = f.c.project(id, item.ordinal as usize, item.id, SESSION);
    let _ = f.give_back(false);
    match entry {
        Ok(Some(JournalEntry::CostFinalized {
            actual,
            refunded,
            reason,
            ..
        })) => {
            assert_eq!(actual, CostTuple::cents(9));
            assert_eq!(refunded, CostTuple::cents(1));
            assert_eq!(reason, None);
        }
        other => panic!("a charged round is finalized in the journal, got {other:?}"),
    }
    // A second attempt while the first is open is refused.
    assert!(matches!(
        f.c.project(id, item.ordinal as usize, item.id, SESSION),
        Err(SettlementError::ProjectionUnknown)
    ));
    let _ = f.give_back(false);
    let first = f.c.projected(
        id,
        item.ordinal as usize,
        item.id,
        ProjectionOutcome::Durable,
    );
    f.finish(first).unwrap();
    assert!(f.work().is_empty());
    assert_eq!(f.balance(HOLDER), 21);
    assert!(f.closes());
}

#[test]
fn another_sessions_journal_is_not_written() {
    let mut f = Bench::new();
    let owner = f.owner(true);
    let id = owner.turn_id();
    f.observe(&owner).unwrap();
    f.abandon(&owner).unwrap();
    f.drop_owner(owner);
    let work = f.work();
    let item = work[0];
    assert!(matches!(
        f.c.project(id, item.ordinal as usize, item.id, SessionId(6)),
        Err(SettlementError::IdentityMismatch)
    ));
    let _ = f.give_back(false);
    let entry = f.c.project(id, item.ordinal as usize, item.id, SESSION);
    let _ = f.give_back(false);
    match entry {
        Ok(Some(JournalEntry::OperatorExpense {
            provider_cost,
            class,
            reason,
            ..
        })) => {
            assert_eq!(provider_cost, CostTuple::cents(9));
            assert_eq!(class, "cancelled_precommit");
            assert_eq!(
                reason,
                "settlement cancellation; caller refunded, known operator expense retained"
            );
        }
        other => panic!("a cancelled round's expense is the operator's, got {other:?}"),
    }
    let first = f.c.projected(
        id,
        item.ordinal as usize,
        item.id,
        ProjectionOutcome::DefinitelyNotApplied,
    );
    assert_eq!(f.finish(first), Err(SettlementError::ProjectionNotApplied));
    assert_eq!(f.work().len(), 1);
}

#[test]
fn owed_entries_are_written_in_commit_order() {
    let mut f = Bench::new();
    for _ in 0..3 {
        let owner = f.owner(true);
        f.observe(&owner).unwrap();
        f.drop_owner(owner);
    }
    let ordinals: Vec<Option<u64>> = f.work().iter().map(|work| work.commit_ordinal).collect();
    assert_eq!(ordinals, vec![Some(0), Some(1), Some(2)]);
    assert_eq!(f.project_all(), 3);
    assert!(f.work().is_empty());
    assert!(f.closes());
}

#[test]
fn an_entry_with_an_unknown_outcome_is_not_handed_out_again() {
    let answers = [
        (ProjectionOutcome::Unknown, false),
        (ProjectionOutcome::DefinitelyNotApplied, true),
    ];
    for (answer, asked_again) in answers {
        let mut f = Bench::new();
        let owner = f.owner(true);
        f.drop_owner(owner);
        let work = f.work();
        assert_eq!(work.len(), 1);
        let entry = f
            .supervisor()
            .begin_projection(&mut f.c, &work[0], SESSION);
        assert!(matches!(entry, Ok(Some(_))));
        let _ = f.give_back(false);
        let first = f
            .supervisor()
            .complete_projection(&mut f.c, &work[0], answer);
        let _ = f.finish(first);
        let entry = f
            .supervisor()
            .begin_projection(&mut f.c, &work[0], SESSION);
        assert_eq!(matches!(entry, Ok(Some(_))), asked_again);
        let _ = f.give_back(false);
    }
}

#[test]
fn an_ambiguous_receipt_is_kept_with_its_debit() {
    let mut f = Bench::new();
    let owner = f.owner(false);
    f.observe(&owner).unwrap();
    let first = owner.prepare_receipt(&mut f.c, candidate(4), true, CostTuple::cents(9));
    f.finish(first).unwrap();
    f.finalize(&owner).unwrap();
    let first = owner.receipt_unresolved(&mut f.c);
    f.finish(first).unwrap();
    assert_eq!(
        f.c.status().turns[0].error,
        Some(SettlementError::ReceiptUnknown)
    );
    assert_eq!(f.abandon(&owner), Err(SettlementError::State));
    assert_eq!(f.balance(HOLDER), 21);
    f.drop_owner(owner);
    assert_eq!(f.balance(HOLDER), 21);
    assert!(!f.closes());
}

#[test]
fn a_cancelled_turn_is_refunded_in_full_and_once() {
    let mut f = Bench::new();
    let owner = f.owner(false);
    let id = owner.turn_id();
    f.observe(&owner).unwrap();
    f.abandon(&owner).unwrap();
    let cancelled = f.bytes(id);
    assert_eq!(f.balance(HOLDER), 30);
    f.abandon(&owner).unwrap();
    assert_eq!(f.bytes(id), cancelled);
    assert_eq!(f.balance(HOLDER), 30);
    f.drop_owner(owner);
    assert!(f.closes());
}

#[test]
fn a_failed_provider_is_refunded() {
    let mut f = Bench::new();
    let owner = f.owner(false);
    f.observe(&owner).unwrap();
    let first = owner.refund_failure(&mut f.c, InfrastructureFailureClass::Provider);
    f.finish(first).unwrap();
    assert_eq!(f.balance(HOLDER), 30);
    assert_eq!(
        f.c.status().turns[0].turn.terminal,
        TurnTerminal::Failed(InfrastructureFailureClass::Provider)
    );
    f.drop_owner(owner);
    assert!(f.closes());
}

#[test]
fn a_compensated_refusal_gives_its_debit_back() {
    let mut f = Bench::new();
    let owner = f.owner(false);
    let id = owner.turn_id();
    f.observe(&owner).unwrap();
    f.prepare(&owner, 9).unwrap();
    f.finalize(&owner).unwrap();
    assert_eq!(f.balance(HOLDER), 21);
    let first = f.supervisor().compensate_definite_failure(&mut f.c, id);
    f.finish(first).unwrap();
    assert_eq!(f.balance(HOLDER), 30);
    match &f.c.status().turns[0].turn.rounds[0].phase {
        SettlementPhase::Settled { application, .. } => {
            assert_eq!(
                application.rollback,
                RollbackStatus::Applied(CostTuple::cents(9))
            );
        }
        other => panic!("a rolled-back debit settles the round, got {other:?}"),
    }
    f.drop_owner(owner);
    assert!(f.closes());
}

#[test]
fn a_tool_adds_to_the_known_cost() {
    let mut f = Bench::new();
    let owner = f.owner(false);
    f.observe(&owner).unwrap();
    let intent = |effect: ToolEffect, admission: OutputAdmission| ToolEvidence {
        ordinal: 0,
        call_id: "c1".to_string(),
        name: "echo".to_string(),
        arguments_digest: Sha256Digest::of(b"{}"),
        effect,
        output_admission: admission,
    };
    let first = owner.observe_tool(
        &mut f.c,
        intent(ToolEffect::DispatchIntent, OutputAdmission::NotScanned),
    );
    f.finish(first).unwrap();
    let first = owner.observe_tool(
        &mut f.c,
        intent(
            ToolEffect::Completed {
                output_digest: Sha256Digest::of(b"out"),
                cost: CostTuple::cents(1),
            },
            OutputAdmission::Allowed,
        ),
    );
    f.finish(first).unwrap();
    assert_eq!(
        f.c.status().turns[0].turn.rounds[0].known_incurred,
        CostTuple::cents(10)
    );
    assert_eq!(owner.reservation_id(&f.c).is_ok(), true);
    f.drop_owner(owner);
}

#[test]
fn only_one_turn_executes() {
    let mut f = Bench::new();
    let owner = f.reserve(false).unwrap();
    assert!(matches!(f.reserve(false), Err(SettlementError::Busy)));
    assert!(!f.c.is_fresh(owner.turn_id()));
    owner.close_empty(&mut f.c).unwrap();
    f.supervisor().stop_admission(&mut f.c);
    assert!(matches!(
        f.reserve(false),
        Err(SettlementError::AdmissionClosed)
    ));
}

fn retained(phase: SettlementPhase, ordinal: Option<u64>) -> EncodedSnapshot {
    EncodedSnapshot {
        revision: 3,
        bytes: Vec::new(),
        turn: TurnObligation {
            turn_id: TurnId(1),
            budget_epoch: BudgetEpoch(8),
            request_session: SessionId(1),
            journal_owner: None,
            verified_subject: HolderId("subject".to_string()),
            budget_holder: HolderId(HOLDER.to_string()),
            cap_token_id: TOKEN,
            started_at: UnixTsMillis(1),
            rounds: vec![RoundObligation {
                settlement_id: SettlementId(2),
                ordinal: 0,
                provider_request_id: 3,
                provider: "provider".to_string(),
                model: "model".to_string(),
                request_digest: Sha256Digest::of(b"request"),
                reserved: CostTuple::cents(10),
                provider_evidence: known9(),
                tools: Vec::new(),
                known_incurred: CostTuple::cents(9),
                decision: Some(SettlementDecision::Cancelled),
                phase,
                commit_ordinal: ordinal,
                projection: JournalProjection::NotConfigured,
            }],
            terminal: TurnTerminal::Cancelled,
            cancellation_marker: MarkerProjection::NotRequired,
        },
    }
}

fn settled() -> SettlementPhase {
    SettlementPhase::Settled {
        application: DebitApplication {
            epoch: BudgetEpoch(8),
            requested_debit: CostTuple::zero(),
            applied_debit: CostTuple::zero(),
            reserved_credit: CostTuple::cents(10),
            additional_debit: CostTuple::zero(),
            shortfall: CostTuple::zero(),
            rollback: RollbackStatus::NotApplied,
        },
        receipt: None,
    }
}

#[test]
fn ordinals_go_on_behind_the_retained_history() {
    let mut f = Bench::new();
    f.c = opened(&vec![retained(settled(), Some(41))]);
    let owner = f.owner(false);
    f.abandon(&owner).unwrap();
    assert_eq!(
        f.c.status().turns[0].turn.rounds[0].commit_ordinal,
        Some(42)
    );
    assert_eq!(f.c.status().inventory_count, 2);
    f.drop_owner(owner);
    assert!(f.closes());
}

#[test]
fn an_earlier_process_that_left_work_open_closes_admission() {
    let mut f = Bench::new();
    f.c = opened(&vec![retained(SettlementPhase::Reserved, None)]);
    assert_eq!(
        f.c.status().boot_problem,
        Some(SettlementProblem::PriorEpochApplicationUnknown)
    );
    assert!(matches!(
        f.reserve(false),
        Err(SettlementError::AdmissionClosed)
    ));
}

#[test]
fn a_record_needs_its_headroom() {
    assert_eq!(check_record_headroom(Ok(1_000)), Ok(1_000));
    assert_eq!(
        check_record_headroom(Ok(usize::MAX)),
        Err(SettlementError::Invalid(SettlementProblem::Bounds))
    );
    assert_eq!(
        check_record_headroom(Err(SettlementStoreError::Unreadable)),
        Err(SettlementError::Invalid(SettlementProblem::Corrupt))
    );
    assert!(matches!(
        SettlementCoordinator::open(
            BudgetEpoch(9),
            Ok(10),
            &vec![retained(settled(), Some(u64::MAX))]
        ),
        Err(SettlementError::Invalid(SettlementProblem::Bounds))
    ));
}

fn shown(f: &Bench, id: TurnId) -> TurnSettlementStatus {
    let status = f.c.status();
    status
        .turns
        .into_iter()
        .find(|shown| shown.turn.turn_id == id)
        .unwrap()
}

// A pass over the abandoned turns takes those it found when it began; a turn
// abandoned meanwhile waits for the next pass. The pass is held open between
// its two calls, so no second thread is needed.
#[test]
fn concurrent_new_abandonment_waits_for_public_retry_after_bounded_drain() {
    let mut f = Bench::new();
    let a = f.owner(true);
    let aid = a.turn_id();
    f.drop_owner(a);
    let a_disk = f.bytes(aid);
    assert!(f.stored_is_shown(aid));
    assert!(matches!(
        shown(&f, aid).turn.rounds[0].projection,
        JournalProjection::Pending(_)
    ));
    let b = f.owner(true);
    f.observe(&b).unwrap();
    let bid = b.turn_id();
    let b_disk = f.bytes(bid);
    let ids = f.c.begin_drain();
    assert!(!ids.contains(&bid));
    b.disown(&mut f.c);
    // One pass runs at a time.
    assert!(f.c.begin_drain().is_empty());
    assert!(shown(&f, bid).abandonment_pending);
    assert!(matches!(
        f.reserve(false),
        Err(SettlementError::AdmissionClosed)
    ));
    assert_eq!(f.balance(HOLDER), 20);
    assert_eq!(f.bytes(bid), b_disk);
    for id in ids {
        f.c.account_abandonment(id);
    }
    f.c.end_drain();
    assert!(f.supervisor().retry_abandonment(&f.c, aid).is_ok());
    assert!(shown(&f, bid).abandonment_pending);
    assert_eq!(f.bytes(bid), b_disk);
    assert!(matches!(
        f.reserve(false),
        Err(SettlementError::AdmissionClosed)
    ));
    assert_eq!(f.balance(HOLDER), 20);
    f.retry_abandonment(bid).unwrap();
    assert!(!shown(&f, bid).abandonment_pending);
    assert_eq!(f.balance(HOLDER), 30);
    let cancelled = f.bytes(bid);
    assert!(f.stored_is_shown(bid));
    let turn = shown(&f, bid).turn;
    assert_eq!(turn.terminal, TurnTerminal::Cancelled);
    assert_eq!(turn.rounds[0].known_incurred, CostTuple::cents(9));
    assert_eq!(turn.rounds[0].commit_ordinal, Some(1));
    f.retry_abandonment(bid).unwrap();
    assert_eq!(f.bytes(bid), cancelled);
    assert_eq!(f.bytes(aid), a_disk);
    assert_eq!(f.balance(HOLDER), 30);
    let owner = f.reserve(false).unwrap();
    owner.close_empty(&mut f.c).unwrap();
}

#[test]
fn the_probe_is_the_largest_turn() {
    let probe = headroom_probe(u128::MAX - 6);
    assert_eq!(probe.turn_id, TurnId(u128::MAX - 4));
    assert_eq!(probe.verified_subject.0, "\"".repeat(512));
    assert_eq!(probe.rounds.len(), 5);
    for (at, round) in probe.rounds.iter().enumerate() {
        assert_eq!(round.ordinal as usize, at);
        assert_eq!(round.tools.len(), 8);
        assert_eq!(round.known_incurred.cents, u64::MAX);
        let mut sum = match round.provider_evidence {
            ProviderEvidence::Observed { cost, .. } => cost,
            _ => panic!(),
        };
        for tool in &round.tools {
            match tool.effect {
                ToolEffect::Completed { cost, .. } => sum = sum.checked_add(&cost).unwrap(),
                _ => panic!(),
            }
        }
        assert_eq!(sum, round.known_incurred);
    }
    assert_eq!(probe.rounds[0].settlement_id, SettlementId(u128::MAX));
    assert_eq!(probe.rounds[1].settlement_id, SettlementId(2));
    match &probe.cancellation_marker {
        MarkerProjection::Prepared(candidate) => {
            assert_eq!(candidate.jws_compact.len(), 16_384);
            assert_eq!(
                candidate.jws_digest,
                Sha256Digest::of_text(&candidate.jws_compact)
            );
        }
        _ => panic!(),
    }
}

#[test]
fn a_round_is_drafted_before_anything_is_held() {
    let mut f = Bench::new();
    let owner = f.reserve(true).unwrap();
    let draft = owner
        .draft_round(&f.c, &request(), 8, SettlementId(3))
        .unwrap();
    assert_eq!(draft.turn_id, owner.turn_id());
    assert_eq!(draft.rounds.len(), 1);
    assert_eq!(draft.rounds[0].settlement_id, SettlementId(3));
    assert_eq!(draft.rounds[0].provider_request_id, 8);
    assert_eq!(draft.rounds[0].reserved, CostTuple::cents(10));
    assert_eq!(draft.rounds[0].projection, JournalProjection::NotRequired);
    assert_eq!(f.balance(HOLDER), 30);
    assert_eq!(f.c.status().turns[0].turn.rounds.len(), 0);
    owner.close_empty(&mut f.c).unwrap();
    let other = f.reserve(false).unwrap();
    let bare = other.draft_round(&f.c, &request(), 8, SettlementId(3)).unwrap();
    assert_eq!(bare.rounds[0].projection, JournalProjection::NotConfigured);
}

/// The slot in hand, as it stands.
fn copied(slot: &Slot) -> Slot {
    Slot {
        expected_holder: slot.expected_holder.clone(),
        validation: slot.validation,
        turn: slot.turn.clone(),
        claimed: slot.claimed,
        unclaimed: slot.unclaimed,
        admission_attempt: slot.admission_attempt.as_ref().map(|attempt| AdmissionAttempt {
            request: attempt.request.clone(),
            provider_request_id: attempt.provider_request_id,
        }),
        view: slot.view.clone(),
        acknowledged: slot.acknowledged.as_ref().map(|encoded| EncodedSnapshot {
            revision: encoded.revision,
            bytes: encoded.bytes.clone(),
            turn: encoded.turn.clone(),
        }),
        pending: None,
        dirty: slot.dirty,
        error: slot.error,
        requested: slot.requested,
        projection_ordinal: slot.projection_ordinal,
        finalize_started: slot.finalize_started,
        retirement_pending: slot.retirement_pending,
        rejected: None,
        projection_attempts: Vec::new(),
    }
}

// The registry hands no slot out for change, so a stale state is written into a
// copy of the slot, and the operation runs on the copy. What the registry reads
// of a slot stands for what it would answer: `quiet` for the next reservation,
// `removable` for closing, `disposition_continuation` for an abandonment. The
// answers themselves are checked on a registry whose turn can no longer be
// stored: its slot too holds facts that no snapshot holds.

/// A copy of the slot once the operation in hand is done.
fn slot_done(f: &mut Bench, first: Result<Step, SettlementError>) -> Slot {
    first.unwrap();
    f.run_steps();
    let held = f.c.busy_slot().unwrap();
    assert!(held.error.is_none() && held.pending.is_none() && !held.dirty);
    let slot = copied(held);
    assert_eq!(f.balance(HOLDER), 20);
    slot
}

/// The slot of a turn whose round was admitted, before any work.
fn admitted_slot() -> Slot {
    let mut f = Bench::new();
    let owner = f.reserve(false).unwrap();
    let attempt = AdmissionAttempt {
        request: request(),
        provider_request_id: 1,
    };
    let first = owner.admit_round(&mut f.c, attempt, None);
    slot_done(&mut f, first)
}

/// The slot after work of nine cents was observed, and after a refusal was
/// prepared on top.
fn worked_slot(prepared: bool) -> Slot {
    let mut f = Bench::new();
    let owner = f.owner(false);
    if prepared {
        f.observe(&owner).unwrap();
    }
    let first = if prepared {
        owner.prepare(
            &mut f.c,
            Disposition::Refusal(RefusalClass::Authorization),
            CostTuple::cents(9),
        )
    } else {
        owner.observe_provider(&mut f.c, known9())
    };
    slot_done(&mut f, first)
}

/// The registry keeps an abandoned turn whose facts are not stored: nothing
/// is paid, nothing is written, nothing new is taken on, and it does not close.
fn holds_on_to(f: &mut Bench, owner: TurnSettlementOwner, disk: &Vec<u8>) {
    let id = owner.turn_id();
    assert_eq!(f.balance(HOLDER), 20);
    let status = shown(f, id);
    assert!(status.undurable);
    assert!(matches!(
        status.error,
        Some(SettlementError::Invalid(SettlementProblem::Corrupt))
    ));
    let view = status.view.unwrap();
    assert_eq!(view.status, OwnedBudgetStatus::Active);
    assert!(view.attempt.is_none() && view.refund.is_none());
    f.drop_owner(owner);
    assert!(shown(f, id).abandonment_pending);
    assert!(matches!(
        f.retry_abandonment(id),
        Err(SettlementError::AdmissionClosed)
    ));
    assert!(matches!(
        f.reserve(false),
        Err(SettlementError::AdmissionClosed)
    ));
    assert_eq!(f.balance(HOLDER), 20);
    assert_eq!(f.bytes(id), *disk);
    assert!(!f.closes());
}

fn closed(step: Step) -> bool {
    matches!(
        step,
        Step::Finished {
            result: Err(SettlementError::AdmissionClosed),
            ..
        }
    )
}

fn stale_prepared_case(previously_prepared: bool) {
    let mut slot = worked_slot(previously_prepared);
    if previously_prepared {
        slot.turn.started_at = UnixTsMillis(456);
    } else {
        let round = slot.turn.rounds.last_mut().unwrap();
        round.phase = SettlementPhase::Prepared { candidate: None };
        round.decision = Some(SettlementDecision::Refusal(RefusalClass::Authorization));
        slot.requested = Some(CostTuple::cents(9));
    }
    // No money is asked to move.
    assert!(closed(slot.finalize()));
    assert!(slot.dirty);
    assert_eq!(
        slot.error,
        Some(SettlementError::Invalid(
            SettlementProblem::InvalidTransition
        ))
    );
    assert_eq!(
        slot.view.as_ref().unwrap().status,
        OwnedBudgetStatus::Active
    );
    assert!(slot.view.as_ref().unwrap().attempt.is_none());
    assert!(!slot.quiet() && !slot.removable());
}

#[test]
fn stale_local_prepared_cannot_finalize_over_durable_work_observed() {
    stale_prepared_case(false);
    let mut f = Bench::new();
    let owner = f.owner(false);
    f.observe(&owner).unwrap();
    let disk = f.bytes(owner.turn_id());
    f.encode_fault = true;
    assert!(f.prepare(&owner, 9).is_err());
    assert!(matches!(
        f.finalize(&owner),
        Err(SettlementError::AdmissionClosed)
    ));
    assert_eq!(f.finalize_calls, 0);
    holds_on_to(&mut f, owner, &disk);
}

#[test]
fn stale_local_prepared_requires_exact_not_merely_prepared_ack() {
    stale_prepared_case(true);
}

fn stale_cancelled() -> Slot {
    let mut slot = admitted_slot();
    let round = slot.turn.rounds.last_mut().unwrap();
    round.decision = Some(SettlementDecision::Cancelled);
    round.phase = SettlementPhase::Prepared { candidate: None };
    slot.turn.terminal = TurnTerminal::Cancelled;
    slot
}

#[test]
fn stale_cancelled_repeat_cannot_claim_release_without_real_credit() {
    let mut slot = stale_cancelled();
    assert!(closed(slot.refund(None)));
    assert_eq!(
        slot.view.as_ref().unwrap().status,
        OwnedBudgetStatus::Active
    );
    assert!(slot.view.as_ref().unwrap().refund.is_none());
    assert!(slot.dirty);
    assert_eq!(
        slot.error,
        Some(SettlementError::Invalid(
            SettlementProblem::InvalidTransition
        ))
    );
    let mut f = Bench::new();
    let owner = f.owner(false);
    let disk = f.bytes(owner.turn_id());
    f.encode_fault = true;
    assert!(f.observe(&owner).is_err());
    for _ in 0..2 {
        assert!(matches!(
            f.abandon(&owner),
            Err(SettlementError::AdmissionClosed)
        ));
        assert_eq!(f.balance(HOLDER), 20);
    }
    assert_eq!(f.bytes(owner.turn_id()), disk);
}

#[test]
fn stale_cancelled_drop_retains_abandonment_without_release_continuation() {
    let mut slot = stale_cancelled();
    assert!(closed(slot.refund(None)));
    assert!(!slot.disposition_continuation());
    assert!(!slot.unused());
    assert!(!slot.quiet());
    assert!(!slot.removable());
    let mut f = Bench::new();
    let owner = f.owner(false);
    let disk = f.bytes(owner.turn_id());
    f.encode_fault = true;
    assert!(f.observe(&owner).is_err());
    holds_on_to(&mut f, owner, &disk);
}

#[test]
fn missing_reserved_ordinal_leaves_selection_atomic_and_quarantined() {
    for cancel in [false, true] {
        let mut slot = worked_slot(false);
        let before = slot.turn.clone();
        slot.projection_ordinal = None;
        let step = if cancel {
            slot.refund(None)
        } else {
            slot.prepare(
                Disposition::Refusal(RefusalClass::Authorization),
                CostTuple::cents(9),
            )
        };
        assert!(matches!(
            step,
            Step::Finished {
                result: Err(SettlementError::Invalid(SettlementProblem::Bounds)),
                ..
            }
        ));
        assert!(slot.turn.same(&before));
        assert!(!slot.dirty);
        assert_eq!(
            slot.error,
            Some(SettlementError::Invalid(SettlementProblem::Bounds))
        );
        assert!(slot.requested.is_none());
        assert!(closed(slot.finalize()));
        assert!(closed(slot.refund(None)));
        // The abandonment stays pending and the next reservation is refused.
        assert!(!slot.disposition_continuation());
        assert!(!slot.quiet() && !slot.removable());
    }
}

#[test]
fn already_reserved_owner_rechecks_ordinal_capacity_before_hold() {
    let mut f = Bench::new();
    let owner = f.reserve(false).unwrap();
    let attempt = AdmissionAttempt {
        request: request(),
        provider_request_id: 1,
    };
    owner.admit_round(&mut f.c, attempt, None).unwrap();
    let mut slot = copied(f.c.busy_slot().unwrap());
    slot.admission_attempt = None;
    slot.projection_ordinal = None;
    let attempt = AdmissionAttempt {
        request: request(),
        provider_request_id: 1,
    };
    assert!(matches!(
        slot.admit_round(attempt, None, u64::MAX),
        Step::Finished {
            result: Err(SettlementError::Invalid(SettlementProblem::Bounds)),
            ..
        }
    ));
    assert!(slot.admission_attempt.is_none());
    assert!(slot.view.is_none());
    assert!(slot.turn.rounds.is_empty());
    assert!(slot.unused());
    // The registry asks the same of each further round: here the first round
    // took the last ordinal.
    let mut f = Bench::new();
    f.c = opened(&vec![retained(settled(), Some(u64::MAX - 2))]);
    let owner = f.owner(false);
    f.observe(&owner).unwrap();
    let first = owner.prepare_receipt(&mut f.c, candidate(4), false, CostTuple::cents(9));
    f.finish(first).unwrap();
    f.finalize(&owner).unwrap();
    let binding = ReceiptBinding {
        receipt_id: ReceiptId(4),
        jws_digest: Sha256Digest::of(b"jws"),
    };
    let first = owner.commit_receipt(&mut f.c, binding);
    f.finish(first).unwrap();
    let disk = f.bytes(owner.turn_id());
    assert_eq!(f.balance(HOLDER), 21);
    assert!(matches!(
        f.open_round(&owner),
        Err(SettlementError::Invalid(SettlementProblem::Bounds))
    ));
    assert_eq!(f.balance(HOLDER), 21);
    assert_eq!(f.bytes(owner.turn_id()), disk);
}

#[test]
fn admitted_owner_reserves_future_cancellation_ordinal() {
    let mut f = Bench::new();
    let owner = f.owner(true);
    let id = owner.turn_id();
    f.abandon(&owner).unwrap();
    let first = f.bytes(id);
    assert!(f.stored_is_shown(id));
    let round = &shown(&f, id).turn.rounds[0];
    assert_eq!(round.commit_ordinal, Some(0));
    assert!(matches!(round.projection, JournalProjection::Pending(_)));
    f.abandon(&owner).unwrap();
    f.drop_owner(owner);
    assert_eq!(f.bytes(id), first);
    assert_eq!(f.balance(HOLDER), 30);
}

#[test]
fn a_cancellation_takes_the_last_ordinal_that_admission_set_aside() {
    // One ordinal is left; the admission takes it and the cancellation has it.
    let mut f = Bench::new();
    f.c = opened(&vec![retained(settled(), Some(u64::MAX - 2))]);
    let owner = f.owner(true);
    let id = owner.turn_id();
    f.abandon(&owner).unwrap();
    let first = f.bytes(id);
    let status = f.c.status();
    let round = &status.turns[0].turn.rounds[0];
    assert_eq!(round.commit_ordinal, Some(u64::MAX - 1));
    assert!(matches!(round.projection, JournalProjection::Pending(_)));
    f.abandon(&owner).unwrap();
    f.drop_owner(owner);
    assert_eq!(f.bytes(id), first);
    assert_eq!(f.balance(HOLDER), 30);
    f.project_all();
    assert!(matches!(
        f.reserve(false),
        Err(SettlementError::Invalid(SettlementProblem::Bounds))
    ));
}
