//! The registry of settlement slots: who may execute, who is busy, who was
//! abandoned, and when new work may be admitted.
//!
//! The registry is process scoped and bounded. It never evicts a slot that
//! owes something, never reuses an ordinal, and admits no new work while any
//! earlier turn is unresolved.
use crate::cost::CostTuple;
use crate::evidence;
use crate::evidence::{
    AdmissionRequest, HolderId, InfrastructureFailureClass, JournalProjection, MarkerProjection,
    OwnedBudgetView, ProviderEvidence, ReceiptBinding, ReceiptCandidate, RefusalClass,
    RoundObligation, SettlementPhase, SettlementProblem, SettlementStoreError, ToolEvidence,
    TurnObligation, TurnTerminal,
};
use crate::ids::{
    BudgetEpoch, SessionId, SettlementId, Sha256Digest, TokenId, TurnId, UnixTsMillis,
};
use crate::slot;
use crate::slot::{
    encoding_error, AdmissionAttempt, ClaimValidation, Disposition, EncodedSnapshot, Event,
    JournalEntry, ProjectionAttempt, RejectedObservation, SettlementError, Slot, Step,
};
use crate::slot_laws;
use crate::slot_model;
use crate::slot_model::ProjectionOutcome;
use crate::turn_table::{Taken, TurnSet, TurnTable};
use vstd::prelude::*;

verus! {

/// Largest encoded record, in bytes.
pub const MAX_RECORD_BYTES: usize = 262_144;

/// Largest compact receipt, in bytes.
pub const MAX_RECEIPT_BYTES: usize = 16_384;

/// Most records that the retained history may hold.
pub const MAX_INVENTORY_RECORDS: usize = 64;

/// Most executing and retained turns. No slot is evicted.
pub const MAX_SLOTS: usize = 4;

/// Space kept free beyond the sizing probe.
pub const RECORD_HEADROOM_BYTES: usize = 16_384;

/// Attribution supplied by a trusted, already authenticated embedder.
#[derive(Debug)]
pub struct TurnIdentity {
    /// Request attribution, independent of the configured journal.
    pub request_session: SessionId,
    /// Actual configured journal owner.
    pub journal_owner: Option<SessionId>,
    /// Verified subject, not necessarily the budget holder.
    pub verified_subject: HolderId,
    /// Trusted provisioned holder, checked against the live capability.
    pub budget_holder: HolderId,
    /// Token identifier only, never a bearer token.
    pub cap_token_id: TokenId,
    /// Stable caller-sampled timestamp.
    pub started_at: UnixTsMillis,
}

/// Read-only facts of one turn.
#[derive(Debug)]
pub struct TurnSettlementStatus {
    /// Latest local observations, not necessarily acknowledged.
    pub turn: TurnObligation,
    /// Most recent gate view; while busy, the one before the operation.
    pub view: Option<OwnedBudgetView>,
    /// Retained reason, if quarantined.
    pub error: Option<SettlementError>,
    /// Last durably acknowledged revision.
    pub acknowledged_revision: Option<u64>,
    /// Immutable pending revision; never regenerated for retry.
    pub pending_revision: Option<u64>,
    /// Exact pending-byte digest.
    pub pending_digest: Option<Sha256Digest>,
    /// Local facts exceed the last acknowledged snapshot.
    pub undurable: bool,
    /// Admitted hold retained if claiming failed.
    pub unclaimed_reservation: Option<u128>,
    /// The inputs of the admission attempt.
    pub admission_attempt: Option<AdmissionAttempt>,
    /// The observation that could not be durably accepted.
    pub rejected: Option<RejectedObservation>,
    /// The owner disappeared before a cancellation could be selected.
    pub abandonment_pending: bool,
    /// A durable disposition still needs its capability retired.
    pub retirement_pending: bool,
    /// Frozen trusted expectation, separate from the actual holder in `turn`.
    pub expected_holder: HolderId,
    /// Validation failure, independent of storage and credit errors.
    pub validation_error: Option<SettlementError>,
    /// Journal appends whose outcome is not known.
    pub pending_projections: Vec<ProjectionAttempt>,
}

/// Bounded registry status.
#[derive(Debug)]
pub struct SettlementStatus {
    pub epoch: BudgetEpoch,
    /// Turn still held by its executing owner.
    pub executing: Option<TurnId>,
    /// Turn that an operation holds.
    pub busy: Option<TurnId>,
    /// Live and retained turns, by ascending turn.
    pub turns: Vec<TurnSettlementStatus>,
    /// Retained history plus reserved membership.
    pub inventory_count: usize,
    /// Encoded size of the largest record.
    pub encoded_record_probe_bytes: usize,
    /// Explicit stop, independent of quarantine.
    pub stopped: bool,
    /// Prior-process uncertainty closes admission.
    pub boot_problem: Option<SettlementProblem>,
}

/// `status` shows the facts of `slot`.
pub open spec fn shows(
    status: TurnSettlementStatus,
    slot: slot::SlotModel,
    abandoned: bool,
) -> bool {
    &&& status.turn@ == slot.turn
    &&& status.view == slot.view
    &&& status.error == (match slot.outcome() {
        Ok(_) => None::<SettlementError>,
        Err(e) => Some(e),
    })
    &&& status.acknowledged_revision == slot.acknowledged_revision()
    &&& status.pending_revision == (match slot.pending {
        Some(p) => Some(p.encoded.revision),
        None => None::<u64>,
    })
    &&& status.pending_digest == (match slot.pending {
        Some(p) => Some(crate::digest::digest_of(p.encoded.bytes)),
        None => None::<Sha256Digest>,
    })
    &&& status.undurable == slot.dirty
    &&& status.unclaimed_reservation == (match slot.unclaimed {
        Some(r) => Some(r.reservation_id),
        None => None::<u128>,
    })
    &&& status.admission_attempt == slot.admission_attempt
    &&& status.rejected == slot.rejected
    &&& status.abandonment_pending == abandoned
    &&& status.retirement_pending == slot.retirement_pending
    &&& status.expected_holder == slot.expected_holder
    &&& status.validation_error == (if slot.validation is Invalid {
        Some(SettlementError::IdentityMismatch)
    } else {
        None::<SettlementError>
    })
    &&& status.pending_projections@ == slot.projection_attempts
}

fn copy_attempts(attempts: &Vec<ProjectionAttempt>) -> (r: Vec<ProjectionAttempt>)
    ensures
        r@ == attempts@,
{
    let mut r: Vec<ProjectionAttempt> = Vec::new();
    let mut i: usize = 0;
    while i < attempts.len()
        invariant
            i <= attempts.len(),
            r@ == attempts@.take(i as int),
        decreases attempts.len() - i,
    {
        r.push(attempts[i]);
        i += 1;
    }
    assert(r@ =~= attempts@);
    r
}

impl Slot {
    /// The facts of this slot.
    pub fn status(&self) -> (r: TurnSettlementStatus)
        ensures
            shows(r, self@, false),
    {
        TurnSettlementStatus {
            turn: self.turn.clone(),
            view: match &self.view {
                Some(v) => Some(v.clone()),
                None => None,
            },
            error: match self.outcome() {
                Ok(_) => None,
                Err(e) => Some(e),
            },
            acknowledged_revision: match &self.acknowledged {
                Some(s) => Some(s.revision),
                None => None,
            },
            pending_revision: match &self.pending {
                Some(p) => Some(p.encoded.revision),
                None => None,
            },
            pending_digest: match &self.pending {
                Some(p) => Some(Sha256Digest::of(p.encoded.bytes.as_slice())),
                None => None,
            },
            undurable: self.dirty,
            unclaimed_reservation: match &self.unclaimed {
                Some(r) => Some(r.reservation_id),
                None => None,
            },
            admission_attempt: match &self.admission_attempt {
                Some(a) => Some(a.clone()),
                None => None,
            },
            rejected: match &self.rejected {
                Some(r) => Some(r.clone()),
                None => None,
            },
            abandonment_pending: false,
            retirement_pending: self.retirement_pending,
            expected_holder: self.expected_holder.clone(),
            validation_error: if self.validation == ClaimValidation::Invalid {
                Some(SettlementError::IdentityMismatch)
            } else {
                None
            },
            pending_projections: copy_attempts(&self.projection_attempts),
        }
    }
}

impl TurnSettlementStatus {
    fn copy(&self, abandoned: bool) -> (r: TurnSettlementStatus)
        ensures
            forall|s: slot::SlotModel|
                #[trigger] shows(*self, s, self.abandonment_pending) ==> shows(r, s, abandoned),
    {
        TurnSettlementStatus {
            turn: self.turn.clone(),
            view: match &self.view {
                Some(v) => Some(v.clone()),
                None => None,
            },
            error: self.error,
            acknowledged_revision: self.acknowledged_revision,
            pending_revision: self.pending_revision,
            pending_digest: self.pending_digest,
            undurable: self.undurable,
            unclaimed_reservation: self.unclaimed_reservation,
            admission_attempt: match &self.admission_attempt {
                Some(a) => Some(a.clone()),
                None => None,
            },
            rejected: match &self.rejected {
                Some(r) => Some(r.clone()),
                None => None,
            },
            abandonment_pending: abandoned,
            retirement_pending: self.retirement_pending,
            expected_holder: self.expected_holder.clone(),
            validation_error: self.validation_error,
            pending_projections: copy_attempts(&self.pending_projections),
        }
    }
}

/// A slot that an operation holds, and what the operation needs next.
pub struct BusyTurn {
    id: TurnId,
    slot: Slot,
    step: Step,
    shown: TurnSettlementStatus,
    before: Ghost<slot::SlotModel>,
}

/// The process-scoped registry.
pub struct SettlementCoordinator {
    epoch: BudgetEpoch,
    slots: TurnTable,
    inventory: TurnSet,
    executing: Option<TurnId>,
    busy: Option<BusyTurn>,
    stopped: bool,
    boot_problem: Option<SettlementProblem>,
    next_ordinal: u64,
    abandoned: TurnSet,
    draining: bool,
    encoded_record_probe_bytes: usize,
}

/// A held slot, as it was and as it is.
#[verifier::ext_equal]
pub ghost struct BusyModel {
    pub id: TurnId,
    pub before: slot::SlotModel,
    pub slot: slot::SlotModel,
    pub step: Step,
}

/// The registry with its collections as maps and sets.
#[verifier::ext_equal]
pub ghost struct CoordinatorModel {
    pub epoch: BudgetEpoch,
    pub slots: Map<TurnId, Option<slot::SlotModel>>,
    pub inventory: Set<TurnId>,
    pub executing: Option<TurnId>,
    pub busy: Option<BusyModel>,
    pub stopped: bool,
    pub boot_problem: Option<SettlementProblem>,
    pub next_ordinal: u64,
    pub abandoned: Set<TurnId>,
    pub draining: bool,
    pub encoded_record_probe_bytes: usize,
}

impl View for BusyTurn {
    type V = BusyModel;

    closed spec fn view(&self) -> BusyModel {
        BusyModel { id: self.id, before: self.before@, slot: self.slot@, step: self.step }
    }
}

impl View for SettlementCoordinator {
    type V = CoordinatorModel;

    closed spec fn view(&self) -> CoordinatorModel {
        CoordinatorModel {
            epoch: self.epoch,
            slots: self.slots@,
            inventory: self.inventory@,
            executing: self.executing,
            busy: match self.busy {
                Some(b) => Some(b@),
                None => None,
            },
            stopped: self.stopped,
            boot_problem: self.boot_problem,
            next_ordinal: self.next_ordinal,
            abandoned: self.abandoned@,
            draining: self.draining,
            encoded_record_probe_bytes: self.encoded_record_probe_bytes,
        }
    }
}

impl CoordinatorModel {
    /// The turn has no slot and no record.
    pub open spec fn is_fresh(self, id: TurnId) -> bool {
        !self.slots.contains_key(id) && !self.inventory.contains(id)
    }

    /// What holds between calls: every slot is well formed and filed under its
    /// own turn, a slot is away only while the one busy operation holds it, no
    /// turn has a slot without inventory membership, there are at most
    /// `MAX_SLOTS` slots, and the executing turn has one.
    pub open spec fn wf(self) -> bool {
        &&& forall|id: TurnId| #[trigger]
            self.slots.contains_key(id) && self.slots[id] is Some ==> self.slots[id]->0.wf()
                && self.slots[id]->0.turn.turn_id == id
        &&& forall|id: TurnId| #[trigger]
            self.slots.contains_key(id) && self.slots[id] is None ==> self.busy is Some
                && self.busy->0.id == id
        &&& self.busy is Some ==> {
            &&& self.slots.contains_key(self.busy->0.id)
            &&& self.slots[self.busy->0.id] is None
            &&& self.busy->0.slot.wf()
            &&& self.busy->0.slot.ready(self.busy->0.step)
            &&& self.busy->0.slot.turn.turn_id == self.busy->0.id
            &&& self.busy->0.before.wf()
            &&& self.busy->0.before.turn.turn_id == self.busy->0.id
        }
        &&& self.slots.dom().finite()
        &&& self.slots.dom().len() <= MAX_SLOTS
        &&& self.slots.dom().subset_of(self.inventory)
        &&& self.executing is Some ==> self.slots.contains_key(self.executing->0)
    }

    /// New work may not be admitted: it was stopped, an earlier process left
    /// something unknown, an owner disappeared, or some turn is unresolved.
    pub open spec fn closed_to_work(self) -> bool {
        ||| self.stopped
        ||| self.boot_problem is Some
        ||| self.abandoned != Set::<TurnId>::empty()
        ||| exists|id: TurnId| #[trigger]
            self.slots.contains_key(id) && self.slots[id] is Some && !self.slots[id]->0.quiet()
    }

    /// The slot that an operation on this turn would hold.
    pub open spec fn taken(self, id: TurnId) -> Result<slot::SlotModel, SettlementError> {
        if self.busy is Some {
            Err(SettlementError::Busy)
        } else if !self.slots.contains_key(id) {
            Err(SettlementError::State)
        } else {
            match self.slots[id] {
                None => Err(SettlementError::Busy),
                Some(s) => Ok(s),
            }
        }
    }

    /// An operation holds the slot of this turn after its first step.
    pub open spec fn engaged(
        self,
        id: TurnId,
        before: slot::SlotModel,
        first: slot_model::Move,
    ) -> CoordinatorModel {
        CoordinatorModel {
            slots: self.slots.insert(id, None),
            busy: Some(BusyModel { id, before, slot: first.0, step: first.1 }),
            ..self
        }
    }

    /// The facts to show of a turn: those of its slot, or, while an operation
    /// holds the slot, those from before the operation.
    pub open spec fn facts(self, id: TurnId) -> slot::SlotModel {
        match self.slots[id] {
            Some(s) => s,
            None => self.busy->0.before,
        }
    }

    /// A turn that owes nothing and that nobody executes leaves the registry;
    /// its inventory membership goes only if it never reached the store.
    pub open spec fn reaped(self, id: TurnId) -> CoordinatorModel {
        if self.executing == Some(id) || self.abandoned.contains(id) || !self.slots.contains_key(id)
            || self.slots[id] is None || !self.slots[id]->0.removable() {
            self
        } else {
            CoordinatorModel {
                slots: self.slots.remove(id),
                inventory: if self.slots[id]->0.acknowledged is None {
                    self.inventory.remove(id)
                } else {
                    self.inventory
                },
                ..self
            }
        }
    }

    /// The held slot is given back.
    pub open spec fn handed_back(
        self,
        observed: Option<OwnedBudgetView>,
        unwound: bool,
    ) -> CoordinatorModel {
        let busy = self.busy->0;
        let viewed = if busy.slot.claimed && observed is Some {
            slot::SlotModel { view: observed, ..busy.slot }
        } else {
            busy.slot
        };
        let slot = if unwound {
            viewed.failing(SettlementError::Panicked)
        } else {
            viewed
        };
        let answered = !unwound && (busy.step matches Step::Finished { final_answer: true, .. });
        CoordinatorModel {
            slots: self.slots.insert(busy.id, Some(slot)),
            busy: None,
            executing: if answered && self.executing == Some(busy.id) {
                None
            } else {
                self.executing
            },
            ..self
        }.reaped(busy.id)
    }

    /// The owner of a turn disappeared.
    pub open spec fn owner_gone(self, id: TurnId) -> CoordinatorModel {
        CoordinatorModel {
            abandoned: if self.slots.contains_key(id) {
                self.abandoned.insert(id)
            } else {
                self.abandoned
            },
            executing: if self.executing == Some(id) {
                None
            } else {
                self.executing
            },
            ..self
        }.reaped(id)
    }

    /// An abandoned turn whose slot has its own continuation, or was never
    /// used, is accounted for.
    pub open spec fn abandonment_accounted(self, id: TurnId) -> CoordinatorModel {
        if self.slots.contains_key(id) && self.slots[id] is Some && (
        self.slots[id]->0.disposition_continuation() || self.slots[id]->0.unused()) {
            CoordinatorModel { abandoned: self.abandoned.remove(id), ..self }.reaped(id)
        } else {
            self
        }
    }
}

/// An operation on turn `id` took its first step, or could not start.
pub open spec fn operated(
    before: CoordinatorModel,
    id: TurnId,
    first: spec_fn(slot::SlotModel) -> slot_model::Move,
    r: Result<Step, SettlementError>,
    after: CoordinatorModel,
) -> bool {
    match before.taken(id) {
        Err(e) => r == Err::<Step, SettlementError>(e) && after == before,
        Ok(s) => r == Ok::<Step, SettlementError>(first(s).1) && after == before.engaged(
            id,
            s,
            first(s),
        ),
    }
}

/// A turn that an earlier process left unsettled.
pub open spec fn unsettled(turn: evidence::TurnModel) -> bool {
    ||| turn.terminal is Open
    ||| turn.terminal is Unresolved
    ||| turn.cancellation_marker is Prepared
    ||| exists|j: int|
        0 <= j < turn.rounds.len() && (!((#[trigger] turn.rounds[j]).phase is Settled)
            || turn.rounds[j].projection is Pending)
}

/// The turns of the retained snapshots.
pub open spec fn turns_of(snapshots: Seq<EncodedSnapshot>) -> Set<TurnId> {
    Seq::new(snapshots.len(), |i: int| snapshots[i].turn.turn_id).to_set()
}

/// `n` is the commit ordinal of some retained round.
pub open spec fn retains_ordinal(snapshots: Seq<EncodedSnapshot>, n: u64) -> bool {
    exists|i: int, j: int|
        0 <= i < snapshots.len() && 0 <= j < snapshots[i].turn@.rounds.len() && (
        #[trigger] snapshots[i].turn@.rounds[j]).commit_ordinal == Some(n)
}

/// The registry of a fresh process over the retained history.
pub open spec fn reopened(
    epoch: BudgetEpoch,
    probe_bytes: usize,
    snapshots: Seq<EncodedSnapshot>,
    c: CoordinatorModel,
) -> bool {
    &&& c.epoch == epoch
    &&& c.slots == Map::<TurnId, Option<slot::SlotModel>>::empty()
    &&& c.inventory == turns_of(snapshots)
    &&& c.executing is None
    &&& c.busy is None
    &&& !c.stopped
    &&& c.boot_problem == (if exists|i: int|
        0 <= i < snapshots.len() && unsettled((#[trigger] snapshots[i]).turn@) {
        Some(SettlementProblem::PriorEpochApplicationUnknown)
    } else {
        None
    })
    &&& forall|n: u64| #[trigger] retains_ordinal(snapshots, n) ==> n < c.next_ordinal
    &&& c.next_ordinal == 0 || retains_ordinal(snapshots, (c.next_ordinal - 1) as u64)
    &&& c.abandoned == Set::<TurnId>::empty()
    &&& !c.draining
    &&& c.encoded_record_probe_bytes == probe_bytes
}

/// The sizing probe leaves the headroom free.
pub open spec fn fits_record(bytes: usize) -> bool {
    bytes + RECORD_HEADROOM_BYTES <= MAX_RECORD_BYTES
}

/// Whether the largest record, as encoded, leaves enough room for wider
/// numbers. Returns its size.
pub fn check_record_headroom(encoded: Result<usize, SettlementStoreError>) -> (r: Result<
    usize,
    SettlementError,
>)
    ensures
        r == (match encoded {
            Err(e) => Err(SettlementError::Invalid(slot::encoding_problem(e))),
            Ok(n) => if fits_record(n) {
                Ok(n)
            } else {
                Err(SettlementError::Invalid(SettlementProblem::Bounds))
            },
        }),
        r matches Ok(size) ==> encoded == Ok::<usize, SettlementStoreError>(size) && size
            <= MAX_RECORD_BYTES - RECORD_HEADROOM_BYTES,
        encoded matches Ok(size) ==> (size <= MAX_RECORD_BYTES - RECORD_HEADROOM_BYTES ==> r is Ok),
{
    match encoded {
        Err(e) => Err(encoding_error(e)),
        Ok(n) => {
            if n > MAX_RECORD_BYTES - RECORD_HEADROOM_BYTES {
                Err(SettlementError::Invalid(SettlementProblem::Bounds))
            } else {
                Ok(n)
            }
        },
    }
}

fn is_unsettled(turn: &TurnObligation) -> (r: bool)
    ensures
        r == unsettled(turn@),
{
    match turn.terminal {
        TurnTerminal::Open | TurnTerminal::Unresolved(_) => {
            return true;
        },
        _ => {},
    }
    if let MarkerProjection::Prepared(_) = &turn.cancellation_marker {
        return true;
    }
    let mut j: usize = 0;
    while j < turn.rounds.len()
        invariant
            j <= turn.rounds.len(),
            forall|k: int|
                0 <= k < j ==> (#[trigger] turn@.rounds[k]).phase is Settled
                    && !(turn@.rounds[k].projection is Pending),
        decreases turn.rounds.len() - j,
    {
        let settled = match turn.rounds[j].phase {
            SettlementPhase::Settled { .. } => true,
            _ => false,
        };
        let owed = match turn.rounds[j].projection {
            JournalProjection::Pending(_) => true,
            _ => false,
        };
        if !settled || owed {
            assert(!(turn@.rounds[j as int].phase is Settled)
                || turn@.rounds[j as int].projection is Pending);
            return true;
        }
        j += 1;
    }
    false
}

impl SettlementCoordinator {
    /// The registry's invariant.
    pub closed spec fn wf(&self) -> bool {
        &&& self@.wf()
        &&& self.busy is Some ==> shows(self.busy->0.shown, self.busy->0.before@, false)
    }

    /// The registry's invariant implies that of its model.
    pub proof fn lemma_wf_model(&self)
        requires
            self.wf(),
        ensures
            self@.wf(),
    {
    }

    /// Opens a registry over the retained history. Uncertainty of an earlier
    /// process closes admission without touching a budget.
    pub fn open(
        epoch: BudgetEpoch,
        probe: Result<usize, SettlementStoreError>,
        snapshots: &Vec<EncodedSnapshot>,
    ) -> (r: Result<SettlementCoordinator, SettlementError>)
        ensures
            match r {
                Err(e) => {
                    ||| probe matches Err(p) && e == SettlementError::Invalid(
                        slot::encoding_problem(p),
                    )
                    ||| probe matches Ok(n) && e == SettlementError::Invalid(
                        SettlementProblem::Bounds,
                    ) && (!fits_record(n) || retains_ordinal(snapshots@, u64::MAX))
                },
                Ok(c) => {
                    &&& probe is Ok
                    &&& fits_record(probe->Ok_0)
                    &&& !retains_ordinal(snapshots@, u64::MAX)
                    &&& c.wf()
                    &&& reopened(epoch, probe->Ok_0, snapshots@, c@)
                },
            },
    {
        let probe_bytes: usize = match check_record_headroom(probe) {
            Ok(n) => n,
            Err(e) => {
                return Err(e);
            },
        };
        let mut inventory = TurnSet::new();
        let mut boot_problem: Option<SettlementProblem> = None;
        let mut next_ordinal: u64 = 0;
        let mut i: usize = 0;
        assert(turns_of(snapshots@.take(0)) =~= Set::<TurnId>::empty());
        while i < snapshots.len()
            invariant
                i <= snapshots.len(),
                probe == Ok::<usize, SettlementStoreError>(probe_bytes),
                fits_record(probe_bytes),
                inventory@ == turns_of(snapshots@.take(i as int)),
                boot_problem == (if exists|k: int|
                    0 <= k < i && unsettled((#[trigger] snapshots@[k]).turn@) {
                    Some(SettlementProblem::PriorEpochApplicationUnknown)
                } else {
                    None
                }),
                forall|k: int, l: int|
                    0 <= k < i && 0 <= l < snapshots@[k].turn@.rounds.len() ==> (
                    (#[trigger] snapshots@[k].turn@.rounds[l]).commit_ordinal matches Some(n) ==> n
                        < next_ordinal),
                next_ordinal == 0 || retains_ordinal(snapshots@, (next_ordinal - 1) as u64),
            decreases snapshots.len() - i,
        {
            let turn = &snapshots[i].turn;
            inventory.insert(turn.turn_id);
            proof {
                let a = Seq::new(i as nat, |k: int| snapshots@.take(i as int)[k].turn.turn_id);
                let b = Seq::new((i + 1) as nat, |k: int| snapshots@.take(i + 1)[k].turn.turn_id);
                assert(b =~= a.push(turn.turn_id));
                assert(b.to_set() =~= a.to_set().insert(turn.turn_id)) by {
                    assert(b[i as int] == turn.turn_id);
                    assert forall|t: TurnId|
                        b.to_set().contains(t) == a.to_set().insert(turn.turn_id).contains(t) by {
                        if a.to_set().contains(t) {
                            let k = choose|k: int| 0 <= k < a.len() && a[k] == t;
                            assert(b[k] == t);
                        }
                        if b.to_set().contains(t) {
                            let k = choose|k: int| 0 <= k < b.len() && b[k] == t;
                            if k < i {
                                assert(a[k] == t);
                            }
                        }
                    }
                }
            }
            if is_unsettled(turn) {
                assert(unsettled(snapshots@[i as int].turn@));
                boot_problem = Some(SettlementProblem::PriorEpochApplicationUnknown);
            }
            let mut j: usize = 0;
            while j < turn.rounds.len()
                invariant
                    i < snapshots.len(),
                    *turn == snapshots@[i as int].turn,
                    j <= turn.rounds.len(),
                    forall|k: int, l: int|
                    0 <= k < i && 0 <= l < snapshots@[k].turn@.rounds.len() ==> (
                    (#[trigger] snapshots@[k].turn@.rounds[l]).commit_ordinal matches Some(n) ==> n
                        < next_ordinal),
                    forall|l: int|
                        0 <= l < j ==> ((#[trigger] turn@.rounds[l]).commit_ordinal matches Some(n)
                            ==> n < next_ordinal),
                    next_ordinal == 0 || retains_ordinal(snapshots@, (next_ordinal - 1) as u64),
                    probe == Ok::<usize, SettlementStoreError>(probe_bytes),
                    fits_record(probe_bytes),
                decreases turn.rounds.len() - j,
            {
                if let Some(n) = turn.rounds[j].commit_ordinal {
                    assert(snapshots@[i as int].turn@.rounds[j as int].commit_ordinal == Some(n));
                    assert(retains_ordinal(snapshots@, n));
                    if n == u64::MAX {
                        return Err(SettlementError::Invalid(SettlementProblem::Bounds));
                    }
                    if n + 1 > next_ordinal {
                        next_ordinal = n + 1;
                    }
                }
                j += 1;
            }
            i += 1;
        }
        assert(snapshots@.take(snapshots@.len() as int) =~= snapshots@);
        let c = SettlementCoordinator {
            epoch,
            slots: TurnTable::new(),
            inventory,
            executing: None,
            busy: None,
            stopped: false,
            boot_problem,
            next_ordinal,
            abandoned: TurnSet::new(),
            draining: false,
            encoded_record_probe_bytes: probe_bytes,
        };
        Ok(c)
    }

    fn is_closed(&self) -> (r: bool)
        ensures
            r == self@.closed_to_work(),
    {
        self.stopped || self.boot_problem.is_some() || !self.abandoned.is_empty()
            || !self.slots.all_quiet()
    }

    /// Whether a turn identifier is neither in use nor on record.
    pub fn is_fresh(&self, id: TurnId) -> (r: bool)
        requires
            self.wf(),
        ensures
            r == self@.is_fresh(id),
    {
        !self.slots.contains(id) && !self.inventory.contains(id)
    }

    fn take(&mut self, id: TurnId) -> (r: Result<Slot, SettlementError>)
        requires
            old(self).wf(),
        ensures
            match old(self)@.taken(id) {
                Err(e) => r == Err::<Slot, SettlementError>(e) && *final(self) == *old(self),
                Ok(s) => {
                    &&& r is Ok
                    &&& r->Ok_0@ == s
                    &&& s.wf()
                    &&& s.turn.turn_id == id
                    &&& final(self)@ == (CoordinatorModel {
                        slots: old(self)@.slots.insert(id, None),
                        ..old(self)@
                    })
                    &&& final(self).busy is None
                },
            },
    {
        if self.busy.is_some() {
            return Err(SettlementError::Busy);
        }
        if !self.slots.contains(id) {
            return Err(SettlementError::State);
        }
        if self.slots.get(id).is_none() {
            return Err(SettlementError::Busy);
        }
        match self.slots.take(id) {
            Taken::Missing => Err(SettlementError::State),
            Taken::Away => Err(SettlementError::Busy),
            Taken::Slot(slot) => Ok(slot),
        }
    }

    fn engage(
        &mut self,
        id: TurnId,
        slot: Slot,
        step: Step,
        shown: TurnSettlementStatus,
        before: Ghost<slot::SlotModel>,
    )
        requires
            old(self).busy is None,
            old(self)@.slots.contains_key(id),
            old(self)@.slots[id] is None,
            (CoordinatorModel {
                busy: Some(BusyModel { id, before: before@, slot: slot@, step }),
                ..old(self)@
            }).wf(),
            shows(shown, before@, false),
        ensures
            final(self).wf(),
            final(self)@ == (CoordinatorModel {
                busy: Some(BusyModel { id, before: before@, slot: slot@, step }),
                ..old(self)@
            }),
    {
        self.busy = Some(BusyTurn { id, slot, step, shown, before });
    }

    /// The turn that a trusted identity would start with.
    pub fn draft_turn(&self, identity: &TurnIdentity, turn_id: TurnId) -> (r: TurnObligation)
        ensures
            r@ == opened_turn(self@.epoch, *identity, turn_id),
    {
        let r = TurnObligation {
            turn_id,
            budget_epoch: self.epoch,
            request_session: identity.request_session,
            journal_owner: identity.journal_owner,
            verified_subject: identity.verified_subject.clone(),
            budget_holder: identity.budget_holder.clone(),
            cap_token_id: identity.cap_token_id,
            started_at: identity.started_at,
            rounds: Vec::new(),
            terminal: TurnTerminal::Open,
            cancellation_marker: MarkerProjection::NotRequired,
        };
        assert(r@.rounds =~= Seq::empty());
        r
    }

    /// Reserves a slot and inventory membership before any hold is admitted.
    /// Only one turn may execute. `encoding` is what encoding the drafted turn
    /// found.
    pub fn reserve_turn(
        &mut self,
        identity: TurnIdentity,
        turn_id: TurnId,
        encoding: Option<SettlementStoreError>,
    ) -> (r: Result<TurnSettlementOwner, SettlementError>)
        requires
            old(self).wf(),
            old(self)@.is_fresh(turn_id),
        ensures
            final(self).wf(),
            match reserve_refusal(old(self)@, encoding) {
                Some(e) => r == Err::<TurnSettlementOwner, SettlementError>(e) && final(self)@
                    == old(self)@,
                None => {
                    &&& r is Ok
                    &&& r->Ok_0@ == turn_id
                    &&& final(self)@.inventory.len() == old(self)@.inventory.len() + 1
                    &&& final(self)@ == (CoordinatorModel {
                        inventory: old(self)@.inventory.insert(turn_id),
                        executing: Some(turn_id),
                        slots: old(self)@.slots.insert(
                            turn_id,
                            Some(fresh_slot(opened_turn(old(self)@.epoch, identity, turn_id))),
                        ),
                        ..old(self)@
                    })
                },
            },
    {
        if let Some(e) = encoding {
            return Err(encoding_error(e));
        }
        if self.busy.is_some() {
            return Err(SettlementError::Busy);
        }
        if self.is_closed() {
            return Err(SettlementError::AdmissionClosed);
        }
        if self.executing.is_some() {
            return Err(SettlementError::Busy);
        }
        if self.slots.len() >= MAX_SLOTS {
            return Err(SettlementError::SlotsFull);
        }
        if self.inventory.len() >= MAX_INVENTORY_RECORDS {
            return Err(SettlementError::InventoryFull);
        }
        if self.next_ordinal == u64::MAX {
            return Err(SettlementError::Invalid(SettlementProblem::Bounds));
        }
        let turn = self.draft_turn(&identity, turn_id);
        let slot = Slot {
            expected_holder: turn.budget_holder.clone(),
            validation: ClaimValidation::Unchecked,
            turn,
            claimed: false,
            unclaimed: None,
            admission_attempt: None,
            view: None,
            acknowledged: None,
            pending: None,
            dirty: false,
            error: None,
            requested: None,
            projection_ordinal: None,
            finalize_started: false,
            retirement_pending: false,
            rejected: None,
            projection_attempts: Vec::new(),
        };
        assert(slot@ =~= fresh_slot(opened_turn(self@.epoch, identity, turn_id)));
        let ghost before = self@;
        proof {
            self.inventory.lemma_finite();
        }
        self.inventory.insert(turn_id);
        self.executing = Some(turn_id);
        self.slots.put(turn_id, slot);
        assert(before.slots.insert(turn_id, Some(slot@)).dom() =~= before.slots.dom().insert(
            turn_id,
        ));
        Ok(TurnSettlementOwner { id: turn_id })
    }

    /// What the operation in progress needs next.
    pub fn step(&self) -> (r: Option<Step>)
        ensures
            r == (match self@.busy {
                Some(b) => Some(b.step),
                None => None::<Step>,
            }),
    {
        match &self.busy {
            Some(b) => Some(b.step),
            None => None,
        }
    }

    /// The slot that the operation in progress holds.
    pub fn busy_slot(&self) -> (r: Option<&Slot>)
        ensures
            r is Some == self@.busy is Some,
            r matches Some(s) ==> s@ == self@.busy->0.slot,
    {
        match &self.busy {
            Some(b) => Some(&b.slot),
            None => None,
        }
    }

    /// Advances the operation in progress with the answer to its step.
    pub fn resume(&mut self, event: Event) -> (step: Step)
        requires
            old(self).wf(),
            old(self)@.busy is Some,
            !(old(self)@.busy->0.step is Finished),
            old(self)@.busy->0.slot.answers(old(self)@.busy->0.step, event),
        ensures
            final(self).wf(),
            ({
                let busy = old(self)@.busy->0;
                let next = busy.slot.advance(busy.step, event, old(self)@.epoch);
                &&& step == next.1
                &&& final(self)@ == (CoordinatorModel {
                    busy: Some(BusyModel { slot: next.0, step: next.1, ..busy }),
                    ..old(self)@
                })
            }),
    {
        match self.busy.take() {
            None => Step::Finished { result: Err(SettlementError::State), final_answer: false },
            Some(busy) => {
                let mut slot = busy.slot;
                proof {
                    slot_laws::law_advance_evolves(slot@, busy.step, event, self.epoch);
                }
                let next = slot.advance(busy.step, event, self.epoch);
                self.busy =
                Some(
                    BusyTurn {
                        id: busy.id,
                        slot,
                        step: next,
                        shown: busy.shown,
                        before: busy.before,
                    },
                );
                next
            },
        }
    }

    /// Gives the held slot back and reports how its operation ended. While the
    /// reservation is claimed, `observed` is its view as it stands now.
    pub fn hand_back(&mut self, observed: Option<OwnedBudgetView>, unwound: bool) -> (r: Result<
        (),
        SettlementError,
    >)
        requires
            old(self).wf(),
            old(self)@.busy is Some,
            unwound || old(self)@.busy->0.step is Finished,
            observed is Some && !(observed->0.status is Active)
                ==> old(self)@.busy->0.slot.turn.rounds.len() > 0,
        ensures
            final(self).wf(),
            final(self)@ == old(self)@.handed_back(observed, unwound),
            r == (if unwound {
                Err(SettlementError::Panicked)
            } else {
                match old(self)@.busy->0.step {
                    Step::Finished { result, .. } => result,
                    _ => Err(SettlementError::State),
                }
            }),
            unwound ==> r == Err::<(), SettlementError>(SettlementError::Panicked),
            !unwound ==> r == old(self)@.busy->0.step->result,
    {
        match self.busy.take() {
            None => Err(SettlementError::State),
            Some(busy) => {
                let mut slot = busy.slot;
                if slot.claimed && observed.is_some() {
                    slot.view = observed;
                }
                if unwound {
                    slot.error = Some(SettlementError::Panicked);
                }
                let (result, answered) = match busy.step {
                    Step::Finished { result, final_answer } => (result, final_answer),
                    _ => (Err(SettlementError::State), false),
                };
                let ghost before = self.slots@;
                self.slots.put(busy.id, slot);
                assert(before.insert(busy.id, Some(slot@)).dom() =~= before.dom());
                if answered && !unwound && self.executing == Some(busy.id) {
                    self.executing = None;
                }
                self.reap(busy.id);
                if unwound {
                    Err(SettlementError::Panicked)
                } else {
                    result
                }
            },
        }
    }

    fn reap(&mut self, id: TurnId)
        requires
            old(self).wf(),
        ensures
            final(self).wf(),
            final(self)@ == old(self)@.reaped(id),
    {
        if self.executing == Some(id) || self.abandoned.contains(id) {
            return;
        }
        let (removable, unwritten) = match self.slots.get(id) {
            Some(s) => (s.removable(), s.acknowledged.is_none()),
            None => (false, false),
        };
        if removable {
            let ghost before = self@;
            self.slots.remove(id);
            proof {
                assert(before.slots.remove(id).dom() =~= before.slots.dom().remove(id));
            }
            if unwritten {
                self.inventory.remove(id);
            }
        }
    }

    /// Stops admitting work, preserving everything that is pending.
    pub fn stop_admission(&mut self)
        requires
            old(self).wf(),
        ensures
            final(self).wf(),
            final(self)@ == (CoordinatorModel { stopped: true, ..old(self)@ }),
    {
        self.stopped = true;
    }

    /// A handle for supervising the registry.
    pub fn supervisor(&self) -> (r: SettlementSupervisor)
        ensures
            r == (SettlementSupervisor {  }),
    {
        SettlementSupervisor {  }
    }

    /// Starts one bounded pass over the abandoned turns: the turns to cancel,
    /// or nothing while an operation or another pass is in progress.
    pub fn begin_drain(&mut self) -> (ids: Vec<TurnId>)
        requires
            old(self).wf(),
        ensures
            final(self).wf(),
            old(self)@.busy is Some || old(self)@.draining ==> ids@.len() == 0 && final(self)@
                == old(self)@,
            old(self)@.busy is None && !old(self)@.draining ==> {
                &&& ids@.no_duplicates()
                &&& ids@.to_set() == old(self)@.abandoned
                &&& final(self)@ == (CoordinatorModel { draining: true, ..old(self)@ })
            },
    {
        if self.busy.is_some() || self.draining {
            return Vec::new();
        }
        self.draining = true;
        self.abandoned.to_vec()
    }

    /// Accounts for an abandoned turn after its cancellation was tried.
    pub fn account_abandonment(&mut self, id: TurnId)
        requires
            old(self).wf(),
        ensures
            final(self).wf(),
            final(self)@ == old(self)@.abandonment_accounted(id),
    {
        let accounted = match self.slots.get(id) {
            Some(s) => s.disposition_continuation() || s.unused(),
            None => false,
        };
        if accounted {
            self.abandoned.remove(id);
            self.reap(id);
        }
    }

    /// Ends a pass over the abandoned turns.
    pub fn end_drain(&mut self)
        requires
            old(self).wf(),
        ensures
            final(self).wf(),
            final(self)@ == (CoordinatorModel { draining: false, ..old(self)@ }),
    {
        self.draining = false;
    }

    /// Starts cancelling a turn.
    pub fn cancel(&mut self, id: TurnId) -> (r: Result<Step, SettlementError>)
        requires
            old(self).wf(),
        ensures
            final(self).wf(),
            operated(old(self)@, id, |s: slot::SlotModel| s.refund(None), r, final(self)@),
    {
        self.refund_failure_or_cancel(id, None)
    }

    /// Starts refunding a turn: a cancellation, or the given failure.
    #[verifier::spinoff_prover]
    #[verifier::rlimit(40)]
    pub fn refund_failure_or_cancel(
        &mut self,
        id: TurnId,
        failure: Option<InfrastructureFailureClass>,
    ) -> (r: Result<Step, SettlementError>)
        requires
            old(self).wf(),
        ensures
            final(self).wf(),
            operated(old(self)@, id, |s: slot::SlotModel| s.refund(failure), r, final(self)@),
    {
        let mut slot = match self.take(id) {
            Ok(s) => s,
            Err(e) => {
                return Err(e);
            },
        };
        let shown = slot.status();
        let ghost before = slot@;
        let step = slot.refund(failure);
        proof {
            slot_laws::law_start_evolves(before, slot_laws::SlotOp::Refund(failure));
            lemma_engaged(old(self)@, id, before, (slot@, step));
        }
        self.engage(id, slot, step, shown, Ghost(before));
        Ok(step)
    }
}

/// Holding a slot keeps the registry's invariant.
proof fn lemma_engaged(
    c: CoordinatorModel,
    id: TurnId,
    before: slot::SlotModel,
    first: slot_model::Move,
)
    requires
        c.wf(),
        c.taken(id) == Ok::<slot::SlotModel, SettlementError>(before),
        slot_laws::evolves(before, first.0, first.1),
    ensures
        c.engaged(id, before, first).wf(),
{
    assert(c.slots.insert(id, None::<slot::SlotModel>).dom() =~= c.slots.dom());
}

/// The turn that an identity starts with.
pub open spec fn opened_turn(
    epoch: BudgetEpoch,
    identity: TurnIdentity,
    turn_id: TurnId,
) -> evidence::TurnModel {
    evidence::TurnModel {
        turn_id,
        budget_epoch: epoch,
        request_session: identity.request_session,
        journal_owner: identity.journal_owner,
        verified_subject: identity.verified_subject,
        budget_holder: identity.budget_holder,
        cap_token_id: identity.cap_token_id,
        started_at: identity.started_at,
        rounds: Seq::empty(),
        terminal: TurnTerminal::Open,
        cancellation_marker: MarkerProjection::NotRequired,
    }
}

/// A slot that nothing has happened to.
pub open spec fn fresh_slot(turn: evidence::TurnModel) -> slot::SlotModel {
    slot::SlotModel {
        expected_holder: turn.budget_holder,
        validation: ClaimValidation::Unchecked,
        turn,
        claimed: false,
        unclaimed: None,
        admission_attempt: None,
        view: None,
        acknowledged: None,
        pending: None,
        dirty: false,
        error: None,
        requested: None,
        projection_ordinal: None,
        finalize_started: false,
        retirement_pending: false,
        rejected: None,
        projection_attempts: Seq::empty(),
    }
}

/// Why a turn cannot be reserved, if it cannot.
pub open spec fn reserve_refusal(
    c: CoordinatorModel,
    encoding: Option<SettlementStoreError>,
) -> Option<SettlementError> {
    if encoding is Some {
        Some(SettlementError::Invalid(slot::encoding_problem(encoding->0)))
    } else if c.busy is Some {
        Some(SettlementError::Busy)
    } else if c.closed_to_work() {
        Some(SettlementError::AdmissionClosed)
    } else if c.executing is Some {
        Some(SettlementError::Busy)
    } else if c.slots.dom().len() >= MAX_SLOTS {
        Some(SettlementError::SlotsFull)
    } else if c.inventory.len() >= MAX_INVENTORY_RECORDS {
        Some(SettlementError::InventoryFull)
    } else if c.next_ordinal == u64::MAX {
        Some(SettlementError::Invalid(SettlementProblem::Bounds))
    } else {
        None
    }
}

/// A handle for supervising a registry.
#[derive(Clone, Copy, Debug)]
pub struct SettlementSupervisor {}

/// The handle of an executing turn.
#[derive(Debug)]
pub struct TurnSettlementOwner {
    id: TurnId,
}

impl View for TurnSettlementOwner {
    type V = TurnId;

    closed spec fn view(&self) -> TurnId {
        self.id
    }
}

impl TurnSettlementOwner {
    /// The turn, allocated once when capacity is reserved.
    pub fn turn_id(&self) -> (r: TurnId)
        ensures
            r == self@,
    {
        self.id
    }

    /// The turn with the round that a request would admit, before anything is
    /// held for it: `placeholder` stands for the reservation.
    pub fn draft_round(
        &self,
        c: &SettlementCoordinator,
        request: &AdmissionRequest,
        provider_request_id: u128,
        placeholder: SettlementId,
    ) -> (r: Option<TurnObligation>)
        requires
            c.wf(),
        ensures
            r is Some == (c@.slots.contains_key(self@) && c@.slots[self@] is Some),
            r matches Some(turn) ==> turn@ == drafted_turn(
                c@.slots[self@]->0.turn,
                *request,
                provider_request_id,
                placeholder,
            ),
    {
        match c.slots.get(self.id) {
            None => None,
            Some(slot) => {
                let mut turn = slot.turn.clone();
                let ordinal: usize = turn.rounds.len();
                let journal: bool = turn.journal_owner.is_some();
                turn.push_round(
                    RoundObligation {
                        settlement_id: placeholder,
                        ordinal: ordinal as u32,
                        provider_request_id,
                        provider: request.provider_id.clone(),
                        model: request.model_id.clone(),
                        request_digest: request.request_digest,
                        reserved: CostTuple::from_envelope(&request.projected_envelope),
                        provider_evidence: ProviderEvidence::NotDispatched,
                        tools: Vec::new(),
                        known_incurred: CostTuple::zero(),
                        decision: None,
                        phase: SettlementPhase::Reserved,
                        commit_ordinal: None,
                        projection: if journal {
                            JournalProjection::NotRequired
                        } else {
                            JournalProjection::NotConfigured
                        },
                    },
                );
                Some(turn)
            },
        }
    }

    /// Starts admitting a bounded round. A continuation needs the preceding
    /// capability to be durably committed. `preflight` is what encoding the
    /// turn with its new round found.
    pub fn admit_round(
        &self,
        c: &mut SettlementCoordinator,
        attempt: AdmissionAttempt,
        preflight: Option<SettlementStoreError>,
    ) -> (r: Result<Step, SettlementError>)
        requires
            old(c).wf(),
        ensures
            final(c).wf(),
            match old(c)@.taken(self@) {
                Err(e) => r == Err::<Step, SettlementError>(e) && final(c)@ == old(c)@,
                Ok(s) => {
                    let first = admission(old(c)@, self@, s, attempt, preflight);
                    &&& r == Ok::<Step, SettlementError>(first.1)
                    &&& final(c)@ == (CoordinatorModel {
                        next_ordinal: if first.1 is Admit {
                            (old(c)@.next_ordinal + 1) as u64
                        } else {
                            old(c)@.next_ordinal
                        },
                        ..old(c)@.engaged(self@, s, first)
                    })
                },
            },
    {
        let mut slot = match c.take(self.id) {
            Ok(s) => s,
            Err(e) => {
                return Err(e);
            },
        };
        let shown = slot.status();
        let ghost before = slot@;
        if c.is_closed() {
            let step = Step::Finished {
                result: Err(SettlementError::AdmissionClosed),
                final_answer: false,
            };
            proof {
                assert(slot_laws::evolves(before, before, step));
                lemma_engaged(old(c)@, self.id, before, (before, step));
            }
            c.engage(self.id, slot, step, shown, Ghost(before));
            return Ok(step);
        }
        let problem = match preflight {
            Some(e) => match encoding_error(e) {
                SettlementError::Invalid(p) => Some(p),
                _ => None,
            },
            None => None,
        };
        let ordinal: u64 = c.next_ordinal;
        let step = slot.admit_round(attempt, problem, ordinal);
        if let Step::Admit = step {
            c.next_ordinal = ordinal + 1;
        }
        proof {
            slot_laws::law_start_evolves(
                before,
                slot_laws::SlotOp::AdmitRound { attempt, preflight: problem, ordinal },
            );
            lemma_engaged(old(c)@, self.id, before, (slot@, step));
        }
        c.engage(self.id, slot, step, shown, Ghost(before));
        Ok(step)
    }

    /// Starts persisting cumulative provider evidence before further work.
    pub fn observe_provider(&self, c: &mut SettlementCoordinator, evidence: ProviderEvidence) -> (r:
        Result<Step, SettlementError>)
        requires
            old(c).wf(),
        ensures
            final(c).wf(),
            operated(
                old(c)@,
                self@,
                |s: slot::SlotModel| s.observe(RejectedObservation::Provider(evidence)),
                r,
                final(c)@,
            ),
    {
        self.observe(c, RejectedObservation::Provider(evidence))
    }

    /// Starts persisting a trusted tool result or intent.
    pub fn observe_tool(&self, c: &mut SettlementCoordinator, evidence: ToolEvidence) -> (r: Result<
        Step,
        SettlementError,
    >)
        requires
            old(c).wf(),
        ensures
            final(c).wf(),
            operated(
                old(c)@,
                self@,
                |s: slot::SlotModel| s.observe(RejectedObservation::Tool(evidence)),
                r,
                final(c)@,
            ),
    {
        self.observe(c, RejectedObservation::Tool(evidence))
    }

    /// Starts persisting an observation.
    fn observe(&self, c: &mut SettlementCoordinator, observation: RejectedObservation) -> (r: Result<Step, SettlementError>)
        requires
            old(c).wf(),
        ensures
            final(c).wf(),
            operated(old(c)@, self@, |s: slot::SlotModel| s.observe(observation), r, final(c)@),
    {
        let mut slot = match c.take(self.id) {
            Ok(s) => s,
            Err(e) => {
                return Err(e);
            },
        };
        let shown = slot.status();
        let ghost before = slot@;
        let step = slot.observe(observation);
        proof {
            slot_laws::law_start_evolves(before, slot_laws::SlotOp::Observe(observation));
            lemma_engaged(old(c)@, self.id, before, (slot@, step));
        }
        c.engage(self.id, slot, step, shown, Ghost(before));
        Ok(step)
    }

    /// Starts freezing a supported decision and its debit before money moves.
    pub fn prepare(&self, c: &mut SettlementCoordinator, decision: Disposition, requested: CostTuple) -> (r: Result<Step, SettlementError>)
        requires
            old(c).wf(),
        ensures
            final(c).wf(),
            operated(old(c)@, self@, |s: slot::SlotModel| s.prepare(decision, requested), r, final(c)@),
    {
        let mut slot = match c.take(self.id) {
            Ok(s) => s,
            Err(e) => {
                return Err(e);
            },
        };
        let shown = slot.status();
        let ghost before = slot@;
        let step = slot.prepare(decision, requested);
        proof {
            slot_laws::law_start_evolves(before, slot_laws::SlotOp::Prepare { decision, requested });
            lemma_engaged(old(c)@, self.id, before, (slot@, step));
        }
        c.engage(self.id, slot, step, shown, Ghost(before));
        Ok(step)
    }

    /// Starts finalizing once, preserving exact application evidence.
    pub fn finalize_sync(&self, c: &mut SettlementCoordinator) -> (r: Result<Step, SettlementError>)
        requires
            old(c).wf(),
        ensures
            final(c).wf(),
            operated(old(c)@, self@, |s: slot::SlotModel| s.finalize(), r, final(c)@),
    {
        let mut slot = match c.take(self.id) {
            Ok(s) => s,
            Err(e) => {
                return Err(e);
            },
        };
        let shown = slot.status();
        let ghost before = slot@;
        let step = slot.finalize();
        proof {
            slot_laws::law_start_evolves(before, slot_laws::SlotOp::Finalize);
            lemma_engaged(old(c)@, self.id, before, (slot@, step));
        }
        c.engage(self.id, slot, step, shown, Ghost(before));
        Ok(step)
    }

    /// Starts settling durably, then retiring the rollback authority.
    pub fn commit_disposition(&self, c: &mut SettlementCoordinator) -> (r: Result<Step, SettlementError>)
        requires
            old(c).wf(),
        ensures
            final(c).wf(),
            operated(old(c)@, self@, |s: slot::SlotModel| s.commit_disposition(), r, final(c)@),
    {
        let mut slot = match c.take(self.id) {
            Ok(s) => s,
            Err(e) => {
                return Err(e);
            },
        };
        let shown = slot.status();
        let ghost before = slot@;
        let step = slot.commit_disposition();
        proof {
            slot_laws::law_start_evolves(before, slot_laws::SlotOp::CommitDisposition);
            lemma_engaged(old(c)@, self.id, before, (slot@, step));
        }
        c.engage(self.id, slot, step, shown, Ghost(before));
        Ok(step)
    }

    /// Starts ending an already paid intermediate round as a refusal.
    pub fn finish_refused(&self, c: &mut SettlementCoordinator, class: RefusalClass) -> (r: Result<Step, SettlementError>)
        requires
            old(c).wf(),
        ensures
            final(c).wf(),
            operated(old(c)@, self@, |s: slot::SlotModel| s.finish_refused(class), r, final(c)@),
    {
        let mut slot = match c.take(self.id) {
            Ok(s) => s,
            Err(e) => {
                return Err(e);
            },
        };
        let shown = slot.status();
        let ghost before = slot@;
        let step = slot.finish_refused(class);
        proof {
            slot_laws::law_start_evolves(before, slot_laws::SlotOp::FinishRefused(class));
            lemma_engaged(old(c)@, self.id, before, (slot@, step));
        }
        c.engage(self.id, slot, step, shown, Ghost(before));
        Ok(step)
    }

    /// Starts freezing the exact signed candidate before applying money.
    pub fn prepare_receipt(&self, c: &mut SettlementCoordinator, candidate: ReceiptCandidate, final_answer: bool, requested: CostTuple) -> (r: Result<Step, SettlementError>)
        requires
            old(c).wf(),
        ensures
            final(c).wf(),
            operated(old(c)@, self@, |s: slot::SlotModel| s.prepare_receipt(candidate, final_answer, requested), r, final(c)@),
    {
        let mut slot = match c.take(self.id) {
            Ok(s) => s,
            Err(e) => {
                return Err(e);
            },
        };
        let shown = slot.status();
        let ghost before = slot@;
        let step = slot.prepare_receipt(candidate, final_answer, requested);
        proof {
            slot_laws::law_start_evolves(before, slot_laws::SlotOp::PrepareReceipt { candidate, final_answer, requested });
            lemma_engaged(old(c)@, self.id, before, (slot@, step));
        }
        c.engage(self.id, slot, step, shown, Ghost(before));
        Ok(step)
    }

    /// Starts recording that the receipt append is unresolved.
    pub fn receipt_unresolved(&self, c: &mut SettlementCoordinator) -> (r: Result<Step, SettlementError>)
        requires
            old(c).wf(),
        ensures
            final(c).wf(),
            operated(old(c)@, self@, |s: slot::SlotModel| s.receipt_unresolved(), r, final(c)@),
    {
        let mut slot = match c.take(self.id) {
            Ok(s) => s,
            Err(e) => {
                return Err(e);
            },
        };
        let shown = slot.status();
        let ghost before = slot@;
        let step = slot.receipt_unresolved();
        proof {
            slot_laws::law_start_evolves(before, slot_laws::SlotOp::ReceiptUnresolved);
            lemma_engaged(old(c)@, self.id, before, (slot@, step));
        }
        c.engage(self.id, slot, step, shown, Ghost(before));
        Ok(step)
    }

    /// Starts settling over the exact receipt that the log acknowledged.
    pub fn commit_receipt(&self, c: &mut SettlementCoordinator, binding: ReceiptBinding) -> (r: Result<Step, SettlementError>)
        requires
            old(c).wf(),
        ensures
            final(c).wf(),
            operated(old(c)@, self@, |s: slot::SlotModel| s.commit_receipt(binding), r, final(c)@),
    {
        let mut slot = match c.take(self.id) {
            Ok(s) => s,
            Err(e) => {
                return Err(e);
            },
        };
        let shown = slot.status();
        let ghost before = slot@;
        let step = slot.commit_receipt(binding);
        proof {
            slot_laws::law_start_evolves(before, slot_laws::SlotOp::CommitReceipt(binding));
            lemma_engaged(old(c)@, self.id, before, (slot@, step));
        }
        c.engage(self.id, slot, step, shown, Ghost(before));
        Ok(step)
    }

    /// Starts refunding the round for an infrastructure failure.
    pub fn refund_failure(&self, c: &mut SettlementCoordinator, class: InfrastructureFailureClass)
        -> (r: Result<Step, SettlementError>)
        requires
            old(c).wf(),
        ensures
            final(c).wf(),
            operated(old(c)@, self@, |s: slot::SlotModel| s.refund(Some(class)), r, final(c)@),
    {
        c.refund_failure_or_cancel(self.id, Some(class))
    }

    /// Starts cancelling an undecided round. Repeating it does not credit twice,
    /// and another frozen decision is not relabelled.
    pub fn abandon_sync(&self, c: &mut SettlementCoordinator) -> (r: Result<Step, SettlementError>)
        requires
            old(c).wf(),
        ensures
            final(c).wf(),
            operated(old(c)@, self@, |s: slot::SlotModel| s.refund(None), r, final(c)@),
    {
        c.cancel(self.id)
    }

    /// The current reservation's identity.
    pub fn reservation_id(&self, c: &SettlementCoordinator) -> (r: Result<u128, SettlementError>)
        requires
            c.wf(),
        ensures
            r == (if c@.slots.contains_key(self@) && c@.slots[self@] is Some
                && c@.slots[self@]->0.view is Some {
                Ok(c@.slots[self@]->0.view->0.reservation_id)
            } else {
                Err(SettlementError::State)
            }),
    {
        match c.slots.get(self.id) {
            Some(s) => match &s.view {
                Some(v) => Ok(v.reservation_id),
                None => Err(SettlementError::State),
            },
            None => Err(SettlementError::State),
        }
    }

    /// Gives the handle up. A turn that still has a slot is abandoned, even
    /// while an operation holds it.
    pub fn disown(self, c: &mut SettlementCoordinator)
        requires
            old(c).wf(),
        ensures
            final(c).wf(),
            final(c)@ == old(c)@.owner_gone(self@),
    {
        if c.slots.contains(self.id) {
            c.abandoned.insert(self.id);
        }
        if c.executing == Some(self.id) {
            c.executing = None;
        }
        c.reap(self.id);
    }

    /// Releases an unused capacity reservation without inventing evidence. The
    /// handle is given up either way.
    pub fn close_empty(self, c: &mut SettlementCoordinator) -> (r: Result<(), SettlementError>)
        requires
            old(c).wf(),
        ensures
            final(c).wf(),
            r == close_verdict(old(c)@, self@),
            final(c)@ == (if r is Ok {
                CoordinatorModel {
                    slots: old(c)@.slots.remove(self@),
                    inventory: old(c)@.inventory.remove(self@),
                    executing: None,
                    ..old(c)@
                }
            } else {
                old(c)@.owner_gone(self@)
            }),
    {
        if c.busy.is_some() {
            self.disown(c);
            return Err(SettlementError::Busy);
        }
        let unused = match c.slots.get(self.id) {
            Some(s) => s.unused(),
            None => false,
        };
        if !unused {
            self.disown(c);
            return Err(SettlementError::State);
        }
        let ghost before = c@;
        c.slots.remove(self.id);
        c.inventory.remove(self.id);
        c.executing = None;
        assert(before.slots.remove(self.id).dom() =~= before.slots.dom().remove(self.id));
        Ok(())
    }
}

/// A turn with the round that a request would admit.
pub open spec fn drafted_turn(
    turn: evidence::TurnModel,
    request: AdmissionRequest,
    provider_request_id: u128,
    placeholder: SettlementId,
) -> evidence::TurnModel {
    evidence::TurnModel {
        rounds: turn.rounds.push(
            evidence::RoundModel {
                settlement_id: placeholder,
                ordinal: turn.rounds.len() as u32,
                provider_request_id,
                provider: request.provider_id,
                model: request.model_id,
                request_digest: request.request_digest,
                reserved: request.projected_envelope.as_cost(),
                provider_evidence: ProviderEvidence::NotDispatched,
                tools: Seq::empty(),
                known_incurred: CostTuple::zero(),
                decision: None,
                phase: SettlementPhase::Reserved,
                commit_ordinal: None,
                projection: if turn.journal_owner is Some {
                    JournalProjection::NotRequired
                } else {
                    JournalProjection::NotConfigured
                },
            },
        ),
        ..turn
    }
}

/// How closing an unused reservation ends.
pub open spec fn close_verdict(c: CoordinatorModel, id: TurnId) -> Result<(), SettlementError> {
    if c.busy is Some {
        Err(SettlementError::Busy)
    } else if c.slots.contains_key(id) && c.slots[id] is Some && c.slots[id]->0.unused() {
        Ok(())
    } else {
        Err(SettlementError::State)
    }
}

/// The first step of admitting a round. Other turns that are unresolved refuse
/// it before the slot itself is looked at.
pub open spec fn admission(
    c: CoordinatorModel,
    id: TurnId,
    s: slot::SlotModel,
    attempt: AdmissionAttempt,
    preflight: Option<SettlementStoreError>,
) -> slot_model::Move {
    if (CoordinatorModel { slots: c.slots.insert(id, None), ..c }).closed_to_work() {
        (s, slot_model::finished(Err(SettlementError::AdmissionClosed)))
    } else {
        s.admit_round(
            attempt,
            match preflight {
                Some(e) => Some(slot::encoding_problem(e)),
                None => None,
            },
            c.next_ordinal,
        )
    }
}

impl SettlementSupervisor {
    /// How an abandoned turn stands once a pass over the abandoned turns ended.
    pub fn retry_abandonment(&self, c: &SettlementCoordinator, turn: TurnId) -> (r: Result<
        (),
        SettlementError,
    >)
        requires
            c.wf(),
        ensures
            r == (if c@.abandoned.contains(turn) {
                Err(SettlementError::AdmissionClosed)
            } else if c@.slots.contains_key(turn) && c@.slots[turn] is Some {
                c@.slots[turn]->0.outcome()
            } else {
                Ok(())
            }),
    {
        if c.abandoned.contains(turn) {
            return Err(SettlementError::AdmissionClosed);
        }
        match c.slots.get(turn) {
            Some(s) => s.outcome(),
            None => Ok(()),
        }
    }

    /// Stops new turns, preserving all pending work.
    pub fn stop_admission(&self, c: &mut SettlementCoordinator)
        requires
            old(c).wf(),
        ensures
            final(c).wf(),
            final(c)@ == (CoordinatorModel { stopped: true, ..old(c)@ }),
    {
        c.stop_admission();
    }

    /// Starts paying the rest of a release or a rollback.
    pub fn retry_refund(&self, c: &mut SettlementCoordinator, turn: TurnId) -> (r: Result<
        Step,
        SettlementError,
    >)
        requires
            old(c).wf(),
        ensures
            final(c).wf(),
            operated(old(c)@, turn, |s: slot::SlotModel| s.retry_refund(), r, final(c)@),
    {
        let mut slot = match c.take(turn) {
            Ok(s) => s,
            Err(e) => {
                return Err(e);
            },
        };
        let shown = slot.status();
        let ghost before = slot@;
        let step = slot.retry_refund();
        proof {
            slot_laws::law_start_evolves(before, slot_laws::SlotOp::RetryRefund);
            lemma_engaged(old(c)@, turn, before, (slot@, step));
        }
        c.engage(turn, slot, step, shown, Ghost(before));
        Ok(step)
    }

    /// Starts resolving the immutable pending bytes before anything newer.
    pub fn resolve_storage(&self, c: &mut SettlementCoordinator, turn: TurnId) -> (r: Result<
        Step,
        SettlementError,
    >)
        requires
            old(c).wf(),
        ensures
            final(c).wf(),
            operated(old(c)@, turn, |s: slot::SlotModel| s.resolve_storage(), r, final(c)@),
    {
        let mut slot = match c.take(turn) {
            Ok(s) => s,
            Err(e) => {
                return Err(e);
            },
        };
        let shown = slot.status();
        let ghost before = slot@;
        let step = slot.resolve_storage();
        proof {
            slot_laws::law_start_evolves(before, slot_laws::SlotOp::ResolveStorage);
            lemma_engaged(old(c)@, turn, before, (slot@, step));
        }
        c.engage(turn, slot, step, shown, Ghost(before));
        Ok(step)
    }

    /// Starts a full compensation of a definite failure before closure.
    pub fn compensate_definite_failure(&self, c: &mut SettlementCoordinator, turn: TurnId) -> (r: Result<
        Step,
        SettlementError,
    >)
        requires
            old(c).wf(),
        ensures
            final(c).wf(),
            operated(old(c)@, turn, |s: slot::SlotModel| s.compensate(), r, final(c)@),
    {
        let mut slot = match c.take(turn) {
            Ok(s) => s,
            Err(e) => {
                return Err(e);
            },
        };
        let shown = slot.status();
        let ghost before = slot@;
        let step = slot.compensate();
        proof {
            slot_laws::law_start_evolves(before, slot_laws::SlotOp::Compensate);
            lemma_engaged(old(c)@, turn, before, (slot@, step));
        }
        c.engage(turn, slot, step, shown, Ghost(before));
        Ok(step)
    }

    /// Stops admission and says whether the registry may be torn down: nothing
    /// executes, nothing is held, nothing is owed.
    pub fn try_close(&self, c: &mut SettlementCoordinator) -> (r: bool)
        requires
            old(c).wf(),
        ensures
            final(c).wf(),
            final(c)@ == (CoordinatorModel { stopped: true, ..old(c)@ }),
            r == (old(c)@.executing is None && old(c)@.busy is None && old(c)@.slots.dom().len()
                == 0 && old(c)@.boot_problem is None),
    {
        c.stop_admission();
        c.executing.is_none() && c.busy.is_none() && c.slots.len() == 0 && c.boot_problem.is_none()
    }
}

impl SettlementCoordinator {
    fn shown_turn(&self, id: TurnId) -> (r: TurnSettlementStatus)
        requires
            self.wf(),
            self@.slots.contains_key(id),
        ensures
            r.turn@.turn_id == id,
            shows(r, self@.facts(id), self@.abandoned.contains(id)),
    {
        let abandoned = self.abandoned.contains(id);
        match self.slots.get(id) {
            Some(s) => {
                let mut r = s.status();
                r.abandonment_pending = abandoned;
                r
            },
            None => match &self.busy {
                Some(b) => {
                    assert(shows(b.shown, b.before@, b.shown.abandonment_pending));
                    b.shown.copy(abandoned)
                },
                None => vstd::pervasive::unreached(),
            },
        }
    }

    /// The registry's facts, including those from before an operation that is
    /// in progress.
    pub fn status(&self) -> (r: SettlementStatus)
        requires
            self.wf(),
        ensures
            r.epoch == self@.epoch,
            r.executing == self@.executing,
            r.busy == (match self@.busy {
                Some(b) => Some(b.id),
                None => None::<TurnId>,
            }),
            r.inventory_count == self@.inventory.len(),
            r.encoded_record_probe_bytes == self@.encoded_record_probe_bytes,
            r.stopped == self@.stopped,
            r.boot_problem == self@.boot_problem,
            r.turns@.len() == self@.slots.dom().len(),
            forall|i: int|
                0 <= i < r.turns@.len() ==> {
                    let id = (#[trigger] r.turns@[i]).turn@.turn_id;
                    &&& self@.slots.contains_key(id)
                    &&& shows(r.turns@[i], self@.facts(id), self@.abandoned.contains(id))
                },
            forall|i: int, j: int|
                0 <= i < j < r.turns@.len() ==> (#[trigger] r.turns@[i]).turn@.turn_id.0 < (
                #[trigger] r.turns@[j]).turn@.turn_id.0,
    {
        let ids = self.slots.turns();
        let mut turns: Vec<TurnSettlementStatus> = Vec::new();
        let mut i: usize = 0;
        while i < ids.len()
            invariant
                self.wf(),
                ids@.to_set() == self@.slots.dom(),
                i <= ids@.len(),
                turns.len() == i,
                forall|k: int|
                    0 <= k < i ==> {
                        let id = (#[trigger] turns@[k]).turn@.turn_id;
                        &&& id == ids@[k]
                        &&& self@.slots.contains_key(id)
                        &&& shows(turns@[k], self@.facts(id), self@.abandoned.contains(id))
                    },
            decreases ids.len() - i,
        {
            assert(ids@.to_set().contains(ids@[i as int]));
            turns.push(self.shown_turn(ids[i]));
            i += 1;
        }
        SettlementStatus {
            epoch: self.epoch,
            executing: self.executing,
            busy: match &self.busy {
                Some(b) => Some(b.id),
                None => None,
            },
            turns,
            inventory_count: self.inventory.len(),
            encoded_record_probe_bytes: self.encoded_record_probe_bytes,
            stopped: self.stopped,
            boot_problem: self.boot_problem,
        }
    }
}

impl SettlementCoordinator {
    /// Starts projecting one round of a turn to the journal.
    pub fn project(&mut self, turn: TurnId, ordinal: usize, id: u128, journal: SessionId) -> (r:
        Result<Option<JournalEntry>, SettlementError>)
        requires
            old(self).wf(),
            old(self)@.taken(turn) matches Ok(s) ==> ordinal < s.turn.rounds.len(),
        ensures
            final(self).wf(),
            match old(self)@.taken(turn) {
                Err(e) => r == Err::<Option<JournalEntry>, SettlementError>(e) && final(self)@
                    == old(self)@,
                Ok(s) => {
                    let (next, result) = s.project(ordinal as int, id, journal);
                    &&& r == result
                    &&& final(self)@ == old(self)@.engaged(
                        turn,
                        s,
                        (
                            next,
                            slot_model::finished(
                                match result {
                                    Ok(_) => Ok(()),
                                    Err(e) => Err(e),
                                },
                            ),
                        ),
                    )
                },
            },
    {
        let mut slot = match self.take(turn) {
            Ok(s) => s,
            Err(e) => {
                return Err(e);
            },
        };
        let shown = slot.status();
        let ghost before = slot@;
        let r = slot.project(ordinal, id, journal);
        let step = Step::Finished {
            result: match r {
                Ok(_) => Ok(()),
                Err(e) => Err(e),
            },
            final_answer: false,
        };
        proof {
            assert(slot_laws::evolves(before, slot@, step));
            lemma_engaged(old(self)@, turn, before, (slot@, step));
        }
        self.engage(turn, slot, step, shown, Ghost(before));
        r
    }

    /// Goes on with a projection, given what became of the journal append.
    pub fn projected(
        &mut self,
        turn: TurnId,
        ordinal: usize,
        id: u128,
        outcome: ProjectionOutcome,
    ) -> (r: Result<Step, SettlementError>)
        requires
            old(self).wf(),
        ensures
            final(self).wf(),
            operated(
                old(self)@,
                turn,
                |s: slot::SlotModel| s.projected(ordinal as int, id, outcome),
                r,
                final(self)@,
            ),
    {
        let mut slot = match self.take(turn) {
            Ok(s) => s,
            Err(e) => {
                return Err(e);
            },
        };
        let shown = slot.status();
        let ghost before = slot@;
        let step = slot.projected(ordinal, id, outcome);
        proof {
            slot_laws::law_start_evolves(
                before,
                slot_laws::SlotOp::Projected { ordinal: ordinal as int, id, outcome },
            );
            lemma_engaged(old(self)@, turn, before, (slot@, step));
        }
        self.engage(turn, slot, step, shown, Ghost(before));
        Ok(step)
    }
}

} // verus!
