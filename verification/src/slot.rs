//! One turn's settlement slot: the evidence it owes, the reservation it holds,
//! and the steps that move its money and make its evidence durable.
//!
//! An operation on a slot runs as a sequence of steps. Each step names the one
//! thing that has to happen outside (encode a snapshot, write it, move money);
//! the slot is then advanced with what came back. Nothing outside decides how
//! an operation continues.
use crate::cost::CostTuple;
use crate::evidence;
use crate::evidence::{
    AdmissionRequest, HolderId, InfrastructureFailureClass, OwnedBudgetView, ProviderEvidence,
    RefusalClass, Reservation, SettlementDecision, SettlementProblem, SettlementStoreError,
    ToolEvidence, TurnObligation, WriteResolution,
};
use crate::ids::{SessionId, UnixTsMillis};
use vstd::prelude::*;

verus! {

/// Largest label that evidence may carry, in bytes.
pub const MAX_METADATA_BYTES: usize = 512;

/// Most rounds that one turn may admit.
pub const MAX_ROUNDS: usize = 5;

/// Most tools that one round may run.
pub const MAX_TOOLS_PER_ROUND: usize = 8;

/// Whether the claimed holder is the one that was expected.
#[derive(Clone, Copy, Debug, PartialEq, Eq, Structural)]
pub enum ClaimValidation {
    Unchecked,
    Valid,
    Invalid,
}

/// Why the cost gate refused an operation on a budget.
#[derive(Clone, Copy, Debug, PartialEq, Eq, Structural)]
pub enum AdmissionError {
    BudgetExhausted,
    CapTokenInvalid,
    ProviderNotAllowed,
    PolicyDenied,
    ReservationExpired,
    Unavailable,
}

/// Typed owner failures. An error never transfers or destroys claimed authority.
#[derive(Clone, Copy, Debug, PartialEq, Eq, Structural)]
pub enum SettlementError {
    /// Operation incompatible with current ownership state.
    State,
    /// Another operation owns the handback.
    Busy,
    /// Admission stopped or quarantined.
    AdmissionClosed,
    /// All live and backlog slots are occupied.
    SlotsFull,
    /// Retained history plus reserved membership reached the inventory limit.
    InventoryFull,
    /// Trusted attribution disagreed with the actual claimed holder or token.
    IdentityMismatch,
    /// A rejected encoding is not durable evidence.
    Invalid(SettlementProblem),
    /// Retained exact bytes have not received a durable acknowledgement.
    Storage(SettlementProblem),
    /// Actual credit remains unpaid.
    CreditPending(SettlementProblem),
    /// A concrete store could not be opened or inventoried.
    Open,
    /// A borrowed gate operation failed.
    Budget(AdmissionError),
    /// The exact receipt candidate may have been appended.
    ReceiptUnknown,
    /// A journal append may have happened.
    ProjectionUnknown,
    /// A journal proved that it did not write the record.
    ProjectionNotApplied,
    /// An operation unwound.
    Panicked,
}

/// Supported outcome selection without a receipt.
#[derive(Clone, Copy, Debug, PartialEq, Eq, Structural)]
pub enum Disposition {
    /// A non-cancellation refusal.
    Refusal(RefusalClass),
    /// A definite infrastructure failure.
    Infrastructure(InfrastructureFailureClass),
}

/// The component of an observation, kept while it is not durable.
#[derive(Debug)]
pub enum RejectedObservation {
    /// Cumulative provider observation.
    Provider(ProviderEvidence),
    /// One tool observation.
    Tool(ToolEvidence),
}

/// Frozen admission inputs, kept even if admission or claiming fails.
#[derive(Debug)]
pub struct AdmissionAttempt {
    pub request: AdmissionRequest,
    pub provider_request_id: u128,
}

/// An entry of the session journal.
#[derive(Clone, Copy, Debug)]
#[allow(inconsistent_fields)]
pub enum JournalEntry {
    OperatorExpense {
        session_id: SessionId,
        reservation_id: u128,
        provider_cost: CostTuple,
        class: &'static str,
        reason: &'static str,
        at: UnixTsMillis,
    },
    CostFinalized {
        reservation_id: u128,
        actual: CostTuple,
        refunded: CostTuple,
        at: UnixTsMillis,
        reason: Option<&'static str>,
    },
}

/// A journal append whose outcome is not known yet.
#[derive(Clone, Copy, Debug)]
pub struct ProjectionAttempt {
    pub id: u128,
    pub entry: JournalEntry,
}

/// A turn as it was encoded at one revision.
#[derive(Debug)]
pub struct EncodedSnapshot {
    pub revision: u64,
    pub bytes: Vec<u8>,
    pub turn: TurnObligation,
}

/// An encoded snapshot that the store has not acknowledged.
#[derive(Debug)]
pub struct Pending {
    pub previous: Option<u64>,
    pub encoded: EncodedSnapshot,
}

/// A movement of money that is asked of the cost gate.
#[derive(Clone, Copy, Debug, PartialEq, Eq, Structural)]
pub enum MoneyCall {
    Finalize { known: CostTuple, requested: CostTuple },
    Release { known: CostTuple },
    Rollback,
    Commit,
}

/// How an operation goes on once a capability has been retired.
#[derive(Clone, Copy, Debug, PartialEq, Eq, Structural)]
pub enum AfterRetire {
    Report,
    ReceiptCommitted { final_answer: bool },
    FinishResolve,
}

/// How an operation goes on once its snapshot was written or was refused.
#[derive(Clone, Copy, Debug, PartialEq, Eq, Structural)]
pub enum AfterWrite {
    Report,
    Outcome,
    DropRejected,
    Retire(AfterRetire),
    ReceiptUnknown,
    Release,
    FinishResolve,
    Projected(u128),
}

/// How an operation goes on once money has moved or was refused.
#[derive(Clone, Copy, Debug, PartialEq, Eq)]
pub enum AfterMoney {
    Applied,
    Credited,
    Released { before: Result<(), SettlementError> },
    Retired(AfterRetire),
}

/// What an operation on a slot needs next.
#[derive(Clone, Copy, Debug, PartialEq, Eq)]
pub enum Step {
    /// The operation is over.
    Finished { result: Result<(), SettlementError>, final_answer: bool },
    /// Encode the slot's turn at this revision.
    Encode { revision: u64, then_do: AfterWrite },
    /// Write the pending snapshot over its predecessor.
    Write { then_do: AfterWrite },
    /// Find out what became of the pending snapshot's write.
    Resolve,
    /// Write the same pending snapshot over the same predecessor again.
    Rewrite,
    /// Ask the cost gate to admit the retained attempt.
    Admit,
    /// Claim the returned reservation and read its view.
    Claim,
    /// Move money, then read the reservation's view.
    Money { call: MoneyCall, settle: AfterMoney },
}

/// What came back from outside.
#[derive(Debug)]
pub enum Event {
    Encoded(Result<Vec<u8>, SettlementStoreError>),
    Written(WriteResolution),
    Admitted(Result<Reservation, AdmissionError>),
    Claimed(Result<Result<OwnedBudgetView, AdmissionError>, AdmissionError>),
    Moved { result: Result<(), AdmissionError>, view: Result<OwnedBudgetView, AdmissionError> },
}

/// One turn's slot.
#[derive(Debug)]
pub struct Slot {
    pub expected_holder: HolderId,
    pub validation: ClaimValidation,
    pub turn: TurnObligation,
    /// The cost gate holds a claimed reservation for this slot.
    pub claimed: bool,
    pub unclaimed: Option<Reservation>,
    pub admission_attempt: Option<AdmissionAttempt>,
    pub view: Option<OwnedBudgetView>,
    pub acknowledged: Option<EncodedSnapshot>,
    pub pending: Option<Pending>,
    pub dirty: bool,
    pub error: Option<SettlementError>,
    pub requested: Option<CostTuple>,
    /// Reserved before entering admission, installed in the round on decision.
    pub projection_ordinal: Option<u64>,
    pub finalize_started: bool,
    pub retirement_pending: bool,
    pub rejected: Option<RejectedObservation>,
    pub projection_attempts: Vec<ProjectionAttempt>,
}

/// An encoded snapshot, with its bytes as a sequence.
#[verifier::ext_equal]
pub ghost struct SnapshotModel {
    pub revision: u64,
    pub bytes: Seq<u8>,
    pub turn: evidence::TurnModel,
}

/// A pending snapshot and the revision it replaces.
#[verifier::ext_equal]
pub ghost struct PendingModel {
    pub previous: Option<u64>,
    pub encoded: SnapshotModel,
}

/// A slot, with its collections as sequences.
#[verifier::ext_equal]
pub ghost struct SlotModel {
    pub expected_holder: HolderId,
    pub validation: ClaimValidation,
    pub turn: evidence::TurnModel,
    pub claimed: bool,
    pub unclaimed: Option<Reservation>,
    pub admission_attempt: Option<AdmissionAttempt>,
    pub view: Option<OwnedBudgetView>,
    pub acknowledged: Option<SnapshotModel>,
    pub pending: Option<PendingModel>,
    pub dirty: bool,
    pub error: Option<SettlementError>,
    pub requested: Option<CostTuple>,
    pub projection_ordinal: Option<u64>,
    pub finalize_started: bool,
    pub retirement_pending: bool,
    pub rejected: Option<RejectedObservation>,
    pub projection_attempts: Seq<ProjectionAttempt>,
}

impl View for EncodedSnapshot {
    type V = SnapshotModel;

    open spec fn view(&self) -> SnapshotModel {
        SnapshotModel { revision: self.revision, bytes: self.bytes@, turn: self.turn@ }
    }
}

impl View for Pending {
    type V = PendingModel;

    open spec fn view(&self) -> PendingModel {
        PendingModel { previous: self.previous, encoded: self.encoded@ }
    }
}

/// The model of an optional snapshot.
pub open spec fn snapshot_model(s: Option<EncodedSnapshot>) -> Option<SnapshotModel> {
    match s {
        Some(x) => Some(x@),
        None => None,
    }
}

/// The model of an optional pending snapshot.
pub open spec fn pending_model(s: Option<Pending>) -> Option<PendingModel> {
    match s {
        Some(x) => Some(x@),
        None => None,
    }
}

impl View for Slot {
    type V = SlotModel;

    open spec fn view(&self) -> SlotModel {
        SlotModel {
            expected_holder: self.expected_holder,
            validation: self.validation,
            turn: self.turn@,
            claimed: self.claimed,
            unclaimed: self.unclaimed,
            admission_attempt: self.admission_attempt,
            view: self.view,
            acknowledged: snapshot_model(self.acknowledged),
            pending: pending_model(self.pending),
            dirty: self.dirty,
            error: self.error,
            requested: self.requested,
            projection_ordinal: self.projection_ordinal,
            finalize_started: self.finalize_started,
            retirement_pending: self.retirement_pending,
            rejected: self.rejected,
            projection_attempts: self.projection_attempts@,
        }
    }
}

/// How a projected settlement is labelled in the journal.
pub fn projection_reason(decision: Option<SettlementDecision>) -> (r: &'static str)
    ensures
        r == reason_label(decision),
{
    match decision {
        Some(SettlementDecision::Refusal(class)) => match class {
            RefusalClass::UnknownTool => "refusal:unknown_tool",
            RefusalClass::Authorization => "refusal:tool_authorization",
            RefusalClass::MissingCapability => "refusal:capability_denied",
            RefusalClass::ApprovalRequired => "refusal:approval_required",
            RefusalClass::ApprovalRejected => "refusal:approval_rejected",
            RefusalClass::ApprovalError => "refusal:approval_evaluation_error",
            RefusalClass::OutputBlocked => "refusal:output_scan",
            RefusalClass::ScannerError => "refusal:output_scan_error",
            RefusalClass::IterationLimit => "refusal:iteration_limit",
            RefusalClass::Capacity => "refusal:capacity",
        },
        Some(SettlementDecision::InfrastructureFailure(_)) => "refusal:tool_error",
        Some(SettlementDecision::Cancelled) => {
            "settlement:cancelled_zero_debit_unknown_expense_not_zero"
        },
        _ => "settlement:completion",
    }
}

/// The journal's label for a decision.
pub open spec fn reason_label(decision: Option<SettlementDecision>) -> &'static str {
    match decision {
        Some(SettlementDecision::Refusal(class)) => match class {
            RefusalClass::UnknownTool => "refusal:unknown_tool",
            RefusalClass::Authorization => "refusal:tool_authorization",
            RefusalClass::MissingCapability => "refusal:capability_denied",
            RefusalClass::ApprovalRequired => "refusal:approval_required",
            RefusalClass::ApprovalRejected => "refusal:approval_rejected",
            RefusalClass::ApprovalError => "refusal:approval_evaluation_error",
            RefusalClass::OutputBlocked => "refusal:output_scan",
            RefusalClass::ScannerError => "refusal:output_scan_error",
            RefusalClass::IterationLimit => "refusal:iteration_limit",
            RefusalClass::Capacity => "refusal:capacity",
        },
        Some(SettlementDecision::InfrastructureFailure(_)) => "refusal:tool_error",
        Some(SettlementDecision::Cancelled) =>
            "settlement:cancelled_zero_debit_unknown_expense_not_zero",
        _ => "settlement:completion",
    }
}

/// How a refused encoding is reported.
pub fn encoding_error(error: SettlementStoreError) -> (r: SettlementError)
    ensures
        r == SettlementError::Invalid(encoding_problem(error)),
{
    match error {
        SettlementStoreError::Invalid(p) => SettlementError::Invalid(p),
        _ => SettlementError::Invalid(SettlementProblem::Corrupt),
    }
}

/// The problem that a refused encoding stands for.
pub open spec fn encoding_problem(error: SettlementStoreError) -> SettlementProblem {
    match error {
        SettlementStoreError::Invalid(p) => p,
        _ => SettlementProblem::Corrupt,
    }
}

} // verus!
