//! What a turn owes and what is known of it: rounds, provider and tool
//! observations, decisions, and the phase each round's money is in.
//!
//! The evidence holds identifiers, digests, labels and costs. It never holds
//! message text or a bearer credential.
use crate::cost::{CostEnvelope, CostTuple};
use crate::ids::{
    BudgetEpoch, ReceiptId, SessionId, SettlementId, Sha256Digest, TokenId, TurnId, UnixTsMillis,
};
use vstd::prelude::*;

verus! {

/// The holder of a budget account.
#[derive(Debug)]
pub struct HolderId(pub String);

/// A refusal that is charged for the work already done.
#[derive(Clone, Copy, Debug, PartialEq, Eq, Structural)]
pub enum RefusalClass {
    UnknownTool,
    Authorization,
    MissingCapability,
    ApprovalRequired,
    ApprovalRejected,
    ApprovalError,
    OutputBlocked,
    ScannerError,
    IterationLimit,
    Capacity,
}

/// A definite infrastructure failure.
#[derive(Clone, Copy, Debug, PartialEq, Eq, Structural)]
pub enum InfrastructureFailureClass {
    Provider,
}

/// How a dispatched tool failed.
#[derive(Clone, Copy, Debug, PartialEq, Eq, Structural)]
pub enum ToolFailureClass {
    Execution,
}

/// Why evidence is not yet settled or was not accepted.
#[derive(Clone, Copy, Debug, PartialEq, Eq, Structural)]
pub enum SettlementProblem {
    Bounds,
    Corrupt,
    InvalidTransition,
    Io,
    PriorEpochApplicationUnknown,
    ReleaseCreditPending,
    RollbackCreditPending,
    Unhealthy,
    VerificationFailed,
}

/// The last phase that is known for certain.
#[derive(Clone, Copy, Debug, PartialEq, Eq, Structural)]
pub enum DefinitePhase {
    WorkObserved,
    Finalized,
}

/// What became of one exact write.
#[derive(Clone, Copy, Debug, PartialEq, Eq, Structural)]
pub enum WriteResolution {
    Durable(u64),
    DefinitelyNotApplied,
    Unresolved(SettlementProblem),
}

/// Why a snapshot could not be encoded or read.
#[derive(Clone, Copy, Debug, PartialEq, Eq, Structural)]
pub enum SettlementStoreError {
    Invalid(SettlementProblem),
    Unreadable,
}

/// Where a claimed reservation stands.
#[derive(Clone, Copy, Debug, PartialEq, Eq, Structural)]
pub enum OwnedBudgetStatus {
    Active,
    Finalized,
    Committed,
    ReleasePending,
    Released,
    RollbackPending,
    RolledBack,
}

/// Whether an applied debit was rolled back.
#[derive(Clone, Copy, Debug, PartialEq, Eq, Structural)]
pub enum RollbackStatus {
    NotApplied,
    Applied(CostTuple),
}

/// What a budget account was debited and credited for one round.
#[derive(Clone, Copy, Debug, PartialEq, Eq, Structural)]
pub struct DebitApplication {
    pub epoch: BudgetEpoch,
    pub requested_debit: CostTuple,
    pub applied_debit: CostTuple,
    pub reserved_credit: CostTuple,
    pub additional_debit: CostTuple,
    pub shortfall: CostTuple,
    pub rollback: RollbackStatus,
}

/// What is known of a dispatched tool's effect.
#[derive(Clone, Copy, Debug, PartialEq, Eq, Structural)]
pub enum ToolEffect {
    DispatchIntent,
    Completed { output_digest: Sha256Digest, cost: CostTuple },
    Failed { class: ToolFailureClass, effect_unknown: bool },
    InterruptedUnknown,
}

/// Whether a tool's output passed its scan.
#[derive(Clone, Copy, Debug, PartialEq, Eq, Structural)]
pub enum OutputAdmission {
    NotScanned,
    Allowed,
    Blocked,
}

/// Token counts as a provider reported them.
#[derive(Clone, Copy, Debug, PartialEq, Eq, Structural)]
pub struct UsageSnapshot {
    pub input_tokens: u64,
    pub output_tokens: u64,
}

/// How an observed provider cost came about.
#[derive(Clone, Copy, Debug, PartialEq, Eq, Structural)]
pub enum CostProvenance {
    ReportedCost,
    ResponseCost,
    PricedUsage(Sha256Digest),
}

/// What is known of the provider call of a round.
#[derive(Clone, Copy, Debug, PartialEq, Eq, Structural)]
pub enum ProviderEvidence {
    NotDispatched,
    DispatchIntent,
    Observed {
        usage: Option<UsageSnapshot>,
        cost: CostTuple,
        provenance: CostProvenance,
        finished: bool,
        interrupted: bool,
    },
}

/// Whether a round's settlement has reached the journal.
#[derive(Clone, Copy, Debug, PartialEq, Eq, Structural)]
pub enum JournalProjection {
    NotConfigured,
    NotRequired,
    Pending(u128),
    Acknowledged(u128),
}

/// The outcome selected for a round. Once selected it is never replaced.
#[derive(Clone, Copy, Debug, PartialEq, Eq, Structural)]
pub enum SettlementDecision {
    Completion { final_answer: bool },
    Refusal(RefusalClass),
    InfrastructureFailure(InfrastructureFailureClass),
    Cancelled,
}

/// How a turn ended, if it has.
#[derive(Clone, Copy, Debug, PartialEq, Eq, Structural)]
pub enum TurnTerminal {
    Open,
    FinalAnswer(ReceiptId),
    Refused(RefusalClass),
    Failed(InfrastructureFailureClass),
    Cancelled,
    Unresolved(SettlementProblem),
}

/// A receipt that the log acknowledged.
#[derive(Clone, Copy, Debug, PartialEq, Eq, Structural)]
pub struct ReceiptBinding {
    pub receipt_id: ReceiptId,
    pub jws_digest: Sha256Digest,
}

/// A hold that the cost gate granted and nobody has claimed yet.
#[derive(Clone, Copy, Debug, PartialEq, Eq, Structural)]
pub struct Reservation {
    pub reservation_id: u128,
    pub cap_token_id: TokenId,
    pub envelope: CostEnvelope,
    pub reserved_at: UnixTsMillis,
    pub expires_at: UnixTsMillis,
}

/// The money movement that was asked of a claimed reservation.
#[derive(Clone, Copy, Debug, PartialEq, Eq, Structural)]
pub struct BudgetAttempt {
    pub known_incurred: CostTuple,
    pub requested_debit: CostTuple,
}

/// The money movement that took place.
#[derive(Clone, Copy, Debug, PartialEq, Eq, Structural)]
pub struct BudgetApplication {
    pub applied_debit: CostTuple,
    pub reserved_credit: CostTuple,
    pub additional_debit: CostTuple,
    pub shortfall: CostTuple,
}

/// The credit that was paid, and what is still owed of it.
#[derive(Clone, Copy, Debug, PartialEq, Eq, Structural)]
pub struct BudgetRefund {
    pub applied_credit: CostTuple,
    pub remaining_credit: CostTuple,
}

/// The cost gate's own account of a claimed reservation.
#[derive(Debug)]
pub struct OwnedBudgetView {
    pub reservation_id: u128,
    pub holder: HolderId,
    pub reserved: CostTuple,
    pub status: OwnedBudgetStatus,
    pub attempt: Option<BudgetAttempt>,
    pub application: Option<BudgetApplication>,
    pub refund: Option<BudgetRefund>,
}

/// A request to hold budget for one round.
#[derive(Debug)]
pub struct AdmissionRequest {
    pub cap_token_id: TokenId,
    pub projected_envelope: CostEnvelope,
    pub provider_id: String,
    pub model_id: String,
    pub request_digest: Sha256Digest,
}

/// One tool observation. No arguments and no output text.
#[derive(Debug)]
pub struct ToolEvidence {
    pub ordinal: u32,
    pub call_id: String,
    pub name: String,
    pub arguments_digest: Sha256Digest,
    pub effect: ToolEffect,
    pub output_admission: OutputAdmission,
}

/// A signed receipt before the log has acknowledged it.
#[derive(Debug)]
pub struct ReceiptCandidate {
    pub receipt_id: ReceiptId,
    pub expected_parent: Option<Sha256Digest>,
    pub expected_log_end: u64,
    pub jws_digest: Sha256Digest,
    pub jws_compact: String,
}

/// Where the money of a round stands.
#[derive(Debug)]
#[allow(inconsistent_fields)]
pub enum SettlementPhase {
    Reserved,
    WorkObserved,
    Prepared { candidate: Option<ReceiptCandidate> },
    Finalized { application: DebitApplication, candidate: Option<ReceiptCandidate> },
    Settled { application: DebitApplication, receipt: Option<ReceiptBinding> },
    Unresolved {
        last_definite: DefinitePhase,
        problem: SettlementProblem,
        application: Option<DebitApplication>,
        candidate: Option<ReceiptCandidate>,
    },
}

/// Whether a cancelled turn's marker receipt was written.
#[derive(Debug)]
pub enum MarkerProjection {
    NotRequired,
    Prepared(ReceiptCandidate),
    Acknowledged(ReceiptBinding),
}

/// One admitted round.
#[derive(Debug)]
pub struct RoundObligation {
    pub settlement_id: SettlementId,
    pub ordinal: u32,
    pub provider_request_id: u128,
    pub provider: String,
    pub model: String,
    pub request_digest: Sha256Digest,
    pub reserved: CostTuple,
    pub provider_evidence: ProviderEvidence,
    pub tools: Vec<ToolEvidence>,
    pub known_incurred: CostTuple,
    pub decision: Option<SettlementDecision>,
    pub phase: SettlementPhase,
    pub commit_ordinal: Option<u64>,
    pub projection: JournalProjection,
}

/// A turn: who it is accounted to and the rounds it admitted.
#[derive(Debug)]
pub struct TurnObligation {
    pub turn_id: TurnId,
    pub budget_epoch: BudgetEpoch,
    pub request_session: SessionId,
    pub journal_owner: Option<SessionId>,
    pub verified_subject: HolderId,
    pub budget_holder: HolderId,
    pub cap_token_id: TokenId,
    pub started_at: UnixTsMillis,
    pub rounds: Vec<RoundObligation>,
    pub terminal: TurnTerminal,
    pub cancellation_marker: MarkerProjection,
}

/// A round with its tools as a sequence.
#[verifier::ext_equal]
pub ghost struct RoundModel {
    pub settlement_id: SettlementId,
    pub ordinal: u32,
    pub provider_request_id: u128,
    pub provider: String,
    pub model: String,
    pub request_digest: Sha256Digest,
    pub reserved: CostTuple,
    pub provider_evidence: ProviderEvidence,
    pub tools: Seq<ToolEvidence>,
    pub known_incurred: CostTuple,
    pub decision: Option<SettlementDecision>,
    pub phase: SettlementPhase,
    pub commit_ordinal: Option<u64>,
    pub projection: JournalProjection,
}

/// A turn with its rounds as a sequence.
#[verifier::ext_equal]
pub ghost struct TurnModel {
    pub turn_id: TurnId,
    pub budget_epoch: BudgetEpoch,
    pub request_session: SessionId,
    pub journal_owner: Option<SessionId>,
    pub verified_subject: HolderId,
    pub budget_holder: HolderId,
    pub cap_token_id: TokenId,
    pub started_at: UnixTsMillis,
    pub rounds: Seq<RoundModel>,
    pub terminal: TurnTerminal,
    pub cancellation_marker: MarkerProjection,
}

impl View for RoundObligation {
    type V = RoundModel;

    open spec fn view(&self) -> RoundModel {
        RoundModel {
            settlement_id: self.settlement_id,
            ordinal: self.ordinal,
            provider_request_id: self.provider_request_id,
            provider: self.provider,
            model: self.model,
            request_digest: self.request_digest,
            reserved: self.reserved,
            provider_evidence: self.provider_evidence,
            tools: self.tools@,
            known_incurred: self.known_incurred,
            decision: self.decision,
            phase: self.phase,
            commit_ordinal: self.commit_ordinal,
            projection: self.projection,
        }
    }
}

/// The models of a sequence of rounds.
pub open spec fn round_models(rounds: Seq<RoundObligation>) -> Seq<RoundModel> {
    Seq::new(rounds.len(), |i: int| rounds[i]@)
}

impl View for TurnObligation {
    type V = TurnModel;

    open spec fn view(&self) -> TurnModel {
        TurnModel {
            turn_id: self.turn_id,
            budget_epoch: self.budget_epoch,
            request_session: self.request_session,
            journal_owner: self.journal_owner,
            verified_subject: self.verified_subject,
            budget_holder: self.budget_holder,
            cap_token_id: self.cap_token_id,
            started_at: self.started_at,
            rounds: round_models(self.rounds@),
            terminal: self.terminal,
            cancellation_marker: self.cancellation_marker,
        }
    }
}

impl TurnModel {
    /// The round in progress is the one admitted last.
    pub open spec fn current(self) -> RoundModel {
        self.rounds.last()
    }

    /// This turn with its last round replaced.
    pub open spec fn with_current(self, round: RoundModel) -> TurnModel {
        TurnModel { rounds: self.rounds.update(self.rounds.len() - 1, round), ..self }
    }
}

/// Equal in every field, labels compared by their characters.
pub open spec fn same_tool(a: ToolEvidence, b: ToolEvidence) -> bool {
    &&& a.ordinal == b.ordinal
    &&& a.call_id@ == b.call_id@
    &&& a.name@ == b.name@
    &&& a.arguments_digest == b.arguments_digest
    &&& a.effect == b.effect
    &&& a.output_admission == b.output_admission
}

/// Equal in every field, the compact form compared by its characters.
pub open spec fn same_candidate(a: ReceiptCandidate, b: ReceiptCandidate) -> bool {
    &&& a.receipt_id == b.receipt_id
    &&& a.expected_parent == b.expected_parent
    &&& a.expected_log_end == b.expected_log_end
    &&& a.jws_digest == b.jws_digest
    &&& a.jws_compact@ == b.jws_compact@
}

/// Both absent, or both present and the same.
pub open spec fn same_candidate_option(
    a: Option<ReceiptCandidate>,
    b: Option<ReceiptCandidate>,
) -> bool {
    match (a, b) {
        (None, None) => true,
        (Some(x), Some(y)) => same_candidate(x, y),
        _ => false,
    }
}

/// The same phase with the same facts.
pub open spec fn same_phase(a: SettlementPhase, b: SettlementPhase) -> bool {
    match (a, b) {
        (SettlementPhase::Reserved, SettlementPhase::Reserved) => true,
        (SettlementPhase::WorkObserved, SettlementPhase::WorkObserved) => true,
        (
            SettlementPhase::Prepared { candidate: x },
            SettlementPhase::Prepared { candidate: y },
        ) => same_candidate_option(x, y),
        (
            SettlementPhase::Finalized { application: p, candidate: x },
            SettlementPhase::Finalized { application: q, candidate: y },
        ) => p == q && same_candidate_option(x, y),
        (
            SettlementPhase::Settled { application: p, receipt: x },
            SettlementPhase::Settled { application: q, receipt: y },
        ) => p == q && x == y,
        (
            SettlementPhase::Unresolved { last_definite: d, problem: m, application: p, candidate: x },
            SettlementPhase::Unresolved { last_definite: e, problem: n, application: q, candidate: y },
        ) => d == e && m == n && p == q && same_candidate_option(x, y),
        _ => false,
    }
}

/// The same marker with the same facts.
pub open spec fn same_marker(a: MarkerProjection, b: MarkerProjection) -> bool {
    match (a, b) {
        (MarkerProjection::NotRequired, MarkerProjection::NotRequired) => true,
        (MarkerProjection::Prepared(x), MarkerProjection::Prepared(y)) => same_candidate(x, y),
        (MarkerProjection::Acknowledged(x), MarkerProjection::Acknowledged(y)) => x == y,
        _ => false,
    }
}

/// The same round with the same facts.
pub open spec fn same_round(a: RoundModel, b: RoundModel) -> bool {
    &&& a.settlement_id == b.settlement_id
    &&& a.ordinal == b.ordinal
    &&& a.provider_request_id == b.provider_request_id
    &&& a.provider@ == b.provider@
    &&& a.model@ == b.model@
    &&& a.request_digest == b.request_digest
    &&& a.reserved == b.reserved
    &&& a.provider_evidence == b.provider_evidence
    &&& a.tools.len() == b.tools.len()
    &&& forall|i: int| 0 <= i < a.tools.len() ==> same_tool(#[trigger] a.tools[i], b.tools[i])
    &&& a.known_incurred == b.known_incurred
    &&& a.decision == b.decision
    &&& same_phase(a.phase, b.phase)
    &&& a.commit_ordinal == b.commit_ordinal
    &&& a.projection == b.projection
}

/// The same turn with the same facts.
pub open spec fn same_turn(a: TurnModel, b: TurnModel) -> bool {
    &&& a.turn_id == b.turn_id
    &&& a.budget_epoch == b.budget_epoch
    &&& a.request_session == b.request_session
    &&& a.journal_owner == b.journal_owner
    &&& a.verified_subject.0@ == b.verified_subject.0@
    &&& a.budget_holder.0@ == b.budget_holder.0@
    &&& a.cap_token_id == b.cap_token_id
    &&& a.started_at == b.started_at
    &&& a.rounds.len() == b.rounds.len()
    &&& forall|i: int| 0 <= i < a.rounds.len() ==> same_round(#[trigger] a.rounds[i], b.rounds[i])
    &&& a.terminal == b.terminal
    &&& same_marker(a.cancellation_marker, b.cancellation_marker)
}

/// What was credited is no more than what was held.
pub open spec fn bounded_credit(view: OwnedBudgetView) -> bool {
    view.refund is Some ==> view.reserved.at_least(view.refund->0.applied_credit)
}

/// A rollback has a refund.
pub open spec fn refunded_rollback(view: OwnedBudgetView) -> bool {
    view.status is RollbackPending || view.status is RolledBack ==> view.refund is Some
}

impl OwnedBudgetView {
    /// Whether no more was credited than was held.
    pub fn has_bounded_credit(&self) -> (r: bool)
        ensures
            r == bounded_credit(*self),
    {
        match self.refund {
            Some(refund) => self.reserved.covers(&refund.applied_credit),
            None => true,
        }
    }

    /// Whether a rollback comes with its refund.
    pub fn has_refunded_rollback(&self) -> (r: bool)
        ensures
            r == refunded_rollback(*self),
    {
        match self.status {
            OwnedBudgetStatus::RollbackPending | OwnedBudgetStatus::RolledBack => {
                self.refund.is_some()
            },
            _ => true,
        }
    }
}

impl HolderId {
    /// Whether both name the same holder.
    pub fn same(&self, other: &HolderId) -> (r: bool)
        ensures
            r == (self.0@ == other.0@),
    {
        self.0 == other.0
    }
}

impl Clone for HolderId {
    fn clone(&self) -> (r: Self)
        ensures
            r == *self,
    {
        HolderId(self.0.clone())
    }
}

impl Clone for OwnedBudgetView {
    fn clone(&self) -> (r: Self)
        ensures
            r == *self,
    {
        OwnedBudgetView {
            reservation_id: self.reservation_id,
            holder: self.holder.clone(),
            reserved: self.reserved,
            status: self.status,
            attempt: self.attempt,
            application: self.application,
            refund: self.refund,
        }
    }
}

impl Clone for AdmissionRequest {
    fn clone(&self) -> (r: Self)
        ensures
            r == *self,
    {
        AdmissionRequest {
            cap_token_id: self.cap_token_id,
            projected_envelope: self.projected_envelope,
            provider_id: self.provider_id.clone(),
            model_id: self.model_id.clone(),
            request_digest: self.request_digest,
        }
    }
}

impl Clone for ToolEvidence {
    fn clone(&self) -> (r: Self)
        ensures
            r == *self,
    {
        ToolEvidence {
            ordinal: self.ordinal,
            call_id: self.call_id.clone(),
            name: self.name.clone(),
            arguments_digest: self.arguments_digest,
            effect: self.effect,
            output_admission: self.output_admission,
        }
    }
}

impl ToolEvidence {
    fn same(&self, other: &ToolEvidence) -> (r: bool)
        ensures
            r == same_tool(*self, *other),
    {
        self.ordinal == other.ordinal && self.call_id == other.call_id && self.name == other.name
            && self.arguments_digest == other.arguments_digest && self.effect == other.effect
            && self.output_admission == other.output_admission
    }
}

impl Clone for ReceiptCandidate {
    fn clone(&self) -> (r: Self)
        ensures
            r == *self,
    {
        ReceiptCandidate {
            receipt_id: self.receipt_id,
            expected_parent: self.expected_parent,
            expected_log_end: self.expected_log_end,
            jws_digest: self.jws_digest,
            jws_compact: self.jws_compact.clone(),
        }
    }
}

impl ReceiptCandidate {
    fn same(&self, other: &ReceiptCandidate) -> (r: bool)
        ensures
            r == same_candidate(*self, *other),
    {
        self.receipt_id == other.receipt_id && self.expected_parent == other.expected_parent
            && self.expected_log_end == other.expected_log_end && self.jws_digest
            == other.jws_digest && self.jws_compact == other.jws_compact
    }
}

/// A copy of an optional candidate.
pub fn copy_candidate(candidate: &Option<ReceiptCandidate>) -> (r: Option<ReceiptCandidate>)
    ensures
        r == *candidate,
{
    match candidate {
        Some(c) => Some(c.clone()),
        None => None,
    }
}

fn same_candidate_options(a: &Option<ReceiptCandidate>, b: &Option<ReceiptCandidate>) -> (r: bool)
    ensures
        r == same_candidate_option(*a, *b),
{
    match (a, b) {
        (None, None) => true,
        (Some(x), Some(y)) => x.same(y),
        _ => false,
    }
}

impl Clone for SettlementPhase {
    fn clone(&self) -> (r: Self)
        ensures
            r == *self,
    {
        match self {
            SettlementPhase::Reserved => SettlementPhase::Reserved,
            SettlementPhase::WorkObserved => SettlementPhase::WorkObserved,
            SettlementPhase::Prepared { candidate } => SettlementPhase::Prepared {
                candidate: copy_candidate(candidate),
            },
            SettlementPhase::Finalized { application, candidate } => SettlementPhase::Finalized {
                application: *application,
                candidate: copy_candidate(candidate),
            },
            SettlementPhase::Settled { application, receipt } => SettlementPhase::Settled {
                application: *application,
                receipt: *receipt,
            },
            SettlementPhase::Unresolved { last_definite, problem, application, candidate } =>
                SettlementPhase::Unresolved {
                    last_definite: *last_definite,
                    problem: *problem,
                    application: *application,
                    candidate: copy_candidate(candidate),
                },
        }
    }
}

impl SettlementPhase {
    fn same(&self, other: &SettlementPhase) -> (r: bool)
        ensures
            r == same_phase(*self, *other),
    {
        match (self, other) {
            (SettlementPhase::Reserved, SettlementPhase::Reserved) => true,
            (SettlementPhase::WorkObserved, SettlementPhase::WorkObserved) => true,
            (
                SettlementPhase::Prepared { candidate: x },
                SettlementPhase::Prepared { candidate: y },
            ) => same_candidate_options(x, y),
            (
                SettlementPhase::Finalized { application: p, candidate: x },
                SettlementPhase::Finalized { application: q, candidate: y },
            ) => *p == *q && same_candidate_options(x, y),
            (
                SettlementPhase::Settled { application: p, receipt: x },
                SettlementPhase::Settled { application: q, receipt: y },
            ) => *p == *q && *x == *y,
            (
                SettlementPhase::Unresolved {
                    last_definite: d,
                    problem: m,
                    application: p,
                    candidate: x,
                },
                SettlementPhase::Unresolved {
                    last_definite: e,
                    problem: n,
                    application: q,
                    candidate: y,
                },
            ) => *d == *e && *m == *n && *p == *q && same_candidate_options(x, y),
            _ => false,
        }
    }
}

impl Clone for MarkerProjection {
    fn clone(&self) -> (r: Self)
        ensures
            r == *self,
    {
        match self {
            MarkerProjection::NotRequired => MarkerProjection::NotRequired,
            MarkerProjection::Prepared(c) => MarkerProjection::Prepared(c.clone()),
            MarkerProjection::Acknowledged(b) => MarkerProjection::Acknowledged(*b),
        }
    }
}

impl MarkerProjection {
    fn same(&self, other: &MarkerProjection) -> (r: bool)
        ensures
            r == same_marker(*self, *other),
    {
        match (self, other) {
            (MarkerProjection::NotRequired, MarkerProjection::NotRequired) => true,
            (MarkerProjection::Prepared(x), MarkerProjection::Prepared(y)) => x.same(y),
            (MarkerProjection::Acknowledged(x), MarkerProjection::Acknowledged(y)) => *x == *y,
            _ => false,
        }
    }
}

fn copy_tools(tools: &Vec<ToolEvidence>) -> (r: Vec<ToolEvidence>)
    ensures
        r@ == tools@,
{
    let mut r: Vec<ToolEvidence> = Vec::new();
    let mut i: usize = 0;
    while i < tools.len()
        invariant
            i <= tools.len(),
            r@ == tools@.take(i as int),
        decreases tools.len() - i,
    {
        r.push(tools[i].clone());
        i += 1;
    }
    r
}

impl Clone for RoundObligation {
    fn clone(&self) -> (r: Self)
        ensures
            r@ == self@,
    {
        RoundObligation {
            settlement_id: self.settlement_id,
            ordinal: self.ordinal,
            provider_request_id: self.provider_request_id,
            provider: self.provider.clone(),
            model: self.model.clone(),
            request_digest: self.request_digest,
            reserved: self.reserved,
            provider_evidence: self.provider_evidence,
            tools: copy_tools(&self.tools),
            known_incurred: self.known_incurred,
            decision: self.decision,
            phase: self.phase.clone(),
            commit_ordinal: self.commit_ordinal,
            projection: self.projection,
        }
    }
}

impl RoundObligation {
    fn same(&self, other: &RoundObligation) -> (r: bool)
        ensures
            r == same_round(self@, other@),
    {
        if !(self.settlement_id == other.settlement_id && self.ordinal == other.ordinal
            && self.provider_request_id == other.provider_request_id && self.provider
            == other.provider && self.model == other.model && self.request_digest
            == other.request_digest && self.reserved == other.reserved && self.provider_evidence
            == other.provider_evidence && self.known_incurred == other.known_incurred
            && self.decision == other.decision && self.commit_ordinal == other.commit_ordinal
            && self.projection == other.projection && self.phase.same(&other.phase)
            && self.tools.len() == other.tools.len()) {
            return false;
        }
        let mut i: usize = 0;
        while i < self.tools.len()
            invariant
                i <= self.tools.len(),
                self.tools.len() == other.tools.len(),
                forall|j: int| 0 <= j < i ==> same_tool(#[trigger] self.tools@[j], other.tools@[j]),
            decreases self.tools.len() - i,
        {
            if !self.tools[i].same(&other.tools[i]) {
                assert(!same_tool(self@.tools[i as int], other@.tools[i as int]));
                return false;
            }
            i += 1;
        }
        true
    }
}

impl Clone for TurnObligation {
    fn clone(&self) -> (r: Self)
        ensures
            r@ == self@,
    {
        let mut rounds: Vec<RoundObligation> = Vec::new();
        let mut i: usize = 0;
        while i < self.rounds.len()
            invariant
                i <= self.rounds.len(),
                rounds.len() == i,
                forall|j: int| 0 <= j < i ==> (#[trigger] rounds@[j])@ == self.rounds@[j]@,
            decreases self.rounds.len() - i,
        {
            rounds.push(self.rounds[i].clone());
            i += 1;
        }
        assert(round_models(rounds@) =~= round_models(self.rounds@));
        TurnObligation {
            turn_id: self.turn_id,
            budget_epoch: self.budget_epoch,
            request_session: self.request_session,
            journal_owner: self.journal_owner,
            verified_subject: self.verified_subject.clone(),
            budget_holder: self.budget_holder.clone(),
            cap_token_id: self.cap_token_id,
            started_at: self.started_at,
            rounds,
            terminal: self.terminal,
            cancellation_marker: self.cancellation_marker.clone(),
        }
    }
}

impl TurnObligation {
    /// Whether both are the same turn with the same facts.
    pub fn same(&self, other: &TurnObligation) -> (r: bool)
        ensures
            r == same_turn(self@, other@),
    {
        if !(self.turn_id == other.turn_id && self.budget_epoch == other.budget_epoch
            && self.request_session == other.request_session && self.journal_owner
            == other.journal_owner && self.verified_subject.same(&other.verified_subject)
            && self.budget_holder.same(&other.budget_holder) && self.cap_token_id
            == other.cap_token_id && self.started_at == other.started_at && self.terminal
            == other.terminal && self.cancellation_marker.same(&other.cancellation_marker)
            && self.rounds.len() == other.rounds.len()) {
            return false;
        }
        let mut i: usize = 0;
        while i < self.rounds.len()
            invariant
                i <= self.rounds.len(),
                self.rounds.len() == other.rounds.len(),
                forall|j: int|
                    0 <= j < i ==> same_round(#[trigger] self@.rounds[j], other@.rounds[j]),
            decreases self.rounds.len() - i,
        {
            if !self.rounds[i].same(&other.rounds[i]) {
                assert(!same_round(self@.rounds[i as int], other@.rounds[i as int]));
                return false;
            }
            i += 1;
        }
        true
    }

    /// Replaces the last round.
    pub fn set_current(&mut self, round: RoundObligation)
        requires
            old(self).rounds@.len() > 0,
        ensures
            final(self)@ == old(self)@.with_current(round@),
            final(self).rounds@.len() == old(self).rounds@.len(),
    {
        let ghost before = self.rounds@;
        let at: usize = self.rounds.len() - 1;
        self.rounds.set(at, round);
        assert(round_models(self.rounds@) =~= round_models(before).update(at as int, round@));
    }

    /// Appends a round.
    pub fn push_round(&mut self, round: RoundObligation)
        ensures
            final(self)@ == (TurnModel { rounds: old(self)@.rounds.push(round@), ..old(self)@ }),
    {
        let ghost before = self.rounds@;
        self.rounds.push(round);
        assert(round_models(self.rounds@) =~= round_models(before).push(round@));
    }
}

} // verus!
