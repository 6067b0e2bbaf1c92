//! One turn through the pipeline: capability token, policy, and in every round
//! cost gate, injection scan, provider, tools, receipt, finalization, memory,
//! journal. The pre-submit hooks and the recall of memories follow the admission
//! of the first round.
//!
//! The machine decides what happens next; everything outside (verifying,
//! calling the provider, invoking a tool, writing a receipt) is asked for by
//! an action and reported back by an event. The same machine drives a turn
//! that answers once and a turn that streams: the streaming turn emits stage
//! events, the other one asks at each gate whether its caller is still there.
use crate::cost::CostTuple;
use crate::slot::MAX_TOOLS_PER_ROUND;
use vstd::prelude::*;

verus! {

/// A pipeline stage that stage events bracket.
#[derive(Clone, Copy, Debug, PartialEq, Eq, Structural, Hash)]
pub enum StageKind {
    /// Parse and verify the request's capability token.
    CapTokenVerify,
    /// Evaluate the turn against the policy bundle.
    CedarCheck,
    /// Scan the outbound prompt.
    InjectionScan,
    /// Admit the projected envelope against the holder's budget.
    CostGateAdmit,
    /// The provider's incremental stream.
    ProviderStream,
    /// Invoke the tools that the model requested.
    ToolExec,
    /// Mint, sign and chain the receipt.
    ReceiptMint,
    /// Settle the reservation against the actual spend.
    CostGateFinalize,
    /// Record the turn as a memory fact.
    MemoryRecord,
    /// Append the turn to the session journal.
    JournalAppend,
}

/// Where in a turn's life an error hook fires.
#[derive(Clone, Copy, Debug, PartialEq, Eq, Structural)]
pub enum LifecyclePhase {
    Submit,
    Provider,
    Receipt,
    MemoryWrite,
}

/// Why a turn failed.
#[derive(Clone, Copy, Debug, PartialEq, Eq, Structural)]
pub enum TurnError {
    /// The error that the failed step itself reported.
    Reported,
    /// The caller is gone.
    TurnCancelled,
    /// The model asked for more tools than one round may run.
    ToolBatchTooLarge { requested: usize },
    /// The model asked for a tool that is not registered.
    UnknownTool,
    /// A tool did not return in time; its effect is unknown.
    ToolTimeout,
    /// The model still wants tools after the last allowed round.
    ToolLoopExhausted { iterations: u32 },
    /// The streamed content outgrew its bound.
    StreamedContentCapExceeded { limit: usize, actual: usize },
    /// The provider ended its stream without reporting usage.
    ProviderUnavailable,
    /// The turn's total cost overflows; paid rounds stay paid.
    CostOverflow,
}

/// Under which class a refusal after the provider call is settled.
#[derive(Clone, Copy, Debug, PartialEq, Eq, Structural)]
pub enum SettlementReason {
    UnknownTool,
    ToolCapacity,
    ToolAuthorization,
    CapabilityDenied,
    ApprovalRequired,
    ApprovalRejected,
    /// The approval could not be evaluated.
    ApprovalFailed,
    ToolFailed,
    ToolTimeoutUncertain,
    OutputScan,
    /// The output could not be scanned.
    OutputScanFailed,
}

/// What a scan of a tool's output found.
#[derive(Clone, Copy, Debug, PartialEq, Eq, Structural)]
pub enum ScanVerdict {
    Allowed,
    Blocked,
    /// The scanner failed: nothing is known of the output.
    Undetermined,
}

/// How a tool invocation ended.
#[derive(Clone, Copy, Debug, PartialEq, Eq, Structural)]
pub enum ToolEnd {
    Completed(ScanVerdict),
    Failed,
    TimedOut,
}

/// How an approval gate answered.
#[derive(Clone, Copy, Debug, PartialEq, Eq, Structural)]
pub enum ApprovalAnswer {
    Granted,
    Required,
    Refused,
    /// The approval could not be evaluated, which is no human decision.
    Undetermined,
}

/// Where a turn asks whether its caller is still there.
#[derive(Clone, Copy, Debug, PartialEq, Eq, Structural)]
pub enum ProbeSite {
    BeforePermit,
    AfterPermit,
    Round,
    ScanFailed,
    AdmitFailed,
    Admitted,
    Provider { failed: bool },
    Tool,
    Approval(ApprovalAnswer),
    ToolDone(ToolEnd),
    ToolScanned(ScanVerdict),
    BeforeCommit,
}

/// A refusal that is being settled.
#[derive(Clone, Copy, Debug, PartialEq, Eq, Structural)]
pub struct Refusal {
    pub reason: SettlementReason,
    /// The cost known so far: what the refusal is charged.
    pub known: CostTuple,
    pub error: TurnError,
    pub hook: LifecyclePhase,
    /// The tool stage ends only after the settlement.
    pub end_stage: bool,
}

/// What the turn waits for.
#[derive(Clone, Copy, Debug, PartialEq, Eq, Structural)]
pub enum Phase {
    VerifyToken,
    CheckPolicy,
    Permit,
    BeginSettlement,
    CostSetup,
    Probe(ProbeSite),
    AdmitRound,
    PreSubmit,
    Recall,
    ScanRequest,
    ObserveDispatch,
    CallProvider,
    ObserveResponse,
    OpenStream,
    NextItem,
    ObserveUsage { finished: bool },
    LookupTool,
    AuthorizeTool,
    CheckCapabilities,
    Approve,
    ObserveIntent,
    InvokeTool,
    ScanOutput,
    ObserveOutcome(ToolEnd),
    Settle(Refusal),
    CommitRound,
    SettleRound,
    RecordMemory,
    AppendJournal,
    FinishRefused,
    Done,
}

/// What came back from outside.
#[derive(Clone, Copy, Debug, PartialEq, Eq, Structural)]
pub enum TurnEvent {
    /// The step succeeded.
    Passed,
    /// The step failed and reported its error.
    Failed,
    /// Whether the caller is gone.
    Probed(bool),
    /// The provider answered at this cost and requested this many tools.
    Response { cost: CostTuple, requested: usize },
    /// The stream delivered this many bytes of text.
    Delta { bytes: usize },
    CallStart,
    CallDelta,
    /// The stream reported usage, priced at this cost.
    Usage { cost: CostTuple },
    /// The stream reported its finish reason with this many requested tools.
    FinishReason { requested: usize },
    ServedModel,
    StreamEnd,
    /// The approval gate did not grant the call.
    ApprovalDenied(ApprovalAnswer),
    /// The tool returned at this cost.
    Output { cost: CostTuple },
    TimedOut,
    Scanned(ScanVerdict),
    /// Committing the round failed; `cancelled` where a cancellation won.
    CommitFailed { cancelled: bool },
}

/// An event for the consumer of a streaming turn.
#[derive(Clone, Copy, Debug, PartialEq, Eq, Structural)]
pub enum Emitted {
    StageStart { stage: StageKind },
    StageEnd { stage: StageKind, ok: bool },
    Content,
    ToolCallStart,
    ToolCallDelta,
    ToolCallResult,
    Usage,
    Receipt,
    Finish,
}

/// Why a requested tool call was refused before it ran.
#[derive(Clone, Copy, Debug, PartialEq, Eq, Structural)]
pub enum Denial {
    UnknownTool,
    Authorization,
    Capability,
    Approval,
}

/// What the turn asks of the outside.
#[derive(Clone, Copy, Debug, PartialEq, Eq, Structural)]
pub enum Action {
    /// Do what the phase says and report back.
    Ask(Phase),
    /// Hand an event to the consumer.
    Emit(Emitted),
    /// Fire the error hooks.
    FireError { phase: LifecyclePhase, error: TurnError },
    /// Cancel the reservation of the round in progress.
    Release,
    /// Refund the reservation of the round in progress for a failed provider.
    ReleaseFailure,
    /// Refresh the lease of the reservation.
    TouchReservation,
    /// Append the terminal cancellation receipt after this many rounds.
    RecordCancellation { rounds: u32 },
    /// Record evidence that a call was refused.
    RecordDenied(Denial),
    /// Record evidence that a tool is about to run.
    RecordPreEffect,
    /// Record evidence of how a tool ended.
    RecordTerminal(ToolEnd),
    /// Record on a spent approval how its call ended.
    RecordInvocation { completed: bool },
    /// Keep the tool's result for the receipt and the transcript.
    KeepResult,
    /// Fold the round's calls and results into the transcript.
    FoldRound,
    /// Let a queued turn be admitted.
    ReleasePermit,
    /// Run the observational hooks over the committed receipt.
    PostReceipt,
    /// The turn is over with an answer of this total cost.
    Answer { total: CostTuple },
    /// The turn is over with an error; `settlement` where settling the
    /// refusal failed and its error takes precedence.
    Fail { error: TurnError, settlement: bool },
}

/// How a turn is run.
#[derive(Clone, Copy, Debug, PartialEq, Eq, Structural)]
pub struct TurnConfig {
    /// Emit events as the turn unfolds.
    pub stream: bool,
    /// Ask at each gate whether the caller is still there.
    pub cancellable: bool,
    /// Most provider rounds of one turn.
    pub max_tool_iterations: u32,
    /// Bound on the streamed content of one round, in bytes.
    pub stream_content_max_bytes: usize,
    /// A memory backend is configured.
    pub memory: bool,
    /// A session journal is kept.
    pub journal: bool,
}

/// The state of a turn.
#[derive(Clone, Copy, Debug, PartialEq, Eq, Structural)]
pub struct TurnMachine {
    pub config: TurnConfig,
    pub phase: Phase,
    /// The provider round in progress, counted from one.
    pub iteration: u32,
    /// Rounds whose receipt is durable.
    pub committed_rounds: u32,
    /// Cost of the committed rounds.
    pub total_cost: CostTuple,
    /// Cost of the round's provider call.
    pub response_cost: CostTuple,
    /// Cost of the round's tools whose result was kept.
    pub tool_cost: CostTuple,
    /// Cost of the tool that returned last.
    pub output_cost: CostTuple,
    /// Tools that the model requested this round.
    pub requested: usize,
    /// The requested tool in progress.
    pub at: usize,
    /// Streamed bytes of this round.
    pub content_len: usize,
    /// Usage was reported this round.
    pub saw_usage: bool,
}

/// A turn and the actions it asks for.
pub type TurnStep = (TurnMachine, Seq<Action>);

impl SettlementReason {
    /// The stable label of a settlement class.
    pub open spec fn label(self) -> &'static str {
        match self {
            SettlementReason::UnknownTool => "refusal:unknown_tool",
            SettlementReason::ToolCapacity => "refusal:capacity",
            SettlementReason::ToolAuthorization => "refusal:tool_authorization",
            SettlementReason::CapabilityDenied => "refusal:capability_denied",
            SettlementReason::ApprovalRequired => "refusal:approval_required",
            SettlementReason::ApprovalRejected => "refusal:approval_rejected",
            SettlementReason::ApprovalFailed => "refusal:approval_evaluation_error",
            SettlementReason::ToolFailed => "refusal:tool_error",
            SettlementReason::ToolTimeoutUncertain => "refusal:tool_timeout_uncertain_effect",
            SettlementReason::OutputScan => "refusal:output_scan",
            SettlementReason::OutputScanFailed => "refusal:output_scan_error",
        }
    }

    /// The stable label of a settlement class.
    pub fn as_str(&self) -> (r: &'static str)
        ensures
            r == self.label(),
    {
        match self {
            SettlementReason::UnknownTool => "refusal:unknown_tool",
            SettlementReason::ToolCapacity => "refusal:capacity",
            SettlementReason::ToolAuthorization => "refusal:tool_authorization",
            SettlementReason::CapabilityDenied => "refusal:capability_denied",
            SettlementReason::ApprovalRequired => "refusal:approval_required",
            SettlementReason::ApprovalRejected => "refusal:approval_rejected",
            SettlementReason::ApprovalFailed => "refusal:approval_evaluation_error",
            SettlementReason::ToolFailed => "refusal:tool_error",
            SettlementReason::ToolTimeoutUncertain => "refusal:tool_timeout_uncertain_effect",
            SettlementReason::OutputScan => "refusal:output_scan",
            SettlementReason::OutputScanFailed => "refusal:output_scan_error",
        }
    }
}

impl TurnMachine {
    /// Every loop of the turn stays within its bound.
    pub open spec fn wf(self) -> bool {
        &&& self.config.stream ==> !self.config.cancellable
        &&& self.phase is Probe ==> self.config.cancellable
        &&& self.phase is CallProvider || self.phase is ObserveResponse ==> !self.config.stream
        &&& self.phase is OpenStream || self.phase is NextItem || self.phase is ObserveUsage
            ==> self.config.stream
        &&& self.phase is RecordMemory ==> self.config.memory
        &&& self.phase is AppendJournal ==> self.config.journal
        &&& self.committed_rounds <= self.iteration
        &&& self.iteration <= 1 || self.iteration <= self.config.max_tool_iterations
        &&& self.in_round() || self.closing() ==> self.committed_rounds + 1 == self.iteration
        &&& self.in_setup() ==> self.iteration == 0
        &&& self.phase is PreSubmit || self.phase is Recall ==> self.iteration == 1
        &&& self.phase == Phase::Probe(ProbeSite::Round) ==> self.committed_rounds
            == self.iteration && (self.iteration == 0 || self.iteration
            < self.config.max_tool_iterations)
        &&& self.before_tools() ==> self.at == 0
        &&& self.round_complete() ==> self.requested == 0 || self.exhausted() || self.at
            == self.requested
        &&& self.at <= MAX_TOOLS_PER_ROUND
        &&& self.in_tool() ==> self.at < self.requested && self.requested <= MAX_TOOLS_PER_ROUND
            && self.iteration < self.config.max_tool_iterations
    }

    /// Before the first round.
    pub open spec fn in_setup(self) -> bool {
        match self.phase {
            Phase::VerifyToken | Phase::CheckPolicy | Phase::Permit | Phase::BeginSettlement
            | Phase::CostSetup => true,
            Phase::Probe(site) => site is BeforePermit || site is AfterPermit,
            _ => false,
        }
    }

    /// Within a round that is not committed.
    pub open spec fn in_round(self) -> bool {
        match self.phase {
            Phase::VerifyToken | Phase::CheckPolicy | Phase::Permit | Phase::BeginSettlement
            | Phase::CostSetup | Phase::SettleRound | Phase::RecordMemory | Phase::AppendJournal
            | Phase::FinishRefused | Phase::Done => false,
            Phase::Probe(site) => !(site is BeforePermit || site is AfterPermit || site is Round),
            _ => true,
        }
    }

    /// The receipt of the round is durable, and what follows from it is done.
    pub open spec fn closing(self) -> bool {
        self.phase is SettleRound || self.phase is RecordMemory || self.phase is AppendJournal
    }

    /// The provider has not answered this round.
    pub open spec fn before_tools(self) -> bool {
        match self.phase {
            Phase::AdmitRound | Phase::PreSubmit | Phase::Recall | Phase::ScanRequest
            | Phase::ObserveDispatch | Phase::CallProvider | Phase::ObserveResponse | Phase::OpenStream | Phase::NextItem | Phase::ObserveUsage {
                ..
            } => true,
            Phase::Probe(site) => site is ScanFailed || site is AdmitFailed || site is Admitted
                || site is Provider,
            _ => false,
        }
    }

    /// Every tool of the round has run, or none may.
    pub open spec fn round_complete(self) -> bool {
        match self.phase {
            Phase::CommitRound | Phase::SettleRound | Phase::RecordMemory | Phase::AppendJournal => {
                true
            },
            Phase::Probe(site) => site is BeforeCommit,
            _ => false,
        }
    }

    /// A requested tool is in progress.
    pub open spec fn in_tool(self) -> bool {
        match self.phase {
            Phase::LookupTool | Phase::AuthorizeTool | Phase::CheckCapabilities | Phase::Approve
            | Phase::ObserveIntent | Phase::InvokeTool | Phase::ScanOutput
            | Phase::ObserveOutcome(_) => true,
            Phase::Probe(site) => site is Tool || site is Approval || site is ToolDone || site
                is ToolScanned,
            _ => false,
        }
    }

    /// The model wants tools.
    pub open spec fn wants_tools(self) -> bool {
        self.requested > 0
    }

    /// The model wants tools that it may no longer have.
    pub open spec fn exhausted(self) -> bool {
        self.wants_tools() && self.iteration >= self.config.max_tool_iterations
    }

    /// What the round is known to have cost so far.
    pub open spec fn known(self) -> CostTuple {
        self.response_cost.capped_plus(self.tool_cost)
    }

    /// The event answers what the turn waits for.
    pub open spec fn expects(self, event: TurnEvent) -> bool {
        match self.phase {
            Phase::Probe(_) => event is Probed,
            Phase::CallProvider => event is Response || event is Failed,
            Phase::NextItem => event is Delta || event is CallStart || event is CallDelta || event
                is Usage || event is FinishReason || event is ServedModel || event is StreamEnd
                || event is Failed,
            Phase::Approve => event is Passed || (event matches TurnEvent::ApprovalDenied(answer)
                && !(answer is Granted)),
            Phase::InvokeTool => event is Output || event is Failed || event is TimedOut,
            Phase::ScanOutput => event is Scanned,
            Phase::CommitRound => event is Passed || event is CommitFailed,
            Phase::Permit | Phase::RecordMemory | Phase::AppendJournal => event is Passed,
            Phase::Done => false,
            _ => event is Passed || event is Failed,
        }
    }

    /// Waits for `phase`, after the actions `a`.
    pub open spec fn ask(self, a: Seq<Action>, phase: Phase) -> TurnStep {
        (TurnMachine { phase, ..self }, a.push(Action::Ask(phase)))
    }

    /// A streaming turn emits an event.
    pub open spec fn emit(self, a: Seq<Action>, e: Emitted) -> Seq<Action> {
        if self.config.stream {
            a.push(Action::Emit(e))
        } else {
            a
        }
    }

    /// A stage begins.
    pub open spec fn starts(self, a: Seq<Action>, stage: StageKind) -> Seq<Action> {
        self.emit(a, Emitted::StageStart { stage })
    }

    /// A stage ends.
    pub open spec fn ends(self, a: Seq<Action>, stage: StageKind, ok: bool) -> Seq<Action> {
        self.emit(a, Emitted::StageEnd { stage, ok })
    }

    /// Fires the error hooks.
    pub open spec fn fire(a: Seq<Action>, phase: LifecyclePhase, error: TurnError) -> Seq<Action> {
        a.push(Action::FireError { phase, error })
    }

    /// The turn is over with an error.
    pub open spec fn fail(self, a: Seq<Action>, error: TurnError) -> TurnStep {
        (
            TurnMachine { phase: Phase::Done, ..self },
            a.push(Action::Fail { error, settlement: false }),
        )
    }

    /// The stages that are open while the turn waits, outermost first.
    pub open spec fn open_stages(self) -> Seq<StageKind> {
        if !self.config.stream {
            Seq::empty()
        } else {
            match self.phase {
                Phase::VerifyToken => seq![StageKind::CapTokenVerify],
                Phase::CheckPolicy => seq![StageKind::CedarCheck],
                Phase::ScanRequest => seq![StageKind::InjectionScan],
                Phase::AdmitRound => seq![StageKind::CostGateAdmit],
                Phase::ObserveDispatch | Phase::OpenStream | Phase::NextItem | Phase::ObserveUsage {
                    ..
                } => seq![StageKind::ProviderStream],
                Phase::LookupTool | Phase::AuthorizeTool | Phase::CheckCapabilities
                | Phase::Approve | Phase::ObserveIntent | Phase::InvokeTool | Phase::ScanOutput
                | Phase::ObserveOutcome(_) => seq![StageKind::ToolExec],
                Phase::Settle(refusal) => if refusal.end_stage {
                    seq![StageKind::ToolExec]
                } else {
                    Seq::empty()
                },
                Phase::CommitRound => seq![StageKind::ReceiptMint],
                Phase::SettleRound => seq![StageKind::CostGateFinalize],
                Phase::RecordMemory => seq![StageKind::MemoryRecord],
                Phase::AppendJournal => seq![StageKind::JournalAppend],
                _ => Seq::empty(),
            }
        }
    }

    /// The step failed: its stage ends, the hooks fire, the turn is over.
    pub open spec fn reject(self, a: Seq<Action>, stage: StageKind, hook: LifecyclePhase) -> TurnStep {
        self.fail(Self::fire(self.ends(a, stage, false), hook, TurnError::Reported), TurnError::Reported)
    }

    /// The step failed without a hook: its stage ends and the turn is over.
    pub open spec fn abort(self, a: Seq<Action>, stage: StageKind) -> TurnStep {
        self.fail(self.ends(a, stage, false), TurnError::Reported)
    }

    /// The terminal cancellation receipt, where some round is durable.
    pub open spec fn mark_cancelled(self, a: Seq<Action>) -> Seq<Action> {
        if self.committed_rounds > 0 {
            a.push(Action::RecordCancellation { rounds: self.committed_rounds })
        } else {
            a
        }
    }

    /// The caller is gone while a reservation is held.
    pub open spec fn cancel_held(self, a: Seq<Action>) -> TurnStep {
        self.fail(
            self.mark_cancelled(
                Self::fire(
                    a.push(Action::Release),
                    LifecyclePhase::Provider,
                    TurnError::TurnCancelled,
                ),
            ),
            TurnError::TurnCancelled,
        )
    }

    /// Asks at a gate whether the caller is still there; a turn that cannot be
    /// cancelled goes on as if it were.
    pub open spec fn gate(self, a: Seq<Action>, site: ProbeSite) -> TurnStep {
        if self.config.cancellable {
            self.ask(a, Phase::Probe(site))
        } else {
            self.passed_gate(a, site)
        }
    }

    /// Starts settling a refusal. The tool stage ends before, unless the
    /// refusal says after.
    pub open spec fn refuse(
        self,
        a: Seq<Action>,
        reason: SettlementReason,
        known: CostTuple,
        error: TurnError,
        hook: LifecyclePhase,
    ) -> TurnStep {
        let late = self.config.stream && reason is ToolTimeoutUncertain;
        let b = if reason is ToolCapacity || late {
            a
        } else {
            self.ends(a, StageKind::ToolExec, false)
        };
        self.ask(b, Phase::Settle(Refusal { reason, known, error, hook, end_stage: late }))
    }

    /// Starts the next round.
    pub open spec fn begin_round(self, a: Seq<Action>) -> TurnStep {
        self.gate(a, ProbeSite::Round)
    }

    /// The caller is there, or the turn cannot be cancelled.
    pub open spec fn passed_gate(self, a: Seq<Action>, site: ProbeSite) -> TurnStep {
        match site {
            ProbeSite::BeforePermit => self.ask(a, Phase::Permit),
            ProbeSite::AfterPermit => self.ask(a, Phase::BeginSettlement),
            ProbeSite::Round => TurnMachine {
                iteration: (self.iteration + 1) as u32,
                response_cost: CostTuple::zero(),
                tool_cost: CostTuple::zero(),
                output_cost: CostTuple::zero(),
                requested: 0,
                at: 0,
                content_len: 0,
                saw_usage: false,
                ..self
            }.ask(self.starts(a, StageKind::CostGateAdmit), Phase::AdmitRound),
            ProbeSite::ScanFailed => self.fail(
                Self::fire(a, LifecyclePhase::Submit, TurnError::Reported),
                TurnError::Reported,
            ),
            ProbeSite::AdmitFailed => self.fail(
                Self::fire(a, LifecyclePhase::Submit, TurnError::Reported),
                TurnError::Reported,
            ),
            ProbeSite::Admitted => self.ask(
                self.starts(a, StageKind::ProviderStream),
                Phase::ObserveDispatch,
            ),
            ProbeSite::Provider { failed } => if failed {
                self.fail(
                    Self::fire(
                        a.push(Action::ReleaseFailure),
                        LifecyclePhase::Provider,
                        TurnError::Reported,
                    ),
                    TurnError::Reported,
                )
            } else {
                self.answered(a)
            },
            ProbeSite::Tool => self.ask(a, Phase::LookupTool),
            ProbeSite::Approval(answer) => match answer {
                ApprovalAnswer::Granted => self.ask(a, Phase::ObserveIntent),
                ApprovalAnswer::Required => self.refuse(
                    a,
                    SettlementReason::ApprovalRequired,
                    self.known(),
                    TurnError::Reported,
                    LifecyclePhase::Submit,
                ),
                ApprovalAnswer::Refused => self.refuse(
                    a,
                    SettlementReason::ApprovalRejected,
                    self.known(),
                    TurnError::Reported,
                    LifecyclePhase::Submit,
                ),
                ApprovalAnswer::Undetermined => self.refuse(
                    a,
                    SettlementReason::ApprovalFailed,
                    self.known(),
                    TurnError::Reported,
                    LifecyclePhase::Submit,
                ),
            },
            ProbeSite::ToolDone(end) => match end {
                ToolEnd::Completed(verdict) => if self.config.cancellable {
                    self.ask(a, Phase::Probe(ProbeSite::ToolScanned(verdict)))
                } else {
                    self.scanned(a, verdict)
                },
                ToolEnd::Failed => self.refuse(
                    a,
                    SettlementReason::ToolFailed,
                    self.known(),
                    TurnError::Reported,
                    LifecyclePhase::Provider,
                ),
                ToolEnd::TimedOut => self.refuse(
                    a,
                    SettlementReason::ToolTimeoutUncertain,
                    self.known(),
                    TurnError::ToolTimeout,
                    LifecyclePhase::Provider,
                ),
            },
            ProbeSite::ToolScanned(verdict) => self.scanned(a, verdict),
            ProbeSite::BeforeCommit => self.ask(
                self.starts(a, StageKind::ReceiptMint),
                Phase::CommitRound,
            ),
        }
    }

    /// The caller is gone.
    pub open spec fn failed_gate(self, a: Seq<Action>, site: ProbeSite) -> TurnStep {
        match site {
            ProbeSite::BeforePermit | ProbeSite::AfterPermit => self.fail(
                a,
                TurnError::TurnCancelled,
            ),
            ProbeSite::Round => self.fail(
                Self::fire(
                    self.mark_cancelled(a),
                    LifecyclePhase::Provider,
                    TurnError::TurnCancelled,
                ),
                TurnError::TurnCancelled,
            ),
            ProbeSite::ScanFailed | ProbeSite::AdmitFailed => self.fail(
                Self::fire(
                    self.mark_cancelled(a),
                    LifecyclePhase::Submit,
                    TurnError::TurnCancelled,
                ),
                TurnError::TurnCancelled,
            ),
            _ => self.cancel_held(a),
        }
    }

    /// The provider answered: check the batch, run the tools, or commit.
    pub open spec fn answered(self, a: Seq<Action>) -> TurnStep {
        if self.requested > MAX_TOOLS_PER_ROUND {
            self.refuse(
                a,
                SettlementReason::ToolCapacity,
                self.response_cost,
                TurnError::ToolBatchTooLarge { requested: self.requested },
                LifecyclePhase::Provider,
            )
        } else if self.wants_tools() && !self.exhausted() {
            self.next_tool(self.starts(a, StageKind::ToolExec))
        } else {
            self.before_commit(a)
        }
    }

    /// The requested tool in progress is looked at.
    pub open spec fn next_tool(self, a: Seq<Action>) -> TurnStep {
        if self.config.cancellable {
            self.ask(a, Phase::Probe(ProbeSite::Tool))
        } else {
            self.ask(a, Phase::LookupTool)
        }
    }

    /// The tool's output passed its scan and is kept, or the turn is refused.
    pub open spec fn scanned(self, a: Seq<Action>, verdict: ScanVerdict) -> TurnStep {
        if !(verdict is Allowed) {
            self.refuse(
                a,
                if verdict is Undetermined {
                    SettlementReason::OutputScanFailed
                } else {
                    SettlementReason::OutputScan
                },
                self.known().capped_plus(self.output_cost),
                TurnError::Reported,
                LifecyclePhase::Submit,
            )
        } else {
            let kept = self.emit(a, Emitted::ToolCallResult).push(Action::KeepResult);
            let m = TurnMachine {
                tool_cost: self.tool_cost.capped_plus(self.output_cost),
                at: (self.at + 1) as usize,
                ..self
            };
            if m.at < m.requested {
                m.next_tool(kept)
            } else {
                m.before_commit(m.ends(kept, StageKind::ToolExec, true))
            }
        }
    }

    /// The last gate before the round is committed.
    pub open spec fn before_commit(self, a: Seq<Action>) -> TurnStep {
        if self.config.cancellable {
            self.ask(a, Phase::Probe(ProbeSite::BeforeCommit))
        } else {
            self.ask(self.starts(a, StageKind::ReceiptMint), Phase::CommitRound)
        }
    }

    /// The round is committed: its receipt is shown, its hooks run, and what it
    /// cost is settled.
    pub open spec fn committed(self, a: Seq<Action>) -> TurnStep {
        let b = self.ends(self.emit(a, Emitted::Receipt), StageKind::ReceiptMint, true);
        self.ask(
            self.starts(b.push(Action::PostReceipt), StageKind::CostGateFinalize),
            Phase::SettleRound,
        )
    }

    /// The cost of the round is settled: memory, then the journal.
    pub open spec fn finalized(self, a: Seq<Action>) -> TurnStep {
        if self.config.memory {
            self.ask(self.starts(a, StageKind::MemoryRecord), Phase::RecordMemory)
        } else {
            self.remembered(a)
        }
    }

    /// The round is in memory, where there is one: the journal is next.
    pub open spec fn remembered(self, a: Seq<Action>) -> TurnStep {
        if self.config.journal {
            self.ask(self.starts(a, StageKind::JournalAppend), Phase::AppendJournal)
        } else {
            self.closed(a)
        }
    }

    /// Everything that follows from the receipt is done: the last round gives
    /// its permit back.
    pub open spec fn closed(self, a: Seq<Action>) -> TurnStep {
        self.settled(
            if self.wants_tools() {
                a
            } else {
                a.push(Action::ReleasePermit)
            },
        )
    }

    /// The committed round is counted: the turn answers, is exhausted, or goes on.
    pub open spec fn settled(self, a: Seq<Action>) -> TurnStep {
        if !self.config.stream && !self.total_cost.sum_fits(self.known()) {
            self.fail(a, TurnError::CostOverflow)
        } else {
            let m = TurnMachine {
                total_cost: if self.config.stream {
                    self.total_cost
                } else {
                    self.total_cost.plus(self.known())
                },
                committed_rounds: (self.committed_rounds + 1) as u32,
                ..self
            };
            if !m.wants_tools() {
                (
                    TurnMachine { phase: Phase::Done, ..m },
                    m.emit(a, Emitted::Finish).push(Action::Answer { total: m.total_cost }),
                )
            } else if m.exhausted() {
                m.ask(a, Phase::FinishRefused)
            } else {
                m.begin_round(a.push(Action::FoldRound))
            }
        }
    }

    /// The refusal was settled, or settling it failed.
    pub open spec fn refused(self, refusal: Refusal, failed: bool) -> TurnStep {
        let a = if refusal.end_stage {
            self.ends(Seq::empty(), StageKind::ToolExec, false)
        } else {
            Seq::empty()
        };
        (
            TurnMachine { phase: Phase::Done, ..self },
            Self::fire(a, refusal.hook, refusal.error).push(
                Action::Fail { error: refusal.error, settlement: failed },
            ),
        )
    }

    /// The next item of the provider's stream.
    pub open spec fn item(self, event: TurnEvent) -> TurnStep {
        let touched = seq![Action::TouchReservation];
        match event {
            TurnEvent::Delta { bytes } => {
                let length = if self.content_len + bytes <= usize::MAX {
                    (self.content_len + bytes) as usize
                } else {
                    usize::MAX
                };
                let m = TurnMachine { content_len: length, ..self };
                if length > self.config.stream_content_max_bytes {
                    let error = TurnError::StreamedContentCapExceeded {
                        limit: self.config.stream_content_max_bytes,
                        actual: length,
                    };
                    m.fail(
                        Self::fire(
                            m.ends(
                                touched.push(Action::ReleaseFailure),
                                StageKind::ProviderStream,
                                false,
                            ),
                            LifecyclePhase::Provider,
                            error,
                        ),
                        error,
                    )
                } else {
                    m.ask(m.emit(touched, Emitted::Content), Phase::NextItem)
                }
            },
            TurnEvent::CallStart => self.ask(
                self.emit(touched, Emitted::ToolCallStart),
                Phase::NextItem,
            ),
            TurnEvent::CallDelta => self.ask(
                self.emit(touched, Emitted::ToolCallDelta),
                Phase::NextItem,
            ),
            TurnEvent::Usage { cost } => TurnMachine { response_cost: cost, ..self }.ask(
                touched,
                Phase::ObserveUsage { finished: false },
            ),
            TurnEvent::FinishReason { requested } => TurnMachine { requested, ..self }.ask(
                touched,
                Phase::NextItem,
            ),
            TurnEvent::StreamEnd => if self.saw_usage {
                self.ask(Seq::empty(), Phase::ObserveUsage { finished: true })
            } else {
                self.fail(
                    self.ends(
                        seq![Action::ReleaseFailure],
                        StageKind::ProviderStream,
                        false,
                    ),
                    TurnError::ProviderUnavailable,
                )
            },
            TurnEvent::Failed => self.stream_failed(touched),
            _ => self.ask(touched, Phase::NextItem),
        }
    }

    /// The provider's stream could not be opened or broke off.
    pub open spec fn stream_failed(self, a: Seq<Action>) -> TurnStep {
        self.fail(
            Self::fire(
                self.ends(a.push(Action::ReleaseFailure), StageKind::ProviderStream, false),
                LifecyclePhase::Provider,
                TurnError::Reported,
            ),
            TurnError::Reported,
        )
    }

    /// A failed scan or admission: after some durable round the turn first
    /// asks whether the caller is gone.
    pub open spec fn setup_failed(self, a: Seq<Action>, site: ProbeSite) -> TurnStep {
        if self.config.cancellable && self.committed_rounds > 0 {
            self.ask(a, Phase::Probe(site))
        } else {
            self.fail(Self::fire(a, LifecyclePhase::Submit, TurnError::Reported), TurnError::Reported)
        }
    }

    /// What happens next.
    pub open spec fn next(self, event: TurnEvent) -> TurnStep {
        let none = Seq::<Action>::empty();
        let ok = event is Passed;
        match self.phase {
            Phase::VerifyToken => if ok {
                self.ask(
                    self.starts(
                        self.ends(none, StageKind::CapTokenVerify, true),
                        StageKind::CedarCheck,
                    ),
                    Phase::CheckPolicy,
                )
            } else {
                self.reject(none, StageKind::CapTokenVerify, LifecyclePhase::Submit)
            },
            Phase::CheckPolicy => if ok {
                let a = self.ends(none, StageKind::CedarCheck, true);
                if self.config.cancellable {
                    self.ask(a, Phase::Probe(ProbeSite::BeforePermit))
                } else {
                    self.ask(a, Phase::Permit)
                }
            } else {
                self.reject(none, StageKind::CedarCheck, LifecyclePhase::Submit)
            },
            Phase::Permit => if self.config.cancellable {
                self.ask(none, Phase::Probe(ProbeSite::AfterPermit))
            } else {
                self.ask(none, Phase::BeginSettlement)
            },
            Phase::BeginSettlement => if ok {
                self.ask(none, Phase::CostSetup)
            } else {
                self.fail(none, TurnError::Reported)
            },
            Phase::CostSetup => if ok {
                self.begin_round(none)
            } else {
                self.fail(
                    Self::fire(none, LifecyclePhase::Submit, TurnError::Reported),
                    TurnError::Reported,
                )
            },
            Phase::Probe(site) => if event == TurnEvent::Probed(true) {
                self.failed_gate(none, site)
            } else {
                self.passed_gate(none, site)
            },
            Phase::AdmitRound => if ok {
                let a = self.ends(none, StageKind::CostGateAdmit, true);
                if self.iteration == 1 {
                    self.ask(a, Phase::PreSubmit)
                } else {
                    self.ask(self.starts(a, StageKind::InjectionScan), Phase::ScanRequest)
                }
            } else {
                self.setup_failed(
                    self.ends(none, StageKind::CostGateAdmit, false),
                    ProbeSite::AdmitFailed,
                )
            },
            Phase::PreSubmit => if ok {
                self.ask(none, Phase::Recall)
            } else {
                self.fail(none.push(Action::Release), TurnError::Reported)
            },
            Phase::Recall => if ok {
                self.ask(self.starts(none, StageKind::InjectionScan), Phase::ScanRequest)
            } else {
                self.fail(
                    Self::fire(
                        none.push(Action::Release),
                        LifecyclePhase::MemoryWrite,
                        TurnError::Reported,
                    ),
                    TurnError::Reported,
                )
            },
            Phase::ScanRequest => if ok {
                self.gate(self.ends(none, StageKind::InjectionScan, true), ProbeSite::Admitted)
            } else {
                self.setup_failed(
                    self.ends(
                        none.push(Action::Release),
                        StageKind::InjectionScan,
                        false,
                    ),
                    ProbeSite::ScanFailed,
                )
            },
            Phase::ObserveDispatch => if !ok {
                self.abort(none, StageKind::ProviderStream)
            } else if self.config.stream {
                self.ask(none, Phase::OpenStream)
            } else {
                self.ask(none, Phase::CallProvider)
            },
            Phase::CallProvider => match event {
                TurnEvent::Response { cost, requested } => TurnMachine {
                    response_cost: cost,
                    requested,
                    ..self
                }.ask(none, Phase::ObserveResponse),
                _ => self.provider_returned(none, true),
            },
            Phase::ObserveResponse => if ok {
                self.provider_returned(none.push(Action::TouchReservation), false)
            } else {
                self.fail(none, TurnError::Reported)
            },
            Phase::OpenStream => if ok {
                self.ask(none, Phase::NextItem)
            } else {
                self.stream_failed(none)
            },
            Phase::NextItem => self.item(event),
            Phase::ObserveUsage { finished } => if !ok {
                self.abort(none, StageKind::ProviderStream)
            } else if finished {
                self.answered(
                    self.ends(self.emit(none, Emitted::Usage), StageKind::ProviderStream, true),
                )
            } else {
                TurnMachine { saw_usage: true, ..self }.ask(none, Phase::NextItem)
            },
            Phase::LookupTool => if ok {
                self.ask(none, Phase::AuthorizeTool)
            } else {
                self.refuse(
                    none.push(Action::RecordDenied(Denial::UnknownTool)),
                    SettlementReason::UnknownTool,
                    self.known(),
                    TurnError::UnknownTool,
                    LifecyclePhase::Provider,
                )
            },
            Phase::AuthorizeTool => if ok {
                self.ask(none, Phase::CheckCapabilities)
            } else {
                self.refuse(
                    none.push(Action::RecordDenied(Denial::Authorization)),
                    SettlementReason::ToolAuthorization,
                    self.known(),
                    TurnError::Reported,
                    LifecyclePhase::Submit,
                )
            },
            Phase::CheckCapabilities => if ok {
                self.ask(none, Phase::Approve)
            } else {
                self.refuse(
                    none.push(Action::RecordDenied(Denial::Capability)),
                    SettlementReason::CapabilityDenied,
                    self.known(),
                    TurnError::Reported,
                    LifecyclePhase::Submit,
                )
            },
            Phase::Approve => match event {
                TurnEvent::ApprovalDenied(answer) => self.gate(
                    none.push(Action::RecordDenied(Denial::Approval)),
                    ProbeSite::Approval(answer),
                ),
                _ => self.gate(none, ProbeSite::Approval(ApprovalAnswer::Granted)),
            },
            Phase::ObserveIntent => if ok {
                self.ask(none.push(Action::RecordPreEffect), Phase::InvokeTool)
            } else {
                self.abort(none, StageKind::ToolExec)
            },
            Phase::InvokeTool => match event {
                TurnEvent::Output { cost } => TurnMachine { output_cost: cost, ..self }.ask(
                    none,
                    Phase::ScanOutput,
                ),
                TurnEvent::TimedOut => self.ask(
                    none.push(Action::RecordTerminal(ToolEnd::TimedOut)),
                    Phase::ObserveOutcome(ToolEnd::TimedOut),
                ),
                _ => self.ask(
                    none.push(Action::RecordTerminal(ToolEnd::Failed)),
                    Phase::ObserveOutcome(ToolEnd::Failed),
                ),
            },
            Phase::ScanOutput => match event {
                TurnEvent::Scanned(verdict) => self.ask(
                    none.push(Action::RecordTerminal(ToolEnd::Completed(verdict))),
                    Phase::ObserveOutcome(ToolEnd::Completed(verdict)),
                ),
                _ => self.abort(none, StageKind::ToolExec),
            },
            Phase::ObserveOutcome(end) => if !ok {
                self.abort(none, StageKind::ToolExec)
            } else {
                self.gate(
                    match end {
                        ToolEnd::Completed(_) => none.push(
                            Action::RecordInvocation { completed: true },
                        ),
                        ToolEnd::Failed => none.push(Action::RecordInvocation { completed: false }),
                        ToolEnd::TimedOut => none,
                    },
                    ProbeSite::ToolDone(end),
                )
            },
            Phase::Settle(refusal) => self.refused(refusal, !ok),
            Phase::CommitRound => match event {
                TurnEvent::CommitFailed { cancelled } => {
                    let a = Self::fire(none, LifecyclePhase::Receipt, TurnError::Reported);
                    let b = self.ends(a, StageKind::ReceiptMint, false);
                    self.fail(
                        if cancelled && !self.config.stream {
                            self.mark_cancelled(b)
                        } else {
                            b
                        },
                        TurnError::Reported,
                    )
                },
                _ => self.committed(none),
            },
            Phase::SettleRound => if ok {
                self.finalized(self.ends(none, StageKind::CostGateFinalize, true))
            } else {
                self.reject(none, StageKind::CostGateFinalize, LifecyclePhase::Receipt)
            },
            Phase::RecordMemory => self.remembered(self.ends(none, StageKind::MemoryRecord, true)),
            Phase::AppendJournal => self.closed(self.ends(none, StageKind::JournalAppend, true)),
            Phase::FinishRefused => if ok {
                let error = TurnError::ToolLoopExhausted { iterations: self.iteration };
                self.fail(Self::fire(none, LifecyclePhase::Provider, error), error)
            } else {
                self.fail(none, TurnError::Reported)
            },
            Phase::Done => (self, none),
        }
    }

    /// The provider call is over.
    pub open spec fn provider_returned(self, a: Seq<Action>, failed: bool) -> TurnStep {
        if self.config.cancellable {
            self.ask(a, Phase::Probe(ProbeSite::Provider { failed }))
        } else if failed {
            self.fail(
                Self::fire(
                    a.push(Action::ReleaseFailure),
                    LifecyclePhase::Provider,
                    TurnError::Reported,
                ),
                TurnError::Reported,
            )
        } else {
            self.answered(a)
        }
    }
}

impl TurnMachine {
    /// A turn before its first step, and the actions it starts with.
    pub fn new(config: TurnConfig) -> (r: (TurnMachine, Vec<Action>))
        requires
            config.stream ==> !config.cancellable,
        ensures
            r.0 == started(config).0,
            r.1@ == started(config).1,
            r.0.wf(),
    {
        let m = TurnMachine {
            config,
            phase: Phase::VerifyToken,
            iteration: 0,
            committed_rounds: 0,
            total_cost: CostTuple::zero(),
            response_cost: CostTuple::zero(),
            tool_cost: CostTuple::zero(),
            output_cost: CostTuple::zero(),
            requested: 0,
            at: 0,
            content_len: 0,
            saw_usage: false,
        };
        let mut out: Vec<Action> = Vec::new();
        m.run_starts(&mut out, StageKind::CapTokenVerify);
        let m = m.run_ask(&mut out, Phase::VerifyToken);
        (m, out)
    }

    fn run_ask(self, out: &mut Vec<Action>, phase: Phase) -> (r: TurnMachine)
        ensures
            (r, final(out)@) == self.ask(old(out)@, phase),
    {
        out.push(Action::Ask(phase));
        TurnMachine { phase, ..self }
    }

    fn run_emit(self, out: &mut Vec<Action>, e: Emitted)
        ensures
            final(out)@ == self.emit(old(out)@, e),
    {
        if self.config.stream {
            out.push(Action::Emit(e));
        }
    }

    fn run_starts(self, out: &mut Vec<Action>, stage: StageKind)
        ensures
            final(out)@ == self.starts(old(out)@, stage),
    {
        self.run_emit(out, Emitted::StageStart { stage });
    }

    fn run_ends(self, out: &mut Vec<Action>, stage: StageKind, ok: bool)
        ensures
            final(out)@ == self.ends(old(out)@, stage, ok),
    {
        self.run_emit(out, Emitted::StageEnd { stage, ok });
    }

    fn run_fire(out: &mut Vec<Action>, phase: LifecyclePhase, error: TurnError)
        ensures
            final(out)@ == Self::fire(old(out)@, phase, error),
    {
        out.push(Action::FireError { phase, error });
    }

    fn run_fail(self, out: &mut Vec<Action>, error: TurnError) -> (r: TurnMachine)
        ensures
            (r, final(out)@) == self.fail(old(out)@, error),
    {
        out.push(Action::Fail { error, settlement: false });
        TurnMachine { phase: Phase::Done, ..self }
    }

    fn run_reject(self, out: &mut Vec<Action>, stage: StageKind, hook: LifecyclePhase) -> (r:
        TurnMachine)
        ensures
            (r, final(out)@) == self.reject(old(out)@, stage, hook),
    {
        self.run_ends(out, stage, false);
        Self::run_fire(out, hook, TurnError::Reported);
        self.run_fail(out, TurnError::Reported)
    }

    fn run_abort(self, out: &mut Vec<Action>, stage: StageKind) -> (r: TurnMachine)
        ensures
            (r, final(out)@) == self.abort(old(out)@, stage),
    {
        self.run_ends(out, stage, false);
        self.run_fail(out, TurnError::Reported)
    }

    fn run_mark_cancelled(self, out: &mut Vec<Action>)
        ensures
            final(out)@ == self.mark_cancelled(old(out)@),
    {
        if self.committed_rounds > 0 {
            out.push(Action::RecordCancellation { rounds: self.committed_rounds });
        }
    }

    fn run_refuse(
        self,
        out: &mut Vec<Action>,
        reason: SettlementReason,
        known: CostTuple,
        error: TurnError,
        hook: LifecyclePhase,
    ) -> (r: TurnMachine)
        ensures
            (r, final(out)@) == self.refuse(old(out)@, reason, known, error, hook),
    {
        let late = self.config.stream && reason == SettlementReason::ToolTimeoutUncertain;
        if !(reason == SettlementReason::ToolCapacity || late) {
            self.run_ends(out, StageKind::ToolExec, false);
        }
        self.run_ask(
            out,
            Phase::Settle(Refusal { reason, known, error, hook, end_stage: late }),
        )
    }

    fn run_known(self) -> (r: CostTuple)
        ensures
            r == self.known(),
    {
        self.response_cost.saturating_add(&self.tool_cost)
    }

    fn run_exhausted(self) -> (r: bool)
        ensures
            r == self.exhausted(),
    {
        self.requested > 0 && self.iteration >= self.config.max_tool_iterations
    }

    fn run_gate(self, out: &mut Vec<Action>, site: ProbeSite) -> (r: TurnMachine)
        requires
            self.iteration < u32::MAX || !(site is Round),
            site is ToolDone || site is ToolScanned ==> self.at < MAX_TOOLS_PER_ROUND,
        ensures
            (r, final(out)@) == self.gate(old(out)@, site),
    {
        if self.config.cancellable {
            self.run_ask(out, Phase::Probe(site))
        } else {
            self.run_passed_gate(out, site)
        }
    }

    fn run_passed_gate(self, out: &mut Vec<Action>, site: ProbeSite) -> (r: TurnMachine)
        requires
            self.iteration < u32::MAX || !(site is Round),
            site is ToolDone || site is ToolScanned ==> self.at < MAX_TOOLS_PER_ROUND,
        ensures
            (r, final(out)@) == self.passed_gate(old(out)@, site),
    {
        match site {
            ProbeSite::BeforePermit => self.run_ask(out, Phase::Permit),
            ProbeSite::AfterPermit => self.run_ask(out, Phase::BeginSettlement),
            ProbeSite::Round => {
                let m = TurnMachine {
                    iteration: self.iteration + 1,
                    response_cost: CostTuple::zero(),
                    tool_cost: CostTuple::zero(),
                    output_cost: CostTuple::zero(),
                    requested: 0,
                    at: 0,
                    content_len: 0,
                    saw_usage: false,
                    ..self
                };
                self.run_starts(out, StageKind::CostGateAdmit);
                m.run_ask(out, Phase::AdmitRound)
            },
            ProbeSite::ScanFailed => {
                Self::run_fire(out, LifecyclePhase::Submit, TurnError::Reported);
                self.run_fail(out, TurnError::Reported)
            },
            ProbeSite::AdmitFailed => {
                Self::run_fire(out, LifecyclePhase::Submit, TurnError::Reported);
                self.run_fail(out, TurnError::Reported)
            },
            ProbeSite::Admitted => {
                self.run_starts(out, StageKind::ProviderStream);
                self.run_ask(out, Phase::ObserveDispatch)
            },
            ProbeSite::Provider { failed } => {
                if failed {
                    out.push(Action::ReleaseFailure);
                    Self::run_fire(out, LifecyclePhase::Provider, TurnError::Reported);
                    self.run_fail(out, TurnError::Reported)
                } else {
                    self.run_answered(out)
                }
            },
            ProbeSite::Tool => self.run_ask(out, Phase::LookupTool),
            ProbeSite::Approval(answer) => match answer {
                ApprovalAnswer::Granted => self.run_ask(out, Phase::ObserveIntent),
                ApprovalAnswer::Required => self.run_refuse(
                    out,
                    SettlementReason::ApprovalRequired,
                    self.run_known(),
                    TurnError::Reported,
                    LifecyclePhase::Submit,
                ),
                ApprovalAnswer::Refused => self.run_refuse(
                    out,
                    SettlementReason::ApprovalRejected,
                    self.run_known(),
                    TurnError::Reported,
                    LifecyclePhase::Submit,
                ),
                ApprovalAnswer::Undetermined => self.run_refuse(
                    out,
                    SettlementReason::ApprovalFailed,
                    self.run_known(),
                    TurnError::Reported,
                    LifecyclePhase::Submit,
                ),
            },
            ProbeSite::ToolDone(end) => match end {
                ToolEnd::Completed(verdict) => {
                    if self.config.cancellable {
                        self.run_ask(out, Phase::Probe(ProbeSite::ToolScanned(verdict)))
                    } else {
                        self.run_scanned(out, verdict)
                    }
                },
                ToolEnd::Failed => self.run_refuse(
                    out,
                    SettlementReason::ToolFailed,
                    self.run_known(),
                    TurnError::Reported,
                    LifecyclePhase::Provider,
                ),
                ToolEnd::TimedOut => self.run_refuse(
                    out,
                    SettlementReason::ToolTimeoutUncertain,
                    self.run_known(),
                    TurnError::ToolTimeout,
                    LifecyclePhase::Provider,
                ),
            },
            ProbeSite::ToolScanned(verdict) => self.run_scanned(out, verdict),
            ProbeSite::BeforeCommit => {
                self.run_starts(out, StageKind::ReceiptMint);
                self.run_ask(out, Phase::CommitRound)
            },
        }
    }

    fn run_failed_gate(self, out: &mut Vec<Action>, site: ProbeSite) -> (r: TurnMachine)
        ensures
            (r, final(out)@) == self.failed_gate(old(out)@, site),
    {
        match site {
            ProbeSite::BeforePermit | ProbeSite::AfterPermit => {},
            ProbeSite::Round => {
                self.run_mark_cancelled(out);
                Self::run_fire(out, LifecyclePhase::Provider, TurnError::TurnCancelled);
            },
            ProbeSite::ScanFailed | ProbeSite::AdmitFailed => {
                self.run_mark_cancelled(out);
                Self::run_fire(out, LifecyclePhase::Submit, TurnError::TurnCancelled);
            },
            _ => {
                out.push(Action::Release);
                Self::run_fire(out, LifecyclePhase::Provider, TurnError::TurnCancelled);
                self.run_mark_cancelled(out);
            },
        }
        self.run_fail(out, TurnError::TurnCancelled)
    }

    fn run_answered(self, out: &mut Vec<Action>) -> (r: TurnMachine)
        ensures
            (r, final(out)@) == self.answered(old(out)@),
    {
        if self.requested > MAX_TOOLS_PER_ROUND {
            self.run_refuse(
                out,
                SettlementReason::ToolCapacity,
                self.response_cost,
                TurnError::ToolBatchTooLarge { requested: self.requested },
                LifecyclePhase::Provider,
            )
        } else if self.requested > 0 && !self.run_exhausted() {
            self.run_starts(out, StageKind::ToolExec);
            self.run_next_tool(out)
        } else {
            self.run_before_commit(out)
        }
    }

    fn run_next_tool(self, out: &mut Vec<Action>) -> (r: TurnMachine)
        ensures
            (r, final(out)@) == self.next_tool(old(out)@),
    {
        if self.config.cancellable {
            self.run_ask(out, Phase::Probe(ProbeSite::Tool))
        } else {
            self.run_ask(out, Phase::LookupTool)
        }
    }

    fn run_scanned(self, out: &mut Vec<Action>, verdict: ScanVerdict) -> (r: TurnMachine)
        requires
            self.at < MAX_TOOLS_PER_ROUND,
        ensures
            (r, final(out)@) == self.scanned(old(out)@, verdict),
    {
        if verdict != ScanVerdict::Allowed {
            let known = self.run_known().saturating_add(&self.output_cost);
            return self.run_refuse(
                out,
                if verdict == ScanVerdict::Undetermined {
                    SettlementReason::OutputScanFailed
                } else {
                    SettlementReason::OutputScan
                },
                known,
                TurnError::Reported,
                LifecyclePhase::Submit,
            );
        }
        self.run_emit(out, Emitted::ToolCallResult);
        out.push(Action::KeepResult);
        let m = TurnMachine {
            tool_cost: self.tool_cost.saturating_add(&self.output_cost),
            at: self.at + 1,
            ..self
        };
        if m.at < m.requested {
            m.run_next_tool(out)
        } else {
            m.run_ends(out, StageKind::ToolExec, true);
            m.run_before_commit(out)
        }
    }

    fn run_before_commit(self, out: &mut Vec<Action>) -> (r: TurnMachine)
        ensures
            (r, final(out)@) == self.before_commit(old(out)@),
    {
        if self.config.cancellable {
            self.run_ask(out, Phase::Probe(ProbeSite::BeforeCommit))
        } else {
            self.run_starts(out, StageKind::ReceiptMint);
            self.run_ask(out, Phase::CommitRound)
        }
    }

    fn run_committed(self, out: &mut Vec<Action>) -> (r: TurnMachine)
        ensures
            (r, final(out)@) == self.committed(old(out)@),
    {
        self.run_emit(out, Emitted::Receipt);
        self.run_ends(out, StageKind::ReceiptMint, true);
        out.push(Action::PostReceipt);
        self.run_starts(out, StageKind::CostGateFinalize);
        self.run_ask(out, Phase::SettleRound)
    }

    fn run_finalized(self, out: &mut Vec<Action>) -> (r: TurnMachine)
        requires
            self.committed_rounds < self.iteration,
        ensures
            (r, final(out)@) == self.finalized(old(out)@),
    {
        if self.config.memory {
            self.run_starts(out, StageKind::MemoryRecord);
            self.run_ask(out, Phase::RecordMemory)
        } else {
            self.run_remembered(out)
        }
    }

    fn run_remembered(self, out: &mut Vec<Action>) -> (r: TurnMachine)
        requires
            self.committed_rounds < self.iteration,
        ensures
            (r, final(out)@) == self.remembered(old(out)@),
    {
        if self.config.journal {
            self.run_starts(out, StageKind::JournalAppend);
            self.run_ask(out, Phase::AppendJournal)
        } else {
            self.run_closed(out)
        }
    }

    fn run_closed(self, out: &mut Vec<Action>) -> (r: TurnMachine)
        requires
            self.committed_rounds < self.iteration,
        ensures
            (r, final(out)@) == self.closed(old(out)@),
    {
        if self.requested == 0 {
            out.push(Action::ReleasePermit);
        }
        self.run_settled(out)
    }

    fn run_settled(self, out: &mut Vec<Action>) -> (r: TurnMachine)
        requires
            self.committed_rounds < self.iteration,
        ensures
            (r, final(out)@) == self.settled(old(out)@),
    {
        let total = if self.config.stream {
            self.total_cost
        } else {
            match self.total_cost.checked_add(&self.run_known()) {
                Some(total) => total,
                None => {
                    return self.run_fail(out, TurnError::CostOverflow);
                },
            }
        };
        let m = TurnMachine {
            total_cost: total,
            committed_rounds: self.committed_rounds + 1,
            ..self
        };
        if m.requested == 0 {
            m.run_emit(out, Emitted::Finish);
            out.push(Action::Answer { total: m.total_cost });
            TurnMachine { phase: Phase::Done, ..m }
        } else if m.run_exhausted() {
            m.run_ask(out, Phase::FinishRefused)
        } else {
            out.push(Action::FoldRound);
            m.run_gate(out, ProbeSite::Round)
        }
    }

    fn run_refused(self, out: &mut Vec<Action>, refusal: Refusal, failed: bool) -> (r: TurnMachine)
        requires
            old(out)@ == Seq::<Action>::empty(),
        ensures
            (r, final(out)@) == self.refused(refusal, failed),
    {
        if refusal.end_stage {
            self.run_ends(out, StageKind::ToolExec, false);
        }
        Self::run_fire(out, refusal.hook, refusal.error);
        out.push(Action::Fail { error: refusal.error, settlement: failed });
        TurnMachine { phase: Phase::Done, ..self }
    }

    fn run_stream_failed(self, out: &mut Vec<Action>) -> (r: TurnMachine)
        ensures
            (r, final(out)@) == self.stream_failed(old(out)@),
    {
        out.push(Action::ReleaseFailure);
        self.run_ends(out, StageKind::ProviderStream, false);
        Self::run_fire(out, LifecyclePhase::Provider, TurnError::Reported);
        self.run_fail(out, TurnError::Reported)
    }

    fn run_item(self, out: &mut Vec<Action>, event: TurnEvent) -> (r: TurnMachine)
        requires
            old(out)@ == Seq::<Action>::empty(),
        ensures
            (r, final(out)@) == self.item(event),
    {
        if event == TurnEvent::StreamEnd {
            if self.saw_usage {
                return self.run_ask(out, Phase::ObserveUsage { finished: true });
            }
            out.push(Action::ReleaseFailure);
            assert(out@ =~= seq![Action::ReleaseFailure]);
            self.run_ends(out, StageKind::ProviderStream, false);
            return self.run_fail(out, TurnError::ProviderUnavailable);
        }
        out.push(Action::TouchReservation);
        assert(out@ =~= seq![Action::TouchReservation]);
        match event {
            TurnEvent::Delta { bytes } => {
                let length: usize = self.content_len.saturating_add(bytes);
                let m = TurnMachine { content_len: length, ..self };
                if length > self.config.stream_content_max_bytes {
                    let error = TurnError::StreamedContentCapExceeded {
                        limit: self.config.stream_content_max_bytes,
                        actual: length,
                    };
                    out.push(Action::ReleaseFailure);
                    m.run_ends(out, StageKind::ProviderStream, false);
                    Self::run_fire(out, LifecyclePhase::Provider, error);
                    m.run_fail(out, error)
                } else {
                    m.run_emit(out, Emitted::Content);
                    m.run_ask(out, Phase::NextItem)
                }
            },
            TurnEvent::CallStart => {
                self.run_emit(out, Emitted::ToolCallStart);
                self.run_ask(out, Phase::NextItem)
            },
            TurnEvent::CallDelta => {
                self.run_emit(out, Emitted::ToolCallDelta);
                self.run_ask(out, Phase::NextItem)
            },
            TurnEvent::Usage { cost } => {
                let m = TurnMachine { response_cost: cost, ..self };
                m.run_ask(out, Phase::ObserveUsage { finished: false })
            },
            TurnEvent::FinishReason { requested } => {
                let m = TurnMachine { requested, ..self };
                m.run_ask(out, Phase::NextItem)
            },
            TurnEvent::Failed => self.run_stream_failed(out),
            _ => self.run_ask(out, Phase::NextItem),
        }
    }

    fn run_setup_failed(self, out: &mut Vec<Action>, site: ProbeSite) -> (r: TurnMachine)
        ensures
            (r, final(out)@) == self.setup_failed(old(out)@, site),
    {
        if self.config.cancellable && self.committed_rounds > 0 {
            self.run_ask(out, Phase::Probe(site))
        } else {
            Self::run_fire(out, LifecyclePhase::Submit, TurnError::Reported);
            self.run_fail(out, TurnError::Reported)
        }
    }

    fn run_provider_returned(self, out: &mut Vec<Action>, failed: bool) -> (r: TurnMachine)
        ensures
            (r, final(out)@) == self.provider_returned(old(out)@, failed),
    {
        if self.config.cancellable {
            self.run_ask(out, Phase::Probe(ProbeSite::Provider { failed }))
        } else if failed {
            out.push(Action::ReleaseFailure);
            Self::run_fire(out, LifecyclePhase::Provider, TurnError::Reported);
            self.run_fail(out, TurnError::Reported)
        } else {
            self.run_answered(out)
        }
    }

    /// Whether the event answers what the turn waits for.
    pub fn is_expected(&self, event: &TurnEvent) -> (r: bool)
        ensures
            r == self.expects(*event),
    {
        match self.phase {
            Phase::Probe(_) => matches!(event, TurnEvent::Probed(_)),
            Phase::CallProvider => matches!(event, TurnEvent::Response { .. } | TurnEvent::Failed),
            Phase::NextItem => matches!(
                event,
                TurnEvent::Delta { .. }
                    | TurnEvent::CallStart
                    | TurnEvent::CallDelta
                    | TurnEvent::Usage { .. }
                    | TurnEvent::FinishReason { .. }
                    | TurnEvent::ServedModel
                    | TurnEvent::StreamEnd
                    | TurnEvent::Failed
            ),
            Phase::Approve => matches!(
                event,
                TurnEvent::Passed
                    | TurnEvent::ApprovalDenied(ApprovalAnswer::Required)
                    | TurnEvent::ApprovalDenied(ApprovalAnswer::Refused)
                    | TurnEvent::ApprovalDenied(ApprovalAnswer::Undetermined)
            ),
            Phase::InvokeTool => matches!(
                event,
                TurnEvent::Output { .. } | TurnEvent::Failed | TurnEvent::TimedOut
            ),
            Phase::ScanOutput => matches!(event, TurnEvent::Scanned(_)),
            Phase::CommitRound => matches!(
                event,
                TurnEvent::Passed | TurnEvent::CommitFailed { .. }
            ),
            Phase::Permit | Phase::RecordMemory | Phase::AppendJournal => {
                matches!(event, TurnEvent::Passed)
            },
            Phase::Done => false,
            _ => matches!(event, TurnEvent::Passed | TurnEvent::Failed),
        }
    }

    /// Goes on with the answer to what the turn waits for: the actions to
    /// perform, in order.
    pub fn advance(&mut self, event: TurnEvent) -> (actions: Vec<Action>)
        requires
            old(self).wf(),
            old(self).expects(event),
        ensures
            (*final(self), actions@) == old(self).next(event),
            final(self).wf(),
    {
        let m = *self;
        proof {
            crate::turn_laws::law_every_step_is_sound(m, event);
        }
        let mut out: Vec<Action> = Vec::new();
        let ok = event == TurnEvent::Passed;
        *self =
        match m.phase {
            Phase::VerifyToken => {
                if ok {
                    m.run_ends(&mut out, StageKind::CapTokenVerify, true);
                    m.run_starts(&mut out, StageKind::CedarCheck);
                    m.run_ask(&mut out, Phase::CheckPolicy)
                } else {
                    m.run_reject(&mut out, StageKind::CapTokenVerify, LifecyclePhase::Submit)
                }
            },
            Phase::CheckPolicy => {
                if ok {
                    m.run_ends(&mut out, StageKind::CedarCheck, true);
                    if m.config.cancellable {
                        m.run_ask(&mut out, Phase::Probe(ProbeSite::BeforePermit))
                    } else {
                        m.run_ask(&mut out, Phase::Permit)
                    }
                } else {
                    m.run_reject(&mut out, StageKind::CedarCheck, LifecyclePhase::Submit)
                }
            },
            Phase::Permit => {
                if m.config.cancellable {
                    m.run_ask(&mut out, Phase::Probe(ProbeSite::AfterPermit))
                } else {
                    m.run_ask(&mut out, Phase::BeginSettlement)
                }
            },
            Phase::BeginSettlement => {
                if ok {
                    m.run_ask(&mut out, Phase::CostSetup)
                } else {
                    m.run_fail(&mut out, TurnError::Reported)
                }
            },
            Phase::CostSetup => {
                if ok {
                    m.run_gate(&mut out, ProbeSite::Round)
                } else {
                    Self::run_fire(&mut out, LifecyclePhase::Submit, TurnError::Reported);
                    m.run_fail(&mut out, TurnError::Reported)
                }
            },
            Phase::Probe(site) => {
                if event == TurnEvent::Probed(true) {
                    m.run_failed_gate(&mut out, site)
                } else {
                    m.run_passed_gate(&mut out, site)
                }
            },
            Phase::AdmitRound => {
                if ok {
                    m.run_ends(&mut out, StageKind::CostGateAdmit, true);
                    if m.iteration == 1 {
                        m.run_ask(&mut out, Phase::PreSubmit)
                    } else {
                        m.run_starts(&mut out, StageKind::InjectionScan);
                        m.run_ask(&mut out, Phase::ScanRequest)
                    }
                } else {
                    m.run_ends(&mut out, StageKind::CostGateAdmit, false);
                    m.run_setup_failed(&mut out, ProbeSite::AdmitFailed)
                }
            },
            Phase::PreSubmit => {
                if ok {
                    m.run_ask(&mut out, Phase::Recall)
                } else {
                    out.push(Action::Release);
                    m.run_fail(&mut out, TurnError::Reported)
                }
            },
            Phase::Recall => {
                if ok {
                    m.run_starts(&mut out, StageKind::InjectionScan);
                    m.run_ask(&mut out, Phase::ScanRequest)
                } else {
                    out.push(Action::Release);
                    Self::run_fire(&mut out, LifecyclePhase::MemoryWrite, TurnError::Reported);
                    m.run_fail(&mut out, TurnError::Reported)
                }
            },
            Phase::ScanRequest => {
                if ok {
                    m.run_ends(&mut out, StageKind::InjectionScan, true);
                    m.run_gate(&mut out, ProbeSite::Admitted)
                } else {
                    out.push(Action::Release);
                    m.run_ends(&mut out, StageKind::InjectionScan, false);
                    m.run_setup_failed(&mut out, ProbeSite::ScanFailed)
                }
            },
            Phase::ObserveDispatch => {
                if !ok {
                    m.run_abort(&mut out, StageKind::ProviderStream)
                } else if m.config.stream {
                    m.run_ask(&mut out, Phase::OpenStream)
                } else {
                    m.run_ask(&mut out, Phase::CallProvider)
                }
            },
            Phase::CallProvider => match event {
                TurnEvent::Response { cost, requested } => {
                    let n = TurnMachine { response_cost: cost, requested, ..m };
                    n.run_ask(&mut out, Phase::ObserveResponse)
                },
                _ => m.run_provider_returned(&mut out, true),
            },
            Phase::ObserveResponse => {
                if ok {
                    out.push(Action::TouchReservation);
                    m.run_provider_returned(&mut out, false)
                } else {
                    m.run_fail(&mut out, TurnError::Reported)
                }
            },
            Phase::OpenStream => {
                if ok {
                    m.run_ask(&mut out, Phase::NextItem)
                } else {
                    m.run_stream_failed(&mut out)
                }
            },
            Phase::NextItem => m.run_item(&mut out, event),
            Phase::ObserveUsage { finished } => {
                if !ok {
                    m.run_abort(&mut out, StageKind::ProviderStream)
                } else if finished {
                    m.run_emit(&mut out, Emitted::Usage);
                    m.run_ends(&mut out, StageKind::ProviderStream, true);
                    m.run_answered(&mut out)
                } else {
                    let n = TurnMachine { saw_usage: true, ..m };
                    n.run_ask(&mut out, Phase::NextItem)
                }
            },
            Phase::LookupTool => {
                if ok {
                    m.run_ask(&mut out, Phase::AuthorizeTool)
                } else {
                    out.push(Action::RecordDenied(Denial::UnknownTool));
                    m.run_refuse(
                        &mut out,
                        SettlementReason::UnknownTool,
                        m.run_known(),
                        TurnError::UnknownTool,
                        LifecyclePhase::Provider,
                    )
                }
            },
            Phase::AuthorizeTool => {
                if ok {
                    m.run_ask(&mut out, Phase::CheckCapabilities)
                } else {
                    out.push(Action::RecordDenied(Denial::Authorization));
                    m.run_refuse(
                        &mut out,
                        SettlementReason::ToolAuthorization,
                        m.run_known(),
                        TurnError::Reported,
                        LifecyclePhase::Submit,
                    )
                }
            },
            Phase::CheckCapabilities => {
                if ok {
                    m.run_ask(&mut out, Phase::Approve)
                } else {
                    out.push(Action::RecordDenied(Denial::Capability));
                    m.run_refuse(
                        &mut out,
                        SettlementReason::CapabilityDenied,
                        m.run_known(),
                        TurnError::Reported,
                        LifecyclePhase::Submit,
                    )
                }
            },
            Phase::Approve => match event {
                TurnEvent::ApprovalDenied(answer) => {
                    out.push(Action::RecordDenied(Denial::Approval));
                    m.run_gate(&mut out, ProbeSite::Approval(answer))
                },
                _ => m.run_gate(&mut out, ProbeSite::Approval(ApprovalAnswer::Granted)),
            },
            Phase::ObserveIntent => {
                if ok {
                    out.push(Action::RecordPreEffect);
                    m.run_ask(&mut out, Phase::InvokeTool)
                } else {
                    m.run_abort(&mut out, StageKind::ToolExec)
                }
            },
            Phase::InvokeTool => match event {
                TurnEvent::Output { cost } => {
                    let n = TurnMachine { output_cost: cost, ..m };
                    n.run_ask(&mut out, Phase::ScanOutput)
                },
                TurnEvent::TimedOut => {
                    out.push(Action::RecordTerminal(ToolEnd::TimedOut));
                    m.run_ask(&mut out, Phase::ObserveOutcome(ToolEnd::TimedOut))
                },
                _ => {
                    out.push(Action::RecordTerminal(ToolEnd::Failed));
                    m.run_ask(&mut out, Phase::ObserveOutcome(ToolEnd::Failed))
                },
            },
            Phase::ScanOutput => match event {
                TurnEvent::Scanned(verdict) => {
                    out.push(Action::RecordTerminal(ToolEnd::Completed(verdict)));
                    m.run_ask(&mut out, Phase::ObserveOutcome(ToolEnd::Completed(verdict)))
                },
                _ => m.run_abort(&mut out, StageKind::ToolExec),
            },
            Phase::ObserveOutcome(end) => {
                if !ok {
                    m.run_abort(&mut out, StageKind::ToolExec)
                } else {
                    match end {
                        ToolEnd::Completed(_) => {
                            out.push(Action::RecordInvocation { completed: true });
                        },
                        ToolEnd::Failed => {
                            out.push(Action::RecordInvocation { completed: false });
                        },
                        ToolEnd::TimedOut => {},
                    }
                    m.run_gate(&mut out, ProbeSite::ToolDone(end))
                }
            },
            Phase::Settle(refusal) => m.run_refused(&mut out, refusal, !ok),
            Phase::CommitRound => match event {
                TurnEvent::CommitFailed { cancelled } => {
                    Self::run_fire(&mut out, LifecyclePhase::Receipt, TurnError::Reported);
                    m.run_ends(&mut out, StageKind::ReceiptMint, false);
                    if cancelled && !m.config.stream {
                        m.run_mark_cancelled(&mut out);
                    }
                    m.run_fail(&mut out, TurnError::Reported)
                },
                _ => m.run_committed(&mut out),
            },
            Phase::SettleRound => {
                if ok {
                    m.run_ends(&mut out, StageKind::CostGateFinalize, true);
                    m.run_finalized(&mut out)
                } else {
                    m.run_reject(&mut out, StageKind::CostGateFinalize, LifecyclePhase::Receipt)
                }
            },
            Phase::RecordMemory => {
                m.run_ends(&mut out, StageKind::MemoryRecord, true);
                m.run_remembered(&mut out)
            },
            Phase::AppendJournal => {
                m.run_ends(&mut out, StageKind::JournalAppend, true);
                m.run_closed(&mut out)
            },
            Phase::FinishRefused => {
                if ok {
                    let error = TurnError::ToolLoopExhausted { iterations: m.iteration };
                    Self::run_fire(&mut out, LifecyclePhase::Provider, error);
                    m.run_fail(&mut out, error)
                } else {
                    m.run_fail(&mut out, TurnError::Reported)
                }
            },
            Phase::Done => m,
        };
        out
    }
}

/// A turn before its first step.
pub open spec fn started(config: TurnConfig) -> TurnStep {
    let m = TurnMachine {
        config,
        phase: Phase::VerifyToken,
        iteration: 0,
        committed_rounds: 0,
        total_cost: CostTuple::zero(),
        response_cost: CostTuple::zero(),
        tool_cost: CostTuple::zero(),
        output_cost: CostTuple::zero(),
        requested: 0,
        at: 0,
        content_len: 0,
        saw_usage: false,
    };
    m.ask(m.starts(Seq::empty(), StageKind::CapTokenVerify), Phase::VerifyToken)
}

} // verus!
