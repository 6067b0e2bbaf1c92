//! How tools, memory writes and refusals are classified as evidence.
//!
//! An effect that provably never happened is a typed denial. A check that
//! could not be made is insufficient evidence, never a violation. An effect
//! that may have happened stays unknown.
use crate::errors;
use crate::errors::{CapTokenError, RuntimeError};
use crate::text;
use crate::text::begins_with;
use crate::turn::Denial;
use vstd::prelude::*;
use vstd::string::StringExecFns;

verus! {

/// What a tool may do.
#[derive(Clone, Copy, Debug, PartialEq, Eq, Structural)]
pub enum CapabilityKind {
    FsRead,
    FsWrite,
    ShellExec,
    ProcessSpawn,
    NetworkOut,
    EnvRead,
    ClipboardRead,
    VoiceInput,
    VoiceOutput,
    ImageGenerate,
    ImageAnalyze,
    /// A capability that declares nothing of its effect.
    Custom,
}

/// A capability with the label that a token grants it by.
#[derive(Debug)]
pub struct Capability {
    pub kind: CapabilityKind,
    pub label: String,
}

/// What kind of action an event is.
#[derive(Clone, Copy, Debug, PartialEq, Eq, Structural)]
pub enum ActionClass {
    Observe,
    Read,
    Write,
    Send,
    Summarize,
}

/// What kind of trace an event leaves.
#[derive(Clone, Copy, Debug, PartialEq, Eq, Structural)]
pub enum SideEffectClass {
    NoEffect,
    InternalWrite,
    StateChange,
    ExternalSend,
}

/// Why an event was refused, as it is made public.
#[derive(Clone, Copy, Debug, PartialEq, Eq, Structural)]
pub enum PublicDenialReason {
    PolicyDenied,
    Revoked,
    ChainInvalid,
    BudgetExhausted,
    InsufficientEvidence,
}

/// A refusal: its public reason and its audit code.
#[derive(Clone, Copy, Debug, PartialEq, Eq)]
pub struct DeniedOutcome {
    pub public: PublicDenialReason,
    pub internal: &'static str,
}

/// How an evaluated event ended, where it did not complete.
#[derive(Clone, Copy, Debug, PartialEq, Eq)]
pub enum EventOutcome {
    /// The effect never happened.
    Denied(DeniedOutcome),
    /// The effect may have happened.
    FailedUnknown,
    /// The effect did not return in time and may have happened.
    TimeoutUnknown,
}

/// How a tool invocation failed.
#[derive(Debug)]
pub enum ToolError {
    Denied { reason: String },
    CapabilityDenied(Capability),
    CapTokenDenied { reason: String },
    InvalidArgs(String),
    CostCeilingExceeded,
    NotImplemented(String),
    ExecutionFailed(String),
    OutputTooLarge { actual: usize, max: usize },
    Internal(String),
    Timeout,
}

/// How a memory write failed.
#[derive(Clone, Copy, Debug, PartialEq, Eq, Structural)]
pub enum MemoryError {
    CapabilityDenied,
    PolicyDenied,
    PolicyIndeterminate,
    SubjectMismatch,
    ReceiptRequired,
    Malformed,
    NotFound,
    LockPoisoned,
    Backend,
}

/// A refusal with this reason and audit code.
pub open spec fn denied(public: PublicDenialReason, internal: &'static str) -> EventOutcome {
    EventOutcome::Denied(DeniedOutcome { public, internal })
}

fn deny(public: PublicDenialReason, internal: &'static str) -> (r: EventOutcome)
    ensures
        r == denied(public, internal),
{
    EventOutcome::Denied(DeniedOutcome { public, internal })
}

/// The outcome of a failed tool: the typed refusals come before the effect,
/// the other failures may have come behind it.
pub open spec fn tool_outcome(error: ToolError) -> EventOutcome {
    match error {
        ToolError::Denied { .. } => denied(PublicDenialReason::PolicyDenied, "tool_policy_denied"),
        ToolError::CapabilityDenied(_) => denied(
            PublicDenialReason::PolicyDenied,
            "tool_capability_denied",
        ),
        ToolError::CapTokenDenied { .. } => denied(
            PublicDenialReason::PolicyDenied,
            "tool_cap_token_denied",
        ),
        ToolError::InvalidArgs(_) => denied(
            PublicDenialReason::PolicyDenied,
            "tool_invalid_arguments",
        ),
        ToolError::CostCeilingExceeded => denied(
            PublicDenialReason::BudgetExhausted,
            "tool_cost_ceiling_exceeded",
        ),
        ToolError::NotImplemented(_) => denied(
            PublicDenialReason::InsufficientEvidence,
            "tool_not_implemented",
        ),
        ToolError::ExecutionFailed(_) => EventOutcome::FailedUnknown,
        ToolError::OutputTooLarge { .. } => EventOutcome::FailedUnknown,
        ToolError::Internal(_) => EventOutcome::FailedUnknown,
        ToolError::Timeout => EventOutcome::TimeoutUnknown,
    }
}

/// A failed tool is filed as refused exactly if its effect cannot have
/// happened: a policy, a capability, a token, its arguments, its cost ceiling or
/// a missing implementation stopped it. One that failed on the way may have had
/// its effect, and one that did not return in time may still have it.
pub proof fn law_only_a_tool_that_cannot_have_run_is_refused(error: ToolError)
    ensures
        tool_outcome(error) is Denied <==> error is Denied || error is CapabilityDenied || error
            is CapTokenDenied || error is InvalidArgs || error is CostCeilingExceeded || error
            is NotImplemented,
        tool_outcome(error) == EventOutcome::FailedUnknown <==> error is ExecutionFailed || error
            is OutputTooLarge || error is Internal,
        tool_outcome(error) == EventOutcome::TimeoutUnknown <==> error is Timeout,
        tool_outcome(error) matches EventOutcome::Denied(outcome) ==> {
            &&& outcome.public == PublicDenialReason::BudgetExhausted <==> error
                is CostCeilingExceeded
            &&& outcome.public == PublicDenialReason::InsufficientEvidence <==> error
                is NotImplemented
            &&& outcome.public == PublicDenialReason::PolicyDenied <==> error is Denied || error
                is CapabilityDenied || error is CapTokenDenied || error is InvalidArgs
        },
{
}

/// The outcome of a failed tool.
pub fn tool_error_event_outcome(error: &ToolError) -> (r: EventOutcome)
    ensures
        r == tool_outcome(*error),
{
    match error {
        ToolError::Denied { .. } => deny(PublicDenialReason::PolicyDenied, "tool_policy_denied"),
        ToolError::CapabilityDenied(_) => deny(
            PublicDenialReason::PolicyDenied,
            "tool_capability_denied",
        ),
        ToolError::CapTokenDenied { .. } => deny(
            PublicDenialReason::PolicyDenied,
            "tool_cap_token_denied",
        ),
        ToolError::InvalidArgs(_) => deny(
            PublicDenialReason::PolicyDenied,
            "tool_invalid_arguments",
        ),
        ToolError::CostCeilingExceeded => deny(
            PublicDenialReason::BudgetExhausted,
            "tool_cost_ceiling_exceeded",
        ),
        ToolError::NotImplemented(_) => deny(
            PublicDenialReason::InsufficientEvidence,
            "tool_not_implemented",
        ),
        ToolError::ExecutionFailed(_) => EventOutcome::FailedUnknown,
        ToolError::OutputTooLarge { .. } => EventOutcome::FailedUnknown,
        ToolError::Internal(_) => EventOutcome::FailedUnknown,
        ToolError::Timeout => EventOutcome::TimeoutUnknown,
    }
}

/// What a failed tool is reported as: authorization denials and timeouts keep
/// their type, everything else is internal.
pub open spec fn tool_report(error: ToolError, tool: Seq<char>, rendered: Seq<char>, r: RuntimeError)
    -> bool {
    match error {
        ToolError::CapTokenDenied { reason } => r == (RuntimeError::CapDenied {
            cause: None,
            reason,
        }),
        ToolError::CapabilityDenied(capability) => r matches RuntimeError::CapDenied {
            cause: None,
            reason,
        } && reason@ == "tool `"@ + tool + "` requires capability `"@ + capability.label@ + "`"@,
        ToolError::Timeout => r matches RuntimeError::ToolTimeout { tool: named } && named@ == tool,
        _ => r matches RuntimeError::Internal(text) && text@ == "tool `"@ + tool + "` failed: "@
            + rendered,
    }
}

/// Maps a failed tool onto the runtime's errors; `rendered` is the tool
/// error's own text.
pub fn map_tool_error(error: ToolError, tool: &str, rendered: &str) -> (r: RuntimeError)
    ensures
        tool_report(error, tool@, rendered@, r),
        r is CapDenied <==> error is CapTokenDenied || error is CapabilityDenied,
        r is ToolTimeout <==> error is Timeout,
        r is Internal <==> !(error is CapTokenDenied || error is CapabilityDenied || error
            is Timeout),
        error matches ToolError::CapTokenDenied { reason } ==> (r matches RuntimeError::CapDenied {
            reason: told,
            ..
        } && told == reason),
{
    match error {
        ToolError::CapTokenDenied { reason } => RuntimeError::CapDenied { cause: None, reason },
        ToolError::CapabilityDenied(capability) => {
            let mut reason: String = String::from_str("tool `");
            reason.append(tool);
            reason.append("` requires capability `");
            reason.append(capability.label.as_str());
            reason.append("`");
            RuntimeError::CapDenied { cause: None, reason }
        },
        ToolError::Timeout => RuntimeError::ToolTimeout { tool: String::from_str(tool) },
        _ => {
            let mut text: String = String::from_str("tool `");
            text.append(tool);
            text.append("` failed: ");
            text.append(rendered);
            RuntimeError::Internal(text)
        },
    }
}

/// The classification of a refusal at a tool's gate. Only a denial that the
/// token or the policy made is a violation.
pub open spec fn gate_refusal(error: RuntimeError) -> DeniedOutcome {
    match error {
        RuntimeError::CapTokenExpired => DeniedOutcome {
            public: PublicDenialReason::PolicyDenied,
            internal: "grant_expired",
        },
        RuntimeError::CapDenied { cause, .. } => match cause {
            Some(CapTokenError::Revoked) => DeniedOutcome {
                public: PublicDenialReason::Revoked,
                internal: "revoked",
            },
            Some(CapTokenError::AudienceMismatch) => DeniedOutcome {
                public: PublicDenialReason::PolicyDenied,
                internal: "audience_mismatch",
            },
            Some(CapTokenError::SignatureInvalid) => DeniedOutcome {
                public: PublicDenialReason::ChainInvalid,
                internal: "signature_invalid",
            },
            Some(CapTokenError::BudgetExhausted) => DeniedOutcome {
                public: PublicDenialReason::BudgetExhausted,
                internal: "budget_exhausted",
            },
            _ => DeniedOutcome {
                public: PublicDenialReason::PolicyDenied,
                internal: "tool_not_allowed",
            },
        },
        RuntimeError::PolicyDenied { reason } => if text::has_prefix(
            reason@,
            "indeterminate:"@,
        ) {
            DeniedOutcome {
                public: PublicDenialReason::InsufficientEvidence,
                internal: "policy_indeterminate",
            }
        } else {
            DeniedOutcome { public: PublicDenialReason::PolicyDenied, internal: "policy_denied" }
        },
        _ => DeniedOutcome {
            public: PublicDenialReason::InsufficientEvidence,
            internal: "tool_invocation_error",
        },
    }
}

/// A refusal at a tool's gate is filed under what the token or the policy said:
/// a revoked token as revoked, a broken signature as an invalid chain, a spent
/// one as a spent budget, and any other denial by the token, an expired one
/// among them, or by an evaluated policy as a denial. Whatever else failed is
/// insufficient evidence.
pub proof fn law_a_gate_refusal_is_filed_under_its_cause(error: RuntimeError)
    ensures
        gate_refusal(error).public == PublicDenialReason::Revoked <==> (error matches
            RuntimeError::CapDenied { cause: Some(CapTokenError::Revoked), .. }),
        gate_refusal(error).public == PublicDenialReason::ChainInvalid <==> (error matches
            RuntimeError::CapDenied { cause: Some(CapTokenError::SignatureInvalid), .. }),
        gate_refusal(error).public == PublicDenialReason::BudgetExhausted <==> (error matches
            RuntimeError::CapDenied { cause: Some(CapTokenError::BudgetExhausted), .. }),
        gate_refusal(error).public == PublicDenialReason::InsufficientEvidence <==> (error matches
            RuntimeError::PolicyDenied { reason } && text::has_prefix(reason@, "indeterminate:"@))
            || !(error is CapTokenExpired || error is CapDenied || error is PolicyDenied),
{
}

/// A refusal at the approval gate is a denial exactly if a human decision is
/// missing or negative, and names which; anything else is insufficient
/// evidence.
pub proof fn law_an_approval_refusal_is_a_human_decision(error: RuntimeError)
    ensures
        approval_refusal(error).public == PublicDenialReason::PolicyDenied <==> error
            is ApprovalRequired || error is ApprovalRejected,
        approval_refusal(error).public == PublicDenialReason::InsufficientEvidence <==> !(error
            is ApprovalRequired || error is ApprovalRejected),
        error is ApprovalRequired ==> approval_refusal(error).internal == "approval_required",
        error is ApprovalRejected ==> approval_refusal(error).internal == "approval_rejected",
{
}

/// Classifies a refusal at a tool's gate.
pub fn tool_auth_denial_classification(error: &RuntimeError) -> (r: DeniedOutcome)
    ensures
        r == gate_refusal(*error),
{
    match error {
        RuntimeError::CapTokenExpired => DeniedOutcome {
            public: PublicDenialReason::PolicyDenied,
            internal: "grant_expired",
        },
        RuntimeError::CapDenied { cause, .. } => match cause {
            Some(CapTokenError::Revoked) => DeniedOutcome {
                public: PublicDenialReason::Revoked,
                internal: "revoked",
            },
            Some(CapTokenError::AudienceMismatch) => DeniedOutcome {
                public: PublicDenialReason::PolicyDenied,
                internal: "audience_mismatch",
            },
            Some(CapTokenError::SignatureInvalid) => DeniedOutcome {
                public: PublicDenialReason::ChainInvalid,
                internal: "signature_invalid",
            },
            Some(CapTokenError::BudgetExhausted) => DeniedOutcome {
                public: PublicDenialReason::BudgetExhausted,
                internal: "budget_exhausted",
            },
            _ => DeniedOutcome {
                public: PublicDenialReason::PolicyDenied,
                internal: "tool_not_allowed",
            },
        },
        RuntimeError::PolicyDenied { reason } => {
            if begins_with(reason.as_str(), "indeterminate:") {
                DeniedOutcome {
                    public: PublicDenialReason::InsufficientEvidence,
                    internal: "policy_indeterminate",
                }
            } else {
                DeniedOutcome {
                    public: PublicDenialReason::PolicyDenied,
                    internal: "policy_denied",
                }
            }
        },
        _ => DeniedOutcome {
            public: PublicDenialReason::InsufficientEvidence,
            internal: "tool_invocation_error",
        },
    }
}

/// The classification of a refusal at the approval gate: only a pending or a
/// negative human decision is a violation.
pub open spec fn approval_refusal(error: RuntimeError) -> DeniedOutcome {
    match error {
        RuntimeError::ApprovalRequired { .. } => DeniedOutcome {
            public: PublicDenialReason::PolicyDenied,
            internal: "approval_required",
        },
        RuntimeError::ApprovalRejected { .. } => DeniedOutcome {
            public: PublicDenialReason::PolicyDenied,
            internal: "approval_rejected",
        },
        _ => DeniedOutcome {
            public: PublicDenialReason::InsufficientEvidence,
            internal: "approval_evaluation_error",
        },
    }
}

/// Classifies a refusal at the approval gate.
pub fn approval_denial_classification(error: &RuntimeError) -> (r: DeniedOutcome)
    ensures
        r == approval_refusal(*error),
{
    match error {
        RuntimeError::ApprovalRequired { .. } => DeniedOutcome {
            public: PublicDenialReason::PolicyDenied,
            internal: "approval_required",
        },
        RuntimeError::ApprovalRejected { .. } => DeniedOutcome {
            public: PublicDenialReason::PolicyDenied,
            internal: "approval_rejected",
        },
        _ => DeniedOutcome {
            public: PublicDenialReason::InsufficientEvidence,
            internal: "approval_evaluation_error",
        },
    }
}

/// The classification of a refused tool call, given the error that was
/// reported for it.
pub open spec fn refused_call(denial: Denial, reported: RuntimeError) -> DeniedOutcome {
    match denial {
        Denial::UnknownTool => DeniedOutcome {
            public: PublicDenialReason::PolicyDenied,
            internal: "unknown_tool",
        },
        Denial::Authorization => gate_refusal(reported),
        Denial::Capability => DeniedOutcome {
            public: PublicDenialReason::PolicyDenied,
            internal: "capability_not_granted",
        },
        Denial::Approval => approval_refusal(reported),
    }
}

/// A refused call is filed under the check that refused it: an unknown tool and
/// a capability that is not granted are denials whatever was reported, and the
/// other two go by what was reported.
pub proof fn law_a_refused_call_is_filed_under_its_check(denial: Denial, reported: RuntimeError)
    ensures
        denial is UnknownTool || denial is Capability ==> refused_call(denial, reported).public
            == PublicDenialReason::PolicyDenied,
        denial is UnknownTool ==> refused_call(denial, reported).internal == "unknown_tool",
        denial is Capability ==> refused_call(denial, reported).internal
            == "capability_not_granted",
        denial is Authorization ==> refused_call(denial, reported) == gate_refusal(reported),
        denial is Approval ==> refused_call(denial, reported) == approval_refusal(reported),
{
}

/// Classifies a refused tool call.
pub fn denial_outcome(denial: Denial, reported: &RuntimeError) -> (r: DeniedOutcome)
    ensures
        r == refused_call(denial, *reported),
{
    match denial {
        Denial::UnknownTool => DeniedOutcome {
            public: PublicDenialReason::PolicyDenied,
            internal: "unknown_tool",
        },
        Denial::Authorization => tool_auth_denial_classification(reported),
        Denial::Capability => DeniedOutcome {
            public: PublicDenialReason::PolicyDenied,
            internal: "capability_not_granted",
        },
        Denial::Approval => approval_denial_classification(reported),
    }
}

/// The outcome of a failed memory write: a rejection comes before the backend,
/// an operational failure may have come behind it.
pub open spec fn memory_outcome(error: MemoryError) -> EventOutcome {
    match error {
        MemoryError::CapabilityDenied => denied(
            PublicDenialReason::PolicyDenied,
            "memory_capability_denied",
        ),
        MemoryError::PolicyDenied => denied(
            PublicDenialReason::PolicyDenied,
            "memory_policy_denied",
        ),
        MemoryError::PolicyIndeterminate => denied(
            PublicDenialReason::InsufficientEvidence,
            "memory_policy_indeterminate",
        ),
        MemoryError::SubjectMismatch => denied(
            PublicDenialReason::PolicyDenied,
            "memory_subject_mismatch",
        ),
        MemoryError::ReceiptRequired => denied(
            PublicDenialReason::PolicyDenied,
            "memory_receipt_required",
        ),
        MemoryError::Malformed => denied(
            PublicDenialReason::PolicyDenied,
            "memory_record_malformed",
        ),
        MemoryError::NotFound | MemoryError::LockPoisoned | MemoryError::Backend =>
        EventOutcome::FailedUnknown,
    }
}

/// A memory write is filed as refused exactly if it was rejected before it
/// reached the backend; an operational failure may have written.
pub proof fn law_only_a_rejected_memory_write_is_refused(error: MemoryError)
    ensures
        memory_outcome(error) == EventOutcome::FailedUnknown <==> error is NotFound || error
            is LockPoisoned || error is Backend,
        memory_outcome(error) is Denied <==> !(error is NotFound || error is LockPoisoned || error
            is Backend),
        memory_outcome(error) matches EventOutcome::Denied(outcome) ==> outcome.public == (if error
            is PolicyIndeterminate {
            PublicDenialReason::InsufficientEvidence
        } else {
            PublicDenialReason::PolicyDenied
        }),
{
}

/// The outcome of a failed memory write.
pub fn memory_failure_outcome(error: MemoryError) -> (r: EventOutcome)
    ensures
        r == memory_outcome(error),
{
    match error {
        MemoryError::CapabilityDenied => deny(
            PublicDenialReason::PolicyDenied,
            "memory_capability_denied",
        ),
        MemoryError::PolicyDenied => deny(PublicDenialReason::PolicyDenied, "memory_policy_denied"),
        MemoryError::PolicyIndeterminate => deny(
            PublicDenialReason::InsufficientEvidence,
            "memory_policy_indeterminate",
        ),
        MemoryError::SubjectMismatch => deny(
            PublicDenialReason::PolicyDenied,
            "memory_subject_mismatch",
        ),
        MemoryError::ReceiptRequired => deny(
            PublicDenialReason::PolicyDenied,
            "memory_receipt_required",
        ),
        MemoryError::Malformed => deny(PublicDenialReason::PolicyDenied, "memory_record_malformed"),
        MemoryError::NotFound => EventOutcome::FailedUnknown,
        MemoryError::LockPoisoned => EventOutcome::FailedUnknown,
        MemoryError::Backend => EventOutcome::FailedUnknown,
    }
}

/// What one capability contributes to a tool's classification.
#[derive(Clone, Copy, Debug, PartialEq, Eq)]
pub struct CapabilityEffect {
    pub family: &'static str,
    pub action: ActionClass,
    pub side: SideEffectClass,
}

/// A tool's classification.
#[derive(Debug)]
pub struct InvocationClassification {
    pub action_class: ActionClass,
    pub target: String,
    pub resource_family: &'static str,
    pub side_effect_class: SideEffectClass,
}

/// The effect that a capability declares.
pub open spec fn effect_of(kind: CapabilityKind) -> CapabilityEffect {
    match kind {
        CapabilityKind::FsRead => CapabilityEffect {
            family: "filesystem",
            action: ActionClass::Read,
            side: SideEffectClass::NoEffect,
        },
        CapabilityKind::FsWrite => CapabilityEffect {
            family: "filesystem",
            action: ActionClass::Write,
            side: SideEffectClass::StateChange,
        },
        CapabilityKind::ShellExec => CapabilityEffect {
            family: "process",
            action: ActionClass::Write,
            side: SideEffectClass::StateChange,
        },
        CapabilityKind::ProcessSpawn => CapabilityEffect {
            family: "process",
            action: ActionClass::Write,
            side: SideEffectClass::StateChange,
        },
        CapabilityKind::NetworkOut => CapabilityEffect {
            family: "network",
            action: ActionClass::Send,
            side: SideEffectClass::ExternalSend,
        },
        CapabilityKind::EnvRead => CapabilityEffect {
            family: "process",
            action: ActionClass::Read,
            side: SideEffectClass::NoEffect,
        },
        CapabilityKind::ClipboardRead => CapabilityEffect {
            family: "device",
            action: ActionClass::Read,
            side: SideEffectClass::NoEffect,
        },
        CapabilityKind::VoiceInput => CapabilityEffect {
            family: "device",
            action: ActionClass::Observe,
            side: SideEffectClass::NoEffect,
        },
        CapabilityKind::VoiceOutput => CapabilityEffect {
            family: "device",
            action: ActionClass::Write,
            side: SideEffectClass::InternalWrite,
        },
        CapabilityKind::ImageGenerate => CapabilityEffect {
            family: "model",
            action: ActionClass::Write,
            side: SideEffectClass::InternalWrite,
        },
        CapabilityKind::ImageAnalyze => CapabilityEffect {
            family: "model",
            action: ActionClass::Observe,
            side: SideEffectClass::NoEffect,
        },
        CapabilityKind::Custom => CapabilityEffect {
            family: "tool",
            action: ActionClass::Write,
            side: SideEffectClass::StateChange,
        },
    }
}

/// What a capability may leave behind: only the network sends to the outside;
/// writing files, running a shell or a process, and whatever declares nothing
/// of itself change state; speaking and making images write within; the others
/// leave nothing. What sends is a send, and what leaves nothing reads or
/// observes.
pub proof fn law_a_capability_declares_what_it_leaves(kind: CapabilityKind)
    ensures
        effect_of(kind).side == SideEffectClass::ExternalSend <==> kind is NetworkOut,
        effect_of(kind).side == SideEffectClass::StateChange <==> kind is FsWrite || kind
            is ShellExec || kind is ProcessSpawn || kind is Custom,
        effect_of(kind).side == SideEffectClass::InternalWrite <==> kind is VoiceOutput || kind
            is ImageGenerate,
        effect_of(kind).side == SideEffectClass::NoEffect <==> kind is FsRead || kind is EnvRead
            || kind is ClipboardRead || kind is VoiceInput || kind is ImageAnalyze,
        effect_of(kind).action == ActionClass::Send <==> effect_of(kind).side
            == SideEffectClass::ExternalSend,
        effect_of(kind).action == ActionClass::Read <==> kind is FsRead || kind is EnvRead || kind
            is ClipboardRead,
        effect_of(kind).action == ActionClass::Observe <==> kind is VoiceInput || kind
            is ImageAnalyze,
{
}

/// The effect that a capability declares.
pub fn capability_effect(kind: CapabilityKind) -> (r: CapabilityEffect)
    ensures
        r == effect_of(kind),
{
    match kind {
        CapabilityKind::FsRead => effect("filesystem", ActionClass::Read, SideEffectClass::NoEffect),
        CapabilityKind::FsWrite => effect(
            "filesystem",
            ActionClass::Write,
            SideEffectClass::StateChange,
        ),
        CapabilityKind::ShellExec => effect(
            "process",
            ActionClass::Write,
            SideEffectClass::StateChange,
        ),
        CapabilityKind::ProcessSpawn => effect(
            "process",
            ActionClass::Write,
            SideEffectClass::StateChange,
        ),
        CapabilityKind::NetworkOut => effect(
            "network",
            ActionClass::Send,
            SideEffectClass::ExternalSend,
        ),
        CapabilityKind::EnvRead => effect("process", ActionClass::Read, SideEffectClass::NoEffect),
        CapabilityKind::ClipboardRead => effect(
            "device",
            ActionClass::Read,
            SideEffectClass::NoEffect,
        ),
        CapabilityKind::VoiceInput => effect(
            "device",
            ActionClass::Observe,
            SideEffectClass::NoEffect,
        ),
        CapabilityKind::VoiceOutput => effect(
            "device",
            ActionClass::Write,
            SideEffectClass::InternalWrite,
        ),
        CapabilityKind::ImageGenerate => effect(
            "model",
            ActionClass::Write,
            SideEffectClass::InternalWrite,
        ),
        CapabilityKind::ImageAnalyze => effect(
            "model",
            ActionClass::Observe,
            SideEffectClass::NoEffect,
        ),
        CapabilityKind::Custom => effect("tool", ActionClass::Write, SideEffectClass::StateChange),
    }
}

fn effect(family: &'static str, action: ActionClass, side: SideEffectClass) -> (r: CapabilityEffect)
    ensures
        r == (CapabilityEffect { family, action, side }),
{
    CapabilityEffect { family, action, side }
}

/// The order of effects: an external send outranks a durable change, which
/// outranks an internal write, which outranks no effect.
pub open spec fn severity(side: SideEffectClass) -> u8 {
    match side {
        SideEffectClass::NoEffect => 0,
        SideEffectClass::InternalWrite => 1,
        SideEffectClass::StateChange => 2,
        SideEffectClass::ExternalSend => 3,
    }
}

/// The rank of an effect.
pub fn side_effect_severity(side: SideEffectClass) -> (r: u8)
    ensures
        r == severity(side),
{
    match side {
        SideEffectClass::NoEffect => 0,
        SideEffectClass::InternalWrite => 1,
        SideEffectClass::StateChange => 2,
        SideEffectClass::ExternalSend => 3,
    }
}

/// A send to the outside outranks a change of state, which outranks a write
/// within, which outranks no effect.
pub proof fn law_effects_are_ranked()
    ensures
        severity(SideEffectClass::ExternalSend) > severity(SideEffectClass::StateChange),
        severity(SideEffectClass::StateChange) > severity(SideEffectClass::InternalWrite),
        severity(SideEffectClass::InternalWrite) > severity(SideEffectClass::NoEffect),
{
}

/// The first of the strongest effects among the first `n` capabilities.
pub open spec fn strongest(required: Seq<Capability>, n: int) -> CapabilityEffect
    decreases n,
{
    if n <= 1 {
        effect_of(required[0].kind)
    } else {
        let before = strongest(required, n - 1);
        let last = effect_of(required[n - 1].kind);
        if severity(last.side) > severity(before.side) {
            last
        } else {
            before
        }
    }
}

/// The effect of a tool: the strongest that it declares, and an observation
/// without effect if it declares nothing.
pub open spec fn tool_effect(required: Seq<Capability>) -> CapabilityEffect {
    if required.len() == 0 {
        CapabilityEffect {
            family: "tool",
            action: ActionClass::Observe,
            side: SideEffectClass::NoEffect,
        }
    } else {
        strongest(required, required.len() as int)
    }
}

/// Classifies a tool by the capabilities that it declares, never by the
/// arguments of a call.
pub fn classify_tool_invocation(tool_name: &str, required: &Vec<Capability>) -> (r:
    InvocationClassification)
    ensures
        r.target@ == tool_name@,
        r.action_class == tool_effect(required@).action,
        r.resource_family == tool_effect(required@).family,
        r.side_effect_class == tool_effect(required@).side,
{
    let mut chosen: CapabilityEffect = if required.len() == 0 {
        effect("tool", ActionClass::Observe, SideEffectClass::NoEffect)
    } else {
        capability_effect(required[0].kind)
    };
    let mut i: usize = 1;
    while i < required.len()
        invariant
            1 <= i,
            required@.len() == 0 ==> chosen == tool_effect(required@),
            required@.len() > 0 ==> i <= required@.len() && chosen == strongest(
                required@,
                i as int,
            ),
        decreases required@.len() - i,
    {
        let next: CapabilityEffect = capability_effect(required[i].kind);
        if side_effect_severity(next.side) > side_effect_severity(chosen.side) {
            chosen = next;
        }
        i = i + 1;
    }
    InvocationClassification {
        action_class: chosen.action,
        target: String::from_str(tool_name),
        resource_family: chosen.family,
        side_effect_class: chosen.side,
    }
}

/// The effect of a committed round: it wrote the transcript if one is kept.
pub fn round_side_effect(persisted_transcript: bool) -> (r: SideEffectClass)
    ensures
        r == (if persisted_transcript {
            SideEffectClass::InternalWrite
        } else {
            SideEffectClass::NoEffect
        }),
        r is InternalWrite <==> persisted_transcript,
        r is NoEffect <==> !persisted_transcript,
{
    if persisted_transcript {
        SideEffectClass::InternalWrite
    } else {
        SideEffectClass::NoEffect
    }
}

proof fn lemma_strongest(required: Seq<Capability>, n: int)
    requires
        1 <= n <= required.len(),
    ensures
        forall|i: int|
            0 <= i < n ==> severity(effect_of((#[trigger] required[i]).kind).side) <= severity(
                strongest(required, n).side,
            ),
        exists|i: int|
            0 <= i < n && effect_of((#[trigger] required[i]).kind) == strongest(required, n),
    decreases n,
{
    if n > 1 {
        lemma_strongest(required, n - 1);
        assert(required[n - 1] == required[n - 1]);
        let before = strongest(required, n - 1);
        if strongest(required, n) == before {
            let i = choose|i: int|
                0 <= i < n - 1 && effect_of((#[trigger] required[i]).kind) == before;
            assert(effect_of(required[i].kind) == strongest(required, n));
        } else {
            assert(effect_of(required[n - 1].kind) == strongest(required, n));
        }
    } else {
        assert(effect_of(required[0].kind) == strongest(required, n));
    }
}

/// A tool is never classified below a capability that it declares, and its
/// classification is that of one it declares.
pub proof fn law_a_tool_is_classified_by_its_strongest_effect(required: Seq<Capability>)
    requires
        required.len() > 0,
    ensures
        forall|i: int|
            0 <= i < required.len() ==> severity(effect_of((#[trigger] required[i]).kind).side)
                <= severity(tool_effect(required).side),
        exists|i: int|
            0 <= i < required.len() && effect_of((#[trigger] required[i]).kind) == tool_effect(
                required,
            ),
{
    lemma_strongest(required, required.len() as int);
}

proof fn lemma_first_strongest(required: Seq<Capability>, n: int)
    requires
        1 <= n <= required.len(),
    ensures
        exists|i: int|
            {
                &&& 0 <= i < n
                &&& effect_of((#[trigger] required[i]).kind) == strongest(required, n)
                &&& forall|k: int|
                    0 <= k < i ==> severity(effect_of((#[trigger] required[k]).kind).side)
                        < severity(strongest(required, n).side)
            },
    decreases n,
{
    lemma_strongest(required, n);
    if n > 1 {
        lemma_first_strongest(required, n - 1);
        let before = strongest(required, n - 1);
        if strongest(required, n) == before {
            let i = choose|i: int|
                {
                    &&& 0 <= i < n - 1
                    &&& effect_of((#[trigger] required[i]).kind) == before
                    &&& forall|k: int|
                        0 <= k < i ==> severity(effect_of((#[trigger] required[k]).kind).side)
                            < severity(before.side)
                };
            assert(effect_of(required[i].kind) == strongest(required, n));
        } else {
            lemma_strongest(required, n - 1);
            assert(effect_of(required[n - 1].kind) == strongest(required, n));
        }
    } else {
        assert(effect_of(required[0].kind) == strongest(required, n));
    }
}

/// Of several capabilities that are equally strong, the one that is declared
/// first gives a tool its classification; a tool that declares none only
/// observes.
pub proof fn law_the_first_of_the_strongest_classifies(required: Seq<Capability>)
    ensures
        required.len() == 0 ==> tool_effect(required).action == ActionClass::Observe
            && tool_effect(required).side == SideEffectClass::NoEffect && tool_effect(
            required,
        ).family == "tool",
        required.len() > 0 ==> exists|i: int|
            {
                &&& 0 <= i < required.len()
                &&& effect_of((#[trigger] required[i]).kind) == tool_effect(required)
                &&& forall|k: int|
                    0 <= k < i ==> severity(effect_of((#[trigger] required[k]).kind).side)
                        < severity(tool_effect(required).side)
            },
{
    if required.len() > 0 {
        lemma_first_strongest(required, required.len() as int);
    }
}

/// A check that could not be made is never filed as a violation: a policy that
/// could not be evaluated, an internal failure of a gate or of the approval
/// store, and a memory policy that could not be evaluated are all insufficient
/// evidence.
pub proof fn law_a_failed_check_is_not_a_violation(
    decision: errors::PolicyDecision,
    verdict: Result<(), RuntimeError>,
    text: String,
)
    ensures
        decision is Indeterminate && errors::policy_verdict(decision, verdict) ==> gate_refusal(
            verdict->Err_0,
        ).public == PublicDenialReason::InsufficientEvidence,
        gate_refusal(RuntimeError::Internal(text)).public
            == PublicDenialReason::InsufficientEvidence,
        approval_refusal(RuntimeError::Internal(text)).public
            == PublicDenialReason::InsufficientEvidence,
        memory_outcome(MemoryError::PolicyIndeterminate) == denied(
            PublicDenialReason::InsufficientEvidence,
            "memory_policy_indeterminate",
        ),
{
    reveal_strlit("indeterminate: ");
    reveal_strlit("indeterminate:");
    if let errors::PolicyDecision::Indeterminate { reason } = decision {
        let told = "indeterminate: "@ + reason@;
        assert(told.take("indeterminate:"@.len() as int) =~= "indeterminate:"@);
    }
}

} // verus!
