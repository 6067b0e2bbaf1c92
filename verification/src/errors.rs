//! The errors that a turn or a control operation can report.
use crate::slot::{AdmissionError, SettlementError, MAX_TOOLS_PER_ROUND};
use crate::text;
use crate::text::decimal;
use crate::turn::TurnError;
use vstd::prelude::*;
use vstd::string::StringExecFns;

verus! {

/// Why a capability token does not verify.
#[derive(Clone, Copy, Debug, PartialEq, Eq, Structural)]
pub enum CapTokenError {
    Expired,
    Revoked,
    AudienceMismatch,
    SignatureInvalid,
    BudgetExhausted,
    ToolNotAllowed,
    /// Any other reason, such as a token that cannot be parsed.
    Other,
}

/// Why an operation of the runtime failed.
#[derive(Debug)]
pub enum RuntimeError {
    CapTokenMissing,
    CapTokenExpired,
    /// The token does not grant the operation; `cause` is what the verifier
    /// said, where it was the verifier.
    CapDenied { cause: Option<CapTokenError>, reason: String },
    /// The policy denies the operation, or could not be evaluated.
    PolicyDenied { reason: String },
    CostCeilingExceeded,
    ProvisioningFailed { subject: String, reason: String },
    VetoedByHook { hook_id: String, reason: String },
    InjectionBlocked { filter_id: String, reason: String, flags: Vec<String> },
    ProviderUnavailable,
    TurnCancelled,
    UnknownTool { tool: String },
    StreamedContentCapExceeded { limit: usize, actual: usize },
    ToolTimeout { tool: String },
    ToolLoopExhausted { iterations: u32 },
    ApprovalRequired { approval_id: String, tool: String, reason: String },
    ApprovalRejected { approval_id: String, tool: String, reason: String },
    /// The settlement of the operation failed.
    Settlement(SettlementError),
    Internal(String),
}

/// A settlement error as the runtime reports it: running out of budget is the
/// cost ceiling, anything else is an internal failure of the settlement.
pub open spec fn exceeds_ceiling(error: SettlementError) -> bool {
    match error {
        SettlementError::Budget(AdmissionError::BudgetExhausted) => true,
        SettlementError::Budget(AdmissionError::PolicyDenied) => true,
        SettlementError::Budget(AdmissionError::ReservationExpired) => true,
        _ => false,
    }
}

/// A settlement failure is reported as the cost ceiling exactly if the budget
/// itself refused: it is used up, its policy denies the hold, or the hold
/// lapsed.
pub proof fn law_the_ceiling_is_a_refusal_of_the_budget(error: SettlementError)
    ensures
        exceeds_ceiling(error) <==> (error matches SettlementError::Budget(cause) && (cause
            is BudgetExhausted || cause is PolicyDenied || cause is ReservationExpired)),
{
}

/// Maps a settlement error onto the runtime's errors.
pub fn settlement_error(error: SettlementError) -> (r: RuntimeError)
    ensures
        r == (if exceeds_ceiling(error) {
            RuntimeError::CostCeilingExceeded
        } else {
            RuntimeError::Settlement(error)
        }),
        r is Settlement || r is CostCeilingExceeded,
        r matches RuntimeError::Settlement(told) ==> told == error,
        r is CostCeilingExceeded <==> (error matches SettlementError::Budget(cause) && (cause
            is BudgetExhausted || cause is PolicyDenied || cause is ReservationExpired)),
{
    match error {
        SettlementError::Budget(AdmissionError::BudgetExhausted) => RuntimeError::CostCeilingExceeded,
        SettlementError::Budget(AdmissionError::PolicyDenied) => RuntimeError::CostCeilingExceeded,
        SettlementError::Budget(AdmissionError::ReservationExpired) => {
            RuntimeError::CostCeilingExceeded
        },
        _ => RuntimeError::Settlement(error),
    }
}

/// How a provider call failed.
#[derive(Clone, Copy, Debug, PartialEq, Eq, Structural)]
pub enum ProviderError {
    CostCeilingExceeded,
    /// Any other failure.
    Other,
}

/// Maps a provider failure onto the runtime's errors.
pub fn map_provider_error(error: ProviderError) -> (r: RuntimeError)
    ensures
        r == (match error {
            ProviderError::CostCeilingExceeded => RuntimeError::CostCeilingExceeded,
            ProviderError::Other => RuntimeError::ProviderUnavailable,
        }),
        r is CostCeilingExceeded <==> error is CostCeilingExceeded,
        r is ProviderUnavailable <==> error is Other,
{
    match error {
        ProviderError::CostCeilingExceeded => RuntimeError::CostCeilingExceeded,
        ProviderError::Other => RuntimeError::ProviderUnavailable,
    }
}

/// Maps a token that does not verify onto the runtime's errors; `rendered` is
/// the verifier's own text.
pub fn cap_token_error(error: CapTokenError, rendered: String) -> (r: RuntimeError)
    ensures
        r == (match error {
            CapTokenError::Expired => RuntimeError::CapTokenExpired,
            _ => RuntimeError::CapDenied { cause: Some(error), reason: rendered },
        }),
        r is CapTokenExpired <==> error is Expired,
        !(error is Expired) ==> r is CapDenied && r->cause == Some(error) && r->CapDenied_reason
            == rendered,
{
    match error {
        CapTokenError::Expired => RuntimeError::CapTokenExpired,
        _ => RuntimeError::CapDenied { cause: Some(error), reason: rendered },
    }
}

/// What a policy evaluation decided.
#[derive(Debug)]
pub enum PolicyDecision {
    Allow,
    Deny { reason: String },
    /// The policy could not be evaluated.
    Indeterminate { reason: String },
}

/// What a policy decision means for the operation: anything but an explicit
/// permission denies it.
pub open spec fn policy_verdict(decision: PolicyDecision, r: Result<(), RuntimeError>) -> bool {
    match decision {
        PolicyDecision::Allow => r is Ok,
        PolicyDecision::Deny { reason } => r == Err::<(), RuntimeError>(
            RuntimeError::PolicyDenied { reason },
        ),
        PolicyDecision::Indeterminate { reason } => r matches Err(
            RuntimeError::PolicyDenied { reason: told },
        ) && told@ == "indeterminate: "@ + reason@,
    }
}

/// Nothing but an explicit permission lets an operation through: a denial and
/// an evaluation that failed both stop it.
pub proof fn law_only_a_permission_permits(decision: PolicyDecision, r: Result<(), RuntimeError>)
    requires
        policy_verdict(decision, r),
    ensures
        r is Ok <==> decision is Allow,
        r matches Err(error) ==> error is PolicyDenied,
{
}

/// Applies a policy decision.
pub fn stage_cedar(decision: PolicyDecision) -> (r: Result<(), RuntimeError>)
    ensures
        policy_verdict(decision, r),
        r is Ok <==> decision is Allow,
        decision matches PolicyDecision::Deny { reason } ==> (r matches Err(
            RuntimeError::PolicyDenied { reason: told },
        ) && told == reason),
        decision matches PolicyDecision::Indeterminate { reason } ==> (r matches Err(
            RuntimeError::PolicyDenied { reason: told },
        ) && told@ == "indeterminate: "@ + reason@),
{
    match decision {
        PolicyDecision::Allow => Ok(()),
        PolicyDecision::Deny { reason } => Err(
            RuntimeError::PolicyDenied { reason },
        ),
        PolicyDecision::Indeterminate { reason } => {
            let mut told: String = String::from_str("indeterminate: ");
            told.append(reason.as_str());
            Err(RuntimeError::PolicyDenied { reason: told })
        },
    }
}

/// The error that a turn ends with: the one that its last step reported, or
/// the turn's own. `tool` is the tool that was in progress.
pub open spec fn ends_with(
    error: TurnError,
    reported: RuntimeError,
    tool: Seq<char>,
    r: RuntimeError,
) -> bool {
    match error {
        TurnError::Reported => r == reported,
        TurnError::TurnCancelled => r == RuntimeError::TurnCancelled,
        TurnError::ToolBatchTooLarge { requested } => r matches RuntimeError::Internal(text)
            && text@ == "tool batch exceeds settlement capacity: "@ + text::decimal_text(
            requested as nat,
        ) + " > "@ + text::decimal_text(MAX_TOOLS_PER_ROUND as nat),
        TurnError::UnknownTool => r matches RuntimeError::UnknownTool { tool: named } && named@
            == tool,
        TurnError::ToolTimeout => r matches RuntimeError::ToolTimeout { tool: named } && named@
            == tool,
        TurnError::ToolLoopExhausted { iterations } => r == (RuntimeError::ToolLoopExhausted {
            iterations,
        }),
        TurnError::StreamedContentCapExceeded { limit, actual } => r == (
        RuntimeError::StreamedContentCapExceeded { limit, actual }),
        TurnError::ProviderUnavailable => r == RuntimeError::ProviderUnavailable,
        TurnError::CostOverflow => r matches RuntimeError::Internal(text) && text@
            == "settlement cumulative turn cost overflow; paid rounds retained"@,
    }
}

/// What a failed turn reports to its caller.
pub fn turn_error(error: TurnError, reported: RuntimeError, tool: &str) -> (r: RuntimeError)
    ensures
        ends_with(error, reported, tool@, r),
        error is Reported ==> r == reported,
        error is TurnCancelled ==> r is TurnCancelled,
        error is UnknownTool ==> (r matches RuntimeError::UnknownTool { tool: named } && named@
            == tool@),
        error is ToolTimeout ==> (r matches RuntimeError::ToolTimeout { tool: named } && named@
            == tool@),
        error matches TurnError::ToolLoopExhausted { iterations } ==> r == (
        RuntimeError::ToolLoopExhausted { iterations }),
        error matches TurnError::StreamedContentCapExceeded { limit, actual } ==> r == (
        RuntimeError::StreamedContentCapExceeded { limit, actual }),
        error is ProviderUnavailable ==> r is ProviderUnavailable,
        error is ToolBatchTooLarge || error is CostOverflow ==> r is Internal,
{
    match error {
        TurnError::Reported => reported,
        TurnError::TurnCancelled => RuntimeError::TurnCancelled,
        TurnError::ToolBatchTooLarge { requested } => {
            let mut text: String = String::from_str("tool batch exceeds settlement capacity: ");
            text.append(decimal(requested as u64).as_str());
            text.append(" > ");
            text.append(decimal(MAX_TOOLS_PER_ROUND as u64).as_str());
            RuntimeError::Internal(text)
        },
        TurnError::UnknownTool => RuntimeError::UnknownTool { tool: String::from_str(tool) },
        TurnError::ToolTimeout => RuntimeError::ToolTimeout { tool: String::from_str(tool) },
        TurnError::ToolLoopExhausted { iterations } => RuntimeError::ToolLoopExhausted {
            iterations,
        },
        TurnError::StreamedContentCapExceeded { limit, actual } => {
            RuntimeError::StreamedContentCapExceeded { limit, actual }
        },
        TurnError::ProviderUnavailable => RuntimeError::ProviderUnavailable,
        TurnError::CostOverflow => RuntimeError::Internal(
            String::from_str("settlement cumulative turn cost overflow; paid rounds retained"),
        ),
    }
}

} // verus!
