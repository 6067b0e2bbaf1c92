//! How errors and effects are classified.
use fused_runtime::classify::{
    approval_denial_classification, capability_effect, classify_tool_invocation, denial_outcome,
    map_tool_error,
    memory_failure_outcome, round_side_effect, side_effect_severity,
    tool_auth_denial_classification, tool_error_event_outcome, ActionClass, Capability,
    CapabilityKind, EventOutcome, MemoryError, PublicDenialReason, SideEffectClass, ToolError,
};
use fused_runtime::errors::{
    cap_token_error, map_provider_error, settlement_error, stage_cedar, CapTokenError,
    PolicyDecision, ProviderError, RuntimeError,
};
use fused_runtime::slot::{AdmissionError, SettlementError};
use fused_runtime::turn::Denial;

fn capability(kind: CapabilityKind) -> Capability {
    Capability {
        kind,
        label: format!("{kind:?}"),
    }
}

#[test]
fn tool_token_denial_stays_an_authorization_denial_without_reason_matching() {
    let err = map_tool_error(
        ToolError::CapTokenDenied {
            reason: "opaque verifier diagnostic".to_string(),
        },
        "probe",
        "capability token denied: opaque verifier diagnostic",
    );
    assert!(
        matches!(err, RuntimeError::CapDenied { .. }),
        "typed token denial must preserve authorization-denial classification, got {err:?}"
    );
}

#[test]
fn missing_tool_grant_stays_an_authorization_denial() {
    let err = map_tool_error(
        ToolError::CapabilityDenied(capability(CapabilityKind::FsRead)),
        "probe",
        "missing capability",
    );
    assert!(
        matches!(err, RuntimeError::CapDenied { .. }),
        "missing tool grant must preserve authorization-denial classification, got {err:?}"
    );
}

#[test]
fn tool_local_policy_denial_is_not_a_cap_token_denial() {
    let err = map_tool_error(
        ToolError::Denied {
            reason: "capability token denied: revoked".to_string(),
        },
        "probe",
        "denied: capability token denied: revoked",
    );
    assert!(
        matches!(err, RuntimeError::Internal(_)),
        "tool-local policy must not be relabeled as token authorization, got {err:?}"
    );
}

#[test]
fn tool_timeout_and_execution_failure_keep_their_classes() {
    assert!(matches!(
        map_tool_error(ToolError::Timeout, "probe", "timeout"),
        RuntimeError::ToolTimeout { tool } if tool == "probe"
    ));
    assert!(matches!(
        map_tool_error(
            ToolError::ExecutionFailed("revoked".to_string()),
            "probe",
            "execution failed: revoked"
        ),
        RuntimeError::Internal(_)
    ));
}

#[test]
fn every_tool_error_variant_classifies_exhaustively() {
    let cases: Vec<(ToolError, &str, PublicDenialReason)> = vec![
        (
            ToolError::Denied {
                reason: "r".to_string(),
            },
            "tool_policy_denied",
            PublicDenialReason::PolicyDenied,
        ),
        (
            ToolError::CapabilityDenied(capability(CapabilityKind::FsWrite)),
            "tool_capability_denied",
            PublicDenialReason::PolicyDenied,
        ),
        (
            ToolError::CapTokenDenied {
                reason: "r".to_string(),
            },
            "tool_cap_token_denied",
            PublicDenialReason::PolicyDenied,
        ),
        (
            ToolError::InvalidArgs("r".to_string()),
            "tool_invalid_arguments",
            PublicDenialReason::PolicyDenied,
        ),
        (
            ToolError::CostCeilingExceeded,
            "tool_cost_ceiling_exceeded",
            PublicDenialReason::BudgetExhausted,
        ),
        (
            ToolError::NotImplemented("r".to_string()),
            "tool_not_implemented",
            PublicDenialReason::InsufficientEvidence,
        ),
    ];
    for (err, code, public) in cases {
        match tool_error_event_outcome(&err) {
            EventOutcome::Denied(d) => {
                assert_eq!(d.internal, code);
                assert_eq!(d.public, public);
            }
            other => panic!("{code} must classify as a typed denial, got {other:?}"),
        }
    }
    for err in [
        ToolError::ExecutionFailed("r".to_string()),
        ToolError::OutputTooLarge { actual: 9, max: 1 },
        ToolError::Internal("r".to_string()),
    ] {
        assert!(matches!(
            tool_error_event_outcome(&err),
            EventOutcome::FailedUnknown
        ));
    }
    assert!(matches!(
        tool_error_event_outcome(&ToolError::Timeout),
        EventOutcome::TimeoutUnknown
    ));
}

#[test]
fn a_cedar_indeterminate_is_insufficient_evidence_not_a_violation() {
    let err = RuntimeError::PolicyDenied {
        reason: "indeterminate: invalid entity uid".to_string(),
    };
    let denied = tool_auth_denial_classification(&err);
    assert_eq!(denied.public, PublicDenialReason::InsufficientEvidence);
    assert_eq!(denied.internal, "policy_indeterminate");
}

#[test]
fn a_typed_policy_denial_stays_a_violation() {
    let err = RuntimeError::PolicyDenied {
        reason: "denied by policy p1".to_string(),
    };
    let denied = tool_auth_denial_classification(&err);
    assert_eq!(denied.public, PublicDenialReason::PolicyDenied);
    assert_eq!(denied.internal, "policy_denied");

    let err = RuntimeError::CapDenied {
        cause: None,
        reason: "tool not in allowlist".to_string(),
    };
    let denied = tool_auth_denial_classification(&err);
    assert_eq!(denied.public, PublicDenialReason::PolicyDenied);
    assert_eq!(denied.internal, "tool_not_allowed");

    let denied = tool_auth_denial_classification(&RuntimeError::CapTokenExpired);
    assert_eq!(denied.public, PublicDenialReason::PolicyDenied);
    assert_eq!(denied.internal, "grant_expired");
}

#[test]
fn an_operational_tool_gate_error_is_insufficient_evidence() {
    let err = RuntimeError::Internal("store offline".to_string());
    let denied = tool_auth_denial_classification(&err);
    assert_eq!(denied.public, PublicDenialReason::InsufficientEvidence);
    assert_eq!(denied.internal, "tool_invocation_error");
}

#[test]
fn a_mid_turn_revocation_keeps_its_typed_classification() {
    let cases = [
        (
            CapTokenError::Revoked,
            PublicDenialReason::Revoked,
            "revoked",
        ),
        (
            CapTokenError::AudienceMismatch,
            PublicDenialReason::PolicyDenied,
            "audience_mismatch",
        ),
        (
            CapTokenError::SignatureInvalid,
            PublicDenialReason::ChainInvalid,
            "signature_invalid",
        ),
        (
            CapTokenError::BudgetExhausted,
            PublicDenialReason::BudgetExhausted,
            "budget_exhausted",
        ),
        (
            CapTokenError::ToolNotAllowed,
            PublicDenialReason::PolicyDenied,
            "tool_not_allowed",
        ),
    ];
    for (cause, public, internal) in cases {
        let err = cap_token_error(cause, "rendered".to_string());
        let denied = tool_auth_denial_classification(&err);
        assert_eq!(denied.public, public);
        assert_eq!(denied.internal, internal);
    }
}

#[test]
fn only_an_explicit_human_decision_mints_an_approval_violation() {
    let err = RuntimeError::ApprovalRequired {
        approval_id: "a1".to_string(),
        tool: "t".to_string(),
        reason: "approval-gated capability".to_string(),
    };
    let denied = approval_denial_classification(&err);
    assert_eq!(denied.public, PublicDenialReason::PolicyDenied);
    assert_eq!(denied.internal, "approval_required");

    let err = RuntimeError::ApprovalRejected {
        approval_id: "a1".to_string(),
        tool: "t".to_string(),
        reason: "rejected by operator".to_string(),
    };
    let denied = approval_denial_classification(&err);
    assert_eq!(denied.public, PublicDenialReason::PolicyDenied);
    assert_eq!(denied.internal, "approval_rejected");

    let err = RuntimeError::Internal("approval store offline".to_string());
    let denied = approval_denial_classification(&err);
    assert_eq!(denied.public, PublicDenialReason::InsufficientEvidence);
    assert_eq!(denied.internal, "approval_evaluation_error");
}

#[test]
fn a_memory_policy_evaluation_failure_is_insufficient_evidence() {
    match memory_failure_outcome(MemoryError::PolicyIndeterminate) {
        EventOutcome::Denied(denied) => {
            assert_eq!(denied.public, PublicDenialReason::InsufficientEvidence);
            assert_eq!(denied.internal, "memory_policy_indeterminate");
        }
        other => panic!("expected a denied-as-insufficient outcome, got {other:?}"),
    }
    match memory_failure_outcome(MemoryError::PolicyDenied) {
        EventOutcome::Denied(denied) => {
            assert_eq!(denied.public, PublicDenialReason::PolicyDenied);
            assert_eq!(denied.internal, "memory_policy_denied");
        }
        other => panic!("expected a typed denial, got {other:?}"),
    }
    assert!(
        matches!(
            memory_failure_outcome(MemoryError::Backend),
            EventOutcome::FailedUnknown
        ),
        "a backend failure leaves the effect unknown"
    );
}

#[test]
fn an_all_read_capability_set_classifies_as_a_read() {
    let classification =
        classify_tool_invocation("reader", &vec![capability(CapabilityKind::FsRead)]);
    assert_eq!(classification.action_class, ActionClass::Read);
    assert_eq!(classification.resource_family, "filesystem");
    assert_eq!(classification.side_effect_class, SideEffectClass::NoEffect);

    let classification = classify_tool_invocation(
        "mixed",
        &vec![
            capability(CapabilityKind::FsRead),
            capability(CapabilityKind::FsWrite),
        ],
    );
    assert_eq!(classification.action_class, ActionClass::Write);
    assert_eq!(
        classification.side_effect_class,
        SideEffectClass::StateChange
    );

    let classification = classify_tool_invocation("echo", &Vec::new());
    assert_eq!(classification.action_class, ActionClass::Observe);
    assert_eq!(classification.resource_family, "tool");
    assert_eq!(classification.target, "echo");
}

#[test]
fn the_strongest_effect_of_a_tool_wins() {
    let kinds = [
        CapabilityKind::FsRead,
        CapabilityKind::ShellExec,
        CapabilityKind::NetworkOut,
    ];
    let all: Vec<Capability> = kinds.iter().map(|kind| capability(*kind)).collect();
    let strongest = side_effect_severity(classify_tool_invocation("t", &all).side_effect_class);
    for kind in kinds {
        assert!(side_effect_severity(capability_effect(kind).side) <= strongest);
    }
    assert!(
        side_effect_severity(SideEffectClass::NoEffect)
            < side_effect_severity(SideEffectClass::InternalWrite)
    );
    assert_eq!(round_side_effect(true), SideEffectClass::InternalWrite);
    assert_eq!(round_side_effect(false), SideEffectClass::NoEffect);
}

#[test]
fn errors_of_the_services_are_mapped() {
    assert!(matches!(
        settlement_error(SettlementError::Budget(AdmissionError::BudgetExhausted)),
        RuntimeError::CostCeilingExceeded
    ));
    assert!(matches!(
        settlement_error(SettlementError::Busy),
        RuntimeError::Settlement(SettlementError::Busy)
    ));
    assert!(matches!(
        map_provider_error(ProviderError::CostCeilingExceeded),
        RuntimeError::CostCeilingExceeded
    ));
    assert!(matches!(
        map_provider_error(ProviderError::Other),
        RuntimeError::ProviderUnavailable
    ));
    assert!(matches!(
        cap_token_error(CapTokenError::Expired, "expired".to_string()),
        RuntimeError::CapTokenExpired
    ));
    assert!(stage_cedar(PolicyDecision::Allow).is_ok());
    assert!(matches!(
        stage_cedar(PolicyDecision::Deny { reason: "p1".to_string() }),
        Err(RuntimeError::PolicyDenied { reason }) if reason == "p1"
    ));
    assert!(matches!(
        stage_cedar(PolicyDecision::Indeterminate { reason: "x".to_string() }),
        Err(RuntimeError::PolicyDenied { reason }) if reason == "indeterminate: x"
    ));
}

#[test]
fn a_refused_call_is_classified_by_what_refused_it() {
    let expired = RuntimeError::CapTokenExpired;
    let unknown = denial_outcome(Denial::UnknownTool, &expired);
    assert_eq!(unknown.public, PublicDenialReason::PolicyDenied);
    assert_eq!(unknown.internal, "unknown_tool");
    let ungranted = denial_outcome(Denial::Capability, &expired);
    assert_eq!(ungranted.public, PublicDenialReason::PolicyDenied);
    assert_eq!(ungranted.internal, "capability_not_granted");
    assert_eq!(
        denial_outcome(Denial::Authorization, &expired),
        tool_auth_denial_classification(&expired)
    );
    assert_eq!(
        denial_outcome(Denial::Authorization, &expired).internal,
        "grant_expired"
    );
    assert_eq!(
        denial_outcome(Denial::Approval, &expired),
        approval_denial_classification(&expired)
    );
}
