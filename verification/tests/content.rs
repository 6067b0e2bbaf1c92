//! Transcripts, tokens, receipts and outcomes as values.
use fused_runtime::approval::gated_capability;
use fused_runtime::authz::{
    authorize_tool_capabilities, cedar_attributes_from_claims, memory_write_denial,
    provisioning_failed, stage_pre_submit, tool_defs_for, Attribute, ControlVerifyCost,
    MemoryWriteDenial, PerRequestProvisioning, PreSubmitOutcome, TokenFault, ToolGates,
    VerifiedClaims,
};
use fused_runtime::builder::{FusedRuntimeBuilder, TurnLimits};
use fused_runtime::chat::{
    estimate_tokens, fold_round, last_user_message, scan_outbound_request, scan_target,
    scan_tool_output, summarize_request, ChatMessage, Role, ScanOutcome, ToolCall,
    SUMMARY_INSTRUCTION,
};
use fused_runtime::classify::{ActionClass, Capability, CapabilityKind, SideEffectClass};
use fused_runtime::control::{
    approval_proposal_receipt, compact_outcome, is_task_failure, task_failed_receipt,
    BackgroundTaskOutcome,
};
use fused_runtime::cost::{default_envelope, positive_difference, CostEnvelope, CostTuple};
use fused_runtime::errors::{CapTokenError, RuntimeError};
use fused_runtime::evidence::{
    CostProvenance, OutputAdmission, ProviderEvidence, ToolEffect, ToolFailureClass, UsageSnapshot,
};
use fused_runtime::facts::{
    completed_outcome, memory_payload_text, observed_effect, response_evidence, round_arguments, round_facts, round_invocation, tool_evidence,
    tool_output_text, turn_record, usage_evidence, JsonText, ER_TTL_SECS,
};
use fused_runtime::ids::{
    BudgetEpoch, ReceiptId, SessionId, Sha256Digest, TokenId, TurnId, UnixTsMillis,
};
use fused_runtime::minting::{
    completion_body, control_body, record_turn_cancellation, round_body, round_receipts,
    tool_receipt, unrun_receipts, ReceiptFrame, COMPLETION_VERB,
};
use fused_runtime::operation::{ControlAction, ControlKind};
use fused_runtime::recall::{
    inject_recalled_memories, is_recall_stopword, matched_terms, recall_query, recall_terms,
    RecalledMemory,
};
use fused_runtime::receipts::PersistedReceipt;
use fused_runtime::reconcile::{ReconciliationAction, ReconciliationStrategy};
use fused_runtime::runtime::FusedRuntime;
use fused_runtime::session::SessionEntry;
use fused_runtime::settlement::SettlementCoordinator;
use fused_runtime::slot::SettlementError;
use fused_runtime::streaming::{receipt_event, stage_event, FusedEvent, Usage};
use fused_runtime::turn::{Emitted, Phase, ScanVerdict, StageKind, ToolEnd};

fn claims() -> VerifiedClaims {
    VerifiedClaims {
        subject: "alice".to_string(),
        token_id: TokenId(4),
        audience: "ardur".to_string(),
        tool_allowlist: vec!["chat.submit".to_string()],
        expires_unix: 1_900_000_000,
        budget_remaining: 12,
    }
}

fn call(id: &str) -> ToolCall {
    ToolCall {
        id: id.to_string(),
        name: "echo".to_string(),
        arguments: b"{}".to_vec(),
    }
}

fn frame(parent: Option<Sha256Digest>) -> ReceiptFrame {
    ReceiptFrame {
        receipt_id: ReceiptId(9),
        parent_hash: parent,
        issued_at: UnixTsMillis(5_000),
        session: SessionId(2),
    }
}

fn builder() -> FusedRuntimeBuilder {
    FusedRuntimeBuilder::new(TurnLimits {
        max_tool_iterations: 3,
        stream_content_max_bytes: 1_000,
        memory_recall_k: 2,
    })
}

fn settlements() -> SettlementCoordinator {
    SettlementCoordinator::open(BudgetEpoch(1), Ok(1_000), &Vec::new()).unwrap()
}

fn runtime() -> FusedRuntime {
    builder().build(&Vec::new(), settlements())
}

#[test]
fn costs_add_up_and_saturate() {
    let a = CostTuple::cents(3);
    let b = CostTuple::cents(5);
    assert_eq!(a.checked_add(&b), Some(CostTuple::cents(8)));
    assert_eq!(b.checked_sub(&a), Some(CostTuple::cents(2)));
    assert_eq!(a.checked_sub(&b), None);
    assert_eq!(CostTuple::cents(u64::MAX).checked_add(&a), None);
    assert_eq!(
        CostTuple::cents(u64::MAX).saturating_add(&a),
        CostTuple::cents(u64::MAX)
    );
    assert!(b.covers(&a));
    assert!(!a.covers(&b));
    assert_eq!(positive_difference(b, a), CostTuple::cents(2));
    assert_eq!(positive_difference(a, b), CostTuple::zero());
    assert_eq!(
        CostTuple::from_envelope(&default_envelope()).cents,
        1_000_000
    );
}

#[test]
fn the_last_user_message_is_found() {
    let messages = vec![
        ChatMessage::system("rules".to_string()),
        ChatMessage::user("first".to_string()),
        ChatMessage::assistant("answer".to_string()),
        ChatMessage::user("second".to_string()),
        ChatMessage::tool_result("c1".to_string(), "out".to_string()),
    ];
    assert_eq!(last_user_message(&messages), Some(&"second".to_string()));
    assert_eq!(last_user_message(&Vec::new()), None);
    assert_eq!(scan_target(1, &messages), Some(3));
    assert_eq!(scan_target(0, &messages), None);
    assert_eq!(estimate_tokens(&messages), (5 + 5 + 6 + 6 + 3 + 3) / 4);
}

#[test]
fn a_scan_rewrites_blocks_or_fails() {
    let mut messages = vec![ChatMessage::user("secret".to_string())];
    assert!(scan_outbound_request(&mut messages, 0, ScanOutcome::Allow).is_ok());
    assert_eq!(messages[0].content, "secret");
    scan_outbound_request(&mut messages, 0, ScanOutcome::Sanitized("***".to_string())).unwrap();
    assert_eq!(messages[0].content, "***");
    assert_eq!(messages[0].role, Role::User);
    assert!(matches!(
        scan_outbound_request(
            &mut messages,
            0,
            ScanOutcome::Block {
                reason: "injection".to_string(),
                flags: vec!["f".to_string()]
            }
        ),
        Err(RuntimeError::InjectionBlocked { filter_id, reason, .. })
            if filter_id == "injection-defense" && reason == "injection"
    ));
    assert!(matches!(
        scan_outbound_request(&mut messages, 0, ScanOutcome::Failed("x".to_string())),
        Err(RuntimeError::Internal(text)) if text == "injection scan failed: x"
    ));
    assert_eq!(scan_tool_output(None).0, ScanVerdict::Allowed);
    assert_eq!(
        scan_tool_output(Some(ScanOutcome::Sanitized("y".to_string()))).0,
        ScanVerdict::Allowed
    );
    let (verdict, result) = scan_tool_output(Some(ScanOutcome::Failed("x".to_string())));
    assert_eq!(verdict, ScanVerdict::Undetermined);
    assert!(matches!(
        result,
        Err(RuntimeError::Internal(text)) if text == "tool-output injection scan failed: x"
    ));
}

#[test]
fn a_summary_keeps_its_focus_and_its_history() {
    let history = vec![ChatMessage::user("hello".to_string())];
    let request = summarize_request(&history, Some("tests"));
    assert_eq!(request.len(), 2);
    assert_eq!(request[0].role, Role::System);
    assert!(request[0].content.starts_with(SUMMARY_INSTRUCTION));
    assert!(request[0]
        .content
        .ends_with("\n\nPrioritize preserving detail related to: tests"));
    assert_eq!(request[1].content, "hello");

    let mut messages = history;
    let results = vec![ChatMessage::tool_result("c1".to_string(), "out".to_string())];
    fold_round(
        &mut messages,
        "thinking".to_string(),
        vec![call("c1")],
        &results,
    );
    assert_eq!(messages.len(), 3);
    assert_eq!(messages[1].role, Role::Assistant);
    assert_eq!(messages[1].tool_calls.len(), 1);
    assert_eq!(messages[2].tool_call_id, Some("c1".to_string()));
}

#[test]
fn recall_terms_leave_the_filler_out() {
    assert_eq!(
        recall_terms("What is the Deploy-key of project ALPHA?"),
        vec!["deploy", "key", "project", "alpha"]
    );
    assert!(is_recall_stopword("the"));
    assert!(!is_recall_stopword("alpha"));
    assert!(recall_terms("the a an").is_empty());
    let (p, q) = ("Rotate the DEPLOY-key", "of Project Älpha 7");
    let mut both = recall_terms(p);
    both.extend(recall_terms(q));
    assert_eq!(both, vec!["rotate", "deploy", "key", "project", "Älpha", "7"]);
    assert_eq!(recall_terms(&format!("{p} {q}")), both);
    assert_eq!(recall_terms(&both.join(" ")), both);
    assert_eq!(
        matched_terms(
            &vec!["deploy".to_string(), "beta".to_string()],
            "The DEPLOY key"
        ),
        1
    );
}

fn memory(id: &str, relevant: bool) -> RecalledMemory {
    RecalledMemory {
        record_id: id.to_string(),
        source: None,
        scope: None,
        subject: "alice".to_string(),
        confidence: None,
        score: "0.500".to_string(),
        relevant,
        receipt_id: None,
        valid_from: 7,
        text: "likes tea".to_string(),
    }
}

#[test]
fn only_relevant_memories_are_put_in_front() {
    let mut messages = vec![ChatMessage::user("what do I like".to_string())];
    assert_eq!(
        recall_query(&messages, 2),
        Some(&"what do I like".to_string())
    );
    assert_eq!(recall_query(&messages, 0), None);
    inject_recalled_memories(
        &mut messages,
        "alice",
        &vec![memory("m0", false), memory("m1", true), memory("m2", true)],
        1,
    );
    assert_eq!(messages.len(), 2);
    assert_eq!(messages[0].role, Role::System);
    assert_eq!(
        messages[0].content,
        "Relevant memories (scoped to verified subject alice):\n- id=m1 source=unknown \
         scope=alice confidence=unknown recall_score=0.500 receipt=unreceipted valid_from=7: \
         likes tea\n"
    );
    let mut unchanged = vec![ChatMessage::user("  ".to_string())];
    assert_eq!(recall_query(&unchanged, 2), None);
    inject_recalled_memories(&mut unchanged, "alice", &vec![memory("m0", false)], 1);
    assert_eq!(unchanged.len(), 1);
}

#[test]
fn verified_facts_are_not_shadowed() {
    let mut attributes = builder().cedar_attributes;
    attributes.insert(
        "subject".to_string(),
        Attribute::Text("mallory".to_string()),
    );
    attributes.insert("team".to_string(), Attribute::Text("red".to_string()));
    cedar_attributes_from_claims(&mut attributes, &claims());
    assert!(matches!(
        attributes.get("subject"),
        Some(Attribute::Text(text)) if text == "alice"
    ));
    assert!(matches!(
        attributes.get("team"),
        Some(Attribute::Text(text)) if text == "red"
    ));
    assert!(matches!(
        attributes.get("budget_remaining"),
        Some(Attribute::Number(12))
    ));
}

fn capability(kind: CapabilityKind, label: &str) -> Capability {
    Capability {
        kind,
        label: label.to_string(),
    }
}

#[test]
fn a_missing_capability_is_named() {
    let required = vec![
        capability(CapabilityKind::FsRead, "fs.read"),
        capability(CapabilityKind::FsWrite, "fs.write"),
    ];
    assert!(authorize_tool_capabilities("t", &required, &vec![true, true]).is_ok());
    assert!(matches!(
        authorize_tool_capabilities("t", &required, &vec![true, false]),
        Err(RuntimeError::CapDenied { reason, .. }) if reason
            == "tool `t` requires capability `fs.write` which is not granted by the cap-token"
    ));
    let mut gated = builder().approval_gated;
    assert_eq!(gated_capability(&required, &gated), None);
    gated.insert("fs.write".to_string());
    assert_eq!(gated_capability(&required, &gated), Some(1));
    assert_eq!(
        tool_defs_for(&vec![
            ToolGates {
                invocable: true,
                capable: true
            },
            ToolGates {
                invocable: true,
                capable: false
            },
            ToolGates {
                invocable: true,
                capable: true
            },
        ]),
        vec![0, 2]
    );
}

#[test]
fn hooks_continue_replace_or_veto() {
    let base = || vec![ChatMessage::user("hi".to_string())];
    assert_eq!(
        stage_pre_submit(base(), PreSubmitOutcome::Continue)
            .unwrap()
            .len(),
        1
    );
    let replaced = stage_pre_submit(base(), PreSubmitOutcome::Replaced(Vec::new())).unwrap();
    assert!(replaced.is_empty());
    assert!(matches!(
        stage_pre_submit(
            base(),
            PreSubmitOutcome::Vetoed {
                hook_id: "h".to_string(),
                reason: "no".to_string()
            }
        ),
        Err(RuntimeError::VetoedByHook { hook_id, reason }) if hook_id == "h" && reason == "no"
    ));
    assert_eq!(
        memory_write_denial(CapTokenError::ToolNotAllowed),
        MemoryWriteDenial::Silent
    );
    assert_eq!(
        memory_write_denial(CapTokenError::Revoked),
        MemoryWriteDenial::Reported
    );
    assert_eq!(ControlVerifyCost::ApprovalDecision.units(7), 0);
    assert_eq!(ControlVerifyCost::RuntimeDefault.units(7), 7);
    assert!(matches!(
        provisioning_failed("alice".to_string(), "cap".to_string()),
        RuntimeError::ProvisioningFailed { subject, .. } if subject == "alice"
    ));
}

#[test]
fn receipts_state_what_was_done() {
    let parent = Sha256Digest::of(b"parent");
    let calls = vec![tool_receipt(&call("c1"), b"out", CostTuple::cents(2))];
    let body = round_body(
        &frame(Some(parent)),
        &claims(),
        COMPLETION_VERB,
        "answer",
        CostTuple::cents(5),
        CostTuple::cents(2),
        calls,
        "provider",
    );
    assert_eq!(body.parent_hash, Some(parent));
    assert_eq!(body.cost, CostTuple::cents(7));
    assert_eq!(body.payload_digest, Sha256Digest::of(b"answer"));
    assert_eq!(body.subject, "alice");
    assert_eq!(body.session_id, Some(SessionId(2)));
    assert_eq!(body.verb, "llm.completion.minted.v1");
    assert_eq!(body.tool_calls[0].output_digest, Sha256Digest::of(b"out"));

    let marker = record_turn_cancellation(&frame(None), &claims(), 1, "provider").unwrap();
    assert_eq!(marker.cost, CostTuple::zero());
    assert_eq!(marker.verb, "llm.completion.cancelled.v1");
    assert_eq!(
        marker.payload_digest,
        Sha256Digest::of(b"turn cancelled before settling")
    );
    assert!(record_turn_cancellation(&frame(None), &claims(), 0, "provider").is_none());

    let unrun = unrun_receipts(&vec![call("c9")]);
    assert_eq!(unrun[0].output_digest, Sha256Digest::of(b""));
    assert_eq!(unrun[0].cost, CostTuple::zero());
    let exhausted = round_receipts(Vec::new(), &vec![call("c8"), call("c9")]);
    assert_eq!(exhausted.len(), 2);
    assert_eq!(exhausted[1].call_id, "c9");
    assert_eq!(exhausted[1].output_digest, Sha256Digest::of(b""));
    let ran = tool_receipt(&call("c8"), b"out", CostTuple::cents(2));
    let kept = round_receipts(vec![ran], &vec![call("c8")]);
    assert_eq!(kept.len(), 1);
    assert_eq!(kept[0].output_digest, Sha256Digest::of(b"out"));
    assert_eq!(kept[0].cost, CostTuple::cents(2));
    let control = control_body(
        &frame(None),
        &claims(),
        "session.checkpoint.created.v1",
        parent,
        CostTuple::zero(),
    );
    assert_eq!(control.provider, None);
    let paid = completion_body(
        &frame(None),
        &claims(),
        "context.compact.applied.v1",
        "summary",
        CostTuple::cents(1),
        "provider",
    );
    assert_eq!(paid.cost, CostTuple::cents(1));
}

#[test]
fn mirrored_facts_come_out_of_the_receipt() {
    let body = round_body(
        &frame(None),
        &claims(),
        COMPLETION_VERB,
        "answer",
        CostTuple::cents(5),
        CostTuple::zero(),
        vec![tool_receipt(&call("c1"), b"abc", CostTuple::zero())],
        "provider",
    );
    let facts = round_facts(&body, "chat.submit", true);
    assert_eq!(facts.step_id, "00000000-0000-0000-0000-000000000009");
    assert_eq!(facts.trace_id, "00000000-0000-0000-0000-000000000002");
    assert_eq!(facts.timestamp_millis, 5_000);
    assert_eq!(
        facts.tool_calls[0].output_digest,
        "ba7816bf8f01cfea414140de5dae2223b00361a396177a9cb410ff61f20015ad"
    );
    let arguments = round_arguments(&facts);
    assert_eq!(arguments.capability, "chat.submit");
    assert_eq!(arguments.native_receipt_id, facts.step_id);
    assert_eq!(arguments.tool_calls[0].tool, "echo");
    assert_eq!(
        arguments.tool_calls[0].output_sha256,
        facts.tool_calls[0].output_digest
    );
    let invocation = round_invocation(&facts);
    assert_eq!(invocation.action_class, ActionClass::Summarize);
    assert_eq!(invocation.side_effect_class, SideEffectClass::InternalWrite);
    assert_eq!(invocation.resource_family, "llm_completion");
    assert_eq!(invocation.ttl_secs, ER_TTL_SECS);

    let record = turn_record("alice", "answer", &body, UnixTsMillis(8));
    assert_eq!(record.source, "turn");
    assert_eq!(record.workspace_id, "alice");
    assert_eq!(record.source_receipt_id, Some(ReceiptId(9)));
    assert_eq!(record.valid_to, None);
}

#[test]
fn a_json_string_is_unwrapped() {
    let text = |string: Option<&str>, rendered: &str| JsonText {
        string: string.map(|text| text.to_string()),
        rendered: rendered.to_string(),
    };
    assert_eq!(tool_output_text(text(Some("hi"), "\"hi\"")), "hi");
    assert_eq!(tool_output_text(text(None, "{\"a\":1}")), "{\"a\":1}");
    assert_eq!(
        memory_payload_text(Some(text(Some("tea"), "\"tea\"")), text(None, "{}")),
        "tea"
    );
    assert_eq!(memory_payload_text(None, text(None, "{}")), "{}");
}

#[test]
fn observations_hold_digests_only() {
    let evidence = tool_evidence(
        2,
        &call("c1"),
        ToolEffect::DispatchIntent,
        OutputAdmission::NotScanned,
    );
    assert_eq!(evidence.ordinal, 2);
    assert_eq!(evidence.arguments_digest, Sha256Digest::of(b"{}"));
    assert_eq!(
        usage_evidence(
            Usage {
                tokens_in: 3,
                tokens_out: 4
            },
            CostTuple::cents(1),
            b"rates",
            true
        ),
        ProviderEvidence::Observed {
            usage: Some(UsageSnapshot {
                input_tokens: 3,
                output_tokens: 4
            }),
            cost: CostTuple::cents(1),
            provenance: CostProvenance::PricedUsage(Sha256Digest::of(b"rates")),
            finished: true,
            interrupted: false,
        }
    );
}

#[test]
fn how_a_tool_ended_is_observed() {
    assert_eq!(
        observed_effect(
            ToolEnd::Completed(ScanVerdict::Undetermined),
            b"out",
            CostTuple::cents(1)
        ),
        (
            ToolEffect::Completed {
                output_digest: Sha256Digest::of(b"out"),
                cost: CostTuple::cents(1)
            },
            OutputAdmission::Blocked
        )
    );
    assert_eq!(
        observed_effect(ToolEnd::Failed, b"", CostTuple::zero()),
        (
            ToolEffect::Failed {
                class: ToolFailureClass::Execution,
                effect_unknown: true
            },
            OutputAdmission::NotScanned
        )
    );
    assert_eq!(
        observed_effect(ToolEnd::TimedOut, b"", CostTuple::zero()).0,
        ToolEffect::InterruptedUnknown
    );
    let outcome = completed_outcome(b"abc", CostTuple::cents(1), ScanVerdict::Undetermined);
    assert_eq!(outcome.output_digest, Sha256Digest::of(b"abc").to_hex());
    assert_eq!(outcome.output_admission, ScanVerdict::Undetermined);
    assert!(matches!(
        response_evidence(
            Usage {
                tokens_in: 1,
                tokens_out: 2
            },
            CostTuple::cents(3)
        ),
        ProviderEvidence::Observed {
            provenance: CostProvenance::ResponseCost,
            finished: true,
            ..
        }
    ));
}

#[test]
fn a_receipt_event_shows_the_digest_of_the_receipt() {
    match receipt_event(ReceiptId(3), "abc") {
        FusedEvent::Receipt {
            receipt_id,
            chain_hash,
        } => {
            assert_eq!(receipt_id, ReceiptId(3));
            assert_eq!(
                chain_hash,
                "ba7816bf8f01cfea414140de5dae2223b00361a396177a9cb410ff61f20015ad"
            );
        }
        other => panic!("a receipt is shown, got {other:?}"),
    }
    assert!(matches!(
        stage_event(Emitted::StageEnd {
            stage: StageKind::CedarCheck,
            ok: false
        }),
        Some(FusedEvent::StageEnd {
            stage: StageKind::CedarCheck,
            ok: false
        })
    ));
    assert!(stage_event(Emitted::Receipt).is_none());
}

#[test]
fn a_builder_starts_with_its_defaults() {
    let defaults = builder();
    assert_eq!(defaults.audience, "ardur");
    assert_eq!(defaults.tool, "chat.submit");
    assert_eq!(defaults.cost_units, 1);
    assert_eq!(defaults.principal_entity_type, "User");
    assert_eq!(defaults.action, "Action::Submit");
    assert_eq!(defaults.max_tokens, 1024);
    assert_eq!(defaults.verb, "llm.completion.minted.v1");
    assert_eq!(defaults.envelope, default_envelope());
    assert!(defaults.ceiling.is_none() && defaults.provision_cap.is_none());
    let envelope = CostEnvelope {
        cents_max: 5,
        ..default_envelope()
    };
    let set = builder()
        .audience("aud".to_string())
        .tool("t".to_string())
        .cost_units(4)
        .action("A".to_string())
        .principal_entity_type("Agent".to_string())
        .max_tokens(9)
        .verb("v".to_string())
        .projected_envelope(envelope)
        .ceiling(envelope)
        .provision_cap(CostTuple::cents(8))
        .reconciliation_strategy(ReconciliationStrategy::IgnoreOrphans)
        .with_memory()
        .with_journal(SessionId(1))
        .receipt_log("chain.jsonl".to_string());
    assert_eq!(set.audience, "aud");
    assert_eq!(set.cost_units, 4);
    assert_eq!(set.envelope.cents_max, 5);
    assert_eq!(set.ceiling, Some(envelope));
    assert!(set.memory);
    assert_eq!(set.journal, Some(SessionId(1)));
    assert_eq!(set.receipt_log, Some("chain.jsonl".to_string()));
}

#[test]
fn a_runtime_resumes_its_chain() {
    let body = control_body(
        &frame(None),
        &claims(),
        "v",
        Sha256Digest::of(b"p"),
        CostTuple::zero(),
    );
    let chain = vec![PersistedReceipt {
        jws_compact: "jws".to_string(),
        body,
    }];
    let with_log = builder()
        .receipt_log("chain.jsonl".to_string())
        .build(&chain, settlements());
    assert_eq!(with_log.chain_tail, Some(Sha256Digest::of(b"jws")));
    let (commit, _) = with_log.commit_round(false, false, 1, true);
    assert_eq!(commit.tail(), Some(Sha256Digest::of(b"jws")));
    let without = builder().build(&chain, settlements());
    assert_eq!(without.chain_tail, None);
    assert_eq!(
        without.nothing_to_reconcile(false).unwrap().action,
        ReconciliationAction::NoOrphans
    );
    let both = builder()
        .with_journal(SessionId(1))
        .receipt_log("chain.jsonl".to_string())
        .build(&chain, settlements());
    assert!(both.nothing_to_reconcile(false).is_none());
    let mut moved = both;
    moved.move_tail(None);
    assert_eq!(moved.chain_tail, None);
}

#[test]
fn a_turn_is_attributed_to_its_verified_subject() {
    let mut runtime = runtime();
    let claims = claims();
    let mut provisioning = PerRequestProvisioning::default();
    let caveats = runtime.turn_caveats(&provisioning, 7_999);
    assert_eq!(caveats.now_unix, 7);
    assert_eq!(caveats.audience, "ardur");
    assert_eq!(caveats.tool, "chat.submit");
    assert_eq!(caveats.cost, 1);
    provisioning.subject = Some("team".to_string());
    let identity =
        runtime.settlement_identity(SessionId(2), &claims, &provisioning, UnixTsMillis(5));
    assert_eq!(identity.verified_subject.0, "alice");
    assert_eq!(identity.budget_holder.0, "team");
    assert_eq!(identity.cap_token_id, TokenId(4));
    let owner = runtime
        .begin_settlement(identity, TurnId(1), None)
        .unwrap();
    assert_eq!(owner.turn_id(), TurnId(1));
    let identity =
        runtime.settlement_identity(SessionId(2), &claims, &provisioning, UnixTsMillis(5));
    assert!(matches!(
        runtime.begin_settlement(identity, TurnId(2), None),
        Err(RuntimeError::Settlement(SettlementError::Busy))
    ));
    assert_eq!(runtime.principal(&claims), "User::\"alice\"");
    assert_eq!(
        runtime.resource(SessionId(2)),
        "Session::\"00000000-0000-0000-0000-000000000002\""
    );
    assert!(matches!(
        runtime.verify_cap_token_for_tool(
            "",
            Err(TokenFault {
                error: CapTokenError::Other,
                rendered: "x".to_string()
            })
        ),
        Err(RuntimeError::CapTokenMissing)
    ));
    assert!(runtime
        .verify_cap_token_for_tool("token", Ok(claims))
        .is_ok());
}

#[test]
fn turns_start_with_the_runtimes_bounds() {
    let runtime = runtime();
    let (once, _) = runtime.submit_with_provisioning();
    assert_eq!(once.phase, Phase::VerifyToken);
    assert_eq!(once.config.max_tool_iterations, 3);
    assert!(!once.config.cancellable && !once.config.stream);
    assert_eq!(once.config.memory, runtime.config.memory);
    assert_eq!(once.config.journal, runtime.config.journal.is_some());
    let (cancellable, _) = runtime.submit_with_cancellation();
    assert!(cancellable.config.cancellable);
    let (stream, _) = runtime.stream_with_provisioning();
    assert!(stream.config.stream);
    assert_eq!(stream.config.stream_content_max_bytes, 1_000);
    assert_eq!(runtime.compact().kind, ControlKind::Compact);
    assert_eq!(runtime.preview_compact().action, ControlAction::Authorize);
    assert_eq!(runtime.run_background_task().kind, ControlKind::Task);
    assert_eq!(
        runtime.reconciliation_strategy(),
        ReconciliationStrategy::AppendSyntheticJournal
    );
}

fn journal() -> Vec<SessionEntry> {
    vec![
        SessionEntry::UserMessage {
            content: "hi".to_string(),
            at: UnixTsMillis(1),
        },
        SessionEntry::Checkpoint {
            checkpoint_id: 7,
            summary: "early".to_string(),
            at: UnixTsMillis(2),
        },
        SessionEntry::AssistantMessage {
            content: "hello".to_string(),
            at: UnixTsMillis(3),
            receipt_id: ReceiptId(1),
        },
        SessionEntry::Checkpoint {
            checkpoint_id: 8,
            summary: "late".to_string(),
            at: UnixTsMillis(4),
        },
    ]
}

#[test]
fn a_checkpoint_gives_its_history_back() {
    let runtime = runtime();
    let (label, receipt) = runtime.checkpoint(None, 4);
    assert_eq!(label, "checkpoint at 4 entries");
    assert_eq!(receipt.verb, "session.checkpoint.created.v1");
    assert_eq!(receipt.payload, Sha256Digest::of(label.as_bytes()));
    let listed = runtime.list_checkpoints(&journal());
    assert_eq!(listed.len(), 2);
    assert_eq!(listed[0].checkpoint_id, 7);
    assert_eq!(listed[0].entry_id, 1);
    assert_eq!(listed[1].summary, "late");
    let plan = runtime.rollback_to_checkpoint(&journal(), 7).unwrap();
    assert_eq!(plan.retained_entries.len(), 2);
    assert_eq!(plan.receipt.verb, "session.rollback.completed.v1");
    assert_eq!(
        plan.receipt.payload,
        Sha256Digest::of(&7u128.to_be_bytes())
    );
    assert!(matches!(
        runtime.rollback_to_checkpoint(&journal(), 9),
        Err(RuntimeError::Internal(text)) if text == "checkpoint \
            00000000-0000-0000-0000-000000000009 not found in this session's journal"
    ));
}

#[test]
fn control_decisions_have_their_receipts() {
    let runtime = runtime();
    let cancelled = runtime.cancel_background_task();
    assert_eq!(cancelled.verb, "task.background.cancelled.v1");
    assert_eq!(cancelled.payload, Sha256Digest::of(b"cancelled by user"));
    let task: u128 = 0xa1a2a3a4b1b2c1c2d1d2d3d4d5d6d7d8;
    let steer = runtime.accept_steer_directive(task, "left");
    assert_eq!(steer.verb, "input.steer.accepted.v1");
    assert_eq!(
        steer.payload,
        Sha256Digest::of(b"a1a2a3a4-b1b2-c1c2-d1d2-d3d4d5d6d7d8:left")
    );
    assert_eq!(
        runtime.resource(SessionId(task)),
        "Session::\"a1a2a3a4-b1b2-c1c2-d1d2-d3d4d5d6d7d8\""
    );
    let interrupt = runtime.accept_interrupt(task);
    assert_eq!(interrupt.verb, "input.interrupt.accepted.v1");
    assert_eq!(interrupt.payload, Sha256Digest::of(&task.to_be_bytes()));
    let decision = runtime.mint_approval_decision_receipt("approval.decision.approved.v1", "a1");
    assert_eq!(decision.verify, ControlVerifyCost::ApprovalDecision);
    assert_eq!(decision.payload, Sha256Digest::of(b"a1"));
    assert_eq!(
        approval_proposal_receipt("a1").verb,
        "approval.propose.created.v1"
    );
    assert_eq!(
        task_failed_receipt("boom").payload,
        Sha256Digest::of(b"boom")
    );
    assert!(is_task_failure(&RuntimeError::ProviderUnavailable));
    assert!(!is_task_failure(&RuntimeError::TurnCancelled));
    assert!(runtime.revoke_cap_token(None, None).is_ok());
    assert!(matches!(
        runtime.revoke_cap_token(Some("bad".to_string()), None),
        Err(RuntimeError::CapDenied { reason, .. }) if reason == "revoke: bad"
    ));
    assert!(matches!(
        runtime.revoke_cap_token(None, Some("disk".to_string())),
        Err(RuntimeError::Internal(text)) if text == "persisting revocation failed: disk"
    ));
}

#[test]
fn a_compaction_reports_its_sizes() {
    let history = vec![ChatMessage::user("x".repeat(10))];
    let outcome = compact_outcome(&history, "short".to_string(), 3, 4, ReceiptId(5));
    assert_eq!(outcome.before_tokens_estimate, 3);
    assert_eq!(outcome.after_tokens_estimate, 2);
    assert_eq!(outcome.summary, "short");
    let done = BackgroundTaskOutcome::completed(ReceiptId(1), "ok".to_string());
    assert_eq!(done.result, Some("ok".to_string()));
    let failed = BackgroundTaskOutcome::failed(ReceiptId(1), "no".to_string());
    assert_eq!(failed.error, Some("no".to_string()));
}
