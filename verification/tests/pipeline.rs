//! Turns, commits, refusals and control operations, step by step.
use fused_runtime::approval::{
    approval_answer, approval_reason, ApprovalAction, ApprovalEnd, ApprovalEvent, ApprovalGate,
    CardStatus, ClaimOutcome,
};
use fused_runtime::classify::{DeniedOutcome, EventOutcome, MemoryError, PublicDenialReason};
use fused_runtime::commit::{
    commit_error, journal_failure, CommitAction, CommitConfig, CommitEnd, CommitEvent,
    JournalFault, RoundCommit,
};
use fused_runtime::cost::CostTuple;
use fused_runtime::dispatch::{
    dispatch_error, ControlDispatch, DispatchAction, DispatchEnd, DispatchEvent, StopReason,
};
use fused_runtime::errors::{turn_error, CapTokenError, ProviderError, RuntimeError};
use fused_runtime::evidence::RefusalClass;
use fused_runtime::ids::{ReceiptId, Sha256Digest};
use fused_runtime::memory_write::{
    memory_denial, AuthOutcome, MemoryAction, MemoryEvent, MemoryWrite,
};
use fused_runtime::operation::{
    journal_error, mint_error, ControlAction, ControlEnd, ControlEvent, ControlKind, ControlMint,
    ControlOperation, MintAction, MintEnd, MintEvent,
};
use fused_runtime::refusal::{RefusalAction, RefusalSettlement};
use fused_runtime::slot::{Disposition, SettlementError};
use fused_runtime::turn::{
    Action, ApprovalAnswer, Denial, Emitted, LifecyclePhase, Phase, ProbeSite, ScanVerdict,
    SettlementReason, StageKind, ToolEnd, TurnConfig, TurnError, TurnEvent, TurnMachine,
};

fn config(stream: bool, cancellable: bool) -> TurnConfig {
    TurnConfig {
        stream,
        cancellable,
        max_tool_iterations: 2,
        stream_content_max_bytes: 100,
        memory: true,
        journal: true,
    }
}

fn answer(requested: usize) -> TurnEvent {
    TurnEvent::Response {
        cost: CostTuple::cents(5),
        requested,
    }
}

/// Feeds the events in order and returns every action, the first ones too.
fn run(config: TurnConfig, events: &[TurnEvent]) -> (TurnMachine, Vec<Action>) {
    let (mut turn, mut all) = TurnMachine::new(config);
    for event in events {
        assert!(turn.is_expected(event), "{event:?} in {:?}", turn.phase);
        all.extend(turn.advance(*event));
    }
    (turn, all)
}

/// The checks of the setup, up to the first call of the provider.
fn ready() -> Vec<TurnEvent> {
    vec![TurnEvent::Passed; 10]
}

fn asked(actions: &[Action]) -> Vec<Phase> {
    actions
        .iter()
        .filter_map(|action| match action {
            Action::Ask(phase) => Some(*phase),
            _ => None,
        })
        .collect()
}

#[test]
fn a_plain_turn_asks_for_its_checks_in_order() {
    let mut events = ready();
    events.push(answer(0));
    events.extend([TurnEvent::Passed; 5]);
    let (turn, actions) = run(config(false, false), &events);
    assert_eq!(turn.phase, Phase::Done);
    assert_eq!(
        asked(&actions),
        vec![
            Phase::VerifyToken,
            Phase::CheckPolicy,
            Phase::Permit,
            Phase::BeginSettlement,
            Phase::CostSetup,
            Phase::AdmitRound,
            Phase::PreSubmit,
            Phase::Recall,
            Phase::ScanRequest,
            Phase::ObserveDispatch,
            Phase::CallProvider,
            Phase::ObserveResponse,
            Phase::CommitRound,
            Phase::SettleRound,
            Phase::RecordMemory,
            Phase::AppendJournal,
        ]
    );
    assert_eq!(
        actions.last(),
        Some(&Action::Answer {
            total: CostTuple::cents(5)
        })
    );
    assert!(!actions.iter().any(|action| matches!(action, Action::Emit(_))));
    let at = |wanted: Action| actions.iter().position(|action| *action == wanted).unwrap();
    assert!(at(Action::PostReceipt) < at(Action::Ask(Phase::SettleRound)));
    assert!(at(Action::Ask(Phase::AppendJournal)) < at(Action::ReleasePermit));
}

#[test]
fn a_rejected_token_ends_the_turn_before_anything_else() {
    let (turn, actions) = run(config(false, false), &[TurnEvent::Failed]);
    assert_eq!(turn.phase, Phase::Done);
    assert_eq!(
        actions,
        vec![
            Action::Ask(Phase::VerifyToken),
            Action::FireError {
                phase: LifecyclePhase::Submit,
                error: TurnError::Reported
            },
            Action::Fail {
                error: TurnError::Reported,
                settlement: false
            },
        ]
    );
}

#[test]
fn a_tool_round_runs_its_checks_and_is_folded_into_the_next() {
    let mut events = ready();
    events.push(answer(1));
    events.push(TurnEvent::Passed);
    events.extend([TurnEvent::Passed; 5]);
    events.push(TurnEvent::Output {
        cost: CostTuple::cents(2),
    });
    events.push(TurnEvent::Scanned(ScanVerdict::Allowed));
    events.extend([TurnEvent::Passed; 5]);
    let (turn, actions) = run(config(false, false), &events);
    assert_eq!(turn.phase, Phase::AdmitRound);
    assert_eq!(turn.iteration, 2);
    assert_eq!(turn.committed_rounds, 1);
    assert_eq!(turn.total_cost, CostTuple::cents(7));
    let tools = asked(&actions);
    let at = tools
        .iter()
        .position(|phase| *phase == Phase::LookupTool)
        .unwrap();
    assert_eq!(
        tools[at..at + 7],
        [
            Phase::LookupTool,
            Phase::AuthorizeTool,
            Phase::CheckCapabilities,
            Phase::Approve,
            Phase::ObserveIntent,
            Phase::InvokeTool,
            Phase::ScanOutput,
        ]
    );
    assert!(actions.contains(&Action::RecordPreEffect));
    assert!(actions.contains(&Action::FoldRound));
    let intent = actions.iter().position(|a| *a == Action::RecordPreEffect);
    let invoked = actions
        .iter()
        .position(|a| *a == Action::Ask(Phase::InvokeTool));
    assert!(intent < invoked);
}

#[test]
fn an_unknown_tool_is_settled_for_what_is_known() {
    let mut events = ready();
    events.extend([answer(1), TurnEvent::Passed, TurnEvent::Failed]);
    let (turn, actions) = run(config(false, false), &events);
    assert!(actions.contains(&Action::RecordDenied(Denial::UnknownTool)));
    match turn.phase {
        Phase::Settle(refusal) => {
            assert_eq!(refusal.reason, SettlementReason::UnknownTool);
            assert_eq!(refusal.known, CostTuple::cents(5));
            assert_eq!(refusal.reason.as_str(), "refusal:unknown_tool");
            assert_eq!(
                refusal.reason.disposition(),
                Disposition::Refusal(RefusalClass::UnknownTool)
            );
        }
        other => panic!("a refusal is settled first, got {other:?}"),
    }
    let mut turn = turn;
    let ended = turn.advance(TurnEvent::Failed);
    assert_eq!(
        ended.last(),
        Some(&Action::Fail {
            error: TurnError::UnknownTool,
            settlement: true
        })
    );
}

#[test]
fn a_batch_that_is_too_large_runs_no_tool() {
    let mut events = ready();
    events.extend([answer(9), TurnEvent::Passed]);
    let (turn, actions) = run(config(false, false), &events);
    assert!(matches!(
        turn.phase,
        Phase::Settle(refusal) if refusal.reason == SettlementReason::ToolCapacity
            && refusal.error == (TurnError::ToolBatchTooLarge { requested: 9 })
    ));
    assert!(!asked(&actions).contains(&Phase::LookupTool));
}

#[test]
fn a_turn_that_never_stops_asking_for_tools_is_exhausted() {
    let mut limit = config(false, false);
    limit.max_tool_iterations = 1;
    limit.memory = false;
    limit.journal = false;
    let mut events = ready();
    events.extend([answer(1), TurnEvent::Passed, TurnEvent::Passed, TurnEvent::Passed]);
    let (turn, actions) = run(limit, &events);
    assert_eq!(turn.at, 0);
    for once in [Action::Ask(Phase::CallProvider), Action::PostReceipt] {
        assert_eq!(actions.iter().filter(|action| **action == once).count(), 1);
    }
    assert_eq!(turn.phase, Phase::FinishRefused);
    let mut turn = turn;
    let ended = turn.advance(TurnEvent::Passed);
    assert_eq!(
        ended.last(),
        Some(&Action::Fail {
            error: TurnError::ToolLoopExhausted { iterations: 1 },
            settlement: false
        })
    );
}

#[test]
fn a_gone_caller_releases_what_is_held_and_nothing_more() {
    let mut events = vec![TurnEvent::Passed, TurnEvent::Passed];
    events.push(TurnEvent::Probed(false));
    events.push(TurnEvent::Passed);
    events.push(TurnEvent::Probed(false));
    events.extend([TurnEvent::Passed; 2]);
    events.push(TurnEvent::Probed(false));
    events.extend([TurnEvent::Passed; 4]);
    let (mut turn, _) = run(config(false, true), &events);
    assert_eq!(turn.phase, Phase::Probe(ProbeSite::Admitted));
    assert_eq!(
        turn.advance(TurnEvent::Probed(true)),
        vec![
            Action::Release,
            Action::FireError {
                phase: LifecyclePhase::Provider,
                error: TurnError::TurnCancelled
            },
            Action::Fail {
                error: TurnError::TurnCancelled,
                settlement: false
            },
        ]
    );

    let (mut early, _) = run(config(false, true), &[TurnEvent::Passed, TurnEvent::Passed]);
    assert_eq!(
        early.advance(TurnEvent::Probed(true)),
        vec![Action::Fail {
            error: TurnError::TurnCancelled,
            settlement: false
        }]
    );
}

fn stages(actions: &[Action]) -> Vec<(StageKind, Option<bool>)> {
    actions
        .iter()
        .filter_map(|action| match action {
            Action::Emit(Emitted::StageStart { stage }) => Some((*stage, None)),
            Action::Emit(Emitted::StageEnd { stage, ok }) => Some((*stage, Some(*ok))),
            _ => None,
        })
        .collect()
}

#[test]
fn a_stream_brackets_its_stages_and_shows_its_receipt() {
    let mut events = ready();
    events.extend([
        TurnEvent::Passed,
        TurnEvent::Delta { bytes: 10 },
        TurnEvent::Usage {
            cost: CostTuple::cents(5),
        },
        TurnEvent::Passed,
        TurnEvent::FinishReason { requested: 0 },
        TurnEvent::StreamEnd,
        TurnEvent::Passed,
        TurnEvent::Passed,
        TurnEvent::Passed,
        TurnEvent::Passed,
        TurnEvent::Passed,
    ]);
    let (turn, actions) = run(config(true, false), &events);
    assert_eq!(turn.phase, Phase::Done);
    let expected: Vec<(StageKind, Option<bool>)> = [
        StageKind::CapTokenVerify,
        StageKind::CedarCheck,
        StageKind::CostGateAdmit,
        StageKind::InjectionScan,
        StageKind::ProviderStream,
        StageKind::ReceiptMint,
        StageKind::CostGateFinalize,
        StageKind::MemoryRecord,
        StageKind::JournalAppend,
    ]
    .iter()
    .flat_map(|stage| [(*stage, None), (*stage, Some(true))])
    .collect();
    assert_eq!(stages(&actions), expected);
    let emitted = actions
        .iter()
        .filter(|action| matches!(action, Action::Emit(_)));
    assert_eq!(emitted.last(), Some(&Action::Emit(Emitted::Finish)));
    let receipt = actions
        .iter()
        .position(|action| *action == Action::Emit(Emitted::Receipt));
    let commit = actions
        .iter()
        .position(|action| *action == Action::Ask(Phase::CommitRound));
    assert!(commit < receipt);
    assert!(actions.contains(&Action::Emit(Emitted::Content)));
    assert!(actions.contains(&Action::Emit(Emitted::Finish)));
}

#[test]
fn an_exhausted_budget_is_reported_before_the_hooks_run() {
    let mut events = vec![TurnEvent::Passed; 5];
    events.push(TurnEvent::Failed);
    let (turn, actions) = run(config(false, false), &events);
    assert_eq!(turn.phase, Phase::Done);
    assert!(!asked(&actions).contains(&Phase::PreSubmit));
    assert!(!actions.contains(&Action::Release));
}

#[test]
fn a_veto_releases_what_was_admitted() {
    let mut events = vec![TurnEvent::Passed; 6];
    events.push(TurnEvent::Failed);
    let (turn, actions) = run(config(false, false), &events);
    assert_eq!(turn.phase, Phase::Done);
    assert_eq!(asked(&actions).last(), Some(&Phase::PreSubmit));
    assert_eq!(
        actions[actions.len() - 2..],
        [
            Action::Release,
            Action::Fail {
                error: TurnError::Reported,
                settlement: false
            },
        ]
    );

    let mut events = vec![TurnEvent::Passed; 7];
    events.push(TurnEvent::Failed);
    let (_, actions) = run(config(false, false), &events);
    assert_eq!(asked(&actions).last(), Some(&Phase::Recall));
    assert!(actions.contains(&Action::Release));
}

#[test]
fn a_blocked_prompt_releases_what_was_admitted() {
    let mut events = vec![TurnEvent::Passed; 8];
    events.push(TurnEvent::Failed);
    let (turn, actions) = run(config(true, false), &events);
    assert_eq!(turn.phase, Phase::Done);
    assert!(actions.contains(&Action::Release));
    assert!(!actions.contains(&Action::PostReceipt));
    assert_eq!(
        stages(&actions)[4..],
        [
            (StageKind::CostGateAdmit, None),
            (StageKind::CostGateAdmit, Some(true)),
            (StageKind::InjectionScan, None),
            (StageKind::InjectionScan, Some(false)),
        ]
    );
    assert_eq!(
        actions.last(),
        Some(&Action::Fail {
            error: TurnError::Reported,
            settlement: false
        })
    );
}

#[test]
fn streamed_content_is_capped() {
    let mut events = ready();
    events.extend([TurnEvent::Passed, TurnEvent::Delta { bytes: 101 }]);
    let (turn, actions) = run(config(true, false), &events);
    assert_eq!(turn.phase, Phase::Done);
    assert!(actions.contains(&Action::ReleaseFailure));
    assert_eq!(
        actions.last(),
        Some(&Action::Fail {
            error: TurnError::StreamedContentCapExceeded {
                limit: 100,
                actual: 101
            },
            settlement: false
        })
    );
    assert_eq!(
        stages(&actions).last(),
        Some(&(StageKind::ProviderStream, Some(false)))
    );
}

#[test]
fn a_stream_without_usage_is_not_charged() {
    let mut events = ready();
    events.extend([TurnEvent::Passed, TurnEvent::StreamEnd]);
    let (_, actions) = run(config(true, false), &events);
    assert_eq!(
        actions.last(),
        Some(&Action::Fail {
            error: TurnError::ProviderUnavailable,
            settlement: false
        })
    );
}

#[test]
fn a_timed_out_tool_has_an_uncertain_effect() {
    let mut events = ready();
    events.extend([answer(1), TurnEvent::Passed]);
    events.extend([TurnEvent::Passed; 5]);
    events.extend([TurnEvent::TimedOut, TurnEvent::Passed]);
    let (turn, actions) = run(config(false, false), &events);
    assert!(actions.contains(&Action::RecordTerminal(ToolEnd::TimedOut)));
    assert!(!actions
        .iter()
        .any(|action| matches!(action, Action::RecordInvocation { .. })));
    assert!(matches!(
        turn.phase,
        Phase::Settle(refusal) if refusal.reason == SettlementReason::ToolTimeoutUncertain
            && refusal.known == CostTuple::cents(5)
    ));
}

fn committing(handshake: bool) -> CommitConfig {
    CommitConfig {
        probed: handshake,
        handshake,
        mirrored: true,
        journaled: true,
        iteration: 1,
        prompted: true,
    }
}

fn signed(id: u128) -> CommitEvent {
    CommitEvent::Signed {
        receipt_id: ReceiptId(id),
        jws: "jws".to_string(),
    }
}

#[test]
fn a_commit_moves_the_tail_with_the_log() {
    let parent = Sha256Digest::of(b"parent");
    let (mut commit, first) = RoundCommit::begin(committing(false), Some(parent));
    assert_eq!(first, CommitAction::Sign);
    assert_eq!(commit.parent(), Some(parent));
    assert_eq!(commit.advance(signed(8)), CommitAction::MeasureLog);
    assert_eq!(
        commit.advance(CommitEvent::Measured(40)),
        CommitAction::PrepareReceipt
    );
    let candidate = commit.candidate();
    assert_eq!(candidate.receipt_id, ReceiptId(8));
    assert_eq!(candidate.expected_parent, Some(parent));
    assert_eq!(candidate.expected_log_end, 40);
    assert_eq!(candidate.jws_digest, Sha256Digest::of(b"jws"));
    assert_eq!(commit.advance(CommitEvent::Passed), CommitAction::Finalize);
    assert_eq!(
        commit.advance(CommitEvent::Passed),
        CommitAction::AppendReceipt
    );
    assert_eq!(commit.tail(), Some(parent));
    assert_eq!(commit.advance(CommitEvent::Passed), CommitAction::BindReceipt);
    assert_eq!(commit.tail(), Some(Sha256Digest::of(b"jws")));
    assert_eq!(commit.binding().jws_digest, Sha256Digest::of(b"jws"));
    assert_eq!(commit.advance(CommitEvent::Passed), CommitAction::Mirror);
    assert_eq!(
        commit.advance(CommitEvent::Failed),
        CommitAction::Announce
    );
    for next in [
        CommitAction::DrainSettlements,
        CommitAction::AwaitJournal,
        CommitAction::JournalPrompt,
        CommitAction::JournalAnswer,
        CommitAction::Finish(CommitEnd::Committed),
    ] {
        assert_eq!(commit.advance(CommitEvent::Passed), next);
    }
    assert!(commit_error(CommitEnd::Committed, "").is_none());
}

/// A commit whose journal is asked for its first entry.
fn journaling(config: CommitConfig) -> (RoundCommit, CommitAction) {
    let (mut commit, _) = RoundCommit::begin(config, None);
    commit.advance(signed(8));
    let mut action = commit.advance(CommitEvent::Measured(0));
    while !matches!(
        action,
        CommitAction::JournalPrompt | CommitAction::JournalAnswer | CommitAction::Finish(_)
    ) {
        action = commit.advance(CommitEvent::Passed);
    }
    (commit, action)
}

#[test]
fn a_failing_journal_is_reported_and_the_round_stays_committed() {
    let (mut prompt, action) = journaling(committing(false));
    assert_eq!(action, CommitAction::JournalPrompt);
    assert_eq!(
        prompt.advance(CommitEvent::Failed),
        CommitAction::FireError(JournalFault::Prompt)
    );
    assert_eq!(
        prompt.advance(CommitEvent::Passed),
        CommitAction::Finish(CommitEnd::Committed)
    );
    assert_eq!(
        journal_failure(JournalFault::Prompt, "disk"),
        "settlement user journal failed: disk"
    );

    let mut later = committing(false);
    later.iteration = 2;
    let (mut answer, action) = journaling(later);
    assert_eq!(action, CommitAction::JournalAnswer);
    assert_eq!(
        answer.advance(CommitEvent::Failed),
        CommitAction::FireError(JournalFault::Answer)
    );
    assert_eq!(
        answer.advance(CommitEvent::Passed),
        CommitAction::Finish(CommitEnd::Committed)
    );
    assert_eq!(
        journal_failure(JournalFault::Answer, "disk"),
        "settlement assistant journal failed: disk"
    );

    let mut unjournaled = committing(false);
    unjournaled.journaled = false;
    assert_eq!(
        journaling(unjournaled).1,
        CommitAction::Finish(CommitEnd::Committed)
    );
}

#[test]
fn a_cancellation_precedes_the_write_or_loses() {
    let (mut gone, first) = RoundCommit::begin(committing(true), None);
    assert_eq!(first, CommitAction::AskCaller);
    assert_eq!(
        gone.advance(CommitEvent::CallerGone(true)),
        CommitAction::Abandon
    );
    assert_eq!(
        gone.advance(CommitEvent::Passed),
        CommitAction::Finish(CommitEnd::Cancelled)
    );
    assert!(matches!(
        commit_error(CommitEnd::Cancelled, ""),
        Some(RuntimeError::TurnCancelled)
    ));

    let (mut late, _) = RoundCommit::begin(committing(true), None);
    late.advance(CommitEvent::CallerGone(false));
    late.advance(signed(8));
    assert_eq!(
        late.advance(CommitEvent::Measured(0)),
        CommitAction::BeginPersist
    );
    assert_eq!(
        late.advance(CommitEvent::Persisting(false)),
        CommitAction::Abandon
    );
}

#[test]
fn an_ambiguous_append_stops_admission() {
    let (mut commit, _) = RoundCommit::begin(committing(false), None);
    commit.advance(signed(8));
    commit.advance(CommitEvent::Measured(0));
    commit.advance(CommitEvent::Passed);
    commit.advance(CommitEvent::Passed);
    assert_eq!(
        commit.advance(CommitEvent::Failed),
        CommitAction::StopAdmission
    );
    assert_eq!(commit.tail(), None);
    assert_eq!(
        commit.advance(CommitEvent::Passed),
        CommitAction::MarkUnresolved
    );
    let end = commit.advance(CommitEvent::Passed);
    assert_eq!(end, CommitAction::Finish(CommitEnd::Unresolved));
    assert!(matches!(
        commit_error(CommitEnd::Unresolved, "disk"),
        Some(RuntimeError::Internal(text)) if text == "settlement receipt unresolved: disk"
    ));
}

#[test]
fn the_failures_of_a_commit_have_their_texts() {
    let cases = [
        (CommitEnd::NotSigned, "receipt mint failed: x"),
        (CommitEnd::LogUnreadable, "x"),
        (CommitEnd::Unresolved, "settlement receipt unresolved: x"),
    ];
    for (end, expected) in cases {
        match commit_error(end, "x") {
            Some(RuntimeError::Internal(text)) => assert_eq!(text, expected),
            other => panic!("{end:?} is internal, got {other:?}"),
        }
    }
    let (mut commit, _) = RoundCommit::begin(committing(false), None);
    commit.advance(signed(8));
    commit.advance(CommitEvent::Measured(0));
    assert_eq!(
        commit.advance(CommitEvent::Refused(SettlementError::Busy)),
        CommitAction::Finish(CommitEnd::Settlement(SettlementError::Busy))
    );
}

#[test]
fn a_refusal_is_settled_in_order_and_compensated_where_unwritten() {
    let (mut refusal, first) = RefusalSettlement::begin();
    assert_eq!(first, RefusalAction::Prepare);
    assert_eq!(refusal.advance(None), RefusalAction::Finalize);
    assert_eq!(refusal.advance(None), RefusalAction::DrainSettlements);
    assert_eq!(refusal.advance(None), RefusalAction::Commit);
    assert_eq!(refusal.advance(None), RefusalAction::Finish(None));

    let (mut unwritten, _) = RefusalSettlement::begin();
    unwritten.advance(None);
    unwritten.advance(None);
    assert_eq!(
        unwritten.advance(Some(SettlementError::ProjectionNotApplied)),
        RefusalAction::Compensate
    );
    assert_eq!(
        unwritten.advance(None),
        RefusalAction::Finish(Some(SettlementError::ProjectionNotApplied))
    );
    assert_eq!(
        SettlementReason::ToolFailed.disposition(),
        Disposition::Infrastructure(
            fused_runtime::evidence::InfrastructureFailureClass::Provider
        )
    );
}

fn dispatched_to_the_provider() -> ControlDispatch {
    let (mut dispatch, first) = ControlDispatch::begin();
    assert_eq!(first, DispatchAction::AwaitPermit);
    let expected = [
        DispatchAction::BeginSettlement,
        DispatchAction::BindToken,
        DispatchAction::EncodeRequest,
        DispatchAction::AdmitRound,
        DispatchAction::ObserveDispatch,
        DispatchAction::CallProvider,
    ];
    for action in expected {
        assert_eq!(dispatch.advance(DispatchEvent::Passed), action);
    }
    dispatch
}

#[test]
fn a_control_dispatch_is_admitted_before_it_calls_and_leaves_a_receipt() {
    let mut dispatch = dispatched_to_the_provider();
    assert_eq!(
        dispatch.advance(DispatchEvent::Passed),
        DispatchAction::ObserveResponse
    );
    assert_eq!(
        dispatch.advance(DispatchEvent::Passed),
        DispatchAction::TouchReservation
    );
    assert_eq!(
        dispatch.advance(DispatchEvent::Passed),
        DispatchAction::CheckVerb
    );
    assert_eq!(
        dispatch.advance(DispatchEvent::Passed),
        DispatchAction::TakeCommitLock
    );
    assert_eq!(
        dispatch.advance(DispatchEvent::Locked { tail: None }),
        DispatchAction::Sign
    );
    dispatch.advance(DispatchEvent::Signed {
        receipt_id: ReceiptId(3),
        jws: "jws".to_string(),
    });
    dispatch.advance(DispatchEvent::Measured(7));
    assert_eq!(dispatch.candidate().expected_log_end, 7);
    dispatch.advance(DispatchEvent::Passed);
    dispatch.advance(DispatchEvent::Passed);
    assert_eq!(
        dispatch.advance(DispatchEvent::Passed),
        DispatchAction::BindReceipt
    );
    assert_eq!(dispatch.tail(), Some(Sha256Digest::of(b"jws")));
    assert_eq!(dispatch.binding().receipt_id, ReceiptId(3));
    assert_eq!(
        dispatch.advance(DispatchEvent::Passed),
        DispatchAction::ReleasePermit
    );
    assert_eq!(
        dispatch.advance(DispatchEvent::Passed),
        DispatchAction::DrainSettlements
    );
    assert_eq!(
        dispatch.advance(DispatchEvent::Passed),
        DispatchAction::Finish(DispatchEnd::Completed)
    );
}

#[test]
fn a_failed_control_call_is_refunded() {
    let mut dispatch = dispatched_to_the_provider();
    assert_eq!(
        dispatch.advance(DispatchEvent::ProviderFailed(ProviderError::Other)),
        DispatchAction::ReleaseFailure
    );
    let end = dispatch.advance(DispatchEvent::Passed);
    assert_eq!(
        end,
        DispatchAction::Finish(DispatchEnd::Provider(ProviderError::Other))
    );
    assert!(matches!(
        dispatch_error(DispatchEnd::Provider(ProviderError::Other), ""),
        Some(RuntimeError::ProviderUnavailable)
    ));
}

#[test]
fn a_dispatch_that_cannot_be_signed_stops_admission() {
    let mut dispatch = dispatched_to_the_provider();
    for _ in 0..4 {
        dispatch.advance(DispatchEvent::Passed);
    }
    dispatch.advance(DispatchEvent::Locked { tail: None });
    assert_eq!(
        dispatch.advance(DispatchEvent::Failed),
        DispatchAction::StopAdmission
    );
    assert_eq!(
        dispatch.advance(DispatchEvent::Passed),
        DispatchAction::MarkUnresolved
    );
    assert_eq!(
        dispatch.advance(DispatchEvent::Passed),
        DispatchAction::Finish(DispatchEnd::Unresolved(StopReason::NotSigned))
    );
}

#[test]
fn a_control_receipt_extends_the_chain() {
    let (mut mint, first) = ControlMint::begin();
    assert_eq!(first, MintAction::VerifyToken);
    assert_eq!(mint.advance(MintEvent::Passed), MintAction::CheckVerb);
    assert_eq!(mint.advance(MintEvent::Passed), MintAction::TakeCommitLock);
    assert_eq!(
        mint.advance(MintEvent::Locked { tail: None }),
        MintAction::Sign
    );
    assert_eq!(
        mint.advance(MintEvent::Signed {
            receipt_id: ReceiptId(6),
            jws: "jws".to_string()
        }),
        MintAction::Persist
    );
    assert_eq!(mint.tail(), None);
    assert_eq!(
        mint.advance(MintEvent::Passed),
        MintAction::Finish(MintEnd::Minted)
    );
    assert_eq!(mint.tail(), Some(Sha256Digest::of(b"jws")));
    assert_eq!(mint.receipt_id(), ReceiptId(6));
    assert!(mint_error(MintEnd::Minted, "").is_none());

    let (mut denied, _) = ControlMint::begin();
    assert_eq!(
        denied.advance(MintEvent::Failed),
        MintAction::Finish(MintEnd::Denied)
    );
}

fn operation(kind: ControlKind, events: &[ControlEvent]) -> Vec<ControlAction> {
    let mut operation = ControlOperation::begin(kind);
    let mut all = vec![operation.action];
    for event in events {
        all.push(operation.advance(*event));
    }
    all
}

#[test]
fn control_operations_authorize_first_and_journal_last() {
    let passed = [ControlEvent::Passed; 4];
    assert_eq!(
        operation(ControlKind::Compact, &passed),
        vec![
            ControlAction::Authorize,
            ControlAction::RequireJournal,
            ControlAction::Dispatch,
            ControlAction::AppendEntry,
            ControlAction::Finish(ControlEnd::Completed),
        ]
    );
    assert_eq!(
        operation(ControlKind::Preview, &passed[..2]),
        vec![
            ControlAction::Authorize,
            ControlAction::Dispatch,
            ControlAction::Finish(ControlEnd::Completed),
        ]
    );
    assert_eq!(
        operation(ControlKind::Checkpoint, &passed),
        vec![
            ControlAction::RequireJournal,
            ControlAction::ReplayJournal,
            ControlAction::Mint,
            ControlAction::AppendEntry,
            ControlAction::Finish(ControlEnd::Completed),
        ]
    );
    assert_eq!(
        operation(
            ControlKind::Task,
            &[
                ControlEvent::Passed,
                ControlEvent::ProviderUnavailable,
                ControlEvent::Passed
            ]
        ),
        vec![
            ControlAction::Authorize,
            ControlAction::Dispatch,
            ControlAction::MintFailure,
            ControlAction::Finish(ControlEnd::TaskFailed),
        ]
    );
    assert_eq!(
        operation(
            ControlKind::Rollback,
            &[
                ControlEvent::Passed,
                ControlEvent::Passed,
                ControlEvent::Failed
            ]
        )
        .last(),
        Some(&ControlAction::Finish(ControlEnd::NotFound))
    );
    assert!(journal_error(ControlEnd::Completed, "").is_none());
    assert!(journal_error(ControlEnd::NoJournal, "").is_some());
}

fn card(created: bool, status: CardStatus) -> ApprovalEvent {
    ApprovalEvent::Card {
        created,
        status,
        id: "a1".to_string(),
        reason: "why".to_string(),
    }
}

#[test]
fn only_a_won_claim_grants_a_gated_call() {
    let (mut gate, first) = ApprovalGate::begin();
    assert_eq!(first, ApprovalAction::Propose);
    assert_eq!(
        gate.advance(card(false, CardStatus::Approved)),
        ApprovalAction::Claim
    );
    assert_eq!(gate.card(), "a1");
    assert_eq!(
        gate.advance(ApprovalEvent::Claimed(ClaimOutcome::Won)),
        ApprovalAction::Finish(ApprovalEnd::Granted)
    );
    assert_eq!(approval_answer(ApprovalEnd::Granted), ApprovalAnswer::Granted);
    assert!(gate.refusal(ApprovalEnd::Granted, "tool", "").is_none());
}

#[test]
fn a_new_card_is_receipted_and_waits_for_a_human() {
    let (mut gate, _) = ApprovalGate::begin();
    assert_eq!(
        gate.advance(card(true, CardStatus::Open)),
        ApprovalAction::MintReceipt
    );
    assert_eq!(
        gate.advance(ApprovalEvent::Minted),
        ApprovalAction::Finish(ApprovalEnd::Required)
    );
    assert!(matches!(
        gate.refusal(ApprovalEnd::Required, "tool", ""),
        Some(RuntimeError::ApprovalRequired { approval_id, tool, reason })
            if approval_id == "a1" && tool == "tool" && reason == "why"
    ));
    assert_eq!(approval_answer(ApprovalEnd::Required), ApprovalAnswer::Required);

    let (mut denied, _) = ApprovalGate::begin();
    assert_eq!(
        denied.advance(card(false, CardStatus::Denied)),
        ApprovalAction::Finish(ApprovalEnd::Rejected)
    );
    assert!(matches!(
        denied.refusal(ApprovalEnd::Rejected, "tool", ""),
        Some(RuntimeError::ApprovalRejected { .. })
    ));
}

#[test]
fn contention_for_a_card_is_bounded() {
    let (mut gate, mut action) = ApprovalGate::begin();
    let mut claims = 0;
    loop {
        action = match action {
            ApprovalAction::Propose => gate.advance(card(false, CardStatus::Approved)),
            ApprovalAction::Claim => {
                claims += 1;
                gate.advance(ApprovalEvent::Claimed(ClaimOutcome::AlreadySpent))
            }
            ApprovalAction::MintReceipt => gate.advance(ApprovalEvent::Minted),
            ApprovalAction::Finish(end) => {
                assert_eq!(end, ApprovalEnd::Contention);
                break;
            }
        };
    }
    assert_eq!(claims, 3);
    assert!(matches!(
        gate.refusal(ApprovalEnd::Contention, "tool", ""),
        Some(RuntimeError::Internal(text)) if text == "approval claim contention for tool `tool`"
    ));
    assert_eq!(
        approval_reason("t", "fs.write"),
        "tool `t` requires capability `fs.write`, which is approval-gated"
    );
    let (mut broken, _) = ApprovalGate::begin();
    assert_eq!(
        broken.advance(ApprovalEvent::StoreFailed),
        ApprovalAction::Finish(ApprovalEnd::StoreFailed)
    );
}

#[test]
fn a_failed_evaluation_is_not_filed_as_a_decision() {
    let mut to_approval = ready();
    to_approval.extend([answer(1), TurnEvent::Passed]);
    to_approval.extend([TurnEvent::Passed; 3]);
    let cases = [
        (
            ApprovalAnswer::Required,
            SettlementReason::ApprovalRequired,
            "refusal:approval_required",
        ),
        (
            ApprovalAnswer::Refused,
            SettlementReason::ApprovalRejected,
            "refusal:approval_rejected",
        ),
        (
            ApprovalAnswer::Undetermined,
            SettlementReason::ApprovalFailed,
            "refusal:approval_evaluation_error",
        ),
    ];
    for (answered, reason, label) in cases {
        let mut events = to_approval.clone();
        events.push(TurnEvent::ApprovalDenied(answered));
        let (turn, actions) = run(config(false, false), &events);
        assert!(actions.contains(&Action::RecordDenied(Denial::Approval)));
        assert!(matches!(turn.phase, Phase::Settle(refusal) if refusal.reason == reason));
        assert_eq!(reason.as_str(), label);
    }
    let mut to_scan = to_approval;
    to_scan.extend([TurnEvent::Passed; 2]);
    to_scan.push(TurnEvent::Output {
        cost: CostTuple::cents(2),
    });
    for (verdict, reason) in [
        (ScanVerdict::Blocked, SettlementReason::OutputScan),
        (ScanVerdict::Undetermined, SettlementReason::OutputScanFailed),
    ] {
        let mut events = to_scan.clone();
        events.extend([TurnEvent::Scanned(verdict), TurnEvent::Passed]);
        let (turn, _) = run(config(false, false), &events);
        assert!(matches!(
            turn.phase,
            Phase::Settle(refusal) if refusal.reason == reason
                && refusal.known == CostTuple::cents(7)
        ));
    }
    assert_eq!(
        SettlementReason::ApprovalFailed.disposition(),
        Disposition::Refusal(RefusalClass::ApprovalError)
    );
    assert_eq!(
        SettlementReason::OutputScanFailed.disposition(),
        Disposition::Refusal(RefusalClass::ScannerError)
    );
    assert_eq!(
        approval_answer(ApprovalEnd::StoreFailed),
        ApprovalAnswer::Undetermined
    );
}

#[test]
fn a_turns_own_errors_have_their_texts() {
    let reported = || RuntimeError::CapTokenExpired;
    assert!(matches!(
        turn_error(TurnError::Reported, reported(), ""),
        RuntimeError::CapTokenExpired
    ));
    assert!(matches!(
        turn_error(TurnError::ToolBatchTooLarge { requested: 9 }, reported(), ""),
        RuntimeError::Internal(text) if text == "tool batch exceeds settlement capacity: 9 > 8"
    ));
    assert!(matches!(
        turn_error(TurnError::UnknownTool, reported(), "t"),
        RuntimeError::UnknownTool { tool } if tool == "t"
    ));
    assert!(matches!(
        turn_error(TurnError::ToolTimeout, reported(), "t"),
        RuntimeError::ToolTimeout { tool } if tool == "t"
    ));
    assert!(matches!(
        turn_error(TurnError::CostOverflow, reported(), ""),
        RuntimeError::Internal(text)
            if text == "settlement cumulative turn cost overflow; paid rounds retained"
    ));
    assert!(matches!(
        turn_error(
            TurnError::StreamedContentCapExceeded {
                limit: 1,
                actual: 2
            },
            reported(),
            ""
        ),
        RuntimeError::StreamedContentCapExceeded {
            limit: 1,
            actual: 2
        }
    ));
}

fn remembered(events: &[MemoryEvent]) -> Vec<MemoryAction> {
    let mut write = MemoryWrite::begin();
    let mut asked = vec![write.action];
    for event in events {
        assert!(write.is_expected(event));
        asked.push(write.advance(*event));
    }
    asked
}

#[test]
fn a_memory_is_announced_written_and_observed() {
    assert_eq!(
        remembered(&[
            MemoryEvent::Granted,
            MemoryEvent::Done,
            MemoryEvent::Written,
            MemoryEvent::Done,
        ]),
        vec![
            MemoryAction::VerifyWrite,
            MemoryAction::RecordIntent,
            MemoryAction::Write,
            MemoryAction::RecordCompleted,
            MemoryAction::Finish,
        ]
    );
    assert_eq!(
        remembered(&[
            MemoryEvent::Granted,
            MemoryEvent::Done,
            MemoryEvent::WriteFailed(MemoryError::Backend),
            MemoryEvent::Done,
            MemoryEvent::Done,
        ]),
        vec![
            MemoryAction::VerifyWrite,
            MemoryAction::RecordIntent,
            MemoryAction::Write,
            MemoryAction::RecordFailure(EventOutcome::FailedUnknown),
            MemoryAction::FireError,
            MemoryAction::Finish,
        ]
    );
}

#[test]
fn a_token_without_the_grant_is_not_remembered() {
    assert_eq!(
        remembered(&[
            MemoryEvent::Refused(CapTokenError::ToolNotAllowed),
            MemoryEvent::Done,
        ]),
        vec![
            MemoryAction::VerifyWrite,
            MemoryAction::RecordDenial,
            MemoryAction::Finish,
        ]
    );
    assert_eq!(
        remembered(&[
            MemoryEvent::Refused(CapTokenError::Expired),
            MemoryEvent::Done,
            MemoryEvent::Done,
        ]),
        vec![
            MemoryAction::VerifyWrite,
            MemoryAction::RecordDenial,
            MemoryAction::FireError,
            MemoryAction::Finish,
        ]
    );
    assert!(!MemoryWrite::begin().is_expected(&MemoryEvent::Written));
    assert_eq!(
        memory_denial(AuthOutcome::Compliant),
        DeniedOutcome {
            public: PublicDenialReason::PolicyDenied,
            internal: "memory_write_denied",
        }
    );
    assert_eq!(
        memory_denial(AuthOutcome::InsufficientEvidence { internal: "x" }).public,
        PublicDenialReason::InsufficientEvidence
    );
    assert_eq!(
        memory_denial(AuthOutcome::Violation {
            public: PublicDenialReason::Revoked,
            internal: "revoked",
        })
        .internal,
        "revoked"
    );
}
