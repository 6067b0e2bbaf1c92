//! What holds of every turn.
use crate::cost::CostTuple;
use crate::turn;
use crate::turn::{
    Action, ApprovalAnswer, Emitted, LifecyclePhase, Phase, ProbeSite, ScanVerdict,
    SettlementReason, StageKind, ToolEnd, TurnConfig, TurnError, TurnEvent, TurnMachine, TurnStep,
};
use vstd::prelude::*;

verus! {

/// The stages open after some actions, if each stage that ended was the one
/// opened last; `None` otherwise, or where the turn ends with a stage open.
pub open spec fn bracketed(open: Seq<StageKind>, actions: Seq<Action>) -> Option<Seq<StageKind>>
    decreases actions.len(),
{
    if actions.len() == 0 {
        Some(open)
    } else {
        match bracketed(open, actions.drop_last()) {
            None => None,
            Some(stages) => match actions.last() {
                Action::Emit(Emitted::StageStart { stage }) => Some(stages.push(stage)),
                Action::Emit(Emitted::StageEnd { stage, .. }) => if stages.len() > 0
                    && stages.last() == stage {
                    Some(stages.drop_last())
                } else {
                    None
                },
                Action::Fail { .. } => if stages.len() == 0 {
                    Some(stages)
                } else {
                    None
                },
                Action::Answer { .. } => if stages.len() == 0 {
                    Some(stages)
                } else {
                    None
                },
                _ => Some(stages),
            },
        }
    }
}

/// Whether a failed stage was reported, if after one nothing but failed stages
/// is emitted; `None` where something else is.
pub open spec fn reported(failed: bool, actions: Seq<Action>) -> Option<bool>
    decreases actions.len(),
{
    if actions.len() == 0 {
        Some(failed)
    } else {
        match reported(failed, actions.drop_last()) {
            None => None,
            Some(before) => match actions.last() {
                Action::Emit(Emitted::StageEnd { ok: false, .. }) => Some(true),
                Action::Emit(_) => if before {
                    None
                } else {
                    Some(false)
                },
                _ => Some(before),
            },
        }
    }
}

/// `n` may be waited for right after `m`.
pub open spec fn may_follow(m: Phase, n: Phase) -> bool {
    match n {
        Phase::VerifyToken => false,
        Phase::CheckPolicy => m is VerifyToken,
        Phase::Permit => m is CheckPolicy || m == Phase::Probe(ProbeSite::BeforePermit),
        Phase::BeginSettlement => m is Permit || m == Phase::Probe(ProbeSite::AfterPermit),
        Phase::CostSetup => m is BeginSettlement,
        Phase::AdmitRound => m is CostSetup || m == Phase::Probe(ProbeSite::Round) || m is SettleRound
            || m is RecordMemory || m is AppendJournal,
        Phase::PreSubmit => m is AdmitRound,
        Phase::Recall => m is PreSubmit,
        Phase::ScanRequest => m is AdmitRound || m is Recall,
        Phase::ObserveDispatch => m is ScanRequest || m == Phase::Probe(ProbeSite::Admitted),
        Phase::CallProvider | Phase::OpenStream => m is ObserveDispatch,
        Phase::ObserveResponse => m is CallProvider,
        Phase::NextItem => m is OpenStream || m is NextItem || m == (Phase::ObserveUsage {
            finished: false,
        }),
        Phase::ObserveUsage { .. } => m is NextItem,
        Phase::LookupTool => m is ObserveResponse || m is ObserveUsage || m is ObserveOutcome || (m
            matches Phase::Probe(site) && (site is Tool || site is Provider || site is ToolScanned)),
        Phase::AuthorizeTool => m is LookupTool,
        Phase::CheckCapabilities => m is AuthorizeTool,
        Phase::Approve => m is CheckCapabilities,
        Phase::ObserveIntent => m is Approve || (m matches Phase::Probe(site) && site is Approval),
        Phase::InvokeTool => m is ObserveIntent,
        Phase::ScanOutput => m is InvokeTool,
        Phase::ObserveOutcome(end) => if end is Completed {
            m is ScanOutput
        } else {
            m is InvokeTool
        },
        Phase::CommitRound => m is ObserveResponse || m is ObserveUsage || m is ObserveOutcome || (m
            matches Phase::Probe(site) && site is BeforeCommit),
        Phase::SettleRound => m is CommitRound,
        Phase::RecordMemory => m is SettleRound,
        Phase::AppendJournal => m is SettleRound || m is RecordMemory,
        Phase::FinishRefused => m is SettleRound || m is RecordMemory || m is AppendJournal,
        _ => true,
    }
}

/// What the next step of a turn keeps.
pub open spec fn sound(m: TurnMachine, event: TurnEvent) -> bool {
    let (n, actions) = m.next(event);
    &&& n.wf()
    &&& bracketed(m.open_stages(), actions) == Some(n.open_stages())
    &&& reported(m.phase is Settle, actions) is Some
    &&& reported(m.phase is Settle, actions) == Some(true) ==> n.phase is Done || n.phase is Settle
    &&& n.phase == m.phase || may_follow(m.phase, n.phase)
}

proof fn lemma_brackets(open: Seq<StageKind>)
    ensures
        bracketed(open, Seq::<Action>::empty()) == Some(open),
        forall|a: Seq<Action>, x: Action|
            #![trigger bracketed(open, a.push(x))]
            bracketed(open, a.push(x)) == (match bracketed(open, a) {
                None => None,
                Some(stages) => match x {
                    Action::Emit(Emitted::StageStart { stage }) => Some(stages.push(stage)),
                    Action::Emit(Emitted::StageEnd { stage, .. }) => if stages.len() > 0
                        && stages.last() == stage {
                        Some(stages.drop_last())
                    } else {
                        None
                    },
                    Action::Fail { .. } => if stages.len() == 0 {
                        Some(stages)
                    } else {
                        None
                    },
                    Action::Answer { .. } => if stages.len() == 0 {
                        Some(stages)
                    } else {
                        None
                    },
                    _ => Some(stages),
                },
            }),
{
    assert forall|a: Seq<Action>, x: Action|
        #![trigger bracketed(open, a.push(x))]
        bracketed(open, a.push(x)) == (match bracketed(open, a) {
            None => None,
            Some(stages) => match x {
                Action::Emit(Emitted::StageStart { stage }) => Some(stages.push(stage)),
                Action::Emit(Emitted::StageEnd { stage, .. }) => if stages.len() > 0
                    && stages.last() == stage {
                    Some(stages.drop_last())
                } else {
                    None
                },
                Action::Fail { .. } => if stages.len() == 0 {
                    Some(stages)
                } else {
                    None
                },
                Action::Answer { .. } => if stages.len() == 0 {
                    Some(stages)
                } else {
                    None
                },
                _ => Some(stages),
            },
        }) by {
        assert(a.push(x).drop_last() =~= a);
        assert(a.push(x).last() == x);
    }
}

proof fn lemma_reports(failed: bool)
    ensures
        reported(failed, Seq::<Action>::empty()) == Some(failed),
        forall|a: Seq<Action>, x: Action|
            #![trigger reported(failed, a.push(x))]
            reported(failed, a.push(x)) == (match reported(failed, a) {
                None => None,
                Some(before) => match x {
                    Action::Emit(Emitted::StageEnd { ok: false, .. }) => Some(true),
                    Action::Emit(_) => if before {
                        None
                    } else {
                        Some(false)
                    },
                    _ => Some(before),
                },
            }),
{
    assert forall|a: Seq<Action>, x: Action|
        #![trigger reported(failed, a.push(x))]
        reported(failed, a.push(x)) == (match reported(failed, a) {
            None => None,
            Some(before) => match x {
                Action::Emit(Emitted::StageEnd { ok: false, .. }) => Some(true),
                Action::Emit(_) => if before {
                    None
                } else {
                    Some(false)
                },
                _ => Some(before),
            },
        }) by {
        assert(a.push(x).drop_last() =~= a);
        assert(a.push(x).last() == x);
    }
}

/// Closing the stage that was opened last leaves the others.
proof fn lemma_close()
    ensures
        forall|open: Seq<StageKind>, stage: StageKind|
            (#[trigger] open.push(stage)).drop_last() == open && open.push(stage).last() == stage,
{
    assert forall|open: Seq<StageKind>, stage: StageKind|
        (#[trigger] open.push(stage)).drop_last() == open && open.push(stage).last() == stage by {
        assert(open.push(stage).drop_last() =~= open);
    }
}

proof fn lemma_setup(m: TurnMachine, event: TurnEvent)
    requires
        m.wf(),
        m.expects(event),
        m.in_setup(),
        !(m.phase is Probe),
    ensures
        sound(m, event),
{
    lemma_brackets(m.open_stages());
    lemma_close();
    lemma_reports(m.phase is Settle);
    let (n, actions) = m.next(event);
    assert(n.wf());
    assert(bracketed(m.open_stages(), actions) == Some(n.open_stages()));
}

proof fn lemma_probe(m: TurnMachine, event: TurnEvent)
    requires
        m.wf(),
        m.expects(event),
        m.phase is Probe,
    ensures
        sound(m, event),
{
    lemma_brackets(m.open_stages());
    lemma_close();
    lemma_reports(m.phase is Settle);
    let (n, actions) = m.next(event);
    assert(n.wf());
    assert(bracketed(m.open_stages(), actions) == Some(n.open_stages()));
}

proof fn lemma_provider(m: TurnMachine, event: TurnEvent)
    requires
        m.wf(),
        m.expects(event),
        m.before_tools(),
        !(m.phase is Probe),
    ensures
        sound(m, event),
{
    lemma_brackets(m.open_stages());
    lemma_close();
    lemma_reports(m.phase is Settle);
    let (n, actions) = m.next(event);
    assert(n.wf());
    assert(bracketed(m.open_stages(), actions) == Some(n.open_stages()));
}

proof fn lemma_tools(m: TurnMachine, event: TurnEvent)
    requires
        m.wf(),
        m.expects(event),
        m.in_tool(),
        !(m.phase is Probe),
    ensures
        sound(m, event),
{
    lemma_brackets(m.open_stages());
    lemma_close();
    lemma_reports(m.phase is Settle);
    let (n, actions) = m.next(event);
    assert(n.wf());
    assert(bracketed(m.open_stages(), actions) == Some(n.open_stages()));
}

proof fn lemma_end(m: TurnMachine, event: TurnEvent)
    requires
        m.wf(),
        m.expects(event),
        m.phase is Settle || m.phase is CommitRound || m.phase is FinishRefused,
    ensures
        sound(m, event),
{
    lemma_brackets(m.open_stages());
    lemma_close();
    lemma_reports(m.phase is Settle);
    let (n, actions) = m.next(event);
    assert(n.wf());
    assert(bracketed(m.open_stages(), actions) == Some(n.open_stages()));
}

proof fn lemma_settle_round(m: TurnMachine, event: TurnEvent)
    requires
        m.wf(),
        m.expects(event),
        m.phase is SettleRound,
    ensures
        sound(m, event),
{
    lemma_brackets(m.open_stages());
    lemma_close();
    lemma_reports(false);
    let (n, actions) = m.next(event);
    assert(n.wf());
    assert(bracketed(m.open_stages(), actions) == Some(n.open_stages()));
}

proof fn lemma_record_memory(m: TurnMachine, event: TurnEvent)
    requires
        m.wf(),
        m.expects(event),
        m.phase is RecordMemory,
    ensures
        sound(m, event),
{
    lemma_brackets(m.open_stages());
    lemma_close();
    lemma_reports(false);
    let (n, actions) = m.next(event);
    assert(n.wf());
    assert(bracketed(m.open_stages(), actions) == Some(n.open_stages()));
}

proof fn lemma_append_journal(m: TurnMachine, event: TurnEvent)
    requires
        m.wf(),
        m.expects(event),
        m.phase is AppendJournal,
    ensures
        sound(m, event),
{
    lemma_brackets(m.open_stages());
    lemma_close();
    lemma_reports(false);
    let (n, actions) = m.next(event);
    assert(n.wf());
    assert(bracketed(m.open_stages(), actions) == Some(n.open_stages()));
}

/// Whatever the outside answers, a turn stays within its bounds, opens and
/// closes its stages in brackets, ends with no stage open, emits nothing but
/// failed stages after a failed one, and follows the order of the pipeline.
pub proof fn law_every_step_is_sound(m: TurnMachine, event: TurnEvent)
    requires
        m.wf(),
        m.expects(event),
    ensures
        sound(m, event),
{
    if m.phase is Probe {
        lemma_probe(m, event);
    } else if m.in_setup() {
        lemma_setup(m, event);
    } else if m.before_tools() {
        lemma_provider(m, event);
    } else if m.in_tool() {
        lemma_tools(m, event);
    } else if m.phase is SettleRound {
        lemma_settle_round(m, event);
    } else if m.phase is RecordMemory {
        lemma_record_memory(m, event);
    } else if m.phase is AppendJournal {
        lemma_append_journal(m, event);
    } else {
        lemma_end(m, event);
    }
}

/// A turn after a sequence of answers, with everything it asked for.
pub open spec fn ran(config: TurnConfig, events: Seq<TurnEvent>) -> TurnStep
    decreases events.len(),
{
    if events.len() == 0 {
        turn::started(config)
    } else {
        let (m, trace) = ran(config, events.drop_last());
        let (n, actions) = m.next(events.last());
        (n, trace + actions)
    }
}

/// Each answer of the sequence is one that the turn waits for.
pub open spec fn answers(config: TurnConfig, events: Seq<TurnEvent>) -> bool
    decreases events.len(),
{
    events.len() == 0 || (answers(config, events.drop_last()) && ran(
        config,
        events.drop_last(),
    ).0.expects(events.last()))
}

proof fn lemma_bracketed_concat(open: Seq<StageKind>, a: Seq<Action>, b: Seq<Action>)
    requires
        bracketed(open, a) is Some,
    ensures
        bracketed(open, a + b) == bracketed(bracketed(open, a)->0, b),
    decreases b.len(),
{
    if b.len() == 0 {
        assert(a + b =~= a);
    } else {
        assert((a + b).drop_last() =~= a + b.drop_last());
        assert((a + b).last() == b.last());
        lemma_bracketed_concat(open, a, b.drop_last());
    }
}

/// A whole turn: whatever the outside answers, it makes no more provider
/// rounds than configured (one, if fewer than one), its stages are bracketed
/// from its first event to its last, and an ended turn has none open.
pub proof fn law_whole_turn_is_bounded_and_bracketed(config: TurnConfig, events: Seq<TurnEvent>)
    requires
        config.stream ==> !config.cancellable,
        answers(config, events),
    ensures
        ran(config, events).0.wf(),
        ran(config, events).0.config == config,
        ran(config, events).0.iteration <= 1 || ran(config, events).0.iteration
            <= config.max_tool_iterations,
        bracketed(Seq::empty(), ran(config, events).1) == Some(ran(config, events).0.open_stages()),
        ran(config, events).0.phase is Done ==> bracketed(Seq::empty(), ran(config, events).1)
            == Some(Seq::<StageKind>::empty()),
    decreases events.len(),
{
    if events.len() == 0 {
        lemma_brackets(Seq::empty());
        let (m, actions) = turn::started(config);
        assert(bracketed(Seq::empty(), actions) == Some(m.open_stages()));
    } else {
        law_whole_turn_is_bounded_and_bracketed(config, events.drop_last());
        let (m, trace) = ran(config, events.drop_last());
        law_every_step_is_sound(m, events.last());
        lemma_config_stays(m, events.last());
        lemma_bracketed_concat(Seq::empty(), trace, m.next(events.last()).1);
    }
}

proof fn lemma_config_stays(m: TurnMachine, event: TurnEvent)
    ensures
        m.next(event).0.config == m.config,
{
}

/// A caller that is gone while a reservation is held: the reservation is
/// released, and a cancellation receipt is appended exactly if some round is
/// durable. Nothing else is asked for.
pub proof fn law_gone_caller_releases_and_ends(m: TurnMachine, site: ProbeSite)
    requires
        m.phase == Phase::Probe(site),
        !(site is BeforePermit || site is AfterPermit || site is Round || site is ScanFailed || site
            is AdmitFailed),
    ensures
        m.next(TurnEvent::Probed(true)).0 == (TurnMachine { phase: Phase::Done, ..m }),
        m.next(TurnEvent::Probed(true)).1 == (if m.committed_rounds > 0 {
            seq![
                Action::Release,
                Action::FireError {
                    phase: LifecyclePhase::Provider,
                    error: TurnError::TurnCancelled,
                },
                Action::RecordCancellation { rounds: m.committed_rounds },
                Action::Fail { error: TurnError::TurnCancelled, settlement: false },
            ]
        } else {
            seq![
                Action::Release,
                Action::FireError {
                    phase: LifecyclePhase::Provider,
                    error: TurnError::TurnCancelled,
                },
                Action::Fail { error: TurnError::TurnCancelled, settlement: false },
            ]
        }),
{
}

/// A caller that is gone before anything was admitted leaves no trace.
pub proof fn law_gone_caller_before_admission_leaves_no_trace(m: TurnMachine, site: ProbeSite)
    requires
        m.phase == Phase::Probe(site),
        site is BeforePermit || site is AfterPermit,
    ensures
        m.next(TurnEvent::Probed(true)).0 == (TurnMachine { phase: Phase::Done, ..m }),
        m.next(TurnEvent::Probed(true)).1 == seq![
            Action::Fail { error: TurnError::TurnCancelled, settlement: false },
        ],
{
}

/// A failure before the provider is called settles nothing: there is nothing
/// to bill. Only a round that was admitted has something to release, and
/// releases it.
pub proof fn law_failure_before_the_provider_bills_nothing(m: TurnMachine)
    requires
        m.wf(),
        m.in_setup() && !(m.phase is Probe) && !(m.phase is Permit) || m.phase is AdmitRound
            || m.phase is PreSubmit || m.phase is Recall || m.phase is ScanRequest,
        m.committed_rounds == 0 || !m.config.cancellable,
    ensures
        m.next(TurnEvent::Failed).0.phase is Done,
        forall|i: int|
            0 <= i < m.next(TurnEvent::Failed).1.len() ==> {
                let action = #[trigger] m.next(TurnEvent::Failed).1[i];
                action is Emit || action is FireError || action is Release || action == (
                Action::Fail { error: TurnError::Reported, settlement: false })
            },
        m.next(TurnEvent::Failed).1.contains(Action::Release) == (m.phase is PreSubmit || m.phase
            is Recall || m.phase is ScanRequest),
{
    let actions = m.next(TurnEvent::Failed).1;
    if m.phase is PreSubmit || m.phase is Recall || m.phase is ScanRequest {
        assert(actions[0] == Action::Release);
    }
}

/// A tool is invoked only after its intent was observed and its evidence is
/// recorded, and its outcome is observed only after the evidence of how it
/// ended is recorded.
pub proof fn law_evidence_precedes_effect_and_observation(m: TurnMachine, verdict: ScanVerdict)
    ensures
        m.phase is ObserveIntent ==> m.next(TurnEvent::Passed).1 == seq![
            Action::RecordPreEffect,
            Action::Ask(Phase::InvokeTool),
        ],
        m.phase is InvokeTool ==> m.next(TurnEvent::Failed).1 == seq![
            Action::RecordTerminal(ToolEnd::Failed),
            Action::Ask(Phase::ObserveOutcome(ToolEnd::Failed)),
        ] && m.next(TurnEvent::TimedOut).1 == seq![
            Action::RecordTerminal(ToolEnd::TimedOut),
            Action::Ask(Phase::ObserveOutcome(ToolEnd::TimedOut)),
        ],
        m.phase is ScanOutput ==> m.next(TurnEvent::Scanned(verdict)).1 == seq![
            Action::RecordTerminal(ToolEnd::Completed(verdict)),
            Action::Ask(Phase::ObserveOutcome(ToolEnd::Completed(verdict))),
        ],
{
}

/// A refused or failed tool is charged for what is known: the provider's call
/// and the tools before it, never the tool itself unless its output was known.
pub proof fn law_refusals_are_charged_what_is_known(m: TurnMachine)
    requires
        m.wf(),
    ensures
        m.phase is LookupTool || m.phase is AuthorizeTool || m.phase is CheckCapabilities ==> (
        m.next(TurnEvent::Failed).0.phase matches Phase::Settle(refusal) && refusal.known
            == m.known()),
        m.phase == Phase::ObserveOutcome(ToolEnd::TimedOut) && !m.config.cancellable ==> (m.next(
            TurnEvent::Passed,
        ).0.phase matches Phase::Settle(refusal) && refusal.known == m.known()),
        m.phase == Phase::ObserveOutcome(ToolEnd::Completed(ScanVerdict::Blocked))
            && !m.config.cancellable ==> (m.next(TurnEvent::Passed).0.phase matches Phase::Settle(
            refusal,
        ) && refusal.known == m.known().capped_plus(m.output_cost)),
{
}

/// A failed evaluation is never filed as a decision: a call is settled as
/// rejected only where a human rejected it, and an output as blocked only where
/// a filter blocked it.
pub proof fn law_a_failed_evaluation_is_not_filed_as_a_decision(m: TurnMachine, event: TurnEvent)
    requires
        m.wf(),
        m.expects(event),
    ensures
        m.next(event).0.phase matches Phase::Settle(refusal) ==> {
            &&& refusal.reason == SettlementReason::ApprovalRejected ==> event
                == TurnEvent::ApprovalDenied(ApprovalAnswer::Refused) || m.phase == Phase::Probe(
                ProbeSite::Approval(ApprovalAnswer::Refused),
            )
            &&& refusal.reason == SettlementReason::OutputScan ==> m.phase
                == Phase::ObserveOutcome(ToolEnd::Completed(ScanVerdict::Blocked)) || m.phase
                == Phase::Probe(ProbeSite::ToolDone(ToolEnd::Completed(ScanVerdict::Blocked)))
                || m.phase == Phase::Probe(ProbeSite::ToolScanned(ScanVerdict::Blocked))
        },
{
}

/// The cost of the rounds that a turn committed.
pub open spec fn spent(config: TurnConfig, events: Seq<TurnEvent>) -> CostTuple
    decreases events.len(),
{
    if events.len() == 0 {
        CostTuple::zero()
    } else {
        let before = ran(config, events.drop_last()).0;
        if ran(config, events).0.committed_rounds > before.committed_rounds {
            spent(config, events.drop_last()).plus(before.known())
        } else {
            spent(config, events.drop_last())
        }
    }
}

/// What a step adds to the total is the cost of the round that it commits, and
/// an answer names the total.
proof fn lemma_total(m: TurnMachine, event: TurnEvent)
    requires
        m.wf(),
        !m.config.stream,
        m.expects(event),
    ensures
        ({
            let (n, actions) = m.next(event);
            &&& n.total_cost == (if n.committed_rounds > m.committed_rounds {
                m.total_cost.plus(m.known())
            } else {
                m.total_cost
            })
            &&& actions.len() > 0
            &&& actions.last() matches Action::Answer { total } ==> total == n.total_cost
        }),
{
}

/// The total of a turn is the cost of all the rounds that it committed, and so
/// is the cost of its answer.
pub proof fn law_answer_costs_its_rounds(config: TurnConfig, events: Seq<TurnEvent>)
    requires
        !config.stream,
        answers(config, events),
    ensures
        ran(config, events).0.total_cost == spent(config, events),
        ran(config, events).1.last() matches Action::Answer { total } ==> total == spent(
            config,
            events,
        ),
    decreases events.len(),
{
    if events.len() > 0 {
        let before = events.drop_last();
        law_answer_costs_its_rounds(config, before);
        law_whole_turn_is_bounded_and_bracketed(config, before);
        let (m, trace) = ran(config, before);
        lemma_total(m, events.last());
        let actions = m.next(events.last()).1;
        assert((trace + actions).last() == actions.last());
    }
}

} // verus!
