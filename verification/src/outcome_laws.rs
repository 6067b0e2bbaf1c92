//! How a turn comes to its end, and what becomes of a hold, of a tool's result
//! and of a refused call on the way.
use crate::slot::MAX_TOOLS_PER_ROUND;
use crate::turn::{
    Action, ApprovalAnswer, Denial, LifecyclePhase, Phase, ProbeSite, Refusal, ScanVerdict,
    SettlementReason, ToolEnd, TurnConfig, TurnError, TurnEvent, TurnMachine,
};
use crate::turn_laws;
use vstd::prelude::*;

verus! {

/// How often an action is asked for.
pub open spec fn times(actions: Seq<Action>, action: Action) -> nat
    decreases actions.len(),
{
    if actions.len() == 0 {
        0
    } else {
        times(actions.drop_last(), action) + (if actions.last() == action {
            1nat
        } else {
            0nat
        })
    }
}

/// How often a turn is said to be over.
pub open spec fn times_over(actions: Seq<Action>) -> nat
    decreases actions.len(),
{
    if actions.len() == 0 {
        0
    } else {
        times_over(actions.drop_last()) + (if actions.last() is Answer || actions.last() is Fail {
            1nat
        } else {
            0nat
        })
    }
}

proof fn lemma_times(action: Action)
    ensures
        times(Seq::<Action>::empty(), action) == 0,
        times_over(Seq::<Action>::empty()) == 0,
        forall|a: Seq<Action>, x: Action|
            #![trigger times(a.push(x), action)]
            times(a.push(x), action) == times(a, action) + (if x == action {
                1nat
            } else {
                0nat
            }),
        forall|a: Seq<Action>, x: Action|
            #![trigger times_over(a.push(x))]
            times_over(a.push(x)) == times_over(a) + (if x is Answer || x is Fail {
                1nat
            } else {
                0nat
            }),
{
    assert forall|a: Seq<Action>, x: Action|
        #![trigger times(a.push(x), action)]
        times(a.push(x), action) == times(a, action) + (if x == action {
            1nat
        } else {
            0nat
        }) by {
        assert(a.push(x).drop_last() =~= a);
    }
    assert forall|a: Seq<Action>, x: Action|
        #![trigger times_over(a.push(x))]
        times_over(a.push(x)) == times_over(a) + (if x is Answer || x is Fail {
            1nat
        } else {
            0nat
        }) by {
        assert(a.push(x).drop_last() =~= a);
    }
}

proof fn lemma_times_concat(a: Seq<Action>, b: Seq<Action>, action: Action)
    ensures
        times(a + b, action) == times(a, action) + times(b, action),
        times_over(a + b) == times_over(a) + times_over(b),
    decreases b.len(),
{
    if b.len() == 0 {
        assert(a + b =~= a);
    } else {
        lemma_times_concat(a, b.drop_last(), action);
        assert((a + b).drop_last() =~= a + b.drop_last());
        assert((a + b).last() == b.last());
    }
}

/// A hold is in hand that nothing has settled: it was admitted, and the turn
/// waits for something other than a settlement, a commit or an observation.
pub open spec fn holds(phase: Phase) -> bool {
    match phase {
        Phase::PreSubmit | Phase::Recall | Phase::CallProvider | Phase::OpenStream
        | Phase::NextItem => true,
        Phase::Probe(site) => !(site is BeforePermit || site is AfterPermit || site is Round || site
            is ScanFailed || site is AdmitFailed),
        _ => false,
    }
}

/// A turn that ends while it has a hold in hand gives that hold back once:
/// as a failure where the provider failed or its stream outgrew its bound, and
/// as a cancellation otherwise. No other step of a turn gives a hold back,
/// except that of a request which the filters stop.
pub proof fn law_a_hold_is_given_back_once(m: TurnMachine, event: TurnEvent)
    requires
        m.wf(),
        m.expects(event),
    ensures
        ({
            let (n, actions) = m.next(event);
            let released = times(actions, Action::Release);
            let failed = times(actions, Action::ReleaseFailure);
            &&& holds(m.phase) && n.phase is Done ==> released + failed == 1
            &&& holds(m.phase) && !(n.phase is Done) ==> released + failed == 0
            &&& m.phase is ScanRequest ==> failed == 0 && released == (if event is Failed {
                1nat
            } else {
                0nat
            })
            &&& !holds(m.phase) && !(m.phase is ScanRequest) && !(m.phase is ObserveDispatch)
                ==> released + failed == 0
            &&& failed > 0 ==> m.phase is CallProvider || m.phase is OpenStream || m.phase is NextItem
                || (m.phase == Phase::Probe(ProbeSite::Provider { failed: true }) && event
                == TurnEvent::Probed(false))
            &&& event == TurnEvent::Probed(true) && holds(m.phase) ==> released == 1
        }),
{
    lemma_times(Action::Release);
    lemma_times(Action::ReleaseFailure);
}

/// A turn is over exactly once: it answers or fails when it ends, and at no
/// other time.
pub proof fn law_a_turn_is_over_once(config: TurnConfig, events: Seq<TurnEvent>)
    requires
        config.stream ==> !config.cancellable,
        turn_laws::answers(config, events),
    ensures
        times_over(turn_laws::ran(config, events).1) == (if turn_laws::ran(config, events).0.phase
            is Done {
            1nat
        } else {
            0nat
        }),
    decreases events.len(),
{
    if events.len() == 0 {
        lemma_times(Action::KeepResult);
    } else {
        let before = events.drop_last();
        law_a_turn_is_over_once(config, before);
        turn_laws::law_whole_turn_is_bounded_and_bracketed(config, before);
        let (m, trace) = turn_laws::ran(config, before);
        lemma_over(m, events.last());
        lemma_times_concat(trace, m.next(events.last()).1, Action::KeepResult);
    }
}

proof fn lemma_over(m: TurnMachine, event: TurnEvent)
    requires
        m.wf(),
        m.expects(event),
    ensures
        times_over(m.next(event).1) == (if m.next(event).0.phase is Done {
            1nat
        } else {
            0nat
        }),
{
    lemma_times(Action::KeepResult);
}

/// How many outputs of tools came back.
pub open spec fn outputs(events: Seq<TurnEvent>) -> nat
    decreases events.len(),
{
    if events.len() == 0 {
        0
    } else {
        outputs(events.drop_last()) + (if events.last() is Output {
            1nat
        } else {
            0nat
        })
    }
}

/// How many rounds were committed.
pub open spec fn commits(config: TurnConfig, events: Seq<TurnEvent>) -> nat
    decreases events.len(),
{
    if events.len() == 0 {
        0
    } else {
        commits(config, events.drop_last()) + (if events.last() is Passed && turn_laws::ran(
            config,
            events.drop_last(),
        ).0.phase is CommitRound {
            1nat
        } else {
            0nat
        })
    }
}

/// A tool of the round returned, and its result is not kept yet.
spec fn in_hand(phase: Phase) -> nat {
    match phase {
        Phase::ScanOutput => 1,
        Phase::ObserveOutcome(ToolEnd::Completed(_)) => 1,
        Phase::Probe(ProbeSite::ToolDone(ToolEnd::Completed(_))) => 1,
        Phase::Probe(ProbeSite::ToolScanned(_)) => 1,
        _ => 0,
    }
}

spec fn tally(m: TurnMachine, config: TurnConfig, events: Seq<TurnEvent>, trace: Seq<Action>) -> bool {
    &&& m.phase is Done || m.phase is Settle || times(trace, Action::KeepResult) + in_hand(m.phase)
        == outputs(events)
    &&& times(trace, Action::PostReceipt) == commits(config, events)
    &&& m.in_round() ==> m.iteration == times(trace, Action::FoldRound) + 1 && commits(
        config,
        events,
    ) + 1 == m.iteration
    &&& m.closing() ==> m.iteration == times(trace, Action::FoldRound) + 1 && commits(
        config,
        events,
    ) == m.iteration
    &&& m.in_setup() ==> times(trace, Action::FoldRound) == 0 && commits(config, events) == 0
    &&& m.phase == Phase::Probe(ProbeSite::Round) ==> times(trace, Action::FoldRound) == m.iteration
        && commits(config, events) == m.iteration
    &&& m.phase is FinishRefused ==> commits(config, events) == m.iteration
}

proof fn lemma_kept_step(m: TurnMachine, event: TurnEvent)
    requires
        m.wf(),
        m.expects(event),
    ensures
        ({
            let (n, actions) = m.next(event);
            let kept = times(actions, Action::KeepResult);
            n.phase is Done || n.phase is Settle || kept + in_hand(n.phase) == in_hand(m.phase) + (
            if event is Output {
                1nat
            } else {
                0nat
            })
        }),
{
    lemma_times(Action::KeepResult);
}

proof fn lemma_receipt_step(m: TurnMachine, event: TurnEvent)
    requires
        m.wf(),
        m.expects(event),
    ensures
        times(m.next(event).1, Action::PostReceipt) == (if event is Passed && m.phase
            is CommitRound {
            1nat
        } else {
            0nat
        }),
{
    lemma_times(Action::PostReceipt);
}

proof fn lemma_folded_step(m: TurnMachine, event: TurnEvent)
    requires
        m.wf(),
        m.expects(event),
    ensures
        ({
            let (n, actions) = m.next(event);
            times(actions, Action::FoldRound) == (if m.closing() && (n.phase is AdmitRound
                || n.phase == Phase::Probe(ProbeSite::Round)) {
                1nat
            } else {
                0nat
            })
        }),
{
    lemma_times(Action::FoldRound);
}

proof fn lemma_round_step(m: TurnMachine, event: TurnEvent)
    requires
        m.wf(),
        m.expects(event),
    ensures
        ({
            let n = m.next(event).0;
            &&& m.in_round() && n.in_round() ==> n.iteration == m.iteration && !(m.phase
                is CommitRound && event is Passed)
            &&& m.in_round() && !n.in_round() ==> n.phase is Done || (n.phase is SettleRound
                && n.iteration == m.iteration && m.phase is CommitRound && event is Passed)
            &&& m.closing() ==> n.phase is Done || n.closing() && n.iteration == m.iteration
                || n.phase is FinishRefused && n.iteration == m.iteration || n.phase == Phase::Probe(
                ProbeSite::Round,
            ) && n.iteration == m.iteration || n.phase is AdmitRound && n.iteration == m.iteration
                + 1
            &&& m.in_setup() ==> n.phase is Done || n.in_setup() || n.phase == Phase::Probe(
                ProbeSite::Round,
            ) && n.iteration == 0 || n.phase is AdmitRound && n.iteration == 1
            &&& m.phase == Phase::Probe(ProbeSite::Round) ==> n.phase is Done || n.phase
                is AdmitRound && n.iteration == m.iteration + 1
            &&& m.phase is FinishRefused ==> n.phase is Done
        }),
{
}

proof fn lemma_tally(config: TurnConfig, events: Seq<TurnEvent>)
    requires
        config.stream ==> !config.cancellable,
        turn_laws::answers(config, events),
    ensures
        tally(
            turn_laws::ran(config, events).0,
            config,
            events,
            turn_laws::ran(config, events).1,
        ),
    decreases events.len(),
{
    if events.len() == 0 {
        lemma_times(Action::KeepResult);
        lemma_times(Action::PostReceipt);
        lemma_times(Action::FoldRound);
    } else {
        let before = events.drop_last();
        lemma_tally(config, before);
        turn_laws::law_whole_turn_is_bounded_and_bracketed(config, before);
        let (m, trace) = turn_laws::ran(config, before);
        let actions = m.next(events.last()).1;
        lemma_kept_step(m, events.last());
        lemma_receipt_step(m, events.last());
        lemma_folded_step(m, events.last());
        lemma_round_step(m, events.last());
        lemma_times_concat(trace, actions, Action::KeepResult);
        lemma_times_concat(trace, actions, Action::PostReceipt);
        lemma_times_concat(trace, actions, Action::FoldRound);
    }
}

/// A round is committed with the result of every tool that returned in the
/// turn, each kept once; each committed round runs its hooks once; and between
/// two rounds the earlier one is folded into the transcript once.
pub proof fn law_every_result_is_kept_once(config: TurnConfig, events: Seq<TurnEvent>)
    requires
        config.stream ==> !config.cancellable,
        turn_laws::answers(config, events),
        turn_laws::ran(config, events).0.phase is CommitRound,
    ensures
        ({
            let (m, trace) = turn_laws::ran(config, events);
            &&& times(trace, Action::KeepResult) == outputs(events)
            &&& times(trace, Action::PostReceipt) == commits(config, events)
            &&& commits(config, events) + 1 == m.iteration
            &&& times(trace, Action::FoldRound) + 1 == m.iteration
        }),
{
    lemma_tally(config, events);
}

/// A round starts where the one before left off: at no cost, with no tool asked
/// for and nothing streamed.
pub proof fn law_a_round_starts_afresh(m: TurnMachine, event: TurnEvent)
    requires
        m.wf(),
        m.expects(event),
        m.next(event).0.phase is AdmitRound,
    ensures
        ({
            let n = m.next(event).0;
            &&& n.iteration == m.iteration + 1
            &&& n.requested == 0
            &&& n.at == 0
            &&& n.content_len == 0
            &&& !n.saw_usage
            &&& n.response_cost == crate::cost::CostTuple::zero()
            &&& n.tool_cost == crate::cost::CostTuple::zero()
        }),
{
}

/// Why a call, an output or a batch of calls is refused, by what came back for
/// it; `None` where nothing is to be refused.
pub open spec fn cause(m: TurnMachine, event: TurnEvent) -> Option<SettlementReason> {
    if event == TurnEvent::Probed(true) {
        None
    } else {
        match m.phase {
            Phase::LookupTool => if event is Failed {
                Some(SettlementReason::UnknownTool)
            } else {
                None
            },
            Phase::AuthorizeTool => if event is Failed {
                Some(SettlementReason::ToolAuthorization)
            } else {
                None
            },
            Phase::CheckCapabilities => if event is Failed {
                Some(SettlementReason::CapabilityDenied)
            } else {
                None
            },
            Phase::Approve => match event {
                TurnEvent::ApprovalDenied(answer) => if m.config.cancellable {
                    None
                } else {
                    cause_of_answer(answer)
                },
                _ => None,
            },
            Phase::ObserveOutcome(end) => if event is Failed || m.config.cancellable {
                None
            } else {
                cause_of_end(end)
            },
            Phase::Probe(site) => match site {
                ProbeSite::Approval(answer) => cause_of_answer(answer),
                ProbeSite::ToolDone(end) => if end is Completed {
                    None
                } else {
                    cause_of_end(end)
                },
                ProbeSite::ToolScanned(verdict) => cause_of_end(ToolEnd::Completed(verdict)),
                ProbeSite::Provider { failed } => if !failed && m.requested > MAX_TOOLS_PER_ROUND {
                    Some(SettlementReason::ToolCapacity)
                } else {
                    None
                },
                _ => None,
            },
            Phase::ObserveResponse => if event is Passed && !m.config.cancellable && m.requested
                > MAX_TOOLS_PER_ROUND {
                Some(SettlementReason::ToolCapacity)
            } else {
                None
            },
            Phase::ObserveUsage { finished } => if event is Passed && finished && m.requested
                > MAX_TOOLS_PER_ROUND {
                Some(SettlementReason::ToolCapacity)
            } else {
                None
            },
            _ => None,
        }
    }
}

/// Why a call is refused by the answer of the approval gate.
pub open spec fn cause_of_answer(answer: ApprovalAnswer) -> Option<SettlementReason> {
    match answer {
        ApprovalAnswer::Granted => None,
        ApprovalAnswer::Required => Some(SettlementReason::ApprovalRequired),
        ApprovalAnswer::Refused => Some(SettlementReason::ApprovalRejected),
        ApprovalAnswer::Undetermined => Some(SettlementReason::ApprovalFailed),
    }
}

/// Why a call is refused by how its tool ended.
pub open spec fn cause_of_end(end: ToolEnd) -> Option<SettlementReason> {
    match end {
        ToolEnd::Completed(ScanVerdict::Allowed) => None,
        ToolEnd::Completed(ScanVerdict::Blocked) => Some(SettlementReason::OutputScan),
        ToolEnd::Completed(ScanVerdict::Undetermined) => Some(SettlementReason::OutputScanFailed),
        ToolEnd::Failed => Some(SettlementReason::ToolFailed),
        ToolEnd::TimedOut => Some(SettlementReason::ToolTimeoutUncertain),
    }
}

/// A round is settled as refused exactly if something in it is refused, and
/// under what refused it. The caller is told why in kind: a tool that is not
/// known, that timed out or a batch that is too large by an error of its own,
/// anything else by the error that was reported.
pub proof fn law_a_refusal_is_settled_under_its_cause(m: TurnMachine, event: TurnEvent)
    requires
        m.wf(),
        m.expects(event),
    ensures
        ({
            let n = m.next(event).0;
            &&& n.phase is Settle <==> cause(m, event) is Some
            &&& n.phase matches Phase::Settle(refusal) ==> {
                &&& Some(refusal.reason) == cause(m, event)
                &&& refusal.error == (match refusal.reason {
                    SettlementReason::UnknownTool => TurnError::UnknownTool,
                    SettlementReason::ToolTimeoutUncertain => TurnError::ToolTimeout,
                    SettlementReason::ToolCapacity => TurnError::ToolBatchTooLarge {
                        requested: m.requested,
                    },
                    _ => TurnError::Reported,
                })
                &&& refusal.hook == (match refusal.reason {
                    SettlementReason::UnknownTool | SettlementReason::ToolCapacity
                    | SettlementReason::ToolFailed | SettlementReason::ToolTimeoutUncertain => {
                        LifecyclePhase::Provider
                    },
                    _ => LifecyclePhase::Submit,
                })
            }
        }),
{
}

/// Evidence that a call was refused is recorded exactly when a check of it
/// fails, and says which check.
pub proof fn law_a_denied_call_is_recorded(m: TurnMachine, event: TurnEvent, denial: Denial)
    requires
        m.wf(),
        m.expects(event),
    ensures
        times(m.next(event).1, Action::RecordDenied(denial)) == (if match denial {
            Denial::UnknownTool => m.phase is LookupTool && event is Failed,
            Denial::Authorization => m.phase is AuthorizeTool && event is Failed,
            Denial::Capability => m.phase is CheckCapabilities && event is Failed,
            Denial::Approval => m.phase is Approve && event is ApprovalDenied,
        } {
            1nat
        } else {
            0nat
        }),
{
    lemma_times(Action::RecordDenied(denial));
}

/// A check of a requested call that passes leads to the next one, and no check
/// is left out on the way to the tool.
pub proof fn law_a_call_goes_through_its_checks_in_order(m: TurnMachine)
    requires
        m.wf(),
    ensures
        m.phase is LookupTool ==> m.next(TurnEvent::Passed).0.phase is AuthorizeTool,
        m.phase is AuthorizeTool ==> m.next(TurnEvent::Passed).0.phase is CheckCapabilities,
        m.phase is CheckCapabilities ==> m.next(TurnEvent::Passed).0.phase is Approve,
        m.phase is Approve ==> m.next(TurnEvent::Passed).0.phase == (if m.config.cancellable {
            Phase::Probe(ProbeSite::Approval(ApprovalAnswer::Granted))
        } else {
            Phase::ObserveIntent
        }),
        m.phase is ObserveIntent ==> m.next(TurnEvent::Passed).0.phase is InvokeTool,
        m.phase is LookupTool || m.phase is AuthorizeTool || m.phase is CheckCapabilities || m.phase
            is Approve || m.phase is ObserveIntent ==> m.next(TurnEvent::Passed).0.at == m.at
            && m.next(TurnEvent::Passed).0.requested == m.requested,
{
}

/// How a tool's run ended is recorded on its approval once it was observed: as
/// completed where it returned, as not completed where it failed, and not at
/// all where nothing is known of it.
pub proof fn law_an_observed_run_is_recorded(m: TurnMachine, event: TurnEvent)
    requires
        m.wf(),
        m.expects(event),
    ensures
        ({
            let actions = m.next(event).1;
            let observed = event is Passed;
            &&& times(actions, Action::RecordInvocation { completed: true }) == (if observed && (
            m.phase matches Phase::ObserveOutcome(end) && end is Completed) {
                1nat
            } else {
                0nat
            })
            &&& times(actions, Action::RecordInvocation { completed: false }) == (if observed
                && m.phase == Phase::ObserveOutcome(ToolEnd::Failed) {
                1nat
            } else {
                0nat
            })
        }),
{
    lemma_times(Action::RecordInvocation { completed: true });
    lemma_times(Action::RecordInvocation { completed: false });
}

/// The tools that a model asks for run one after the other, each once, and the
/// round goes on to its commit behind the last of them.
pub proof fn law_requested_tools_run_in_turn(m: TurnMachine, event: TurnEvent)
    requires
        m.wf(),
        m.expects(event),
        m.in_tool(),
    ensures
        ({
            let (n, actions) = m.next(event);
            &&& n.in_tool() && !(n.phase is LookupTool || n.phase == Phase::Probe(ProbeSite::Tool))
                ==> n.at == m.at
            &&& n.in_tool() && (n.phase is LookupTool || n.phase == Phase::Probe(ProbeSite::Tool))
                ==> n.at == m.at + times(actions, Action::KeepResult)
            &&& n.phase is CommitRound || n.phase == Phase::Probe(ProbeSite::BeforeCommit) ==> n.at
                == n.requested && m.at + 1 == n.requested
            &&& n.requested == m.requested
        }),
{
    lemma_times(Action::KeepResult);
}

/// A provider that asks for no tool, or for tools that it may no longer have,
/// has its round committed at once; one that asks for too many has none of them
/// run; any other has the first of them looked at.
pub proof fn law_an_answer_is_committed_or_its_tools_run(m: TurnMachine)
    requires
        m.wf(),
        m.phase is ObserveResponse || m.phase == (Phase::ObserveUsage { finished: true }),
        !m.config.cancellable,
    ensures
        ({
            let n = m.next(TurnEvent::Passed).0;
            if m.requested > MAX_TOOLS_PER_ROUND {
                n.phase is Settle
            } else if m.requested == 0 || m.iteration >= m.config.max_tool_iterations {
                n.phase is CommitRound
            } else {
                n.phase is LookupTool && n.at == 0
            }
        }),
{
}

/// What becomes of a committed and settled round: the turn answers where no
/// tool was asked for, is refused where the rounds are used up, and starts the
/// next round otherwise. A total that overflows fails the turn.
pub proof fn law_a_settled_round_answers_or_goes_on(m: TurnMachine, event: TurnEvent)
    requires
        m.wf(),
        m.expects(event),
        m.closing(),
        event is Passed,
    ensures
        ({
            let (n, actions) = m.next(event);
            let overflows = !m.config.stream && !m.total_cost.sum_fits(m.known());
            &&& actions.last() is Answer ==> m.requested == 0 && !overflows
            &&& !n.closing() && overflows ==> actions.last() == (Action::Fail {
                error: TurnError::CostOverflow,
                settlement: false,
            })
            &&& !n.closing() && !overflows && m.requested == 0 ==> actions.last() is Answer
            &&& !n.closing() && !overflows && m.requested > 0 && m.iteration
                >= m.config.max_tool_iterations ==> n.phase is FinishRefused
            &&& !n.closing() && !overflows && m.requested > 0 && m.iteration
                < m.config.max_tool_iterations ==> n.phase is AdmitRound || n.phase == Phase::Probe(
                ProbeSite::Round,
            )
            &&& m.phase is SettleRound && m.config.memory ==> n.phase is RecordMemory
            &&& m.phase is SettleRound && !m.config.memory && m.config.journal ==> n.phase
                is AppendJournal
            &&& m.phase is RecordMemory && m.config.journal ==> n.phase is AppendJournal
        }),
{
}

/// Streamed content never outgrows its bound: an item that would take it over
/// is not handed on, and fails the turn with the bound and the size.
pub proof fn law_streamed_content_is_bounded(m: TurnMachine, bytes: usize)
    requires
        m.wf(),
        m.phase is NextItem,
    ensures
        ({
            let (n, actions) = m.next(TurnEvent::Delta { bytes });
            let size = if m.content_len + bytes <= usize::MAX {
                m.content_len + bytes
            } else {
                usize::MAX as int
            };
            if size > m.config.stream_content_max_bytes {
                &&& n.phase is Done
                &&& times(actions, Action::Emit(crate::turn::Emitted::Content)) == 0
                &&& actions.last() == (Action::Fail {
                    error: TurnError::StreamedContentCapExceeded {
                        limit: m.config.stream_content_max_bytes,
                        actual: size as usize,
                    },
                    settlement: false,
                })
            } else {
                &&& n.phase is NextItem
                &&& n.content_len == size
                &&& times(actions, Action::Emit(crate::turn::Emitted::Content)) == 1
            }
        }),
{
    lemma_times(Action::Emit(crate::turn::Emitted::Content));
}

/// A stream that ends without having reported its usage fails the turn; one
/// that did ends the provider's call.
pub proof fn law_a_stream_owes_its_usage(m: TurnMachine)
    requires
        m.wf(),
        m.phase is NextItem,
    ensures
        m.saw_usage ==> m.next(TurnEvent::StreamEnd).0.phase == (Phase::ObserveUsage {
            finished: true,
        }),
        !m.saw_usage ==> m.next(TurnEvent::StreamEnd).1.last() == (Action::Fail {
            error: TurnError::ProviderUnavailable,
            settlement: false,
        }),
{
}

/// A settled refusal ends the turn with the refusal's own error, and says
/// whether settling it failed.
pub proof fn law_a_settled_refusal_fails_the_turn(m: TurnMachine, event: TurnEvent, refusal: Refusal)
    requires
        m.wf(),
        m.expects(event),
        m.phase == Phase::Settle(refusal),
    ensures
        ({
            let (n, actions) = m.next(event);
            &&& n.phase is Done
            &&& actions.last() == (Action::Fail {
                error: refusal.error,
                settlement: event is Failed,
            })
            &&& times(
                actions,
                Action::FireError { phase: refusal.hook, error: refusal.error },
            ) == 1
        }),
{
    lemma_times(Action::FireError { phase: refusal.hook, error: refusal.error });
}

} // verus!
