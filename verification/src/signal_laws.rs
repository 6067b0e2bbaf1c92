//! What a turn tells its hooks, its consumer, its ledger and its evidence on
//! each step, and how often.
use crate::outcome_laws::times;
use crate::turn::{
    Action, Emitted, LifecyclePhase, Phase, ProbeSite, ToolEnd, TurnError, TurnEvent, TurnMachine,
};
use vstd::prelude::*;

verus! {

/// How often the error hooks are fired.
pub open spec fn fired(actions: Seq<Action>) -> nat
    decreases actions.len(),
{
    if actions.len() == 0 {
        0
    } else {
        fired(actions.drop_last()) + (if actions.last() is FireError {
            1nat
        } else {
            0nat
        })
    }
}

/// How many cancellations are recorded.
pub open spec fn marked(actions: Seq<Action>) -> nat
    decreases actions.len(),
{
    if actions.len() == 0 {
        0
    } else {
        marked(actions.drop_last()) + (if actions.last() is RecordCancellation {
            1nat
        } else {
            0nat
        })
    }
}

proof fn lemma_counted(action: Action)
    ensures
        times(Seq::<Action>::empty(), action) == 0,
        forall|a: Seq<Action>, x: Action|
            #![trigger times(a.push(x), action)]
            times(a.push(x), action) == times(a, action) + (if x == action {
                1nat
            } else {
                0nat
            }),
{
    assert forall|a: Seq<Action>, x: Action|
        #![trigger times(a.push(x), action)]
        times(a.push(x), action) == times(a, action) + (if x == action {
            1nat
        } else {
            0nat
        }) by {
        assert(a.push(x).drop_last() =~= a);
    }
}

proof fn lemma_fired()
    ensures
        fired(Seq::<Action>::empty()) == 0,
        forall|a: Seq<Action>, x: Action|
            #![trigger fired(a.push(x))]
            fired(a.push(x)) == fired(a) + (if x is FireError {
                1nat
            } else {
                0nat
            }),
{
    assert forall|a: Seq<Action>, x: Action|
        #![trigger fired(a.push(x))]
        fired(a.push(x)) == fired(a) + (if x is FireError {
            1nat
        } else {
            0nat
        }) by {
        assert(a.push(x).drop_last() =~= a);
    }
}

proof fn lemma_marked()
    ensures
        marked(Seq::<Action>::empty()) == 0,
        forall|a: Seq<Action>, x: Action|
            #![trigger marked(a.push(x))]
            marked(a.push(x)) == marked(a) + (if x is RecordCancellation {
                1nat
            } else {
                0nat
            }),
{
    assert forall|a: Seq<Action>, x: Action|
        #![trigger marked(a.push(x))]
        marked(a.push(x)) == marked(a) + (if x is RecordCancellation {
            1nat
        } else {
            0nat
        }) by {
        assert(a.push(x).drop_last() =~= a);
    }
}

spec fn gone(m: TurnMachine, event: TurnEvent) -> bool {
    event == TurnEvent::Probed(true) || (!m.config.stream && event == (TurnEvent::CommitFailed {
        cancelled: true,
    }))
}

#[verifier::rlimit(60)]
proof fn lemma_marks(m: TurnMachine, event: TurnEvent)
    requires
        m.wf(),
        m.expects(event),
    ensures
        marked(m.next(event).1) == (if gone(m, event) && m.committed_rounds > 0 {
            1nat
        } else {
            0nat
        }),
{
    lemma_marked();
}

#[verifier::rlimit(60)]
proof fn lemma_marks_rounds(m: TurnMachine, event: TurnEvent)
    requires
        m.wf(),
        m.expects(event),
    ensures
        times(m.next(event).1, Action::RecordCancellation { rounds: m.committed_rounds }) == (if gone(
            m,
            event,
        ) && m.committed_rounds > 0 {
            1nat
        } else {
            0nat
        }),
{
    lemma_counted(Action::RecordCancellation { rounds: m.committed_rounds });
}

#[verifier::rlimit(60)]
proof fn lemma_recorded_before(m: TurnMachine, event: TurnEvent)
    requires
        m.wf(),
        m.expects(event),
    ensures
        times(m.next(event).1, Action::RecordPreEffect) == (if m.next(event).0.phase is InvokeTool {
            1nat
        } else {
            0nat
        }),
{
    lemma_counted(Action::RecordPreEffect);
}

#[verifier::rlimit(60)]
proof fn lemma_recorded_behind(m: TurnMachine, event: TurnEvent, end: ToolEnd)
    requires
        m.wf(),
        m.expects(event),
    ensures
        times(m.next(event).1, Action::RecordTerminal(end)) == (if match end {
            ToolEnd::Completed(verdict) => m.phase is ScanOutput && event == TurnEvent::Scanned(
                verdict,
            ),
            ToolEnd::Failed => m.phase is InvokeTool && event is Failed,
            ToolEnd::TimedOut => m.phase is InvokeTool && event is TimedOut,
        } {
            1nat
        } else {
            0nat
        }),
{
    lemma_counted(Action::RecordTerminal(end));
}

/// A cancellation is recorded once, with the number of rounds that are durable,
/// exactly if some are and the caller is found gone, at whatever point, or wins
/// over the commit of a turn that answers once.
pub proof fn law_a_cancelled_turn_with_durable_rounds_is_marked(m: TurnMachine, event: TurnEvent)
    requires
        m.wf(),
        m.expects(event),
    ensures
        ({
            let actions = m.next(event).1;
            let gone = (event == TurnEvent::Probed(true)) || (!m.config.stream && event == (
            TurnEvent::CommitFailed { cancelled: true }));
            &&& marked(actions) == (if gone && m.committed_rounds > 0 {
                1nat
            } else {
                0nat
            })
            &&& marked(actions) == times(
                actions,
                Action::RecordCancellation { rounds: m.committed_rounds },
            )
        }),
{
    lemma_marks(m, event);
    lemma_marks_rounds(m, event);
}

/// A step that fails without a word to the hooks: the turn was not begun, its
/// filters spoke already, or what could not be kept is its own evidence.
pub open spec fn silent(m: TurnMachine, event: TurnEvent) -> bool {
    match m.phase {
        Phase::BeginSettlement | Phase::PreSubmit | Phase::FinishRefused => event is Failed,
        Phase::ObserveDispatch | Phase::ObserveResponse | Phase::ObserveUsage { .. }
        | Phase::ObserveIntent | Phase::ObserveOutcome(_) => event is Failed,
        Phase::NextItem => event is StreamEnd,
        Phase::Probe(site) => site is BeforePermit || site is AfterPermit,
        Phase::SettleRound => event is Passed,
        Phase::RecordMemory | Phase::AppendJournal => true,
        _ => false,
    }
}

/// The error hooks hear once of every turn that fails, and at no other time;
/// only a step that fails silently passes them by.
#[verifier::rlimit(80)]
pub proof fn law_the_hooks_hear_once_of_a_failed_turn(m: TurnMachine, event: TurnEvent)
    requires
        m.wf(),
        m.expects(event),
    ensures
        ({
            let (n, actions) = m.next(event);
            fired(actions) == (if n.phase is Done && actions.last() is Fail && !silent(m, event) {
                1nat
            } else {
                0nat
            })
        }),
{
    lemma_fired();
}

/// The hooks are told at which point of a turn it failed, and with what error:
/// that which the turn fails with.
#[verifier::rlimit(80)]
pub proof fn law_the_hooks_are_told_where_a_turn_failed(
    m: TurnMachine,
    event: TurnEvent,
    hook: LifecyclePhase,
    error: TurnError,
)
    requires
        m.wf(),
        m.expects(event),
        times(m.next(event).1, Action::FireError { phase: hook, error }) > 0,
    ensures
        m.next(event).1.last() matches Action::Fail { error: told, .. } && told == error,
        hook == (match m.phase {
            Phase::VerifyToken | Phase::CheckPolicy | Phase::CostSetup | Phase::AdmitRound
            | Phase::ScanRequest => LifecyclePhase::Submit,
            Phase::Recall => LifecyclePhase::MemoryWrite,
            Phase::CommitRound | Phase::SettleRound => LifecyclePhase::Receipt,
            Phase::Settle(refusal) => refusal.hook,
            Phase::Probe(site) => if site is ScanFailed || site is AdmitFailed {
                LifecyclePhase::Submit
            } else {
                LifecyclePhase::Provider
            },
            _ => LifecyclePhase::Provider,
        }),
        event == TurnEvent::Probed(true) ==> error == TurnError::TurnCancelled,
{
    lemma_counted(Action::FireError { phase: hook, error });
}

/// The consumer of a stream is told of every piece that the provider sends, of
/// every result that is kept, of the usage of a finished call, of every durable
/// receipt and of the end of an answered turn, once each; the caller of a turn
/// that answers once is told of none of them.
pub proof fn law_a_consumer_is_told_what_happened(m: TurnMachine, event: TurnEvent, e: Emitted)
    requires
        m.wf(),
        m.expects(event),
        !(e is StageStart),
        !(e is StageEnd),
    ensures
        ({
            let (n, actions) = m.next(event);
            let told = m.config.stream && match e {
                Emitted::Content => m.phase is NextItem && event is Delta && n.phase is NextItem,
                Emitted::ToolCallStart => m.phase is NextItem && event is CallStart,
                Emitted::ToolCallDelta => m.phase is NextItem && event is CallDelta,
                Emitted::ToolCallResult => times(actions, Action::KeepResult) == 1,
                Emitted::Usage => m.phase == (Phase::ObserveUsage { finished: true }) && event
                    is Passed,
                Emitted::Receipt => m.phase is CommitRound && event is Passed,
                Emitted::Finish => actions.last() is Answer,
                _ => false,
            };
            times(actions, Action::Emit(e)) == (if told {
                1nat
            } else {
                0nat
            })
        }),
{
    lemma_counted(Action::Emit(e));
    lemma_counted(Action::KeepResult);
}

/// The lease of a hold is refreshed once with everything that the provider
/// sends, and at no other time.
pub proof fn law_the_lease_is_refreshed_with_what_the_provider_sends(
    m: TurnMachine,
    event: TurnEvent,
)
    requires
        m.wf(),
        m.expects(event),
    ensures
        times(m.next(event).1, Action::TouchReservation) == (if (m.phase is NextItem && !(event
            is StreamEnd)) || (m.phase is ObserveResponse && event is Passed) {
            1nat
        } else {
            0nat
        }),
{
    lemma_counted(Action::TouchReservation);
}

/// The permit of a turn is given back once, when its last round is closed, and
/// a turn that goes on keeps it.
pub proof fn law_the_permit_is_given_back_with_the_last_round(m: TurnMachine, event: TurnEvent)
    requires
        m.wf(),
        m.expects(event),
    ensures
        times(m.next(event).1, Action::ReleasePermit) == (if m.closing() && event is Passed
            && !m.next(event).0.closing() && m.requested == 0 {
            1nat
        } else {
            0nat
        }),
{
    lemma_counted(Action::ReleasePermit);
}

/// Evidence of a tool is recorded once before it runs and once behind it, and
/// says how it ended: as the scan of its output found, as failed or as timed
/// out.
pub proof fn law_a_tool_leaves_evidence_before_and_behind(
    m: TurnMachine,
    event: TurnEvent,
    end: ToolEnd,
)
    requires
        m.wf(),
        m.expects(event),
    ensures
        times(m.next(event).1, Action::RecordPreEffect) == (if m.next(event).0.phase is InvokeTool {
            1nat
        } else {
            0nat
        }),
        times(m.next(event).1, Action::RecordTerminal(end)) == (if match end {
            ToolEnd::Completed(verdict) => m.phase is ScanOutput && event == TurnEvent::Scanned(
                verdict,
            ),
            ToolEnd::Failed => m.phase is InvokeTool && event is Failed,
            ToolEnd::TimedOut => m.phase is InvokeTool && event is TimedOut,
        } {
            1nat
        } else {
            0nat
        }),
        times(m.next(event).1, Action::RecordTerminal(end)) > 0 ==> m.next(event).0.phase
            == Phase::ObserveOutcome(end),
{
    lemma_recorded_before(m, event);
    lemma_recorded_behind(m, event, end);
}

/// A turn whose rounds are used up fails with the number of its rounds, once
/// its refusal was recorded.
pub proof fn law_an_exhausted_turn_says_after_how_many_rounds(m: TurnMachine, event: TurnEvent)
    requires
        m.wf(),
        m.expects(event),
        m.phase is FinishRefused,
    ensures
        m.next(event).1.last() == (Action::Fail {
            error: if event is Passed {
                TurnError::ToolLoopExhausted { iterations: m.iteration }
            } else {
                TurnError::Reported
            },
            settlement: false,
        }),
{
}

/// Each check of a turn that passes leads to the next: the token, the policy,
/// the permit, the settlement, the budget and the first round; and in a round,
/// the admission, the filters and the recall of its first, the scan, the
/// dispatch and the provider.
pub proof fn law_a_passed_check_leads_to_the_next(m: TurnMachine)
    requires
        m.wf(),
    ensures
        ({
            let n = m.next(TurnEvent::Passed).0;
            &&& m.phase is VerifyToken ==> n.phase is CheckPolicy
            &&& m.phase is CheckPolicy ==> n.phase == (if m.config.cancellable {
                Phase::Probe(ProbeSite::BeforePermit)
            } else {
                Phase::Permit
            })
            &&& m.phase is Permit ==> n.phase == (if m.config.cancellable {
                Phase::Probe(ProbeSite::AfterPermit)
            } else {
                Phase::BeginSettlement
            })
            &&& m.phase is BeginSettlement ==> n.phase is CostSetup
            &&& m.phase is CostSetup ==> n.phase == (if m.config.cancellable {
                Phase::Probe(ProbeSite::Round)
            } else {
                Phase::AdmitRound
            })
            &&& m.phase is AdmitRound ==> n.phase == (if m.iteration == 1 {
                Phase::PreSubmit
            } else {
                Phase::ScanRequest
            })
            &&& m.phase is PreSubmit ==> n.phase is Recall
            &&& m.phase is Recall ==> n.phase is ScanRequest
            &&& m.phase is ScanRequest ==> n.phase == (if m.config.cancellable {
                Phase::Probe(ProbeSite::Admitted)
            } else {
                Phase::ObserveDispatch
            })
            &&& m.phase is ObserveDispatch ==> n.phase == (if m.config.stream {
                Phase::OpenStream
            } else {
                Phase::CallProvider
            })
            &&& m.phase is OpenStream ==> n.phase is NextItem
            &&& m.phase is CommitRound ==> n.phase is SettleRound
        }),
{
}

/// A caller that is still there is as good as none that could leave: the turn
/// goes on to what it stopped for.
pub proof fn law_a_present_caller_changes_nothing(m: TurnMachine)
    requires
        m.wf(),
        m.phase is Probe,
    ensures
        ({
            let n = m.next(TurnEvent::Probed(false)).0;
            match m.phase->Probe_0 {
                ProbeSite::BeforePermit => n.phase is Permit,
                ProbeSite::AfterPermit => n.phase is BeginSettlement,
                ProbeSite::Round => n.phase is AdmitRound,
                ProbeSite::ScanFailed | ProbeSite::AdmitFailed => n.phase is Done,
                ProbeSite::Admitted => n.phase is ObserveDispatch,
                ProbeSite::Provider { failed } => failed ==> n.phase is Done,
                ProbeSite::Tool => n.phase is LookupTool,
                ProbeSite::Approval(answer) => answer is Granted <==> n.phase is ObserveIntent,
                ProbeSite::ToolDone(ToolEnd::Completed(verdict)) => n.phase == Phase::Probe(
                    ProbeSite::ToolScanned(verdict),
                ),
                ProbeSite::BeforeCommit => n.phase is CommitRound,
                _ => true,
            }
        }),
{
}

/// A check that fails before the provider is asked fails the turn with the
/// error that was reported, unless a round is durable and the caller may be
/// gone: then the caller is looked for first.
pub proof fn law_a_failed_check_fails_the_turn(m: TurnMachine)
    requires
        m.wf(),
        m.phase is VerifyToken || m.phase is CheckPolicy || m.phase is BeginSettlement || m.phase
            is CostSetup || m.phase is AdmitRound || m.phase is PreSubmit || m.phase is Recall
            || m.phase is ScanRequest || m.phase is ObserveDispatch,
    ensures
        ({
            let (n, actions) = m.next(TurnEvent::Failed);
            if (m.phase is AdmitRound || m.phase is ScanRequest) && m.config.cancellable
                && m.committed_rounds > 0 {
                n.phase == Phase::Probe(ProbeSite::AdmitFailed) || n.phase == Phase::Probe(
                    ProbeSite::ScanFailed,
                )
            } else {
                n.phase is Done && actions.last() == (Action::Fail {
                    error: TurnError::Reported,
                    settlement: false,
                })
            }
        }),
{
}

} // verus!
