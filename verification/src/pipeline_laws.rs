//! What a turn has behind it when it acts: the checks that it passed, and how
//! a streaming turn relates to one that answers once.
use crate::cost::CostTuple;
use crate::turn::{
    Action, Emitted, Phase, ProbeSite, Refusal, TurnConfig, TurnEvent, TurnMachine,
};
use crate::turn_laws;
use vstd::prelude::*;

verus! {

/// Where a check was passed: at any time, within one round, or for one
/// requested tool of a round.
pub ghost enum Within {
    Turn,
    Round(u32),
    Tool(u32, usize),
}

/// The turn stood within that part when it waited.
pub open spec fn stands(m: TurnMachine, within: Within) -> bool {
    match within {
        Within::Turn => true,
        Within::Round(iteration) => m.iteration == iteration,
        Within::Tool(iteration, at) => m.iteration == iteration && m.at == at,
    }
}

/// The turn waited for `check`, and the answer was that it passed.
pub open spec fn passed(
    config: TurnConfig,
    events: Seq<TurnEvent>,
    check: Phase,
    within: Within,
) -> bool {
    exists|i: int|
        0 <= i < events.len() && events[i] is Passed && ({
            let m = (#[trigger] turn_laws::ran(config, events.take(i))).0;
            m.phase == check && stands(m, within)
        })
}

/// How many checks of the setup lie behind a turn. The last two follow the
/// admission of the first round.
pub open spec fn setup_rank(m: TurnMachine) -> nat {
    match m.phase {
        Phase::VerifyToken => 0,
        Phase::CheckPolicy => 1,
        Phase::Permit => 2,
        Phase::BeginSettlement => 3,
        Phase::CostSetup => 4,
        Phase::PreSubmit => 5,
        Phase::Recall => 6,
        Phase::AdmitRound => if m.iteration <= 1 {
            5
        } else {
            7
        },
        Phase::Probe(site) => match site {
            ProbeSite::BeforePermit => 2,
            ProbeSite::AfterPermit => 3,
            ProbeSite::Round => if m.iteration == 0 {
                5
            } else {
                7
            },
            ProbeSite::AdmitFailed => if m.iteration <= 1 {
                5
            } else {
                7
            },
            _ => 7,
        },
        _ => 7,
    }
}

/// The checks of the setup, in order.
pub open spec fn setup_check(rank: nat) -> Phase {
    if rank == 0 {
        Phase::VerifyToken
    } else if rank == 1 {
        Phase::CheckPolicy
    } else if rank == 2 {
        Phase::Permit
    } else if rank == 3 {
        Phase::BeginSettlement
    } else if rank == 4 {
        Phase::CostSetup
    } else if rank == 5 {
        Phase::PreSubmit
    } else {
        Phase::Recall
    }
}

/// How many checks of a round lie behind a phase of that round.
pub open spec fn round_rank(phase: Phase) -> nat {
    match phase {
        Phase::AdmitRound => 0,
        Phase::PreSubmit => 1,
        Phase::Recall => 1,
        Phase::ScanRequest => 1,
        Phase::ObserveDispatch => 2,
        Phase::Probe(site) => match site {
            ProbeSite::AdmitFailed => 0,
            ProbeSite::ScanFailed => 1,
            ProbeSite::Admitted => 2,
            _ => 3,
        },
        _ => 3,
    }
}

/// The checks of a round, in order.
pub open spec fn round_check(rank: nat) -> Phase {
    if rank == 0 {
        Phase::AdmitRound
    } else if rank == 1 {
        Phase::ScanRequest
    } else {
        Phase::ObserveDispatch
    }
}

/// How many checks of a requested tool lie behind a phase.
pub open spec fn tool_rank(phase: Phase) -> nat {
    match phase {
        Phase::LookupTool => 0,
        Phase::AuthorizeTool => 1,
        Phase::CheckCapabilities => 2,
        Phase::Approve => 3,
        Phase::ObserveIntent => 4,
        Phase::InvokeTool => 5,
        Phase::Probe(site) => match site {
            ProbeSite::Approval(answer) => if answer is Granted {
                4
            } else {
                3
            },
            _ => 0,
        },
        _ => 0,
    }
}

/// The checks of a requested tool, in order.
pub open spec fn tool_check(rank: nat) -> Phase {
    if rank == 0 {
        Phase::LookupTool
    } else if rank == 1 {
        Phase::AuthorizeTool
    } else if rank == 2 {
        Phase::CheckCapabilities
    } else if rank == 3 {
        Phase::Approve
    } else {
        Phase::ObserveIntent
    }
}

/// Every check that ranks before where the turn stands was passed.
pub open spec fn checked(config: TurnConfig, events: Seq<TurnEvent>) -> bool {
    let m = turn_laws::ran(config, events).0;
    &&& forall|rank: nat|
        rank < setup_rank(m) ==> passed(
            config,
            events,
            #[trigger] setup_check(rank),
            Within::Turn,
        )
    &&& m.in_round() ==> forall|rank: nat|
        rank < round_rank(m.phase) ==> passed(
            config,
            events,
            #[trigger] round_check(rank),
            Within::Round(m.iteration),
        )
    &&& m.in_tool() ==> forall|rank: nat|
        rank < tool_rank(m.phase) ==> passed(
            config,
            events,
            #[trigger] tool_check(rank),
            Within::Tool(m.iteration, m.at),
        )
}

/// One step passes at most the check it waits for.
proof fn lemma_step(m: TurnMachine, event: TurnEvent)
    requires
        m.wf(),
        m.expects(event),
    ensures
        ({
            let n = m.next(event).0;
            &&& n.phase is Done || setup_rank(n) <= setup_rank(m) || (setup_rank(n)
                == setup_rank(m) + 1 && m.phase == setup_check(setup_rank(m))
                && event is Passed)
            &&& n.in_round() ==> round_rank(n.phase) == 0 || (m.in_round() && m.iteration
                == n.iteration && (round_rank(n.phase) <= round_rank(m.phase) || (round_rank(
                n.phase,
            ) == round_rank(m.phase) + 1 && m.phase == round_check(round_rank(m.phase))
                && event is Passed)))
            &&& n.in_tool() ==> tool_rank(n.phase) == 0 || (m.in_tool() && m.iteration
                == n.iteration && m.at == n.at && (tool_rank(n.phase) <= tool_rank(m.phase) || (
            tool_rank(n.phase) == tool_rank(m.phase) + 1 && m.phase == tool_check(
                tool_rank(m.phase),
            ) && event is Passed)))
        }),
{
}

proof fn lemma_passed_stays(
    config: TurnConfig,
    events: Seq<TurnEvent>,
    event: TurnEvent,
    check: Phase,
    within: Within,
)
    requires
        passed(config, events, check, within),
    ensures
        passed(config, events.push(event), check, within),
{
    let next = events.push(event);
    let i = choose|i: int|
        0 <= i < events.len() && events[i] is Passed && ({
            let m = (#[trigger] turn_laws::ran(config, events.take(i))).0;
            m.phase == check && stands(m, within)
        });
    assert(next.take(i) =~= events.take(i));
    assert(next[i] == events[i]);
    let m = turn_laws::ran(config, next.take(i)).0;
    assert(m.phase == check && stands(m, within));
}

proof fn lemma_passes_now(
    config: TurnConfig,
    events: Seq<TurnEvent>,
    event: TurnEvent,
    within: Within,
)
    requires
        event is Passed,
        stands(turn_laws::ran(config, events).0, within),
    ensures
        passed(
            config,
            events.push(event),
            turn_laws::ran(config, events).0.phase,
            within,
        ),
{
    let next = events.push(event);
    let i = events.len() as int;
    assert(next.take(i) =~= events);
    assert(next[i] == event);
    let m = turn_laws::ran(config, next.take(i)).0;
    assert(stands(m, within));
}

proof fn lemma_checked(config: TurnConfig, events: Seq<TurnEvent>)
    requires
        config.stream ==> !config.cancellable,
        turn_laws::answers(config, events),
    ensures
        turn_laws::ran(config, events).0.phase is Done || checked(config, events),
    decreases events.len(),
{
    if events.len() == 0 {
        return ;
    }
    let before = events.drop_last();
    let event = events.last();
    assert(events =~= before.push(event));
    lemma_checked(config, before);
    turn_laws::law_whole_turn_is_bounded_and_bracketed(config, before);
    let m = turn_laws::ran(config, before).0;
    let n = turn_laws::ran(config, events).0;
    lemma_step(m, event);
    if n.phase is Done {
        return ;
    }
    assert(!(m.phase is Done));
    assert forall|rank: nat| rank < setup_rank(n) implies passed(
        config,
        events,
        #[trigger] setup_check(rank),
        Within::Turn,
    ) by {
        if rank < setup_rank(m) {
            lemma_passed_stays(config, before, event, setup_check(rank), Within::Turn);
        } else {
            lemma_passes_now(config, before, event, Within::Turn);
        }
    }
    if n.in_round() {
        assert forall|rank: nat| rank < round_rank(n.phase) implies passed(
            config,
            events,
            #[trigger] round_check(rank),
            Within::Round(n.iteration),
        ) by {
            let within = Within::Round(n.iteration);
            if rank < round_rank(m.phase) {
                lemma_passed_stays(config, before, event, round_check(rank), within);
            } else {
                lemma_passes_now(config, before, event, within);
            }
        }
    }
    if n.in_tool() {
        assert forall|rank: nat| rank < tool_rank(n.phase) implies passed(
            config,
            events,
            #[trigger] tool_check(rank),
            Within::Tool(n.iteration, n.at),
        ) by {
            let within = Within::Tool(n.iteration, n.at);
            if rank < tool_rank(m.phase) {
                lemma_passed_stays(config, before, event, tool_check(rank), within);
            } else {
                lemma_passes_now(config, before, event, within);
            }
        }
    }
}

/// The provider is reached only by a turn whose token was verified, whose
/// policy allowed it and whose hooks let it pass, in a round whose cost was
/// admitted, whose prompt was scanned and whose dispatch was recorded.
pub proof fn law_the_provider_is_reached_behind_every_check(
    config: TurnConfig,
    events: Seq<TurnEvent>,
)
    requires
        config.stream ==> !config.cancellable,
        turn_laws::answers(config, events),
        turn_laws::ran(config, events).0.phase is CallProvider || turn_laws::ran(
            config,
            events,
        ).0.phase is OpenStream,
    ensures
        passed(config, events, Phase::VerifyToken, Within::Turn),
        passed(config, events, Phase::CheckPolicy, Within::Turn),
        passed(config, events, Phase::BeginSettlement, Within::Turn),
        passed(config, events, Phase::CostSetup, Within::Turn),
        passed(config, events, Phase::PreSubmit, Within::Turn),
        passed(config, events, Phase::Recall, Within::Turn),
        ({
            let round = Within::Round(turn_laws::ran(config, events).0.iteration);
            &&& passed(config, events, Phase::ScanRequest, round)
            &&& passed(config, events, Phase::AdmitRound, round)
            &&& passed(config, events, Phase::ObserveDispatch, round)
        }),
{
    lemma_checked(config, events);
    assert(setup_check(0) == Phase::VerifyToken);
    assert(setup_check(1) == Phase::CheckPolicy);
    assert(setup_check(3) == Phase::BeginSettlement);
    assert(setup_check(4) == Phase::CostSetup);
    assert(setup_check(5) == Phase::PreSubmit);
    assert(setup_check(6) == Phase::Recall);
    assert(round_check(0) == Phase::AdmitRound);
    assert(round_check(1) == Phase::ScanRequest);
    assert(round_check(2) == Phase::ObserveDispatch);
}

/// The pre-submit hooks see only a turn whose token was verified, whose policy
/// allowed it and whose first round was admitted.
pub proof fn law_hooks_run_behind_the_admission(config: TurnConfig, events: Seq<TurnEvent>)
    requires
        config.stream ==> !config.cancellable,
        turn_laws::answers(config, events),
        turn_laws::ran(config, events).0.phase is PreSubmit,
    ensures
        passed(config, events, Phase::VerifyToken, Within::Turn),
        passed(config, events, Phase::CheckPolicy, Within::Turn),
        passed(config, events, Phase::CostSetup, Within::Turn),
        passed(config, events, Phase::AdmitRound, Within::Round(1)),
{
    lemma_checked(config, events);
    turn_laws::law_whole_turn_is_bounded_and_bracketed(config, events);
    assert(setup_check(0) == Phase::VerifyToken);
    assert(setup_check(1) == Phase::CheckPolicy);
    assert(setup_check(4) == Phase::CostSetup);
    assert(round_check(0) == Phase::AdmitRound);
}

/// A tool is invoked only where it is registered, the token still authorizes
/// it, its capabilities are granted, it is approved and its intent was
/// observed: each for this very call of this very round.
pub proof fn law_a_tool_runs_behind_every_check(config: TurnConfig, events: Seq<TurnEvent>)
    requires
        config.stream ==> !config.cancellable,
        turn_laws::answers(config, events),
        turn_laws::ran(config, events).0.phase is InvokeTool,
    ensures
        ({
            let m = turn_laws::ran(config, events).0;
            let tool = Within::Tool(m.iteration, m.at);
            &&& passed(config, events, Phase::LookupTool, tool)
            &&& passed(config, events, Phase::AuthorizeTool, tool)
            &&& passed(config, events, Phase::CheckCapabilities, tool)
            &&& passed(config, events, Phase::Approve, tool)
            &&& passed(config, events, Phase::ObserveIntent, tool)
            &&& passed(config, events, Phase::AdmitRound, Within::Round(m.iteration))
            &&& passed(config, events, Phase::ScanRequest, Within::Round(m.iteration))
            &&& passed(config, events, Phase::VerifyToken, Within::Turn)
            &&& passed(config, events, Phase::CheckPolicy, Within::Turn)
        }),
{
    lemma_checked(config, events);
    assert(setup_check(0) == Phase::VerifyToken);
    assert(setup_check(1) == Phase::CheckPolicy);
    assert(round_check(0) == Phase::AdmitRound);
    assert(round_check(1) == Phase::ScanRequest);
    assert(tool_check(0) == Phase::LookupTool);
    assert(tool_check(1) == Phase::AuthorizeTool);
    assert(tool_check(2) == Phase::CheckCapabilities);
    assert(tool_check(3) == Phase::Approve);
    assert(tool_check(4) == Phase::ObserveIntent);
}

/// A receipt is shown, and its hooks run, only once its round is committed: a
/// turn that is dropped before that leaves neither.
pub proof fn law_a_receipt_is_shown_only_for_a_committed_round(m: TurnMachine, event: TurnEvent)
    requires
        m.wf(),
        m.expects(event),
    ensures
        forall|i: int|
            0 <= i < m.next(event).1.len() ==> (#[trigger] m.next(event).1[i] == Action::Emit(
                Emitted::Receipt,
            ) || m.next(event).1[i] is PostReceipt ==> m.phase is CommitRound && event is Passed),
{
}

/// A turn gives its permit back only once everything that follows from its last
/// receipt is done, the journal's entry included where there is a journal.
pub proof fn law_the_permit_outlasts_the_journal(m: TurnMachine, event: TurnEvent)
    requires
        m.wf(),
        m.expects(event),
    ensures
        forall|i: int|
            0 <= i < m.next(event).1.len() && #[trigger] m.next(event).1[i] == Action::ReleasePermit
                ==> {
                &&& m.closing() && !m.wants_tools()
                &&& m.config.journal ==> m.phase is AppendJournal
                &&& m.next(event).0.phase is Done
            },
{
}

/// What an action asks of anyone but the consumer of a stream.
pub open spec fn muted(action: Action) -> Action {
    match action {
        Action::Ask(Phase::Settle(refusal)) => Action::Ask(
            Phase::Settle(Refusal { end_stage: false, ..refusal }),
        ),
        Action::Answer { .. } => Action::Answer { total: CostTuple::zero() },
        _ => action,
    }
}

/// The actions without the events for a consumer.
pub open spec fn heard(actions: Seq<Action>) -> Seq<Action>
    decreases actions.len(),
{
    if actions.len() == 0 {
        Seq::empty()
    } else if actions.last() is Emit {
        heard(actions.drop_last())
    } else {
        heard(actions.drop_last()).push(muted(actions.last()))
    }
}

/// The turn as one that answers once and has cost `total` so far.
pub open spec fn quiet(m: TurnMachine, total: CostTuple) -> TurnMachine {
    TurnMachine {
        config: TurnConfig { stream: false, ..m.config },
        phase: match m.phase {
            Phase::Settle(refusal) => Phase::Settle(Refusal { end_stage: false, ..refusal }),
            _ => m.phase,
        },
        total_cost: total,
        ..m
    }
}

/// The provider is being called.
pub open spec fn at_provider(phase: Phase) -> bool {
    phase is ObserveDispatch || phase is OpenStream || phase is NextItem || phase is ObserveUsage
}

proof fn lemma_heard()
    ensures
        heard(Seq::<Action>::empty()) == Seq::<Action>::empty(),
        forall|a: Seq<Action>, x: Action|
            #![trigger heard(a.push(x))]
            heard(a.push(x)) == (if x is Emit {
                heard(a)
            } else {
                heard(a).push(muted(x))
            }),
{
    assert forall|a: Seq<Action>, x: Action|
        #![trigger heard(a.push(x))]
        heard(a.push(x)) == (if x is Emit {
            heard(a)
        } else {
            heard(a).push(muted(x))
        }) by {
        assert(a.push(x).drop_last() =~= a);
        assert(a.push(x).last() == x);
    }
}

/// The turn streams, and its step is one that both kinds of turn have.
pub open spec fn comparable(m: TurnMachine, event: TurnEvent, total: CostTuple) -> bool {
    &&& m.wf()
    &&& m.config.stream
    &&& m.expects(event)
    &&& !at_provider(m.phase)
    &&& event != (TurnEvent::CommitFailed { cancelled: true })
    &&& total.sum_fits(m.known())
}

/// Both kinds of turn go to the same phase and ask for the same things.
pub open spec fn same_pipeline(m: TurnMachine, event: TurnEvent, total: CostTuple) -> bool {
    let (streamed, loud) = m.next(event);
    let (answered, plain) = quiet(m, total).next(event);
    &&& heard(loud) == heard(plain)
    &&& quiet(streamed, answered.total_cost) == quiet(answered, answered.total_cost)
}

proof fn lemma_same_setup(m: TurnMachine, event: TurnEvent, total: CostTuple)
    requires
        comparable(m, event, total),
        m.in_setup() || m.phase is AdmitRound || m.phase is PreSubmit || m.phase is Recall || m.phase
            is ScanRequest,
    ensures
        same_pipeline(m, event, total),
{
    lemma_heard();
}

proof fn lemma_same_tool_checks(m: TurnMachine, event: TurnEvent, total: CostTuple)
    requires
        comparable(m, event, total),
        m.phase is LookupTool || m.phase is AuthorizeTool || m.phase is CheckCapabilities || m.phase
            is Approve,
    ensures
        same_pipeline(m, event, total),
{
    lemma_heard();
}

proof fn lemma_same_tool_run(m: TurnMachine, event: TurnEvent, total: CostTuple)
    requires
        comparable(m, event, total),
        m.phase is ObserveIntent || m.phase is InvokeTool || m.phase is ScanOutput,
    ensures
        same_pipeline(m, event, total),
{
    lemma_heard();
}

proof fn lemma_same_tool_outcome(m: TurnMachine, event: TurnEvent, total: CostTuple)
    requires
        comparable(m, event, total),
        m.phase is ObserveOutcome,
    ensures
        same_pipeline(m, event, total),
{
    lemma_heard();
}

proof fn lemma_same_end(m: TurnMachine, event: TurnEvent, total: CostTuple)
    requires
        comparable(m, event, total),
        m.phase is Settle || m.phase is CommitRound || m.closing() || m.phase is FinishRefused,
    ensures
        same_pipeline(m, event, total),
{
    lemma_heard();
}

/// A streaming turn runs the same pipeline as one that answers once: on every
/// answer outside the provider call both go to the same phase and ask for the
/// same things, except for the events that only the stream emits. Left out are
/// a lost race with a cancellation, which a stream does not run, and a total
/// cost that overflows, which a stream does not add up.
pub proof fn law_a_stream_runs_the_same_pipeline(
    m: TurnMachine,
    event: TurnEvent,
    total: CostTuple,
)
    requires
        comparable(m, event, total),
    ensures
        same_pipeline(m, event, total),
{
    match m.phase {
        Phase::LookupTool | Phase::AuthorizeTool | Phase::CheckCapabilities | Phase::Approve =>
        lemma_same_tool_checks(m, event, total),
        Phase::ObserveIntent | Phase::InvokeTool | Phase::ScanOutput => lemma_same_tool_run(
            m,
            event,
            total,
        ),
        Phase::ObserveOutcome(_) => lemma_same_tool_outcome(m, event, total),
        Phase::Settle(_) | Phase::CommitRound | Phase::SettleRound | Phase::RecordMemory
        | Phase::AppendJournal | Phase::FinishRefused => lemma_same_end(m, event, total),
        _ => lemma_same_setup(m, event, total),
    }
}

} // verus!
