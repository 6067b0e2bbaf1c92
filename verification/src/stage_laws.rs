//! In which order a turn opens its stages, and how often it calls its provider.
use crate::turn;
use crate::turn::{Action, Emitted, Phase, StageKind, TurnConfig, TurnError};
use crate::turn::{TurnEvent, TurnMachine};
use crate::turn_laws;
use vstd::prelude::*;

verus! {

/// The place of a stage in the pipeline.
pub open spec fn stage_rank(stage: StageKind) -> nat {
    match stage {
        StageKind::CapTokenVerify => 1,
        StageKind::CedarCheck => 2,
        StageKind::CostGateAdmit => 3,
        StageKind::InjectionScan => 4,
        StageKind::ProviderStream => 5,
        StageKind::ToolExec => 6,
        StageKind::ReceiptMint => 7,
        StageKind::CostGateFinalize => 8,
        StageKind::MemoryRecord => 9,
        StageKind::JournalAppend => 10,
    }
}

/// How far the stages of a stream have come: the rank of the last one opened,
/// and whether it is still open.
pub ghost struct Progress {
    pub open: bool,
    pub rank: nat,
}

/// A stage may be opened: none is open, and it ranks behind the last one, or
/// it begins the next round of a turn whose last round was finalized.
pub open spec fn may_open(p: Progress, stage: StageKind) -> bool {
    !p.open && (stage_rank(stage) > p.rank || (stage is CostGateAdmit && p.rank >= stage_rank(
        StageKind::CostGateFinalize,
    )))
}

/// How far the stages have come after some actions, if they were opened in
/// order, each closed before the next; `None` otherwise.
pub open spec fn in_order(from: Progress, actions: Seq<Action>) -> Option<Progress>
    decreases actions.len(),
{
    if actions.len() == 0 {
        Some(from)
    } else {
        match in_order(from, actions.drop_last()) {
            None => None,
            Some(p) => match actions.last() {
                Action::Emit(Emitted::StageStart { stage }) => if may_open(p, stage) {
                    Some(Progress { open: true, rank: stage_rank(stage) })
                } else {
                    None
                },
                Action::Emit(Emitted::StageEnd { stage, .. }) => if p.open && p.rank == stage_rank(
                    stage,
                ) {
                    Some(Progress { open: false, rank: p.rank })
                } else {
                    None
                },
                _ => Some(p),
            },
        }
    }
}

/// The rank of the last stage of a round.
pub open spec fn last_rank(config: TurnConfig) -> nat {
    stage_rank(
        if config.journal {
            StageKind::JournalAppend
        } else if config.memory {
            StageKind::MemoryRecord
        } else {
            StageKind::CostGateFinalize
        },
    )
}

/// The rank of the last stage that a waiting stream has opened.
pub open spec fn reached_rank(m: TurnMachine) -> nat {
    match m.phase {
        Phase::VerifyToken => 1,
        Phase::CheckPolicy | Phase::Permit | Phase::BeginSettlement | Phase::CostSetup => 2,
        Phase::AdmitRound | Phase::PreSubmit | Phase::Recall => 3,
        Phase::ScanRequest => 4,
        Phase::ObserveDispatch | Phase::OpenStream | Phase::NextItem | Phase::ObserveUsage {
            ..
        } => 5,
        Phase::CommitRound => 7,
        Phase::SettleRound => 8,
        Phase::RecordMemory => 9,
        Phase::AppendJournal => 10,
        Phase::FinishRefused => last_rank(m.config),
        _ => 6,
    }
}

/// The stages of a stream have come to where the stream waits.
pub open spec fn stands_at(m: TurnMachine, p: Progress) -> bool {
    match m.phase {
        Phase::Done => !p.open,
        Phase::Settle(refusal) => p.open == refusal.end_stage && (p.open ==> p.rank == 6),
        _ => p == (Progress { open: m.open_stages().len() > 0, rank: reached_rank(m) }),
    }
}

/// What the next step of a stream keeps.
pub open spec fn orderly(m: TurnMachine, event: TurnEvent, p: Progress) -> bool {
    let (n, actions) = m.next(event);
    in_order(p, actions) matches Some(q) && stands_at(n, q)
}

proof fn lemma_in_order(from: Progress)
    ensures
        in_order(from, Seq::<Action>::empty()) == Some(from),
        forall|a: Seq<Action>, x: Action|
            #![trigger in_order(from, a.push(x))]
            in_order(from, a.push(x)) == (match in_order(from, a) {
                None => None,
                Some(p) => match x {
                    Action::Emit(Emitted::StageStart { stage }) => if may_open(p, stage) {
                        Some(Progress { open: true, rank: stage_rank(stage) })
                    } else {
                        None
                    },
                    Action::Emit(Emitted::StageEnd { stage, .. }) => if p.open && p.rank
                        == stage_rank(stage) {
                        Some(Progress { open: false, rank: p.rank })
                    } else {
                        None
                    },
                    _ => Some(p),
                },
            }),
{
    assert forall|a: Seq<Action>, x: Action|
        #![trigger in_order(from, a.push(x))]
        in_order(from, a.push(x)) == (match in_order(from, a) {
            None => None,
            Some(p) => match x {
                Action::Emit(Emitted::StageStart { stage }) => if may_open(p, stage) {
                    Some(Progress { open: true, rank: stage_rank(stage) })
                } else {
                    None
                },
                Action::Emit(Emitted::StageEnd { stage, .. }) => if p.open && p.rank
                    == stage_rank(stage) {
                    Some(Progress { open: false, rank: p.rank })
                } else {
                    None
                },
                _ => Some(p),
            },
        }) by {
        assert(a.push(x).drop_last() =~= a);
        assert(a.push(x).last() == x);
    }
}

/// The turn is a stream that waits, and its stages have come to where it does.
pub open spec fn streaming(m: TurnMachine, event: TurnEvent, p: Progress) -> bool {
    m.wf() && m.config.stream && m.expects(event) && stands_at(m, p)
}

proof fn lemma_setup(m: TurnMachine, event: TurnEvent, p: Progress)
    requires
        streaming(m, event, p),
        m.in_setup(),
    ensures
        orderly(m, event, p),
{
    lemma_in_order(p);
}

proof fn lemma_provider(m: TurnMachine, event: TurnEvent, p: Progress)
    requires
        streaming(m, event, p),
        m.before_tools(),
    ensures
        orderly(m, event, p),
{
    lemma_in_order(p);
}

proof fn lemma_tools(m: TurnMachine, event: TurnEvent, p: Progress)
    requires
        streaming(m, event, p),
        m.in_tool(),
    ensures
        orderly(m, event, p),
{
    lemma_in_order(p);
}

proof fn lemma_end(m: TurnMachine, event: TurnEvent, p: Progress)
    requires
        streaming(m, event, p),
        m.phase is Settle || m.phase is CommitRound || m.phase is FinishRefused,
    ensures
        orderly(m, event, p),
{
    lemma_in_order(p);
}

proof fn lemma_closing(m: TurnMachine, event: TurnEvent, p: Progress)
    requires
        streaming(m, event, p),
        m.closing(),
    ensures
        orderly(m, event, p),
{
    lemma_in_order(p);
}

proof fn lemma_orderly(m: TurnMachine, event: TurnEvent, p: Progress)
    requires
        streaming(m, event, p),
    ensures
        orderly(m, event, p),
{
    if m.in_setup() {
        lemma_setup(m, event, p);
    } else if m.before_tools() {
        lemma_provider(m, event, p);
    } else if m.in_tool() {
        lemma_tools(m, event, p);
    } else if m.closing() {
        lemma_closing(m, event, p);
    } else {
        lemma_end(m, event, p);
    }
}

proof fn lemma_in_order_concat(from: Progress, a: Seq<Action>, b: Seq<Action>)
    requires
        in_order(from, a) is Some,
    ensures
        in_order(from, a + b) == in_order(in_order(from, a)->0, b),
    decreases b.len(),
{
    if b.len() == 0 {
        assert(a + b =~= a);
    } else {
        assert((a + b).drop_last() =~= a + b.drop_last());
        assert((a + b).last() == b.last());
        lemma_in_order_concat(from, a, b.drop_last());
    }
}

/// A stream opens its stages in the order of the pipeline, from the token to
/// the journal, each closed before the next is opened; a round that asks for
/// tools is followed by the next round's admission.
pub proof fn law_stages_come_in_order(config: TurnConfig, events: Seq<TurnEvent>)
    requires
        config.stream,
        !config.cancellable,
        turn_laws::answers(config, events),
    ensures
        in_order(Progress { open: false, rank: 0 }, turn_laws::ran(config, events).1) matches Some(p)
            && stands_at(turn_laws::ran(config, events).0, p),
    decreases events.len(),
{
    let start = Progress { open: false, rank: 0 };
    if events.len() == 0 {
        lemma_in_order(start);
        let (m, actions) = turn::started(config);
        assert(in_order(start, actions) == Some(Progress { open: true, rank: 1 }));
        assert(m.open_stages().len() == 1);
    } else {
        let before = events.drop_last();
        law_stages_come_in_order(config, before);
        turn_laws::law_whole_turn_is_bounded_and_bracketed(config, before);
        let (m, trace) = turn_laws::ran(config, before);
        let p = in_order(start, trace)->0;
        lemma_orderly(m, events.last(), p);
        lemma_in_order_concat(start, trace, m.next(events.last()).1);
    }
}

/// How often the provider was called and answered.
pub open spec fn provider_calls(config: TurnConfig, events: Seq<TurnEvent>) -> nat
    decreases events.len(),
{
    if events.len() == 0 {
        0
    } else {
        let phase = turn_laws::ran(config, events.drop_last()).0.phase;
        provider_calls(config, events.drop_last()) + (if phase is CallProvider || phase
            is OpenStream {
            1nat
        } else {
            0nat
        })
    }
}

/// How many rounds were committed, each with its receipt.
pub open spec fn receipts(config: TurnConfig, events: Seq<TurnEvent>) -> nat
    decreases events.len(),
{
    if events.len() == 0 {
        0
    } else {
        let phase = turn_laws::ran(config, events.drop_last()).0.phase;
        receipts(config, events.drop_last()) + (if phase is CommitRound && events.last() is Passed {
            1nat
        } else {
            0nat
        })
    }
}

/// The provider was not called yet in this round.
pub open spec fn before_call(phase: Phase) -> bool {
    match phase {
        Phase::AdmitRound | Phase::PreSubmit | Phase::Recall | Phase::ScanRequest
        | Phase::ObserveDispatch | Phase::CallProvider | Phase::OpenStream => true,
        Phase::Probe(site) => site is AdmitFailed || site is ScanFailed || site is Admitted,
        _ => false,
    }
}

/// The turn has called its provider and committed as often as its rounds say.
pub open spec fn tallied(m: TurnMachine, calls: nat, committed: nat) -> bool {
    &&& !(m.phase is Done) ==> calls == (if before_call(m.phase) {
        m.iteration - 1
    } else {
        m.iteration as int
    })
    &&& !(m.phase is Done) ==> committed == m.committed_rounds + (if m.closing() {
        1int
    } else {
        0int
    })
    &&& m.phase is FinishRefused ==> m.exhausted() && 0 < m.iteration && m.committed_rounds
        == m.iteration
    &&& m.phase matches Phase::Settle(refusal) ==> !(refusal.error is ToolLoopExhausted)
    &&& m.exhausted() && (m.round_complete() || m.phase is FinishRefused) ==> m.at == 0
}

/// The tally is kept by the next step.
pub open spec fn keeps_tally(m: TurnMachine, event: TurnEvent, calls: nat, committed: nat) -> bool {
    tallied(
        m.next(event).0,
        calls + (if m.phase is CallProvider || m.phase is OpenStream {
            1nat
        } else {
            0nat
        }),
        committed + (if m.phase is CommitRound && event is Passed {
            1nat
        } else {
            0nat
        }),
    )
}

proof fn lemma_tally_setup(m: TurnMachine, event: TurnEvent, calls: nat, committed: nat)
    requires
        m.wf(),
        m.expects(event),
        tallied(m, calls, committed),
        m.in_setup() && !(m.phase is Probe),
    ensures
        keeps_tally(m, event, calls, committed),
{
}

proof fn lemma_tally_probe(m: TurnMachine, event: TurnEvent, calls: nat, committed: nat)
    requires
        m.wf(),
        m.expects(event),
        tallied(m, calls, committed),
        m.phase is Probe,
    ensures
        keeps_tally(m, event, calls, committed),
{
}

proof fn lemma_tally_provider(m: TurnMachine, event: TurnEvent, calls: nat, committed: nat)
    requires
        m.wf(),
        m.expects(event),
        tallied(m, calls, committed),
        m.before_tools() && !(m.phase is Probe),
    ensures
        keeps_tally(m, event, calls, committed),
{
}

proof fn lemma_tally_tools(m: TurnMachine, event: TurnEvent, calls: nat, committed: nat)
    requires
        m.wf(),
        m.expects(event),
        tallied(m, calls, committed),
        m.in_tool() && !(m.phase is Probe),
    ensures
        keeps_tally(m, event, calls, committed),
{
}

proof fn lemma_tally_closing(m: TurnMachine, event: TurnEvent, calls: nat, committed: nat)
    requires
        m.wf(),
        m.expects(event),
        tallied(m, calls, committed),
        m.closing(),
    ensures
        keeps_tally(m, event, calls, committed),
{
}

proof fn lemma_tally_end(m: TurnMachine, event: TurnEvent, calls: nat, committed: nat)
    requires
        m.wf(),
        m.expects(event),
        tallied(m, calls, committed),
        m.phase is Settle || m.phase is CommitRound || m.phase is FinishRefused,
    ensures
        keeps_tally(m, event, calls, committed),
{
}

proof fn lemma_tally(m: TurnMachine, event: TurnEvent, calls: nat, committed: nat)
    requires
        m.wf(),
        m.expects(event),
        tallied(m, calls, committed),
    ensures
        keeps_tally(m, event, calls, committed),
{
    if m.phase is Probe {
        lemma_tally_probe(m, event, calls, committed);
    } else if m.in_setup() {
        lemma_tally_setup(m, event, calls, committed);
    } else if m.before_tools() {
        lemma_tally_provider(m, event, calls, committed);
    } else if m.in_tool() {
        lemma_tally_tools(m, event, calls, committed);
    } else if m.closing() {
        lemma_tally_closing(m, event, calls, committed);
    } else {
        lemma_tally_end(m, event, calls, committed);
    }
}

proof fn lemma_tallied(config: TurnConfig, events: Seq<TurnEvent>)
    requires
        config.stream ==> !config.cancellable,
        turn_laws::answers(config, events),
    ensures
        tallied(
            turn_laws::ran(config, events).0,
            provider_calls(config, events),
            receipts(config, events),
        ),
    decreases events.len(),
{
    if events.len() > 0 {
        let before = events.drop_last();
        lemma_tallied(config, before);
        turn_laws::law_whole_turn_is_bounded_and_bracketed(config, before);
        lemma_tally(
            turn_laws::ran(config, before).0,
            events.last(),
            provider_calls(config, before),
            receipts(config, before),
        );
    }
}

/// A turn that runs out of rounds has called its provider exactly as often as
/// configured (once, if that is less), has committed one receipt for each
/// call, and has run none of the tools that the last answer asked for.
pub proof fn law_an_exhausted_turn_commits_every_round(
    config: TurnConfig,
    events: Seq<TurnEvent>,
    iterations: u32,
)
    requires
        config.stream ==> !config.cancellable,
        turn_laws::answers(config, events),
        events.len() > 0,
        turn_laws::ran(config, events).1.last() == (Action::Fail {
            error: TurnError::ToolLoopExhausted { iterations },
            settlement: false,
        }),
    ensures
        iterations == (if config.max_tool_iterations == 0 {
            1
        } else {
            config.max_tool_iterations
        }),
        provider_calls(config, events) == iterations,
        receipts(config, events) == iterations,
        turn_laws::ran(config, events).0.wants_tools(),
        turn_laws::ran(config, events).0.at == 0,
{
    let before = events.drop_last();
    lemma_tallied(config, before);
    turn_laws::law_whole_turn_is_bounded_and_bracketed(config, before);
    let (m, trace) = turn_laws::ran(config, before);
    let (n, actions) = m.next(events.last());
    lemma_last(m, events.last());
    assert((trace + actions).last() == actions.last());
}

/// Only a refused last round ends a turn as exhausted.
proof fn lemma_last(m: TurnMachine, event: TurnEvent)
    requires
        m.wf(),
        m.expects(event),
        m.phase matches Phase::Settle(refusal) ==> !(refusal.error is ToolLoopExhausted),
    ensures
        m.next(event).1.len() > 0,
        m.next(event).1.last() matches Action::Fail {
            error: TurnError::ToolLoopExhausted { iterations },
            ..
        } ==> m.phase is FinishRefused && iterations == m.iteration && m.next(event).0 == (
        TurnMachine { phase: Phase::Done, ..m }),
{
}

} // verus!
