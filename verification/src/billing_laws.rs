//! What a turn costs, said of what came back from outside: the prices that the
//! provider and the tools reported.
use crate::cost::{
    amount, held_at_most, law_costs_are_counted_in_each_dimension, CostTuple, Dimension,
};
use crate::turn::{Action, Phase, ProbeSite, TurnConfig, TurnEvent, TurnMachine};
use crate::turn_laws;
use vstd::prelude::*;

verus! {

/// The price of the provider's call that was reported last.
pub open spec fn call_price(events: Seq<TurnEvent>, d: Dimension) -> int
    decreases events.len(),
{
    if events.len() == 0 {
        0
    } else {
        match events.last() {
            TurnEvent::Response { cost, .. } => amount(cost, d),
            TurnEvent::Usage { cost } => amount(cost, d),
            _ => call_price(events.drop_last(), d),
        }
    }
}

/// The prices of all the outputs since the provider's call was priced.
pub open spec fn output_prices(events: Seq<TurnEvent>, d: Dimension) -> int
    decreases events.len(),
{
    if events.len() == 0 {
        0
    } else {
        match events.last() {
            TurnEvent::Response { .. } | TurnEvent::Usage { .. } => 0,
            TurnEvent::Output { cost } => output_prices(events.drop_last(), d) + amount(cost, d),
            _ => output_prices(events.drop_last(), d),
        }
    }
}

/// The price of the output that came last.
pub open spec fn last_price(events: Seq<TurnEvent>, d: Dimension) -> int
    decreases events.len(),
{
    if events.len() == 0 {
        0
    } else {
        match events.last() {
            TurnEvent::Output { cost } => amount(cost, d),
            _ => last_price(events.drop_last(), d),
        }
    }
}

/// What the round in progress was priced at, the call and its tools, as far as
/// it can be written down.
pub open spec fn round_price(events: Seq<TurnEvent>, d: Dimension) -> int {
    held_at_most(call_price(events, d) + output_prices(events, d))
}

/// What the rounds before the last answer of the provider were priced at.
pub open spec fn earlier_price(events: Seq<TurnEvent>, d: Dimension) -> int
    decreases events.len(),
{
    if events.len() == 0 {
        0
    } else {
        match events.last() {
            TurnEvent::Response { .. } => earlier_price(events.drop_last(), d) + round_price(
                events.drop_last(),
                d,
            ),
            _ => earlier_price(events.drop_last(), d),
        }
    }
}

/// Every price that was reported, added up.
pub open spec fn every_price(events: Seq<TurnEvent>, d: Dimension) -> int
    decreases events.len(),
{
    if events.len() == 0 {
        0
    } else {
        every_price(events.drop_last(), d) + match events.last() {
            TurnEvent::Response { cost, .. } => amount(cost, d),
            TurnEvent::Output { cost } => amount(cost, d),
            _ => 0,
        }
    }
}

/// A tool of the round returned, and its result is not kept yet.
pub open spec fn output_in_hand(phase: Phase) -> bool {
    match phase {
        Phase::ScanOutput => true,
        Phase::ObserveOutcome(end) => end is Completed,
        Phase::Probe(site) => site is ToolScanned || (site matches ProbeSite::ToolDone(end) && end
            is Completed),
        _ => false,
    }
}

/// The provider's call of the round is not priced.
pub open spec fn call_ahead(phase: Phase) -> bool {
    match phase {
        Phase::VerifyToken | Phase::CheckPolicy | Phase::Permit | Phase::BeginSettlement
        | Phase::CostSetup | Phase::AdmitRound | Phase::PreSubmit | Phase::Recall
        | Phase::ScanRequest | Phase::ObserveDispatch | Phase::CallProvider | Phase::OpenStream => {
            true
        },
        Phase::Probe(site) => match site {
            ProbeSite::BeforePermit | ProbeSite::AfterPermit | ProbeSite::Round
            | ProbeSite::ScanFailed | ProbeSite::AdmitFailed | ProbeSite::Admitted => true,
            ProbeSite::Provider { failed } => failed,
            _ => false,
        },
        _ => false,
    }
}

/// The provider's call of the round is priced, and the round is not refused.
pub open spec fn call_behind(m: TurnMachine) -> bool {
    !(m.phase is Done) && !(m.phase is FinishRefused) && !(m.phase is Settle) && !call_ahead(
        m.phase,
    ) && (m.phase is NextItem ==> m.saw_usage)
}

/// What the turn has in its books agrees with the prices that were reported.
spec fn books_agree(m: TurnMachine, events: Seq<TurnEvent>, d: Dimension) -> bool {
    let in_hand = if output_in_hand(m.phase) {
        last_price(events, d)
    } else {
        0
    };
    &&& call_behind(m) ==> {
        &&& amount(m.response_cost, d) == call_price(events, d)
        &&& amount(m.tool_cost, d) == held_at_most(output_prices(events, d) - in_hand)
        &&& 0 <= output_prices(events, d) - in_hand
    }
    &&& output_in_hand(m.phase) ==> amount(m.output_cost, d) == last_price(events, d)
    &&& call_ahead(m.phase) && m.iteration > 0 && !(m.phase == Phase::Probe(ProbeSite::Round))
        ==> amount(m.tool_cost, d) == 0 && !m.saw_usage
    &&& m.phase is NextItem || m.phase is ObserveUsage ==> amount(m.tool_cost, d) == 0
    &&& m.before_tools() && call_behind(m) ==> output_prices(events, d) == 0
    &&& m.phase matches Phase::Settle(refusal) ==> amount(refusal.known, d) == round_price(
        events,
        d,
    )
    &&& !m.config.stream && call_ahead(m.phase) ==> amount(m.total_cost, d) == earlier_price(
        events,
        d,
    ) + round_price(events, d)
    &&& !m.config.stream && call_behind(m) ==> amount(m.total_cost, d) == earlier_price(events, d)
}

/// An answer names what all the rounds of the turn were priced at.
spec fn answer_agrees(actions: Seq<Action>, events: Seq<TurnEvent>, d: Dimension) -> bool {
    forall|i: int|
        0 <= i < actions.len() ==> (#[trigger] actions[i] matches Action::Answer { total }
            ==> amount(total, d) == earlier_price(events, d) + round_price(events, d))
}

proof fn lemma_prices(events: Seq<TurnEvent>, event: TurnEvent, d: Dimension)
    ensures
        call_price(events.push(event), d) == (match event {
            TurnEvent::Response { cost, .. } => amount(cost, d),
            TurnEvent::Usage { cost } => amount(cost, d),
            _ => call_price(events, d),
        }),
        output_prices(events.push(event), d) == (match event {
            TurnEvent::Response { .. } | TurnEvent::Usage { .. } => 0,
            TurnEvent::Output { cost } => output_prices(events, d) + amount(cost, d),
            _ => output_prices(events, d),
        }),
        last_price(events.push(event), d) == (match event {
            TurnEvent::Output { cost } => amount(cost, d),
            _ => last_price(events, d),
        }),
        earlier_price(events.push(event), d) == (match event {
            TurnEvent::Response { .. } => earlier_price(events, d) + round_price(events, d),
            _ => earlier_price(events, d),
        }),
        every_price(events.push(event), d) == every_price(events, d) + (match event {
            TurnEvent::Response { cost, .. } => amount(cost, d),
            TurnEvent::Output { cost } => amount(cost, d),
            _ => 0,
        }),
{
    assert(events.push(event).drop_last() =~= events);
    assert(events.push(event).last() == event);
}

spec fn step_agrees(m: TurnMachine, event: TurnEvent, events: Seq<TurnEvent>, d: Dimension) -> bool {
    let (n, actions) = m.next(event);
    &&& n.phase is Done || n.phase is FinishRefused || books_agree(n, events.push(event), d)
    &&& !m.config.stream ==> answer_agrees(actions, events.push(event), d)
}

proof fn lemma_amounts(d: Dimension)
    ensures
        forall|cost: CostTuple| 0 <= #[trigger] amount(cost, d) <= u64::MAX,
{
}

proof fn lemma_ahead(m: TurnMachine, event: TurnEvent, events: Seq<TurnEvent>, d: Dimension)
    requires
        m.wf(),
        m.expects(event),
        books_agree(m, events, d),
        call_ahead(m.phase),
    ensures
        step_agrees(m, event, events, d),
{
    lemma_prices(events, event, d);
    law_costs_are_counted_in_each_dimension(m.response_cost, m.tool_cost);
    lemma_amounts(d);
}

proof fn lemma_stream(m: TurnMachine, event: TurnEvent, events: Seq<TurnEvent>, d: Dimension)
    requires
        m.wf(),
        m.expects(event),
        books_agree(m, events, d),
        m.phase is NextItem || m.phase is ObserveUsage,
    ensures
        step_agrees(m, event, events, d),
{
    lemma_prices(events, event, d);
    law_costs_are_counted_in_each_dimension(m.response_cost, m.tool_cost);
}

proof fn lemma_answered(m: TurnMachine, event: TurnEvent, events: Seq<TurnEvent>, d: Dimension)
    requires
        m.wf(),
        m.expects(event),
        books_agree(m, events, d),
        m.phase is ObserveResponse || m.phase == Phase::Probe(ProbeSite::Provider { failed: false }),
    ensures
        step_agrees(m, event, events, d),
{
    lemma_prices(events, event, d);
    law_costs_are_counted_in_each_dimension(m.response_cost, m.tool_cost);
}

proof fn lemma_tool(m: TurnMachine, event: TurnEvent, events: Seq<TurnEvent>, d: Dimension)
    requires
        m.wf(),
        m.expects(event),
        books_agree(m, events, d),
        m.in_tool(),
        !output_in_hand(m.phase),
    ensures
        step_agrees(m, event, events, d),
{
    lemma_prices(events, event, d);
    law_costs_are_counted_in_each_dimension(m.response_cost, m.tool_cost);
}

proof fn lemma_output(m: TurnMachine, event: TurnEvent, events: Seq<TurnEvent>, d: Dimension)
    requires
        m.wf(),
        m.expects(event),
        books_agree(m, events, d),
        output_in_hand(m.phase),
    ensures
        step_agrees(m, event, events, d),
{
    lemma_prices(events, event, d);
    law_costs_are_counted_in_each_dimension(m.response_cost, m.tool_cost);
    law_costs_are_counted_in_each_dimension(m.tool_cost, m.output_cost);
    law_costs_are_counted_in_each_dimension(m.known(), m.output_cost);
    lemma_amounts(d);
}

proof fn lemma_close(m: TurnMachine, event: TurnEvent, events: Seq<TurnEvent>, d: Dimension)
    requires
        m.wf(),
        m.expects(event),
        books_agree(m, events, d),
        m.phase is Settle || m.phase is CommitRound || m.closing() || m.phase == Phase::Probe(
            ProbeSite::BeforeCommit,
        ),
    ensures
        step_agrees(m, event, events, d),
{
    lemma_prices(events, event, d);
    law_costs_are_counted_in_each_dimension(m.response_cost, m.tool_cost);
    law_costs_are_counted_in_each_dimension(m.total_cost, m.known());
}

proof fn lemma_step(m: TurnMachine, event: TurnEvent, events: Seq<TurnEvent>, d: Dimension)
    requires
        m.wf(),
        m.expects(event),
        m.phase is FinishRefused || books_agree(m, events, d),
    ensures
        step_agrees(m, event, events, d),
{
    if m.phase is FinishRefused {
    } else if call_ahead(m.phase) {
        lemma_ahead(m, event, events, d);
    } else if m.phase is NextItem || m.phase is ObserveUsage {
        lemma_stream(m, event, events, d);
    } else if output_in_hand(m.phase) {
        lemma_output(m, event, events, d);
    } else if m.in_tool() {
        lemma_tool(m, event, events, d);
    } else if m.phase is ObserveResponse || (m.phase matches Phase::Probe(site) && site
        is Provider) {
        lemma_answered(m, event, events, d);
    } else {
        lemma_close(m, event, events, d);
    }
}

proof fn lemma_books(config: TurnConfig, events: Seq<TurnEvent>, d: Dimension)
    requires
        config.stream ==> !config.cancellable,
        turn_laws::answers(config, events),
    ensures
        ({
            let (m, trace) = turn_laws::ran(config, events);
            &&& m.phase is Done || m.phase is FinishRefused || books_agree(m, events, d)
            &&& !config.stream && m.phase is Done ==> answer_agrees(trace, events, d)
            &&& !(m.phase is Done) ==> forall|i: int|
                0 <= i < trace.len() ==> !(#[trigger] trace[i] is Answer)
        }),
    decreases events.len(),
{
    let (m, trace) = turn_laws::ran(config, events);
    if events.len() > 0 {
        let before = events.drop_last();
        let event = events.last();
        assert(events =~= before.push(event));
        lemma_books(config, before, d);
        turn_laws::law_whole_turn_is_bounded_and_bracketed(config, before);
        let (b, earlier) = turn_laws::ran(config, before);
        let actions = b.next(event).1;
        lemma_step(b, event, before, d);
        lemma_only_an_end_answers(b, event);
        assert forall|i: int| 0 <= i < trace.len() && #[trigger] trace[i] is Answer implies i
            >= earlier.len() && trace[i] == actions[i - earlier.len()] by {
            if i < earlier.len() {
                assert(trace[i] == earlier[i]);
            }
        }
    } else {
        assert(books_agree(m, events, d));
    }
}

proof fn lemma_only_an_end_answers(m: TurnMachine, event: TurnEvent)
    requires
        m.wf(),
        m.expects(event),
    ensures
        !(m.next(event).0.phase is Done) ==> forall|i: int|
            0 <= i < m.next(event).1.len() ==> !(#[trigger] m.next(event).1[i] is Answer),
{
}

/// A round that is committed is charged for every price that was reported in
/// it: its call at the price of the provider's answer, its tools at the sum of
/// the prices of all their outputs.
pub proof fn law_a_round_is_charged_for_every_price(config: TurnConfig, events: Seq<TurnEvent>)
    requires
        config.stream ==> !config.cancellable,
        turn_laws::answers(config, events),
        turn_laws::ran(config, events).0.phase is CommitRound || turn_laws::ran(
            config,
            events,
        ).0.phase is SettleRound,
    ensures
        ({
            let m = turn_laws::ran(config, events).0;
            forall|d: Dimension|
                #![trigger amount(m.response_cost, d)]
                #![trigger amount(m.tool_cost, d)]
                amount(m.response_cost, d) == call_price(events, d) && amount(m.tool_cost, d)
                    == held_at_most(output_prices(events, d))
        }),
{
    let m = turn_laws::ran(config, events).0;
    assert forall|d: Dimension|
        #![trigger amount(m.response_cost, d)]
        #![trigger amount(m.tool_cost, d)]
        amount(m.response_cost, d) == call_price(events, d) && amount(m.tool_cost, d)
            == held_at_most(output_prices(events, d)) by {
        lemma_books(config, events, d);
    }
}

/// A refused round is charged for every price that was reported in it, that of
/// an output which the filters stopped among them.
pub proof fn law_a_refused_round_is_charged_for_every_price(
    config: TurnConfig,
    events: Seq<TurnEvent>,
)
    requires
        config.stream ==> !config.cancellable,
        turn_laws::answers(config, events),
    ensures
        turn_laws::ran(config, events).0.phase matches Phase::Settle(refusal) ==> forall|
            d: Dimension,
        |
            #![trigger amount(refusal.known, d)]
            amount(refusal.known, d) == held_at_most(
                call_price(events, d) + output_prices(events, d),
            ),
{
    if let Phase::Settle(refusal) = turn_laws::ran(config, events).0.phase {
        assert forall|d: Dimension| amount(refusal.known, d) == held_at_most(
            call_price(events, d) + output_prices(events, d),
        ) by {
            lemma_books(config, events, d);
        }
    }
}

proof fn lemma_every_price(config: TurnConfig, events: Seq<TurnEvent>, d: Dimension)
    requires
        !config.stream,
        turn_laws::answers(config, events),
        every_price(events, d) <= u64::MAX,
    ensures
        every_price(events, d) == earlier_price(events, d) + call_price(events, d) + output_prices(
            events,
            d,
        ),
        0 <= earlier_price(events, d),
        0 <= call_price(events, d),
        0 <= output_prices(events, d),
    decreases events.len(),
{
    if events.len() > 0 {
        let before = events.drop_last();
        turn_laws::law_whole_turn_is_bounded_and_bracketed(config, before);
        assert(!(events.last() is Usage));
        lemma_every_price(config, before, d);
    }
}

/// An answer costs what was reported over the whole turn: in every dimension in
/// which the prices of all calls and of all outputs add up to a number that can
/// be written down, that sum, and otherwise the sum over the rounds of what each
/// can be charged.
pub proof fn law_an_answer_costs_every_price(config: TurnConfig, events: Seq<TurnEvent>, i: int)
    requires
        !config.stream,
        turn_laws::answers(config, events),
        0 <= i < turn_laws::ran(config, events).1.len(),
    ensures
        turn_laws::ran(config, events).1[i] matches Action::Answer { total } ==> {
            &&& forall|d: Dimension|
                #![trigger amount(total, d)]
                amount(total, d) == earlier_price(events, d) + round_price(events, d)
            &&& forall|d: Dimension|
                #![trigger amount(total, d)]
                every_price(events, d) <= u64::MAX ==> amount(total, d) == every_price(events, d)
        },
{
    let trace = turn_laws::ran(config, events).1;
    if let Action::Answer { total } = trace[i] {
        assert forall|d: Dimension| amount(total, d) == earlier_price(events, d) + round_price(
            events,
            d,
        ) && (every_price(events, d) <= u64::MAX ==> amount(total, d) == every_price(
            events,
            d,
        )) by {
            lemma_books(config, events, d);
            assert(trace[i] is Answer);
            if every_price(events, d) <= u64::MAX {
                lemma_every_price(config, events, d);
            }
        }
    }
}

} // verus!
