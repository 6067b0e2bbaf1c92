//! The whole course of an operation: everything that one that ends well has
//! asked for, in order, and what stops one on the way.
use crate::classify::{EventOutcome, MemoryError};
use crate::commit::{
    fresh_commit, CommitAction, CommitConfig, CommitEnd, CommitEvent, CommitModel, CommitPhase,
    JournalFault,
};
use crate::dispatch::{
    DispatchAction, DispatchEnd, DispatchEvent, DispatchModel, DispatchPhase, StopReason,
};
use crate::errors::CapTokenError;
use crate::ids::{ReceiptId, Sha256Digest};
use crate::memory_write::{MemoryAction, MemoryEvent};
use crate::memory_write;
use crate::operation::{
    ControlAction, ControlEnd, ControlEvent, ControlKind, ControlOperation, MintAction, MintEnd,
    MintEvent, MintModel,
};
use crate::operation;
use vstd::prelude::*;

verus! {

/// The steps of a commit, numbered in their order.
pub open spec fn commit_step(n: int) -> CommitAction {
    if n == 1 {
        CommitAction::AskCaller
    } else if n == 2 {
        CommitAction::Sign
    } else if n == 3 {
        CommitAction::MeasureLog
    } else if n == 4 {
        CommitAction::BeginPersist
    } else if n == 5 {
        CommitAction::PrepareReceipt
    } else if n == 6 {
        CommitAction::Finalize
    } else if n == 7 {
        CommitAction::AppendReceipt
    } else if n == 8 {
        CommitAction::BindReceipt
    } else if n == 9 {
        CommitAction::FinishPersist
    } else if n == 10 {
        CommitAction::Mirror
    } else if n == 11 {
        CommitAction::Announce
    } else if n == 12 {
        CommitAction::DrainSettlements
    } else if n == 13 {
        CommitAction::AwaitJournal
    } else if n == 14 {
        CommitAction::JournalPrompt
    } else {
        CommitAction::JournalAnswer
    }
}

/// Whether a commit takes a step: the caller is asked where it can be, told
/// where it waits, the round mirrored where rounds are, and the journal written
/// where one is kept, with the prompt in the first round that has one.
pub open spec fn commit_takes(config: CommitConfig, n: int) -> bool {
    if n == 1 {
        config.probed
    } else if n == 4 || n == 9 {
        config.handshake
    } else if n == 10 {
        config.mirrored
    } else if n == 13 || n == 15 {
        config.journaled
    } else if n == 14 {
        config.journaled && config.iteration == 1 && config.prompted
    } else {
        true
    }
}

/// The steps that a commit takes among the first `n`.
pub open spec fn commit_course(config: CommitConfig, n: int) -> Seq<CommitAction>
    decreases n,
{
    if n <= 0 {
        Seq::empty()
    } else if commit_takes(config, n) {
        commit_course(config, n - 1).push(commit_step(n))
    } else {
        commit_course(config, n - 1)
    }
}

/// A commit after some answers, with everything that it asked for.
pub open spec fn committed(
    config: CommitConfig,
    tail: Option<Sha256Digest>,
    events: Seq<CommitEvent>,
) -> (CommitModel, Seq<CommitAction>)
    decreases events.len(),
{
    if events.len() == 0 {
        let (m, action) = fresh_commit(config, tail).begin();
        (m, seq![action])
    } else {
        let (m, trace) = committed(config, tail, events.drop_last());
        let (n, action) = m.next(events.last());
        (n, trace.push(action))
    }
}

/// Each answer is one that the commit waits for.
pub open spec fn commit_answers(
    config: CommitConfig,
    tail: Option<Sha256Digest>,
    events: Seq<CommitEvent>,
) -> bool
    decreases events.len(),
{
    events.len() == 0 || (commit_answers(config, tail, events.drop_last()) && committed(
        config,
        tail,
        events.drop_last(),
    ).0.expects(events.last()))
}

spec fn commit_place(phase: CommitPhase) -> int {
    match phase {
        CommitPhase::Probing => 1,
        CommitPhase::Signing => 2,
        CommitPhase::Measuring => 3,
        CommitPhase::Claiming => 4,
        CommitPhase::Preparing => 5,
        CommitPhase::Finalizing => 6,
        CommitPhase::Appending => 7,
        CommitPhase::Binding => 8,
        CommitPhase::Releasing => 9,
        CommitPhase::Mirroring => 10,
        CommitPhase::Announcing => 11,
        CommitPhase::Draining => 12,
        CommitPhase::Settled => 13,
        CommitPhase::JournalingPrompt => 14,
        CommitPhase::JournalingAnswer => 15,
        _ => 0,
    }
}

/// What a commit that ends well has asked for: its whole course, up to an entry
/// that the journal did not take and that was reported.
pub open spec fn whole_commit(config: CommitConfig, trace: Seq<CommitAction>) -> bool {
    let end = CommitAction::Finish(CommitEnd::Committed);
    ||| trace == commit_course(config, 15).push(end)
    ||| commit_takes(config, 14) && trace == commit_course(config, 14).push(
        CommitAction::FireError(JournalFault::Prompt),
    ).push(end)
    ||| commit_takes(config, 15) && trace == commit_course(config, 15).push(
        CommitAction::FireError(JournalFault::Answer),
    ).push(end)
}

spec fn commit_on_course(m: CommitModel, trace: Seq<CommitAction>) -> bool {
    let n = commit_place(m.phase);
    &&& n > 0 ==> commit_takes(m.config, n) && trace == commit_course(m.config, n)
    &&& m.phase is Reporting ==> (commit_takes(m.config, 14) && trace == commit_course(
        m.config,
        14,
    ).push(CommitAction::FireError(JournalFault::Prompt)) || commit_takes(m.config, 15) && trace
        == commit_course(m.config, 15).push(CommitAction::FireError(JournalFault::Answer)))
    &&& m.phase is Done && trace.last() == CommitAction::Finish(CommitEnd::Committed)
        ==> whole_commit(m.config, trace)
}

proof fn lemma_commit_step(m: CommitModel, trace: Seq<CommitAction>, event: CommitEvent)
    requires
        m.expects(event),
        commit_on_course(m, trace),
    ensures
        commit_on_course(m.next(event).0, trace.push(m.next(event).1)),
        m.next(event).0.config == m.config,
{
    reveal_with_fuel(commit_course, 6);
}

proof fn lemma_commit_course(
    config: CommitConfig,
    tail: Option<Sha256Digest>,
    events: Seq<CommitEvent>,
)
    requires
        commit_answers(config, tail, events),
    ensures
        ({
            let (m, trace) = committed(config, tail, events);
            &&& m.config == config
            &&& commit_on_course(m, trace)
        }),
    decreases events.len(),
{
    if events.len() == 0 {
        reveal_with_fuel(commit_course, 4);
        let (m, trace) = committed(config, tail, events);
        assert(trace =~= commit_course(config, commit_place(m.phase)));
    } else {
        lemma_commit_course(config, tail, events.drop_last());
        let (m, trace) = committed(config, tail, events.drop_last());
        lemma_commit_step(m, trace, events.last());
    }
}

/// A commit that ends well has taken every step of its course, in order and
/// each once: nothing is left out and nothing is done twice.
pub proof fn law_a_commit_takes_its_whole_course(
    config: CommitConfig,
    tail: Option<Sha256Digest>,
    events: Seq<CommitEvent>,
)
    requires
        commit_answers(config, tail, events),
        committed(config, tail, events).1.last() == CommitAction::Finish(CommitEnd::Committed),
    ensures
        whole_commit(config, committed(config, tail, events).1),
{
    lemma_commit_course(config, tail, events);
    let (m, trace) = committed(config, tail, events);
    if events.len() > 0 {
        let (b, before) = committed(config, tail, events.drop_last());
        assert(trace.last() == b.next(events.last()).1);
    }
}

/// The answer is one that lets a commit go on.
pub open spec fn lets_a_commit_go_on(event: CommitEvent) -> bool {
    ||| event is Passed
    ||| event is Signed
    ||| event is Measured
    ||| event == CommitEvent::CallerGone(false)
    ||| event == CommitEvent::Persisting(true)
}

/// Only a failure, a refusal or a caller that is gone takes a commit off its
/// course: any other answer leads to a further step or to its good end. A
/// mirror that fails does not.
pub proof fn law_only_a_failure_stops_a_commit(m: CommitModel, event: CommitEvent)
    requires
        m.expects(event),
        !(m.phase is Abandoning || m.phase is Stopping || m.phase is Marking),
        lets_a_commit_go_on(event) || m.phase is Mirroring,
    ensures
        ({
            let action = m.next(event).1;
            &&& action != CommitAction::Abandon
            &&& action != CommitAction::StopAdmission
            &&& !(action is FireError)
            &&& action matches CommitAction::Finish(end) ==> end == CommitEnd::Committed
        }),
{
}

/// A commit that is stopped says by what: the settlement that refused, a caller
/// that was gone, a receipt that could not be signed, a log that could not be
/// read, or a receipt that may or may not be in the log.
pub proof fn law_a_stopped_commit_says_by_what(m: CommitModel, event: CommitEvent)
    requires
        m.expects(event),
    ensures
        event matches CommitEvent::Refused(error) ==> m.next(event).1 == CommitAction::Finish(
            CommitEnd::Settlement(error),
        ),
        m.phase is Probing && event == CommitEvent::CallerGone(true) ==> m.next(event).1
            == CommitAction::Abandon,
        m.phase is Claiming && event == CommitEvent::Persisting(false) ==> m.next(event).1
            == CommitAction::Abandon,
        m.phase is Abandoning && event is Passed ==> m.next(event).1 == CommitAction::Finish(
            CommitEnd::Cancelled,
        ),
        m.phase is Signing && event is Failed ==> m.next(event).1 == CommitAction::Finish(
            CommitEnd::NotSigned,
        ),
        m.phase is Measuring && event is Failed ==> m.next(event).1 == CommitAction::Finish(
            CommitEnd::LogUnreadable,
        ),
        m.phase is Marking && event is Passed ==> m.next(event).1 == CommitAction::Finish(
            CommitEnd::Unresolved,
        ),
{
}

/// What a commit learns it keeps: the parent of its receipt is the tail that it
/// was begun over, the receipt is the one that was signed, and the place in the
/// log the one that was measured.
pub proof fn law_a_commit_keeps_what_it_learns(m: CommitModel, event: CommitEvent)
    requires
        m.expects(event),
    ensures
        ({
            let n = m.next(event).0;
            &&& n.phase is Signing ==> n.parent == m.tail
            &&& !(n.phase is Signing) ==> n.parent == m.parent
            &&& m.phase is Signing ==> (event matches CommitEvent::Signed { receipt_id, jws }
                ==> n.receipt_id == receipt_id && n.jws == jws@)
            &&& !(m.phase is Signing && event is Signed) ==> n.receipt_id == m.receipt_id && n.jws
                == m.jws
            &&& event matches CommitEvent::Measured(len) ==> n.log_end == len
            &&& !(event is Measured) ==> n.log_end == m.log_end
        }),
{
}

/// The steps of a provider call outside a turn, numbered in their order.
pub open spec fn dispatch_step(n: int) -> DispatchAction {
    if n == 1 {
        DispatchAction::AwaitPermit
    } else if n == 2 {
        DispatchAction::BeginSettlement
    } else if n == 3 {
        DispatchAction::BindToken
    } else if n == 4 {
        DispatchAction::EncodeRequest
    } else if n == 5 {
        DispatchAction::AdmitRound
    } else if n == 6 {
        DispatchAction::ObserveDispatch
    } else if n == 7 {
        DispatchAction::CallProvider
    } else if n == 8 {
        DispatchAction::ObserveResponse
    } else if n == 9 {
        DispatchAction::TouchReservation
    } else if n == 10 {
        DispatchAction::CheckVerb
    } else if n == 11 {
        DispatchAction::TakeCommitLock
    } else if n == 12 {
        DispatchAction::Sign
    } else if n == 13 {
        DispatchAction::MeasureLog
    } else if n == 14 {
        DispatchAction::PrepareReceipt
    } else if n == 15 {
        DispatchAction::Finalize
    } else if n == 16 {
        DispatchAction::AppendReceipt
    } else if n == 17 {
        DispatchAction::BindReceipt
    } else if n == 18 {
        DispatchAction::ReleasePermit
    } else {
        DispatchAction::DrainSettlements
    }
}

/// The first `n` steps of a provider call.
pub open spec fn dispatch_course(n: nat) -> Seq<DispatchAction> {
    Seq::new(n, |i: int| dispatch_step(i + 1))
}

/// A provider call after some answers, with everything that it asked for.
pub open spec fn dispatched(events: Seq<DispatchEvent>) -> (DispatchModel, Seq<DispatchAction>)
    decreases events.len(),
{
    if events.len() == 0 {
        (
            DispatchModel {
                phase: DispatchPhase::Permitting,
                tail: None,
                receipt_id: ReceiptId(0),
                jws: Seq::empty(),
                log_end: 0,
            },
            seq![DispatchAction::AwaitPermit],
        )
    } else {
        let (m, trace) = dispatched(events.drop_last());
        let (n, action) = m.next(events.last());
        (n, trace.push(action))
    }
}

/// Each answer is one that the call waits for.
pub open spec fn dispatch_answers(events: Seq<DispatchEvent>) -> bool
    decreases events.len(),
{
    events.len() == 0 || (dispatch_answers(events.drop_last()) && dispatched(
        events.drop_last(),
    ).0.expects(events.last()))
}

spec fn dispatch_place(phase: DispatchPhase) -> nat {
    match phase {
        DispatchPhase::Permitting => 1,
        DispatchPhase::Reserving => 2,
        DispatchPhase::BindingToken => 3,
        DispatchPhase::Encoding => 4,
        DispatchPhase::Admitting => 5,
        DispatchPhase::Announcing => 6,
        DispatchPhase::Calling => 7,
        DispatchPhase::Observing => 8,
        DispatchPhase::Touching => 9,
        DispatchPhase::CheckingVerb => 10,
        DispatchPhase::Locking => 11,
        DispatchPhase::Signing => 12,
        DispatchPhase::Measuring => 13,
        DispatchPhase::Preparing => 14,
        DispatchPhase::Finalizing => 15,
        DispatchPhase::Appending => 16,
        DispatchPhase::BindingReceipt => 17,
        DispatchPhase::ReleasingPermit => 18,
        DispatchPhase::Draining => 19,
        _ => 0,
    }
}

spec fn dispatch_on_course(m: DispatchModel, trace: Seq<DispatchAction>) -> bool {
    let n = dispatch_place(m.phase);
    &&& n > 0 ==> trace == dispatch_course(n)
    &&& m.phase is Done && trace.last() == DispatchAction::Finish(DispatchEnd::Completed) ==> trace
        == dispatch_course(19).push(DispatchAction::Finish(DispatchEnd::Completed))
}

proof fn lemma_dispatch_course(events: Seq<DispatchEvent>)
    requires
        dispatch_answers(events),
    ensures
        dispatch_on_course(dispatched(events).0, dispatched(events).1),
    decreases events.len(),
{
    if events.len() == 0 {
        assert(dispatched(events).1 =~= dispatch_course(1));
    } else {
        lemma_dispatch_course(events.drop_last());
        let (m, trace) = dispatched(events.drop_last());
        let (n, action) = m.next(events.last());
        let p = dispatch_place(m.phase);
        let q = dispatch_place(n.phase);
        if q > 0 {
            assert(q == p + 1 && action == dispatch_step(q as int));
            assert(trace.push(action) =~= dispatch_course(q));
        }
        assert(trace.push(action).last() == action);
    }
}

/// A provider call that completes has taken every step of its course, in order
/// and each once.
pub proof fn law_a_dispatch_takes_its_whole_course(events: Seq<DispatchEvent>)
    requires
        dispatch_answers(events),
        dispatched(events).1.last() == DispatchAction::Finish(DispatchEnd::Completed),
    ensures
        dispatched(events).1 == dispatch_course(19).push(
            DispatchAction::Finish(DispatchEnd::Completed),
        ),
{
    lemma_dispatch_course(events);
    let (m, trace) = dispatched(events);
    if events.len() > 0 {
        let (b, before) = dispatched(events.drop_last());
        assert(trace.last() == b.next(events.last()).1);
    }
}

/// Only a failure or a refusal takes a provider call off its course, and what
/// does is what its end says.
pub proof fn law_only_a_failure_stops_a_dispatch(m: DispatchModel, event: DispatchEvent)
    requires
        m.expects(event),
    ensures
        ({
            let action = m.next(event).1;
            &&& event matches DispatchEvent::Refused(error) ==> action == DispatchAction::Finish(
                DispatchEnd::Settlement(error),
            )
            &&& m.phase is Encoding && event is Failed ==> action == DispatchAction::Finish(
                DispatchEnd::NotEncoded,
            )
            &&& m.phase is CheckingVerb && event is Failed ==> action == DispatchAction::Finish(
                DispatchEnd::InvalidVerb,
            )
            &&& m.phase is Signing && event is Failed ==> m.next(event).0.phase
                == DispatchPhase::Stopping(StopReason::NotSigned)
            &&& m.phase is Measuring && event is Failed ==> m.next(event).0.phase
                == DispatchPhase::Stopping(StopReason::LogUnreadable)
            &&& m.phase is Appending && event is Failed ==> m.next(event).0.phase
                == DispatchPhase::Stopping(StopReason::NotAppended)
            &&& m.phase matches DispatchPhase::Stopping(reason) ==> action
                == DispatchAction::MarkUnresolved && m.next(event).0.phase
                == DispatchPhase::Marking(reason)
            &&& event is Passed ==> (m.phase matches DispatchPhase::Marking(reason) ==> action
                == DispatchAction::Finish(DispatchEnd::Unresolved(reason)))
            &&& !(event is Refused || event is Failed || event is ProviderFailed) && !(m.phase
                is Refunding || m.phase is Stopping || m.phase is Marking) ==> action
                != DispatchAction::StopAdmission && action != DispatchAction::ReleaseFailure && (
            action matches DispatchAction::Finish(end) ==> end == DispatchEnd::Completed)
            &&& event matches DispatchEvent::Locked { tail } ==> m.next(event).0.tail == tail
            &&& event matches DispatchEvent::Measured(len) ==> m.next(event).0.log_end == len
        }),
        m.phase is Signing ==> (event matches DispatchEvent::Signed { receipt_id, jws } ==> m.next(
            event,
        ).0.receipt_id == receipt_id && m.next(event).0.jws == jws@),
{
}

/// The actions of a control operation of which every one succeeds.
pub open spec fn control_course(kind: ControlKind) -> Seq<ControlAction> {
    let end = ControlAction::Finish(ControlEnd::Completed);
    match kind {
        ControlKind::Checkpoint => seq![
            ControlAction::RequireJournal,
            ControlAction::ReplayJournal,
            ControlAction::Mint,
            ControlAction::AppendEntry,
            end,
        ],
        ControlKind::Rollback => seq![
            ControlAction::RequireJournal,
            ControlAction::ReplayJournal,
            ControlAction::Locate,
            ControlAction::Mint,
            ControlAction::AppendEntry,
            end,
        ],
        ControlKind::Compact => seq![
            ControlAction::Authorize,
            ControlAction::RequireJournal,
            ControlAction::Dispatch,
            ControlAction::AppendEntry,
            end,
        ],
        ControlKind::Preview => seq![ControlAction::Authorize, ControlAction::Dispatch, end],
        ControlKind::Task => seq![ControlAction::Authorize, ControlAction::Dispatch, end],
        ControlKind::Decision => seq![ControlAction::Mint, end],
    }
}

/// An operation of which every action succeeds goes through its course and
/// completes.
pub proof fn law_a_control_operation_takes_its_course(kind: ControlKind, n: nat)
    requires
        n < control_course(kind).len(),
    ensures
        operation::reached(kind, Seq::new(n, |i: int| ControlEvent::Passed)).action
            == control_course(kind)[n as int],
        operation::reached(kind, Seq::new(n, |i: int| ControlEvent::Passed)).kind == kind,
    decreases n,
{
    let events = Seq::new(n, |i: int| ControlEvent::Passed);
    if n > 0 {
        law_a_control_operation_takes_its_course(kind, (n - 1) as nat);
        assert(events.drop_last() =~= Seq::new((n - 1) as nat, |i: int| ControlEvent::Passed));
    }
}

/// An action that fails ends its operation, which is then not completed, and
/// the end says what failed; only a background task whose provider failed goes
/// on, to write the receipt of its failure.
pub proof fn law_a_failed_action_ends_its_operation(op: ControlOperation)
    requires
        !(op.action is Finish),
    ensures
        op.next(ControlEvent::Failed) == ControlAction::Finish(
            if op.action == ControlAction::RequireJournal {
                ControlEnd::NoJournal
            } else if op.action == ControlAction::ReplayJournal {
                ControlEnd::ReplayFailed
            } else if op.action == ControlAction::Locate {
                ControlEnd::NotFound
            } else if op.action == ControlAction::AppendEntry {
                ControlEnd::AppendFailed
            } else {
                ControlEnd::Reported
            },
        ),
        op.kind == ControlKind::Task && op.action == ControlAction::Dispatch ==> op.next(
            ControlEvent::ProviderUnavailable,
        ) == ControlAction::MintFailure,
        !(op.kind == ControlKind::Task && op.action == ControlAction::Dispatch) ==> op.next(
            ControlEvent::ProviderUnavailable,
        ) == op.next(ControlEvent::Failed),
        op.action == ControlAction::MintFailure ==> op.next(ControlEvent::Passed)
            == ControlAction::Finish(ControlEnd::TaskFailed),
{
}

/// A control receipt is minted behind a verified token and a valid verb, signed
/// over the tail that the lock protects, and written; each of these that fails
/// ends the minting and is what its end says.
pub proof fn law_a_minting_takes_its_whole_course(
    m: MintModel,
    tail: Option<Sha256Digest>,
    receipt_id: ReceiptId,
    jws: String,
)
    requires
        m.phase is Verifying,
    ensures
        ({
            let s1 = m.next(MintEvent::Passed);
            let s2 = s1.0.next(MintEvent::Passed);
            let s3 = s2.0.next(MintEvent::Locked { tail });
            let s4 = s3.0.next(MintEvent::Signed { receipt_id, jws });
            let s5 = s4.0.next(MintEvent::Passed);
            &&& s1.1 == MintAction::CheckVerb
            &&& s2.1 == MintAction::TakeCommitLock
            &&& s3.1 == MintAction::Sign
            &&& s3.0.tail == tail
            &&& s4.1 == MintAction::Persist
            &&& s4.0.receipt_id == receipt_id
            &&& s4.0.jws == jws@
            &&& s5.1 == MintAction::Finish(MintEnd::Minted)
            &&& s5.0.receipt_id == receipt_id
            &&& m.next(MintEvent::Failed).1 == MintAction::Finish(MintEnd::Denied)
            &&& s1.0.next(MintEvent::Failed).1 == MintAction::Finish(MintEnd::InvalidVerb)
            &&& s3.0.next(MintEvent::Failed).1 == MintAction::Finish(MintEnd::NotSigned)
            &&& s4.0.next(MintEvent::Failed).1 == MintAction::Finish(MintEnd::NotPersisted)
            &&& s4.0.next(MintEvent::Failed).0.tail == tail
        }),
{
}

/// A memory write whose token grants it is announced, written and recorded as
/// written; one that fails is recorded as its failure and reported; one that
/// the token does not grant is recorded as denied, and reported unless the
/// token was never meant to write.
pub proof fn law_a_memory_write_takes_its_course(error: MemoryError, refused: CapTokenError)
    ensures
        ({
            let s0 = memory_write::begun();
            let s1 = s0.next(MemoryEvent::Granted);
            let s2 = s1.next(MemoryEvent::Done);
            let s3 = s2.next(MemoryEvent::Written);
            let f3 = s2.next(MemoryEvent::WriteFailed(error));
            let d1 = s0.next(MemoryEvent::Refused(refused));
            &&& s0.action is VerifyWrite
            &&& s1.action is RecordIntent
            &&& s2.action is Write
            &&& s3.action is RecordCompleted
            &&& s3.next(MemoryEvent::Done).action is Finish
            &&& (f3.action matches MemoryAction::RecordFailure(outcome) && (outcome
                == EventOutcome::FailedUnknown <==> error is NotFound || error is LockPoisoned
                || error is Backend))
            &&& f3.next(MemoryEvent::Done).action is FireError
            &&& f3.next(MemoryEvent::Done).next(MemoryEvent::Done).action is Finish
            &&& d1.action is RecordDenial
            &&& d1.next(MemoryEvent::Done).action == (if refused is ToolNotAllowed {
                MemoryAction::Finish
            } else {
                MemoryAction::FireError
            })
        }),
{
}

} // verus!
