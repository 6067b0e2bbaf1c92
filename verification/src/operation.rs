//! The order of a control operation's steps: authorization before the
//! provider is reached, a receipt before the journal is told.
use crate::commit;
use crate::errors::RuntimeError;
use crate::ids::{ReceiptId, Sha256Digest};
use vstd::prelude::*;
use vstd::string::StringExecFns;

verus! {

/// What a control receipt's minting asks for.
#[derive(Clone, Copy, Debug, PartialEq, Eq, Structural)]
pub enum MintAction {
    /// Verify the token for the operation.
    VerifyToken,
    CheckVerb,
    /// Take the commit lock and read the chain's tail.
    TakeCommitLock,
    /// Sign the body over the tail.
    Sign,
    /// Append and sync the receipt.
    Persist,
    Finish(MintEnd),
}

/// How a minting ended.
#[derive(Clone, Copy, Debug, PartialEq, Eq, Structural)]
pub enum MintEnd {
    Minted,
    /// The token does not verify; the verifier's error is reported.
    Denied,
    InvalidVerb,
    NotSigned,
    NotPersisted,
}

/// Where a minting stands.
#[derive(Clone, Copy, Debug, PartialEq, Eq, Structural)]
pub enum MintPhase {
    Verifying,
    CheckingVerb,
    Locking,
    Signing,
    Persisting,
    Done,
}

/// What came of a minting's action.
#[derive(Debug)]
pub enum MintEvent {
    Passed,
    Failed,
    Locked { tail: Option<Sha256Digest> },
    Signed { receipt_id: ReceiptId, jws: String },
}

/// A minting over mathematical values.
#[verifier::ext_equal]
pub ghost struct MintModel {
    pub phase: MintPhase,
    pub tail: Option<Sha256Digest>,
    pub receipt_id: ReceiptId,
    pub jws: Seq<char>,
}

/// What a step leads to.
pub type MintStep = (MintModel, MintAction);

impl MintModel {
    pub open spec fn to(self, phase: MintPhase, action: MintAction) -> MintStep {
        (MintModel { phase, ..self }, action)
    }

    pub open spec fn ends(self, end: MintEnd) -> MintStep {
        self.to(MintPhase::Done, MintAction::Finish(end))
    }

    /// An event that answers the last action.
    pub open spec fn expects(self, event: MintEvent) -> bool {
        match self.phase {
            MintPhase::Verifying | MintPhase::CheckingVerb | MintPhase::Persisting => event
                is Passed || event is Failed,
            MintPhase::Locking => event is Locked,
            MintPhase::Signing => event is Signed || event is Failed,
            MintPhase::Done => false,
        }
    }

    /// What the minting does with the result of its last action.
    pub open spec fn next(self, event: MintEvent) -> MintStep {
        match self.phase {
            MintPhase::Verifying => if event is Passed {
                self.to(MintPhase::CheckingVerb, MintAction::CheckVerb)
            } else {
                self.ends(MintEnd::Denied)
            },
            MintPhase::CheckingVerb => if event is Passed {
                self.to(MintPhase::Locking, MintAction::TakeCommitLock)
            } else {
                self.ends(MintEnd::InvalidVerb)
            },
            MintPhase::Locking => match event {
                MintEvent::Locked { tail } => (MintModel { tail, ..self }).to(
                    MintPhase::Signing,
                    MintAction::Sign,
                ),
                _ => self.ends(MintEnd::NotSigned),
            },
            MintPhase::Signing => match event {
                MintEvent::Signed { receipt_id, jws } => (MintModel {
                    receipt_id,
                    jws: jws@,
                    ..self
                }).to(MintPhase::Persisting, MintAction::Persist),
                _ => self.ends(MintEnd::NotSigned),
            },
            MintPhase::Persisting => if event is Passed {
                (MintModel { tail: Some(commit::jws_digest(self.jws)), ..self }).ends(
                    MintEnd::Minted,
                )
            } else {
                self.ends(MintEnd::NotPersisted)
            },
            MintPhase::Done => self.ends(MintEnd::Minted),
        }
    }
}

/// A control receipt that is being minted.
#[derive(Debug)]
pub struct ControlMint {
    phase: MintPhase,
    tail: Option<Sha256Digest>,
    receipt_id: ReceiptId,
    jws: String,
}

impl View for ControlMint {
    type V = MintModel;

    closed spec fn view(&self) -> MintModel {
        MintModel {
            phase: self.phase,
            tail: self.tail,
            receipt_id: self.receipt_id,
            jws: self.jws@,
        }
    }
}

impl ControlMint {
    /// Begins to mint a control receipt.
    pub fn begin() -> (r: (ControlMint, MintAction))
        ensures
            r.0@ == (MintModel {
                phase: MintPhase::Verifying,
                tail: None,
                receipt_id: ReceiptId(0),
                jws: Seq::empty(),
            }),
            r.1 == MintAction::VerifyToken,
    {
        (
            ControlMint {
                phase: MintPhase::Verifying,
                tail: None,
                receipt_id: ReceiptId(0),
                jws: String::new(),
            },
            MintAction::VerifyToken,
        )
    }

    fn to(&mut self, phase: MintPhase, action: MintAction) -> (r: MintAction)
        ensures
            (final(self)@, r) == old(self)@.to(phase, action),
    {
        self.phase = phase;
        action
    }

    fn ends(&mut self, end: MintEnd) -> (r: MintAction)
        ensures
            (final(self)@, r) == old(self)@.ends(end),
    {
        self.to(MintPhase::Done, MintAction::Finish(end))
    }

    /// Takes the result of the last action and says what to do next.
    pub fn advance(&mut self, event: MintEvent) -> (r: MintAction)
        requires
            old(self)@.expects(event),
        ensures
            (final(self)@, r) == old(self)@.next(event),
    {
        let passed: bool = matches!(event, MintEvent::Passed);
        match self.phase {
            MintPhase::Verifying => {
                if passed {
                    self.to(MintPhase::CheckingVerb, MintAction::CheckVerb)
                } else {
                    self.ends(MintEnd::Denied)
                }
            },
            MintPhase::CheckingVerb => {
                if passed {
                    self.to(MintPhase::Locking, MintAction::TakeCommitLock)
                } else {
                    self.ends(MintEnd::InvalidVerb)
                }
            },
            MintPhase::Locking => match event {
                MintEvent::Locked { tail } => {
                    self.tail = tail;
                    self.to(MintPhase::Signing, MintAction::Sign)
                },
                _ => self.ends(MintEnd::NotSigned),
            },
            MintPhase::Signing => match event {
                MintEvent::Signed { receipt_id, jws } => {
                    self.receipt_id = receipt_id;
                    self.jws = jws;
                    self.to(MintPhase::Persisting, MintAction::Persist)
                },
                _ => self.ends(MintEnd::NotSigned),
            },
            MintPhase::Persisting => {
                if passed {
                    self.tail = Some(Sha256Digest::of_text(self.jws.as_str()));
                    self.ends(MintEnd::Minted)
                } else {
                    self.ends(MintEnd::NotPersisted)
                }
            },
            MintPhase::Done => self.ends(MintEnd::Minted),
        }
    }

    /// The digest of the last receipt of the chain, as far as this minting
    /// knows.
    pub fn tail(&self) -> (r: Option<Sha256Digest>)
        ensures
            r == self@.tail,
    {
        self.tail
    }

    /// The minted receipt.
    pub fn receipt_id(&self) -> (r: ReceiptId)
        ensures
            r == self@.receipt_id,
    {
        self.receipt_id
    }
}

/// The error of a minting; `detail` is the text of the failure itself. A
/// denial reports the verifier's own error.
pub fn mint_error(end: MintEnd, detail: &str) -> (r: Option<RuntimeError>)
    ensures
        match end {
            MintEnd::Minted | MintEnd::Denied => r is None,
            MintEnd::InvalidVerb => r matches Some(RuntimeError::Internal(text)) && text@
                == "invalid receipt verb: "@ + detail@,
            MintEnd::NotSigned => r matches Some(RuntimeError::Internal(text)) && text@
                == "receipt mint failed: "@ + detail@,
            MintEnd::NotPersisted => r matches Some(RuntimeError::Internal(text)) && text@
                == "receipt persist failed: "@ + detail@,
        },
{
    let prefix: &str = match end {
        MintEnd::Minted => {
            return None;
        },
        MintEnd::Denied => {
            return None;
        },
        MintEnd::InvalidVerb => "invalid receipt verb: ",
        MintEnd::NotSigned => "receipt mint failed: ",
        MintEnd::NotPersisted => "receipt persist failed: ",
    };
    let mut text: String = String::from_str(prefix);
    text.append(detail);
    Some(RuntimeError::Internal(text))
}

/// A control receipt moves the chain's tail exactly when it is in the log, and
/// is signed over the tail that the commit lock protects.
pub proof fn law_a_control_receipt_extends_the_chain(m: MintModel, event: MintEvent)
    requires
        m.expects(event),
    ensures
        m.next(event).1 == MintAction::Finish(MintEnd::Minted) ==> m.phase
            == MintPhase::Persisting && event is Passed && m.next(event).0.tail == Some(
            commit::jws_digest(m.jws),
        ),
        m.next(event).1 == MintAction::Sign ==> event == (MintEvent::Locked {
            tail: m.next(event).0.tail,
        }),
        m.next(event).1 is Finish && m.next(event).1 != MintAction::Finish(MintEnd::Minted)
            ==> m.next(event).0.tail == m.tail,
{
}

/// A control operation.
#[derive(Clone, Copy, Debug, PartialEq, Eq, Structural)]
pub enum ControlKind {
    Checkpoint,
    Rollback,
    /// Summarize the history and install the summary.
    Compact,
    /// Summarize the history and show the summary.
    Preview,
    /// Run a background task.
    Task,
    /// Only write a receipt.
    Decision,
}

/// What a control operation asks for.
#[derive(Clone, Copy, Debug, PartialEq, Eq, Structural)]
pub enum ControlAction {
    /// Verify the token and ask the policy.
    Authorize,
    RequireJournal,
    ReplayJournal,
    /// Find the checkpoint to roll back to.
    Locate,
    /// Call the provider, with admission, receipt and settlement.
    Dispatch,
    /// Write the operation's receipt.
    Mint,
    /// Write the receipt of the failed task.
    MintFailure,
    /// Append the operation's entry to the journal.
    AppendEntry,
    Finish(ControlEnd),
}

/// How a control operation ended.
#[derive(Clone, Copy, Debug, PartialEq, Eq, Structural)]
pub enum ControlEnd {
    Completed,
    /// The task itself failed; its receipt is written.
    TaskFailed,
    /// A step failed and reported its error.
    Reported,
    NoJournal,
    ReplayFailed,
    /// The checkpoint is not in the journal.
    NotFound,
    AppendFailed,
}

/// What came of a control operation's action.
#[derive(Clone, Copy, Debug, PartialEq, Eq, Structural)]
pub enum ControlEvent {
    Passed,
    Failed,
    /// The dispatch failed because the provider did.
    ProviderUnavailable,
}

/// Where a control operation stands.
#[derive(Clone, Copy, Debug, PartialEq, Eq, Structural)]
pub struct ControlOperation {
    pub kind: ControlKind,
    pub action: ControlAction,
}

impl ControlOperation {
    /// The first action of an operation.
    pub open spec fn first(kind: ControlKind) -> ControlAction {
        match kind {
            ControlKind::Checkpoint | ControlKind::Rollback => ControlAction::RequireJournal,
            ControlKind::Compact | ControlKind::Preview | ControlKind::Task =>
            ControlAction::Authorize,
            ControlKind::Decision => ControlAction::Mint,
        }
    }

    /// The action behind one that succeeded.
    pub open spec fn follows(self) -> ControlAction {
        match self.action {
            ControlAction::Authorize => if self.kind == ControlKind::Compact {
                ControlAction::RequireJournal
            } else {
                ControlAction::Dispatch
            },
            ControlAction::RequireJournal => if self.kind == ControlKind::Compact {
                ControlAction::Dispatch
            } else {
                ControlAction::ReplayJournal
            },
            ControlAction::ReplayJournal => if self.kind == ControlKind::Rollback {
                ControlAction::Locate
            } else {
                ControlAction::Mint
            },
            ControlAction::Locate => ControlAction::Mint,
            ControlAction::Dispatch => if self.kind == ControlKind::Compact {
                ControlAction::AppendEntry
            } else {
                ControlAction::Finish(ControlEnd::Completed)
            },
            ControlAction::Mint => if self.kind == ControlKind::Decision {
                ControlAction::Finish(ControlEnd::Completed)
            } else {
                ControlAction::AppendEntry
            },
            ControlAction::MintFailure => ControlAction::Finish(ControlEnd::TaskFailed),
            ControlAction::AppendEntry => ControlAction::Finish(ControlEnd::Completed),
            ControlAction::Finish(end) => ControlAction::Finish(end),
        }
    }

    /// The end of an operation whose action failed.
    pub open spec fn fails(self) -> ControlEnd {
        match self.action {
            ControlAction::RequireJournal => ControlEnd::NoJournal,
            ControlAction::ReplayJournal => ControlEnd::ReplayFailed,
            ControlAction::Locate => ControlEnd::NotFound,
            ControlAction::AppendEntry => ControlEnd::AppendFailed,
            _ => ControlEnd::Reported,
        }
    }

    /// The next action.
    pub open spec fn next(self, event: ControlEvent) -> ControlAction {
        match event {
            ControlEvent::Passed => self.follows(),
            ControlEvent::ProviderUnavailable => if self.kind == ControlKind::Task && self.action
                == ControlAction::Dispatch {
                ControlAction::MintFailure
            } else {
                ControlAction::Finish(self.fails())
            },
            ControlEvent::Failed => ControlAction::Finish(self.fails()),
        }
    }

    /// Begins a control operation.
    pub fn begin(kind: ControlKind) -> (r: ControlOperation)
        ensures
            r == (ControlOperation { kind, action: ControlOperation::first(kind) }),
    {
        let action: ControlAction = match kind {
            ControlKind::Checkpoint => ControlAction::RequireJournal,
            ControlKind::Rollback => ControlAction::RequireJournal,
            ControlKind::Compact => ControlAction::Authorize,
            ControlKind::Preview => ControlAction::Authorize,
            ControlKind::Task => ControlAction::Authorize,
            ControlKind::Decision => ControlAction::Mint,
        };
        ControlOperation { kind, action }
    }

    fn following(&self) -> (r: ControlAction)
        ensures
            r == self.follows(),
    {
        let compacts: bool = self.kind == ControlKind::Compact;
        match self.action {
            ControlAction::Authorize => {
                if compacts {
                    ControlAction::RequireJournal
                } else {
                    ControlAction::Dispatch
                }
            },
            ControlAction::RequireJournal => {
                if compacts {
                    ControlAction::Dispatch
                } else {
                    ControlAction::ReplayJournal
                }
            },
            ControlAction::ReplayJournal => {
                if self.kind == ControlKind::Rollback {
                    ControlAction::Locate
                } else {
                    ControlAction::Mint
                }
            },
            ControlAction::Locate => ControlAction::Mint,
            ControlAction::Dispatch => {
                if compacts {
                    ControlAction::AppendEntry
                } else {
                    ControlAction::Finish(ControlEnd::Completed)
                }
            },
            ControlAction::Mint => {
                if self.kind == ControlKind::Decision {
                    ControlAction::Finish(ControlEnd::Completed)
                } else {
                    ControlAction::AppendEntry
                }
            },
            ControlAction::MintFailure => ControlAction::Finish(ControlEnd::TaskFailed),
            ControlAction::AppendEntry => ControlAction::Finish(ControlEnd::Completed),
            ControlAction::Finish(end) => ControlAction::Finish(end),
        }
    }

    fn failing(&self) -> (r: ControlEnd)
        ensures
            r == self.fails(),
    {
        match self.action {
            ControlAction::RequireJournal => ControlEnd::NoJournal,
            ControlAction::ReplayJournal => ControlEnd::ReplayFailed,
            ControlAction::Locate => ControlEnd::NotFound,
            ControlAction::AppendEntry => ControlEnd::AppendFailed,
            _ => ControlEnd::Reported,
        }
    }

    /// Takes the result of the last action and says what to do next.
    pub fn advance(&mut self, event: ControlEvent) -> (r: ControlAction)
        ensures
            r == old(self).next(event),
            *final(self) == (ControlOperation { kind: old(self).kind, action: r }),
    {
        let action: ControlAction = match event {
            ControlEvent::Passed => self.following(),
            ControlEvent::ProviderUnavailable => {
                if self.kind == ControlKind::Task && self.action == ControlAction::Dispatch {
                    ControlAction::MintFailure
                } else {
                    ControlAction::Finish(self.failing())
                }
            },
            ControlEvent::Failed => ControlAction::Finish(self.failing()),
        };
        self.action = action;
        action
    }
}

/// The operation and the actions it went through.
pub open spec fn reached(kind: ControlKind, events: Seq<ControlEvent>) -> ControlOperation
    decreases events.len(),
{
    if events.len() == 0 {
        ControlOperation { kind, action: ControlOperation::first(kind) }
    } else {
        let before = reached(kind, events.drop_last());
        ControlOperation { kind, action: before.next(events.last()) }
    }
}

/// An operation asks for this action at some time during these events.
pub open spec fn asks_for(
    kind: ControlKind,
    events: Seq<ControlEvent>,
    action: ControlAction,
) -> bool {
    exists|n: int| 0 <= n <= events.len() && (#[trigger] reached(kind, events.take(n))).action
        == action
}

proof fn lemma_reached_kind(kind: ControlKind, events: Seq<ControlEvent>)
    ensures
        reached(kind, events).kind == kind,
    decreases events.len(),
{
}

proof fn lemma_asked_before(
    kind: ControlKind,
    events: Seq<ControlEvent>,
    action: ControlAction,
)
    requires
        events.len() > 0,
        asks_for(kind, events.drop_last(), action),
    ensures
        asks_for(kind, events, action),
{
    let before = events.drop_last();
    let n = choose|n: int|
        0 <= n <= before.len() && (#[trigger] reached(kind, before.take(n))).action == action;
    assert(before.take(n) =~= events.take(n));
}

proof fn lemma_asks_now(kind: ControlKind, events: Seq<ControlEvent>)
    ensures
        asks_for(kind, events, reached(kind, events).action),
{
    assert(events.take(events.len() as int) =~= events);
}

/// A paid operation reaches the provider only once it was authorised.
pub proof fn law_authorization_precedes_dispatch(kind: ControlKind, events: Seq<ControlEvent>)
    requires
        reached(kind, events).action == ControlAction::Dispatch,
    ensures
        asks_for(kind, events, ControlAction::Authorize),
        events.contains(ControlEvent::Passed),
    decreases events.len(),
{
    assert(events.len() > 0);
    let before = events.drop_last();
    let op = reached(kind, before);
    lemma_reached_kind(kind, before);
    assert(events.last() == ControlEvent::Passed);
    assert(events[events.len() - 1] == ControlEvent::Passed);
    if op.action == ControlAction::Authorize {
        lemma_asks_now(kind, before);
    } else if op.action == ControlAction::RequireJournal {
        lemma_journal_check_of_a_compaction(kind, before);
    } else if op.action == ControlAction::Dispatch {
        assert(false);
    }
    lemma_asked_before(kind, events, ControlAction::Authorize);
}

proof fn lemma_journal_check_of_a_compaction(kind: ControlKind, events: Seq<ControlEvent>)
    requires
        reached(kind, events).action == ControlAction::RequireJournal,
        kind == ControlKind::Compact,
    ensures
        asks_for(kind, events, ControlAction::Authorize),
{
    assert(events.len() > 0);
    let before = events.drop_last();
    lemma_asks_now(kind, before);
    lemma_reached_kind(kind, before);
    lemma_asked_before(kind, events, ControlAction::Authorize);
}

/// A preview never touches the journal.
pub proof fn law_a_preview_changes_no_history(events: Seq<ControlEvent>)
    ensures
        reached(ControlKind::Preview, events).action != ControlAction::AppendEntry,
        reached(ControlKind::Preview, events).action == ControlAction::Authorize || reached(
            ControlKind::Preview,
            events,
        ).action == ControlAction::Dispatch || reached(ControlKind::Preview, events).action
            is Finish,
    decreases events.len(),
{
    if events.len() > 0 {
        law_a_preview_changes_no_history(events.drop_last());
        lemma_reached_kind(ControlKind::Preview, events.drop_last());
    }
}

/// A background task that ends by itself, well or badly, leaves a receipt:
/// that of the paid call, or that of its failure.
pub proof fn law_a_task_leaves_a_terminal_receipt(op: ControlOperation, event: ControlEvent)
    requires
        op.kind == ControlKind::Task,
        !(op.action is Finish),
    ensures
        op.next(event) == ControlAction::Finish(ControlEnd::TaskFailed) ==> op.action
            == ControlAction::MintFailure && event == ControlEvent::Passed,
        op.action == ControlAction::Dispatch && event == ControlEvent::ProviderUnavailable
            ==> op.next(event) == ControlAction::MintFailure,
{
}

/// A checkpoint or a rollback is told to the journal only once its receipt is
/// written.
pub proof fn law_the_receipt_precedes_the_journal(op: ControlOperation, event: ControlEvent)
    requires
        op.kind == ControlKind::Checkpoint || op.kind == ControlKind::Rollback,
        op.action == ControlAction::RequireJournal || op.action == ControlAction::ReplayJournal
            || op.action == ControlAction::Locate || op.action == ControlAction::Mint || op.action
            == ControlAction::AppendEntry,
        op.next(event) == ControlAction::AppendEntry,
    ensures
        op.action == ControlAction::Mint,
        event == ControlEvent::Passed,
{
}

/// The error of an operation that could not use its journal; `detail` is the
/// text of the failure itself.
pub fn journal_error(end: ControlEnd, detail: &str) -> (r: Option<RuntimeError>)
    ensures
        match end {
            ControlEnd::NoJournal => r matches Some(RuntimeError::Internal(text)) && text@
                == "no session journal is configured for this runtime"@,
            ControlEnd::ReplayFailed => r matches Some(RuntimeError::Internal(text)) && text@
                == "journal replay failed: "@ + detail@,
            ControlEnd::AppendFailed => r matches Some(RuntimeError::Internal(text)) && text@
                == "journal append failed: "@ + detail@,
            _ => r is None,
        },
{
    match end {
        ControlEnd::NoJournal => Some(
            RuntimeError::Internal(
                String::from_str("no session journal is configured for this runtime"),
            ),
        ),
        ControlEnd::ReplayFailed => {
            let mut text: String = String::from_str("journal replay failed: ");
            text.append(detail);
            Some(RuntimeError::Internal(text))
        },
        ControlEnd::AppendFailed => {
            let mut text: String = String::from_str("journal append failed: ");
            text.append(detail);
            Some(RuntimeError::Internal(text))
        },
        _ => None,
    }
}

} // verus!
