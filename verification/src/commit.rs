//! Committing a round: its receipt is signed, its candidate made durable, its
//! cost debited, and only then is the receipt appended to the chain. From there
//! on the round has happened: a journal that takes nothing is reported and
//! changes nothing.
//!
//! `RoundCommit` runs under the commit lock from the first action until it
//! announces the receipt. It says what to do next and takes what came of it.
use crate::digest;
use crate::errors::{settlement_error, RuntimeError};
use crate::evidence::{ReceiptBinding, ReceiptCandidate};
use crate::ids::{ReceiptId, Sha256Digest};
use crate::slot::SettlementError;
use vstd::prelude::*;
use vstd::string::StringExecFns;

verus! {

/// What a commit depends on.
#[derive(Clone, Copy, Debug, PartialEq, Eq, Structural)]
pub struct CommitConfig {
    /// The caller can be asked whether it is still there.
    pub probed: bool,
    /// A caller waits for the outcome of the write.
    pub handshake: bool,
    /// Committed rounds are mirrored.
    pub mirrored: bool,
    /// A session journal is kept.
    pub journaled: bool,
    /// The round of the turn, from one.
    pub iteration: u32,
    /// The transcript holds a user message.
    pub prompted: bool,
}

/// Where a commit stands.
#[derive(Clone, Copy, Debug, PartialEq, Eq, Structural)]
pub enum CommitPhase {
    Probing,
    Abandoning,
    Signing,
    Measuring,
    Claiming,
    Preparing,
    Finalizing,
    Appending,
    Stopping,
    Marking,
    Binding,
    Releasing,
    Mirroring,
    Announcing,
    Draining,
    Settled,
    JournalingPrompt,
    JournalingAnswer,
    Reporting,
    Done,
}

/// How a commit ended.
#[derive(Clone, Copy, Debug, PartialEq, Eq, Structural)]
pub enum CommitEnd {
    Committed,
    /// The caller was gone before anything was written.
    Cancelled,
    /// The settlement refused a step.
    Settlement(SettlementError),
    NotSigned,
    LogUnreadable,
    /// The receipt may or may not be in the log.
    Unresolved,
}

/// What the session journal did not take.
#[derive(Clone, Copy, Debug, PartialEq, Eq, Structural)]
pub enum JournalFault {
    Prompt,
    Answer,
}

/// What a commit asks for.
#[derive(Clone, Copy, Debug, PartialEq, Eq, Structural)]
pub enum CommitAction {
    /// Ask whether the caller is gone.
    AskCaller,
    /// Give the reservation back as a cancellation.
    Abandon,
    /// Sign the body, with the chain's tail as its parent.
    Sign,
    /// Open the receipt log and read its length.
    MeasureLog,
    /// Tell the waiting caller that the write begins.
    BeginPersist,
    /// Make the receipt candidate durable in the settlement.
    PrepareReceipt,
    /// Debit the cost.
    Finalize,
    /// Append the receipt at the measured end of the log.
    AppendReceipt,
    /// Let no further turn be admitted.
    StopAdmission,
    /// Record that the receipt may or may not be in the log.
    MarkUnresolved,
    /// Bind the settlement to the appended receipt.
    BindReceipt,
    /// Tell the waiting caller that the write succeeded.
    FinishPersist,
    /// Mirror the committed round; a failure changes nothing.
    Mirror,
    /// Give the lock back, show the receipt and run its hooks.
    Announce,
    /// Project what settlements owe to the journal.
    DrainSettlements,
    /// The cost of the round is settled; the journal waits for its stage.
    AwaitJournal,
    /// Journal the last user message.
    JournalPrompt,
    /// Journal the answer, bound to the receipt.
    JournalAnswer,
    /// Tell the error hooks what the journal did not take.
    FireError(JournalFault),
    Finish(CommitEnd),
}

/// What came of an action.
#[derive(Debug)]
pub enum CommitEvent {
    Passed,
    Failed,
    /// The settlement refused.
    Refused(SettlementError),
    CallerGone(bool),
    /// Whether the write may begin.
    Persisting(bool),
    Signed { receipt_id: ReceiptId, jws: String },
    Measured(u64),
}

/// A commit over mathematical values.
#[verifier::ext_equal]
pub ghost struct CommitModel {
    pub config: CommitConfig,
    pub phase: CommitPhase,
    /// The digest of the last receipt of the chain.
    pub tail: Option<Sha256Digest>,
    pub receipt_id: ReceiptId,
    /// The parent that the signed receipt names.
    pub parent: Option<Sha256Digest>,
    pub jws: Seq<char>,
    pub log_end: u64,
}

/// What a step leads to.
pub type CommitStep = (CommitModel, CommitAction);

/// The digest of a signed receipt.
pub open spec fn jws_digest(jws: Seq<char>) -> Sha256Digest {
    digest::digest_of(vstd::utf8::encode_utf8(jws))
}

impl CommitModel {
    pub open spec fn to(self, phase: CommitPhase, action: CommitAction) -> CommitStep {
        (CommitModel { phase, ..self }, action)
    }

    pub open spec fn ends(self, end: CommitEnd) -> CommitStep {
        self.to(CommitPhase::Done, CommitAction::Finish(end))
    }

    /// The first action.
    pub open spec fn begin(self) -> CommitStep {
        if self.config.probed {
            self.to(CommitPhase::Probing, CommitAction::AskCaller)
        } else {
            self.sign()
        }
    }

    /// The receipt is signed over the tail of the chain as it is now.
    pub open spec fn sign(self) -> CommitStep {
        (CommitModel { parent: self.tail, ..self }).to(CommitPhase::Signing, CommitAction::Sign)
    }

    /// The receipt is in the log: the next one is linked to it.
    pub open spec fn appended(self) -> CommitModel {
        CommitModel { tail: Some(jws_digest(self.jws)), ..self }
    }

    /// The journal's part of a commit.
    pub open spec fn journal(self) -> CommitStep {
        if self.config.iteration == 1 && self.config.prompted {
            self.to(CommitPhase::JournalingPrompt, CommitAction::JournalPrompt)
        } else {
            self.to(CommitPhase::JournalingAnswer, CommitAction::JournalAnswer)
        }
    }

    /// The mirror's part of a commit, once the receipt is bound.
    pub open spec fn released(self) -> CommitStep {
        if self.config.mirrored {
            self.to(CommitPhase::Mirroring, CommitAction::Mirror)
        } else {
            self.to(CommitPhase::Announcing, CommitAction::Announce)
        }
    }

    /// An event that answers the last action.
    pub open spec fn expects(self, event: CommitEvent) -> bool {
        match self.phase {
            CommitPhase::Probing => event is CallerGone,
            CommitPhase::Signing => event is Signed || event is Failed,
            CommitPhase::Measuring => event is Measured || event is Failed,
            CommitPhase::Claiming => event is Persisting,
            CommitPhase::Abandoning
            | CommitPhase::Preparing
            | CommitPhase::Finalizing
            | CommitPhase::Marking
            | CommitPhase::Binding
            | CommitPhase::Draining => event is Passed || event is Refused,
            CommitPhase::Appending
            | CommitPhase::JournalingPrompt
            | CommitPhase::JournalingAnswer => event is Passed || event is Failed,
            CommitPhase::Stopping
            | CommitPhase::Releasing
            | CommitPhase::Announcing
            | CommitPhase::Settled
            | CommitPhase::Reporting => event is Passed,
            CommitPhase::Mirroring => event is Passed || event is Failed,
            CommitPhase::Done => false,
        }
    }

    /// What the commit does with the result of its last action.
    pub open spec fn next(self, event: CommitEvent) -> CommitStep {
        if let CommitEvent::Refused(error) = event {
            self.ends(CommitEnd::Settlement(error))
        } else {
            match self.phase {
                CommitPhase::Probing => if event == CommitEvent::CallerGone(true) {
                    self.to(CommitPhase::Abandoning, CommitAction::Abandon)
                } else {
                    self.sign()
                },
                CommitPhase::Abandoning => self.ends(CommitEnd::Cancelled),
                CommitPhase::Signing => match event {
                    CommitEvent::Signed { receipt_id, jws } => (CommitModel {
                        receipt_id,
                        jws: jws@,
                        ..self
                    }).to(CommitPhase::Measuring, CommitAction::MeasureLog),
                    _ => self.ends(CommitEnd::NotSigned),
                },
                CommitPhase::Measuring => match event {
                    CommitEvent::Measured(len) => {
                        let measured = CommitModel { log_end: len, ..self };
                        if self.config.handshake {
                            measured.to(CommitPhase::Claiming, CommitAction::BeginPersist)
                        } else {
                            measured.to(CommitPhase::Preparing, CommitAction::PrepareReceipt)
                        }
                    },
                    _ => self.ends(CommitEnd::LogUnreadable),
                },
                CommitPhase::Claiming => if event == CommitEvent::Persisting(true) {
                    self.to(CommitPhase::Preparing, CommitAction::PrepareReceipt)
                } else {
                    self.to(CommitPhase::Abandoning, CommitAction::Abandon)
                },
                CommitPhase::Preparing => self.to(CommitPhase::Finalizing, CommitAction::Finalize),
                CommitPhase::Finalizing => self.to(
                    CommitPhase::Appending,
                    CommitAction::AppendReceipt,
                ),
                CommitPhase::Appending => if event is Passed {
                    self.appended().to(CommitPhase::Binding, CommitAction::BindReceipt)
                } else {
                    self.to(CommitPhase::Stopping, CommitAction::StopAdmission)
                },
                CommitPhase::Stopping => self.to(
                    CommitPhase::Marking,
                    CommitAction::MarkUnresolved,
                ),
                CommitPhase::Marking => self.ends(CommitEnd::Unresolved),
                CommitPhase::Binding => if self.config.handshake {
                    self.to(CommitPhase::Releasing, CommitAction::FinishPersist)
                } else {
                    self.released()
                },
                CommitPhase::Releasing => self.released(),
                CommitPhase::Mirroring => self.to(CommitPhase::Announcing, CommitAction::Announce),
                CommitPhase::Announcing => self.to(
                    CommitPhase::Draining,
                    CommitAction::DrainSettlements,
                ),
                CommitPhase::Draining => if self.config.journaled {
                    self.to(CommitPhase::Settled, CommitAction::AwaitJournal)
                } else {
                    self.ends(CommitEnd::Committed)
                },
                CommitPhase::Settled => self.journal(),
                CommitPhase::JournalingPrompt => if event is Passed {
                    self.to(CommitPhase::JournalingAnswer, CommitAction::JournalAnswer)
                } else {
                    self.to(CommitPhase::Reporting, CommitAction::FireError(JournalFault::Prompt))
                },
                CommitPhase::JournalingAnswer => if event is Passed {
                    self.ends(CommitEnd::Committed)
                } else {
                    self.to(CommitPhase::Reporting, CommitAction::FireError(JournalFault::Answer))
                },
                CommitPhase::Reporting => self.ends(CommitEnd::Committed),
                CommitPhase::Done => self.ends(CommitEnd::Committed),
            }
        }
    }

    /// The receipt is in the log.
    pub open spec fn durable(self) -> bool {
        match self.phase {
            CommitPhase::Binding
            | CommitPhase::Releasing
            | CommitPhase::Mirroring
            | CommitPhase::Announcing
            | CommitPhase::Draining
            | CommitPhase::Settled
            | CommitPhase::JournalingPrompt
            | CommitPhase::JournalingAnswer
            | CommitPhase::Reporting => true,
            _ => false,
        }
    }
}

/// A round that is being committed.
#[derive(Debug)]
pub struct RoundCommit {
    config: CommitConfig,
    phase: CommitPhase,
    tail: Option<Sha256Digest>,
    receipt_id: ReceiptId,
    parent: Option<Sha256Digest>,
    jws: String,
    log_end: u64,
}

impl View for RoundCommit {
    type V = CommitModel;

    closed spec fn view(&self) -> CommitModel {
        CommitModel {
            config: self.config,
            phase: self.phase,
            tail: self.tail,
            receipt_id: self.receipt_id,
            parent: self.parent,
            jws: self.jws@,
            log_end: self.log_end,
        }
    }
}

/// A commit over a chain whose last receipt has the digest `tail`, before its
/// first action.
pub open spec fn fresh_commit(config: CommitConfig, tail: Option<Sha256Digest>) -> CommitModel {
    CommitModel {
        config,
        phase: CommitPhase::Done,
        tail,
        receipt_id: ReceiptId(0),
        parent: None,
        jws: Seq::empty(),
        log_end: 0,
    }
}

impl RoundCommit {
    fn to(&mut self, phase: CommitPhase, action: CommitAction) -> (r: CommitAction)
        ensures
            (final(self)@, r) == old(self)@.to(phase, action),
    {
        self.phase = phase;
        action
    }

    fn ends(&mut self, end: CommitEnd) -> (r: CommitAction)
        ensures
            (final(self)@, r) == old(self)@.ends(end),
    {
        self.phase = CommitPhase::Done;
        CommitAction::Finish(end)
    }

    fn sign(&mut self) -> (r: CommitAction)
        ensures
            (final(self)@, r) == old(self)@.sign(),
    {
        self.parent = self.tail;
        self.to(CommitPhase::Signing, CommitAction::Sign)
    }

    fn released(&mut self) -> (r: CommitAction)
        ensures
            (final(self)@, r) == old(self)@.released(),
    {
        if self.config.mirrored {
            self.to(CommitPhase::Mirroring, CommitAction::Mirror)
        } else {
            self.to(CommitPhase::Announcing, CommitAction::Announce)
        }
    }

    /// Begins to commit a round over a chain whose last receipt has the digest
    /// `tail`.
    pub fn begin(config: CommitConfig, tail: Option<Sha256Digest>) -> (r: (
        RoundCommit,
        CommitAction,
    ))
        ensures
            (r.0@, r.1) == fresh_commit(config, tail).begin(),
    {
        let mut commit = RoundCommit {
            config,
            phase: CommitPhase::Done,
            tail,
            receipt_id: ReceiptId(0),
            parent: None,
            jws: String::new(),
            log_end: 0,
        };
        assert(commit@ =~= fresh_commit(config, tail));
        let action: CommitAction = if config.probed {
            commit.to(CommitPhase::Probing, CommitAction::AskCaller)
        } else {
            commit.sign()
        };
        (commit, action)
    }

    /// Takes the result of the last action and says what to do next.
    pub fn advance(&mut self, event: CommitEvent) -> (r: CommitAction)
        requires
            old(self)@.expects(event),
        ensures
            (final(self)@, r) == old(self)@.next(event),
    {
        if let CommitEvent::Refused(error) = event {
            return self.ends(CommitEnd::Settlement(error));
        }
        let passed: bool = matches!(event, CommitEvent::Passed);
        match self.phase {
            CommitPhase::Probing => {
                if matches!(event, CommitEvent::CallerGone(true)) {
                    self.to(CommitPhase::Abandoning, CommitAction::Abandon)
                } else {
                    self.sign()
                }
            },
            CommitPhase::Abandoning => self.ends(CommitEnd::Cancelled),
            CommitPhase::Signing => match event {
                CommitEvent::Signed { receipt_id, jws } => {
                    self.receipt_id = receipt_id;
                    self.jws = jws;
                    self.to(CommitPhase::Measuring, CommitAction::MeasureLog)
                },
                _ => self.ends(CommitEnd::NotSigned),
            },
            CommitPhase::Measuring => match event {
                CommitEvent::Measured(len) => {
                    self.log_end = len;
                    if self.config.handshake {
                        self.to(CommitPhase::Claiming, CommitAction::BeginPersist)
                    } else {
                        self.to(CommitPhase::Preparing, CommitAction::PrepareReceipt)
                    }
                },
                _ => self.ends(CommitEnd::LogUnreadable),
            },
            CommitPhase::Claiming => {
                if matches!(event, CommitEvent::Persisting(true)) {
                    self.to(CommitPhase::Preparing, CommitAction::PrepareReceipt)
                } else {
                    self.to(CommitPhase::Abandoning, CommitAction::Abandon)
                }
            },
            CommitPhase::Preparing => self.to(CommitPhase::Finalizing, CommitAction::Finalize),
            CommitPhase::Finalizing => self.to(
                CommitPhase::Appending,
                CommitAction::AppendReceipt,
            ),
            CommitPhase::Appending => {
                if passed {
                    self.tail = Some(Sha256Digest::of_text(self.jws.as_str()));
                    self.to(CommitPhase::Binding, CommitAction::BindReceipt)
                } else {
                    self.to(CommitPhase::Stopping, CommitAction::StopAdmission)
                }
            },
            CommitPhase::Stopping => self.to(CommitPhase::Marking, CommitAction::MarkUnresolved),
            CommitPhase::Marking => self.ends(CommitEnd::Unresolved),
            CommitPhase::Binding => {
                if self.config.handshake {
                    self.to(CommitPhase::Releasing, CommitAction::FinishPersist)
                } else {
                    self.released()
                }
            },
            CommitPhase::Releasing => self.released(),
            CommitPhase::Mirroring => self.to(CommitPhase::Announcing, CommitAction::Announce),
            CommitPhase::Announcing => self.to(
                CommitPhase::Draining,
                CommitAction::DrainSettlements,
            ),
            CommitPhase::Draining => {
                if self.config.journaled {
                    self.to(CommitPhase::Settled, CommitAction::AwaitJournal)
                } else {
                    self.ends(CommitEnd::Committed)
                }
            },
            CommitPhase::Settled => {
                if self.config.iteration == 1 && self.config.prompted {
                    self.to(CommitPhase::JournalingPrompt, CommitAction::JournalPrompt)
                } else {
                    self.to(CommitPhase::JournalingAnswer, CommitAction::JournalAnswer)
                }
            },
            CommitPhase::JournalingPrompt => {
                if passed {
                    self.to(CommitPhase::JournalingAnswer, CommitAction::JournalAnswer)
                } else {
                    self.to(CommitPhase::Reporting, CommitAction::FireError(JournalFault::Prompt))
                }
            },
            CommitPhase::JournalingAnswer => {
                if passed {
                    self.ends(CommitEnd::Committed)
                } else {
                    self.to(CommitPhase::Reporting, CommitAction::FireError(JournalFault::Answer))
                }
            },
            CommitPhase::Reporting => self.ends(CommitEnd::Committed),
            CommitPhase::Done => self.ends(CommitEnd::Committed),
        }
    }

    /// The digest of the last receipt of the chain, as far as this commit knows.
    pub fn tail(&self) -> (r: Option<Sha256Digest>)
        ensures
            r == self@.tail,
    {
        self.tail
    }

    /// The parent that the receipt is signed with.
    pub fn parent(&self) -> (r: Option<Sha256Digest>)
        ensures
            r == self@.parent,
    {
        self.parent
    }

    /// The candidate that is made durable before the debit: the exact receipt,
    /// its parent, and where in the log it will stand.
    pub fn candidate(&self) -> (r: ReceiptCandidate)
        ensures
            r.receipt_id == self@.receipt_id,
            r.expected_parent == self@.parent,
            r.expected_log_end == self@.log_end,
            r.jws_compact@ == self@.jws,
            r.jws_digest == jws_digest(self@.jws),
    {
        ReceiptCandidate {
            receipt_id: self.receipt_id,
            expected_parent: self.parent,
            expected_log_end: self.log_end,
            jws_compact: self.jws.clone(),
            jws_digest: Sha256Digest::of_text(self.jws.as_str()),
        }
    }

    /// The binding of the settlement to the appended receipt.
    pub fn binding(&self) -> (r: ReceiptBinding)
        ensures
            r.receipt_id == self@.receipt_id,
            r.jws_digest == jws_digest(self@.jws),
    {
        ReceiptBinding {
            receipt_id: self.receipt_id,
            jws_digest: Sha256Digest::of_text(self.jws.as_str()),
        }
    }
}

/// The text in front of the detail of a failed commit.
pub open spec fn failure_text(end: CommitEnd) -> &'static str {
    match end {
        CommitEnd::NotSigned => "receipt mint failed: ",
        CommitEnd::Unresolved => "settlement receipt unresolved: ",
        _ => "",
    }
}

/// The error of a round that was not committed; `detail` is the text of the
/// failure itself.
pub fn commit_error(end: CommitEnd, detail: &str) -> (r: Option<RuntimeError>)
    ensures
        match end {
            CommitEnd::Committed => r is None,
            CommitEnd::Cancelled => r == Some(RuntimeError::TurnCancelled),
            CommitEnd::Settlement(error) => r == Some(
                if crate::errors::exceeds_ceiling(error) {
                    RuntimeError::CostCeilingExceeded
                } else {
                    RuntimeError::Settlement(error)
                },
            ),
            _ => r matches Some(RuntimeError::Internal(text)) && text@ == failure_text(end)@
                + detail@,
        },
{
    let prefix: &str = match end {
        CommitEnd::Committed => {
            return None;
        },
        CommitEnd::Cancelled => {
            return Some(RuntimeError::TurnCancelled);
        },
        CommitEnd::Settlement(error) => {
            return Some(settlement_error(error));
        },
        CommitEnd::NotSigned => "receipt mint failed: ",
        CommitEnd::LogUnreadable => "",
        CommitEnd::Unresolved => "settlement receipt unresolved: ",
    };
    let mut text: String = String::from_str(prefix);
    text.append(detail);
    Some(RuntimeError::Internal(text))
}

/// What the error hooks are told of a journal that did not take an entry;
/// `detail` is the text of the failure itself.
pub fn journal_failure(fault: JournalFault, detail: &str) -> (r: String)
    ensures
        r@ == (match fault {
            JournalFault::Prompt => "settlement user journal failed: ",
            JournalFault::Answer => "settlement assistant journal failed: ",
        })@ + detail@,
{
    let prefix: &str = match fault {
        JournalFault::Prompt => "settlement user journal failed: ",
        JournalFault::Answer => "settlement assistant journal failed: ",
    };
    let mut text: String = String::from_str(prefix);
    text.append(detail);
    text
}

/// The chain's tail moves exactly when a receipt was appended, and is then the
/// digest of that receipt.
pub proof fn law_the_tail_follows_the_log(m: CommitModel, event: CommitEvent)
    requires
        m.expects(event),
    ensures
        m.phase == CommitPhase::Appending && event is Passed ==> m.next(event).0.tail == Some(
            jws_digest(m.jws),
        ),
        !(m.phase == CommitPhase::Appending && event is Passed) ==> m.next(event).0.tail == m.tail,
{
}

/// Evidence precedes effect: the debit is asked for only once the candidate is
/// durable, the receipt is appended only once the debit is made, and it is
/// bound only once it is in the log.
pub proof fn law_evidence_precedes_the_receipt(m: CommitModel, event: CommitEvent)
    requires
        m.expects(event),
    ensures
        m.next(event).1 == CommitAction::Finalize ==> m.phase == CommitPhase::Preparing
            && event is Passed,
        m.next(event).1 == CommitAction::AppendReceipt ==> m.phase == CommitPhase::Finalizing
            && event is Passed,
        m.next(event).1 == CommitAction::BindReceipt ==> m.phase == CommitPhase::Appending
            && event is Passed,
        m.next(event).1 == CommitAction::Finish(CommitEnd::Committed) ==> m.durable(),
        m.next(event).1 == CommitAction::Mirror ==> m.durable(),
{
}

/// A gone caller is honoured only before the write begins: a commit that ends
/// cancelled has prepared, debited and appended nothing.
pub proof fn law_cancellation_precedes_the_write(m: CommitModel, event: CommitEvent)
    requires
        m.expects(event),
    ensures
        m.next(event).1 == CommitAction::Abandon ==> m.phase == CommitPhase::Probing || m.phase
            == CommitPhase::Claiming,
        m.next(event).1 == CommitAction::Finish(CommitEnd::Cancelled) ==> m.phase
            == CommitPhase::Abandoning,
        m.phase == CommitPhase::Abandoning ==> m.next(event).1 is Finish,
{
}

/// A failed append is never undone: admission stops and the receipt is marked
/// as possibly written, whatever follows.
pub proof fn law_an_ambiguous_append_is_kept(m: CommitModel, event: CommitEvent)
    requires
        m.expects(event),
    ensures
        m.phase == CommitPhase::Appending && event is Failed ==> m.next(event).1
            == CommitAction::StopAdmission,
        m.phase == CommitPhase::Stopping ==> m.next(event).1 == CommitAction::MarkUnresolved,
        m.phase == CommitPhase::Marking ==> m.next(event).1 == CommitAction::Finish(
            CommitEnd::Unresolved,
        ) || event is Refused,
{
}

/// A failed mirror does not undo a committed round.
pub proof fn law_the_mirror_never_undoes_a_round(m: CommitModel, event: CommitEvent)
    requires
        m.expects(event),
        m.phase == CommitPhase::Mirroring,
    ensures
        m.next(event) == m.next(CommitEvent::Passed),
{
}

/// A durable round is never undone: what follows the receipt ends the commit as
/// committed, or with the settlement that refused to be bound or drained.
pub proof fn law_a_durable_round_stays(m: CommitModel, event: CommitEvent)
    requires
        m.expects(event),
        m.durable(),
    ensures
        m.next(event).0.durable() || m.next(event).1 == CommitAction::Finish(CommitEnd::Committed)
            || ((m.phase is Binding || m.phase is Draining) && (event matches CommitEvent::Refused(
            error,
        ) && m.next(event).1 == CommitAction::Finish(CommitEnd::Settlement(error)))),
{
}

/// A journal that does not take an entry is reported to the error hooks, and
/// the round is committed all the same.
pub proof fn law_a_failing_journal_is_reported_and_changes_nothing(
    m: CommitModel,
    event: CommitEvent,
)
    requires
        m.expects(event),
        m.phase is JournalingPrompt || m.phase is JournalingAnswer || m.phase is Reporting,
    ensures
        m.phase is JournalingPrompt && event is Failed ==> m.next(event).1
            == CommitAction::FireError(JournalFault::Prompt),
        m.phase is JournalingAnswer && event is Failed ==> m.next(event).1
            == CommitAction::FireError(JournalFault::Answer),
        m.next(event).1 is FireError ==> m.next(event).0.next(CommitEvent::Passed).1
            == CommitAction::Finish(CommitEnd::Committed),
        m.phase is Reporting ==> m.next(event).1 == CommitAction::Finish(CommitEnd::Committed),
        m.next(event).1 matches CommitAction::Finish(end) ==> end == CommitEnd::Committed,
{
}

} // verus!
