//! The mirror of committed rounds and evaluated events into a chain of
//! execution receipts, fed from the evidence journal.
//!
//! `ErMirrorEmitter` decides; its driver performs. Each call of `record_*`,
//! `mirror_*` or `sweep` returns the first thing to do, and `advance` takes
//! what came of it and returns the next one, until the operation finishes.
use crate::journal;
use crate::journal::{JournaledEvent, PostEffectRecord, PreEffectRecord};
use vstd::prelude::*;
use vstd::string::StrSliceExecFns;

verus! {

/// The device and inode of an opened file.
#[derive(Clone, Copy, Debug, PartialEq, Eq, Structural)]
pub struct FileIdentity {
    pub device: u64,
    pub inode: u64,
}

/// One receipt of the chain.
#[derive(Debug)]
pub struct ChainedReceipt {
    pub step_id: String,
    /// The signed receipt as it stands in the log.
    pub line: String,
}

/// Why a mirror stopped.
#[derive(Clone, Copy, Debug, PartialEq, Eq, Structural)]
pub enum MirrorFault {
    /// The lock file is no longer the one that is held.
    LockLost,
    DuplicatePre,
    PostWithoutPre,
    /// The records are not those that the journal holds.
    NotJournaled,
    AnchorWrite,
    CheckpointWrite,
    EventsOpen,
    EventsReplaced,
    /// The journal does not end where the last append left it.
    EventsChanged,
    EventsAppend,
    /// The receipt could not be projected or signed.
    Projection,
    ChainOpen,
    ChainReplaced,
    /// The chain does not end where the last append left it.
    ChainChanged,
    ChainAppend,
}

/// How an operation ended.
#[derive(Clone, Copy, Debug, PartialEq, Eq, Structural)]
pub enum MirrorEnd {
    Completed,
    /// An earlier fault stopped the mirror; nothing was done.
    Poisoned(MirrorFault),
    /// This operation stopped the mirror.
    Failed(MirrorFault),
    /// The record has no text; nothing was done and the mirror goes on.
    NotEncoded,
}

/// What the driver does next.
#[derive(Clone, Copy, Debug, PartialEq, Eq, Structural)]
pub enum MirrorAction {
    /// Check that the lock file's path still names the held lock.
    VerifyLock,
    /// Wrap the record as the next journal line, linked to the last MAC.
    Encode,
    /// Write the pending anchor of the next journal line.
    Announce,
    /// Open the journal for appending.
    OpenEvents,
    /// Append and sync the journal line.
    WriteEvents,
    /// Write the checkpoint of the journal line.
    WriteCheckpoint,
    /// Write the committed anchor of the journal line.
    CommitAnchor,
    /// Project the receipt onto the last chained one, and sign it.
    Project,
    /// Open the chain log for appending.
    OpenChain,
    /// Append and sync the receipt.
    WriteChain,
    Finish(MirrorEnd),
}

/// What came of an action.
#[derive(Debug)]
pub enum MirrorEvent {
    LockHeld,
    LockLost,
    /// The journal line and its chain MAC.
    Encoded { line: String, mac: String },
    NotEncoded,
    Done,
    Failed,
    /// An opened log: which file it is, and how long.
    Opened { identity: FileIdentity, len: u64 },
    /// The signed receipt.
    Projected { line: String },
}

/// What a look at the lock file found. The held lock covers a file, its path
/// only a name: where the name is gone, or names another file, a second
/// emitter could hold a lock of its own.
pub fn verify_lock_inode(held: Option<FileIdentity>, named: Option<FileIdentity>) -> (r:
    MirrorEvent)
    ensures
        r == (if held is Some && held == named {
            MirrorEvent::LockHeld
        } else {
            MirrorEvent::LockLost
        }),
        r is LockHeld <==> (held matches Some(h) && (named matches Some(n) && h == n)),
        r is LockLost <==> held is None || named is None || held->0 != named->0,
{
    match (held, named) {
        (Some(held), Some(named)) => if held == named {
            MirrorEvent::LockHeld
        } else {
            MirrorEvent::LockLost
        },
        _ => MirrorEvent::LockLost,
    }
}

/// Where an operation stands.
#[derive(Clone, Copy, Debug, PartialEq, Eq, Structural)]
pub enum Stage {
    Idle,
    Locking,
    Encoding,
    Announcing,
    OpeningEvents,
    WritingEvents,
    Checkpointing,
    Committing,
    Projecting,
    /// A swept event's receipt is projected; the lock is checked again.
    Relocking,
    OpeningChain,
    WritingChain,
}

/// The operation in hand.
#[derive(Debug)]
pub enum Operation {
    Rest,
    Pre(PreEffectRecord),
    Post(PostEffectRecord),
    Event(PreEffectRecord, PostEffectRecord),
    Sweep(JournaledEvent),
    Round(String),
}

/// The operation in hand over mathematical values.
#[verifier::ext_equal]
pub ghost enum OperationModel {
    Rest,
    Pre(journal::PreModel),
    Post(journal::PostModel),
    Event(journal::PreModel, journal::PostModel),
    Sweep(journal::EventModel),
    Round(Seq<char>),
}

impl View for Operation {
    type V = OperationModel;

    open spec fn view(&self) -> OperationModel {
        match *self {
            Operation::Rest => OperationModel::Rest,
            Operation::Pre(pre) => OperationModel::Pre(pre@),
            Operation::Post(post) => OperationModel::Post(post@),
            Operation::Event(pre, post) => OperationModel::Event(pre@, post@),
            Operation::Sweep(event) => OperationModel::Sweep(event@),
            Operation::Round(step_id) => OperationModel::Round(step_id@),
        }
    }
}

impl OperationModel {
    /// The step of the receipt that the operation chains.
    pub open spec fn step_id(self) -> Seq<char> {
        match self {
            OperationModel::Event(pre, _) => pre.event_id,
            OperationModel::Sweep(event) => event.pre.event_id,
            OperationModel::Round(step_id) => step_id,
            _ => Seq::empty(),
        }
    }
}

/// The length of a line in a log, with its line feed.
pub open spec fn line_size(line: Seq<char>) -> nat {
    vstd::utf8::encode_utf8(line).len() + 1
}

/// The mirror over mathematical values.
#[verifier::ext_equal]
pub ghost struct MirrorModel {
    /// The last receipt of the chain.
    pub tail: Option<Seq<char>>,
    pub chain_len: u64,
    pub events_len: u64,
    pub chain_identity: FileIdentity,
    pub events_identity: FileIdentity,
    /// The sequence number of the next journal line.
    pub next_seq: u64,
    /// The chain MAC of the last journal line.
    pub tail_mac: Seq<char>,
    /// The steps that have a receipt in the chain.
    pub chained: Set<Seq<char>>,
    /// Events with a record before their effect and none behind it.
    pub open: Set<Seq<char>>,
    /// Events with both records.
    pub closed: Set<Seq<char>>,
    /// What the journal holds of each event.
    pub journaled: Map<Seq<char>, journal::EventModel>,
    /// Events that an earlier process left, still to be swept.
    pub backlog: Seq<journal::EventModel>,
    pub poisoned: Option<MirrorFault>,
    pub stage: Stage,
    pub operation: OperationModel,
    /// The line that is being written.
    pub line: Seq<char>,
    /// The chain MAC of the journal line that is being written.
    pub mac: Seq<char>,
}

/// What a transition leads to.
pub type Reached = (MirrorModel, MirrorAction);

impl MirrorModel {
    /// The mirror is at rest.
    pub open spec fn idle(self) -> MirrorModel {
        MirrorModel { stage: Stage::Idle, operation: OperationModel::Rest, ..self }
    }

    /// The operation is complete.
    pub open spec fn finished(self) -> Reached {
        (self.idle(), MirrorAction::Finish(MirrorEnd::Completed))
    }

    /// The operation failed and no later one may pass over the gap.
    pub open spec fn poison(self, fault: MirrorFault) -> Reached {
        (
            MirrorModel { poisoned: Some(fault), ..self.idle() },
            MirrorAction::Finish(MirrorEnd::Failed(fault)),
        )
    }

    /// The operation waits for the result of `action`.
    pub open spec fn await_at(self, stage: Stage, action: MirrorAction) -> Reached {
        (MirrorModel { stage, ..self }, action)
    }

    /// Begins a record, an event's receipt or a round's receipt.
    pub open spec fn start(self, operation: OperationModel) -> Reached {
        match self.poisoned {
            Some(fault) => (self, MirrorAction::Finish(MirrorEnd::Poisoned(fault))),
            None => (MirrorModel { operation, ..self }).await_at(
                Stage::Locking,
                MirrorAction::VerifyLock,
            ),
        }
    }

    /// Begins the next event of the backlog: one that has no receipt gets it.
    pub open spec fn start_sweep(self) -> Reached {
        match self.poisoned {
            Some(fault) => (self, MirrorAction::Finish(MirrorEnd::Poisoned(fault))),
            None => {
                let event = self.backlog[0];
                if self.chained.contains(event.pre.event_id) {
                    self.swept(event).finished()
                } else {
                    (MirrorModel { operation: OperationModel::Sweep(event), ..self }).await_at(
                        Stage::Projecting,
                        MirrorAction::Project,
                    )
                }
            },
        }
    }

    /// The first event of the backlog is accounted for.
    pub open spec fn swept(self, event: journal::EventModel) -> MirrorModel {
        let id = event.pre.event_id;
        MirrorModel {
            open: if event.post is None {
                self.open.insert(id)
            } else {
                self.open
            },
            closed: if event.post is Some {
                self.closed.insert(id)
            } else {
                self.closed
            },
            backlog: self.backlog.drop_first(),
            ..self
        }
    }

    /// The journal holds the record in hand.
    pub open spec fn recorded(self) -> MirrorModel {
        let next = MirrorModel {
            next_seq: (self.next_seq + 1) as u64,
            tail_mac: self.mac,
            ..self
        };
        match self.operation {
            OperationModel::Pre(pre) => MirrorModel {
                journaled: self.journaled.insert(
                    pre.event_id,
                    journal::EventModel { pre, post: None },
                ),
                open: self.open.insert(pre.event_id),
                ..next
            },
            OperationModel::Post(post) => MirrorModel {
                journaled: self.journaled.insert(
                    post.event_id,
                    journal::EventModel {
                        pre: self.journaled[post.event_id].pre,
                        post: Some(post),
                    },
                ),
                open: self.open.remove(post.event_id),
                closed: self.closed.insert(post.event_id),
                ..next
            },
            _ => next,
        }
    }

    /// The chain holds the receipt in hand.
    pub open spec fn chained_line(self) -> MirrorModel {
        let next = MirrorModel {
            chain_len: (self.chain_len + line_size(self.line)) as u64,
            chained: self.chained.insert(self.operation.step_id()),
            tail: Some(self.line),
            ..self
        };
        match self.operation {
            OperationModel::Sweep(event) => next.swept(event),
            _ => next,
        }
    }

    /// The lock is still held: is the operation in order?
    pub open spec fn locked(self) -> Reached {
        match self.operation {
            OperationModel::Pre(pre) => if self.open.contains(pre.event_id)
                || self.closed.contains(pre.event_id) {
                self.poison(MirrorFault::DuplicatePre)
            } else {
                self.await_at(Stage::Encoding, MirrorAction::Encode)
            },
            OperationModel::Post(post) => if !self.open.contains(post.event_id) {
                self.poison(MirrorFault::PostWithoutPre)
            } else {
                self.await_at(Stage::Encoding, MirrorAction::Encode)
            },
            OperationModel::Event(pre, post) => if self.chained.contains(pre.event_id) {
                self.finished()
            } else if self.journaled.contains_key(pre.event_id) && self.journaled[pre.event_id] == (
            journal::EventModel { pre, post: Some(post) }) {
                self.await_at(Stage::Projecting, MirrorAction::Project)
            } else {
                self.poison(MirrorFault::NotJournaled)
            },
            _ => self.await_at(Stage::Projecting, MirrorAction::Project),
        }
    }

    /// An event that the mirror can take at this stage. The lengths of the
    /// logs and the number of journal lines stay within their types.
    pub open spec fn expects(self, event: MirrorEvent) -> bool {
        match self.stage {
            Stage::Idle => false,
            Stage::Locking | Stage::Relocking => event is LockHeld || event is LockLost,
            Stage::Encoding => match event {
                MirrorEvent::Encoded { line, .. } => self.events_len + line_size(line@) <= u64::MAX
                    && self.next_seq < u64::MAX,
                MirrorEvent::NotEncoded => true,
                _ => false,
            },
            Stage::OpeningEvents | Stage::OpeningChain => event is Opened || event is Failed,
            Stage::Projecting => match event {
                MirrorEvent::Projected { line } => self.chain_len + line_size(line@) <= u64::MAX,
                MirrorEvent::Failed => true,
                _ => false,
            },
            _ => event is Done || event is Failed,
        }
    }

    /// What the mirror does with the result of its last action.
    pub open spec fn next(self, event: MirrorEvent) -> Reached {
        match self.stage {
            Stage::Locking => if event is LockHeld {
                self.locked()
            } else {
                self.poison(MirrorFault::LockLost)
            },
            Stage::Encoding => match event {
                MirrorEvent::Encoded { line, mac } => (MirrorModel {
                    line: line@,
                    mac: mac@,
                    ..self
                }).await_at(Stage::Announcing, MirrorAction::Announce),
                _ => (self.idle(), MirrorAction::Finish(MirrorEnd::NotEncoded)),
            },
            Stage::Announcing => if event is Done {
                self.await_at(Stage::OpeningEvents, MirrorAction::OpenEvents)
            } else {
                self.poison(MirrorFault::AnchorWrite)
            },
            Stage::OpeningEvents => match event {
                MirrorEvent::Opened { identity, len } => if identity != self.events_identity {
                    self.poison(MirrorFault::EventsReplaced)
                } else if len != self.events_len {
                    self.poison(MirrorFault::EventsChanged)
                } else {
                    self.await_at(Stage::WritingEvents, MirrorAction::WriteEvents)
                },
                _ => self.poison(MirrorFault::EventsOpen),
            },
            Stage::WritingEvents => if event is Done {
                (MirrorModel {
                    events_len: (self.events_len + line_size(self.line)) as u64,
                    ..self
                }).await_at(Stage::Checkpointing, MirrorAction::WriteCheckpoint)
            } else {
                self.poison(MirrorFault::EventsAppend)
            },
            Stage::Checkpointing => if event is Done {
                self.await_at(Stage::Committing, MirrorAction::CommitAnchor)
            } else {
                self.poison(MirrorFault::CheckpointWrite)
            },
            Stage::Committing => if event is Done {
                self.recorded().finished()
            } else {
                self.poison(MirrorFault::AnchorWrite)
            },
            Stage::Projecting => match event {
                MirrorEvent::Projected { line } => {
                    let next = MirrorModel { line: line@, ..self };
                    if self.operation is Sweep {
                        next.await_at(Stage::Relocking, MirrorAction::VerifyLock)
                    } else {
                        next.await_at(Stage::OpeningChain, MirrorAction::OpenChain)
                    }
                },
                _ => self.poison(MirrorFault::Projection),
            },
            Stage::Relocking => if event is LockHeld {
                self.await_at(Stage::OpeningChain, MirrorAction::OpenChain)
            } else {
                self.poison(MirrorFault::LockLost)
            },
            Stage::OpeningChain => match event {
                MirrorEvent::Opened { identity, len } => if identity != self.chain_identity {
                    self.poison(MirrorFault::ChainReplaced)
                } else if len != self.chain_len {
                    self.poison(MirrorFault::ChainChanged)
                } else {
                    self.await_at(Stage::WritingChain, MirrorAction::WriteChain)
                },
                _ => self.poison(MirrorFault::ChainOpen),
            },
            Stage::WritingChain => if event is Done {
                self.chained_line().finished()
            } else {
                self.poison(MirrorFault::ChainAppend)
            },
            Stage::Idle => (self, MirrorAction::Finish(MirrorEnd::Completed)),
        }
    }

    /// The record or receipt in hand may be written at this stage.
    pub open spec fn in_order(self) -> bool {
        match self.stage {
            Stage::Idle => self.operation is Rest,
            Stage::Locking => self.backlog.len() == 0 && !(self.operation is Rest)
                && !(self.operation is Sweep),
            Stage::Encoding
            | Stage::Announcing
            | Stage::OpeningEvents
            | Stage::WritingEvents
            | Stage::Checkpointing
            | Stage::Committing => self.backlog.len() == 0 && match self.operation {
                OperationModel::Pre(pre) => !self.open.contains(pre.event_id)
                    && !self.closed.contains(pre.event_id),
                OperationModel::Post(post) => self.open.contains(post.event_id),
                _ => false,
            },
            Stage::Projecting | Stage::OpeningChain | Stage::WritingChain => match self.operation {
                OperationModel::Event(pre, post) => {
                    &&& self.backlog.len() == 0
                    &&& !self.chained.contains(pre.event_id)
                    &&& self.journaled.contains_key(pre.event_id)
                    &&& self.journaled[pre.event_id] == (journal::EventModel {
                        pre,
                        post: Some(post),
                    })
                },
                OperationModel::Sweep(event) => self.backlog.len() > 0 && self.backlog[0] == event
                    && !self.chained.contains(event.pre.event_id),
                OperationModel::Round(_) => self.backlog.len() == 0,
                _ => false,
            },
            Stage::Relocking => self.operation matches OperationModel::Sweep(event)
                && self.backlog.len() > 0 && self.backlog[0] == event && !self.chained.contains(
                event.pre.event_id,
            ),
        }
    }

    /// What every reachable mirror satisfies: the journal's events are sorted
    /// into open, closed and still to be swept, and lengths fit their types.
    pub open spec fn wf(self) -> bool {
        &&& self.in_order()
        &&& self.poisoned is Some ==> self.stage == Stage::Idle
        &&& forall|id: Seq<char>| #[trigger]
            self.open.contains(id) ==> self.journaled.contains_key(id)
                && self.journaled[id].post is None
        &&& forall|id: Seq<char>| #[trigger]
            self.closed.contains(id) ==> self.journaled.contains_key(id)
                && self.journaled[id].post is Some
        &&& forall|id: Seq<char>| #[trigger]
            self.journaled.contains_key(id) ==> self.journaled[id].pre.event_id == id
        &&& forall|k: int|
            0 <= k < self.backlog.len() ==> {
                let event = #[trigger] self.backlog[k];
                &&& self.journaled.contains_key(event.pre.event_id)
                &&& self.journaled[event.pre.event_id] == event
                &&& !self.open.contains(event.pre.event_id)
                &&& !self.closed.contains(event.pre.event_id)
            }
        &&& journal::distinct_events(self.backlog)
        &&& forall|id: Seq<char>| #[trigger]
            self.journaled.contains_key(id) ==> self.open.contains(id) || self.closed.contains(id)
                || (exists|k: int|
                0 <= k < self.backlog.len() && (#[trigger] self.backlog[k]).pre.event_id == id)
        &&& match self.stage {
            Stage::Announcing | Stage::OpeningEvents | Stage::WritingEvents => self.events_len
                + line_size(self.line) <= u64::MAX && self.next_seq < u64::MAX,
            Stage::Checkpointing | Stage::Committing => self.next_seq < u64::MAX,
            Stage::Relocking | Stage::OpeningChain | Stage::WritingChain => self.chain_len
                + line_size(self.line) <= u64::MAX,
            _ => true,
        }
    }
}

pub(crate) proof fn lemma_swept_wf(m: MirrorModel)
    requires
        m.wf(),
        m.backlog.len() > 0,
    ensures
        ({
            let next = m.swept(m.backlog[0]).idle();
            next.wf()
        }),
{
    let event = m.backlog[0];
    let next = m.swept(event).idle();
    assert(m.journaled.contains_key(event.pre.event_id));
    assert forall|k: int| 0 <= k < next.backlog.len() implies ({
        let e = #[trigger] next.backlog[k];
        &&& next.journaled.contains_key(e.pre.event_id)
        &&& next.journaled[e.pre.event_id] == e
        &&& !next.open.contains(e.pre.event_id)
        &&& !next.closed.contains(e.pre.event_id)
    }) by {
        assert(next.backlog[k] == m.backlog[k + 1]);
    }
    assert forall|i: int, j: int| 0 <= i < j < next.backlog.len() implies (
    #[trigger] next.backlog[i]).pre.event_id != (#[trigger] next.backlog[j]).pre.event_id by {
        assert(next.backlog[i] == m.backlog[i + 1]);
        assert(next.backlog[j] == m.backlog[j + 1]);
    }
    assert forall|id: Seq<char>| #[trigger] next.journaled.contains_key(id) implies next.open.contains(
        id,
    ) || next.closed.contains(id) || (exists|k: int|
        0 <= k < next.backlog.len() && (#[trigger] next.backlog[k]).pre.event_id == id) by {
        if !m.open.contains(id) && !m.closed.contains(id) && id != event.pre.event_id {
            let k = choose|k: int|
                0 <= k < m.backlog.len() && (#[trigger] m.backlog[k]).pre.event_id == id;
            assert(k > 0);
            assert(next.backlog[k - 1] == m.backlog[k]);
        }
    }
}

proof fn lemma_recorded_wf(m: MirrorModel)
    requires
        m.wf(),
        m.stage == Stage::Committing,
    ensures
        m.recorded().idle().wf(),
{
    let next = m.recorded().idle();
    match m.operation {
        OperationModel::Pre(pre) => {
            assert(!m.journaled.contains_key(pre.event_id)) by {
                if m.journaled.contains_key(pre.event_id) {
                    assert(m.backlog.len() == 0);
                }
            }
        },
        OperationModel::Post(post) => {
            assert(m.journaled.contains_key(post.event_id));
            assert(!m.closed.contains(post.event_id));
        },
        _ => {},
    }
}

/// Every step keeps the mirror well formed.
pub proof fn law_mirror_stays_well_formed(m: MirrorModel, event: MirrorEvent)
    requires
        m.wf(),
        m.expects(event),
    ensures
        m.next(event).0.wf(),
{
    if m.stage == Stage::Committing && event is Done {
        lemma_recorded_wf(m);
    }
    if m.stage == Stage::WritingChain && event is Done {
        let next = m.chained_line();
        match m.operation {
            OperationModel::Sweep(e) => {
                let before = MirrorModel {
                    chain_len: next.chain_len,
                    chained: next.chained,
                    tail: next.tail,
                    ..m.idle()
                };
                assert(before.wf());
                lemma_swept_wf(before);
                assert(m.next(event).0 =~= before.swept(e).idle());
            },
            _ => {},
        }
    }
}

/// A chained receipt over mathematical values.
#[verifier::ext_equal]
pub ghost struct ReceiptModel {
    pub step_id: Seq<char>,
    pub line: Seq<char>,
}

impl View for ChainedReceipt {
    type V = ReceiptModel;

    open spec fn view(&self) -> ReceiptModel {
        ReceiptModel { step_id: self.step_id@, line: self.line@ }
    }
}

/// The receipts of a chain as models.
pub open spec fn receipt_views(chain: Seq<ChainedReceipt>) -> Seq<ReceiptModel> {
    chain.map_values(|receipt: ChainedReceipt| receipt@)
}

/// Names that stand beside the chain log and cannot be its own.
pub open spec fn is_reserved(name: Seq<char>) -> bool {
    ||| name == "events.jsonl"@
    ||| name == "events.tail"@
    ||| name == "events.anchor"@
    ||| name == "events.lock"@
    ||| name == "events.tail.tmp"@
    ||| name == "events.anchor.tmp"@
}

fn text_is(a: &str, b: &str) -> (r: bool)
    ensures
        r == (a@ == b@),
{
    a.to_owned() == b.to_owned()
}

/// Whether a chain log of this name would take the name of an evidence file.
pub fn reserved_basename(name: &str) -> (r: bool)
    ensures
        r == is_reserved(name@),
{
    text_is(name, "events.jsonl") || text_is(name, "events.tail") || text_is(name, "events.anchor")
        || text_is(name, "events.lock") || text_is(name, "events.tail.tmp") || text_is(
        name,
        "events.anchor.tmp",
    )
}

/// The steps of evaluated events begin with `ev:`.
pub open spec fn is_event_step(step_id: Seq<char>) -> bool {
    step_id.len() >= 3 && step_id[0] == 'e' && step_id[1] == 'v' && step_id[2] == ':'
}

/// Whether a chained receipt is that of an evaluated event.
pub fn event_step(step_id: &str) -> (r: bool)
    ensures
        r == is_event_step(step_id@),
{
    step_id.unicode_len() >= 3 && step_id.get_char(0) == 'e' && step_id.get_char(1) == 'v'
        && step_id.get_char(2) == ':'
}

/// What projecting a chained event's records again gave.
#[derive(Clone, Copy, Debug, PartialEq, Eq, Structural)]
pub enum Reprojection {
    /// The chained receipt exactly.
    Same,
    Different,
    Failed,
}

/// Why a mirror does not open; the number is that of the chained receipt.
#[derive(Clone, Copy, Debug, PartialEq, Eq, Structural)]
pub enum OpenFault {
    /// The chain log and the journal are one file.
    SameFile,
    /// An event's receipt has no record in the journal.
    MissingEvidence(u64),
    /// An event's receipt does not come out of its records.
    NotReproduced(u64),
    NotProjected(u64),
}

/// What the journal holds of each event.
pub open spec fn journaled_of(events: Seq<journal::EventModel>) -> Map<
    Seq<char>,
    journal::EventModel,
>
    decreases events.len(),
{
    if events.len() == 0 {
        Map::empty()
    } else {
        journaled_of(events.drop_last()).insert(events.last().pre.event_id, events.last())
    }
}

/// The steps that have a receipt in the chain.
pub open spec fn steps_of(chain: Seq<ReceiptModel>) -> Set<Seq<char>>
    decreases chain.len(),
{
    if chain.len() == 0 {
        Set::empty()
    } else {
        steps_of(chain.drop_last()).insert(chain.last().step_id)
    }
}

/// What is wrong with the receipt at `i`: an event's receipt needs records in
/// the journal that give exactly that receipt again.
pub open spec fn receipt_fault(
    chain: Seq<ReceiptModel>,
    journaled: Map<Seq<char>, journal::EventModel>,
    answers: Seq<Reprojection>,
    i: int,
) -> Option<OpenFault> {
    if !is_event_step(chain[i].step_id) {
        None
    } else if !journaled.contains_key(chain[i].step_id) {
        Some(OpenFault::MissingEvidence(i as u64))
    } else {
        match answers[i] {
            Reprojection::Same => None,
            Reprojection::Different => Some(OpenFault::NotReproduced(i as u64)),
            Reprojection::Failed => Some(OpenFault::NotProjected(i as u64)),
        }
    }
}

/// The first fault of a chain from `from` on.
pub open spec fn chain_fault(
    chain: Seq<ReceiptModel>,
    journaled: Map<Seq<char>, journal::EventModel>,
    answers: Seq<Reprojection>,
    from: int,
) -> Option<OpenFault>
    decreases chain.len() - from,
{
    if from >= chain.len() {
        None
    } else {
        match receipt_fault(chain, journaled, answers, from) {
            Some(fault) => Some(fault),
            None => chain_fault(chain, journaled, answers, from + 1),
        }
    }
}

/// The mirror over a chain and a journal that agree, before the sweep.
pub open spec fn opened(
    chain: Seq<ReceiptModel>,
    events: Seq<journal::EventModel>,
    macs: Seq<Seq<char>>,
    lens: (u64, u64),
    identities: (FileIdentity, FileIdentity),
) -> MirrorModel {
    MirrorModel {
        tail: if chain.len() == 0 {
            None
        } else {
            Some(chain.last().line)
        },
        chain_len: lens.0,
        events_len: lens.1,
        chain_identity: identities.0,
        events_identity: identities.1,
        next_seq: macs.len() as u64,
        tail_mac: if macs.len() == 0 {
            Seq::empty()
        } else {
            macs.last()
        },
        chained: steps_of(chain),
        open: Set::empty(),
        closed: Set::empty(),
        journaled: journaled_of(events),
        backlog: events,
        poisoned: None,
        stage: Stage::Idle,
        operation: OperationModel::Rest,
        line: Seq::empty(),
        mac: Seq::empty(),
    }
}

proof fn lemma_journaled(events: Seq<journal::EventModel>)
    requires
        journal::distinct_events(events),
    ensures
        forall|k: int|
            0 <= k < events.len() ==> journaled_of(events).contains_key(
                (#[trigger] events[k]).pre.event_id,
            ) && journaled_of(events)[events[k].pre.event_id] == events[k],
        forall|id: Seq<char>| #[trigger]
            journaled_of(events).contains_key(id) ==> exists|k: int|
                0 <= k < events.len() && (#[trigger] events[k]).pre.event_id == id,
    decreases events.len(),
{
    if events.len() > 0 {
        let before = events.drop_last();
        assert(journal::distinct_events(before)) by {
            assert forall|i: int, j: int| 0 <= i < j < before.len() implies (
            #[trigger] before[i]).pre.event_id != (#[trigger] before[j]).pre.event_id by {
                assert(before[i] == events[i]);
                assert(before[j] == events[j]);
            }
        }
        lemma_journaled(before);
        let n = before.len() as int;
        assert(events[n] == events.last());
        assert forall|k: int| 0 <= k < events.len() implies journaled_of(events).contains_key(
            (#[trigger] events[k]).pre.event_id,
        ) && journaled_of(events)[events[k].pre.event_id] == events[k] by {
            if k < n {
                assert(before[k] == events[k]);
                assert(events[k].pre.event_id != events[n].pre.event_id);
            }
        }
        assert forall|id: Seq<char>| #[trigger] journaled_of(events).contains_key(id) implies exists|
            k: int,
        | 0 <= k < events.len() && (#[trigger] events[k]).pre.event_id == id by {
            if id == events[n].pre.event_id {
            } else {
                assert(journaled_of(before).contains_key(id));
                let k = choose|k: int|
                    0 <= k < before.len() && (#[trigger] before[k]).pre.event_id == id;
                assert(events[k] == before[k]);
            }
        }
    }
}

pub(crate) proof fn lemma_opened_wf(
    chain: Seq<ReceiptModel>,
    events: Seq<journal::EventModel>,
    macs: Seq<Seq<char>>,
    lens: (u64, u64),
    identities: (FileIdentity, FileIdentity),
)
    requires
        journal::distinct_events(events),
    ensures
        opened(chain, events, macs, lens, identities).wf(),
{
    lemma_journaled(events);
    let m = opened(chain, events, macs, lens, identities);
    assert forall|id: Seq<char>| #[trigger] m.journaled.contains_key(id) implies m.journaled[id].pre.event_id
        == id by {
        let k = choose|k: int|
            0 <= k < events.len() && (#[trigger] events[k]).pre.event_id == id;
        assert(m.journaled[events[k].pre.event_id] == events[k]);
    }
}

/// The journal, its siblings, their lock and their temporary files each keep
/// their names to themselves, and no other name is kept from a chain log.
pub proof fn law_evidence_files_keep_their_names(name: Seq<char>)
    ensures
        is_reserved(name) <==> name == "events.jsonl"@ || name == "events.tail"@ || name
            == "events.anchor"@ || name == "events.lock"@ || name == "events.tail"@ + ".tmp"@ || name
            == "events.anchor"@ + ".tmp"@,
{
    reveal_strlit("events.tail");
    reveal_strlit("events.anchor");
    reveal_strlit(".tmp");
    reveal_strlit("events.tail.tmp");
    reveal_strlit("events.anchor.tmp");
    assert("events.tail"@ + ".tmp"@ =~= "events.tail.tmp"@);
    assert("events.anchor"@ + ".tmp"@ =~= "events.anchor.tmp"@);
}

/// A step is that of an evaluated event exactly if it is `ev:` and some rest.
pub proof fn law_an_event_step_begins_with_its_mark(step_id: Seq<char>, rest: Seq<char>)
    ensures
        is_event_step("ev:"@ + rest),
        is_event_step(step_id) ==> step_id == "ev:"@ + step_id.skip(3),
{
    reveal_strlit("ev:");
    if is_event_step(step_id) {
        assert(step_id =~= "ev:"@ + step_id.skip(3));
    }
}

} // verus!
