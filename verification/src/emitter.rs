//! The mirror's decisions, as executable code.
use crate::journal;
use crate::journal::{JournaledEvent, ParsedJournal, PostEffectRecord, PreEffectRecord};
use crate::mirror;
use crate::mirror::{
    event_step, ChainedReceipt, FileIdentity, MirrorAction, MirrorEnd, MirrorEvent, MirrorFault,
    OpenFault, Operation, Reprojection, Stage,
};
use crate::text;
use vstd::hash_map::StringHashMap;
use vstd::hash_set::StringHashSet;
use vstd::prelude::*;

verus! {

/// The mirror of committed rounds and evaluated events.
pub struct ErMirrorEmitter {
    tail: Option<String>,
    chain_len: u64,
    events_len: u64,
    chain_identity: FileIdentity,
    events_identity: FileIdentity,
    next_seq: u64,
    tail_mac: String,
    chained: StringHashSet,
    open: StringHashSet,
    closed: StringHashSet,
    journaled: StringHashMap<JournaledEvent>,
    events: Vec<JournaledEvent>,
    swept: usize,
    poisoned: Option<MirrorFault>,
    stage: Stage,
    operation: Operation,
    line: String,
    mac: String,
}

/// A map of events as models.
spec fn journaled_view(journaled: Map<Seq<char>, JournaledEvent>) -> Map<
    Seq<char>,
    journal::EventModel,
> {
    journaled.map_values(|event: JournaledEvent| event@)
}

impl View for ErMirrorEmitter {
    type V = mirror::MirrorModel;

    closed spec fn view(&self) -> mirror::MirrorModel {
        mirror::MirrorModel {
            tail: match self.tail {
                Some(line) => Some(line@),
                None => None,
            },
            chain_len: self.chain_len,
            events_len: self.events_len,
            chain_identity: self.chain_identity,
            events_identity: self.events_identity,
            next_seq: self.next_seq,
            tail_mac: self.tail_mac@,
            chained: self.chained@,
            open: self.open@,
            closed: self.closed@,
            journaled: journaled_view(self.journaled@),
            backlog: journal::event_views(self.events@).skip(self.swept as int),
            poisoned: self.poisoned,
            stage: self.stage,
            operation: self.operation@,
            line: self.line@,
            mac: self.mac@,
        }
    }
}

impl ErMirrorEmitter {
    /// The mirror is in a state that its operations lead to.
    pub closed spec fn wf(self) -> bool {
        self@.wf() && self.swept <= self.events@.len()
    }

    /// Opens the mirror over a verified chain and a checked journal. Every
    /// event's receipt in the chain must have records in the journal from
    /// which it comes out again; `answers` says what projecting them gave. The
    /// journal's events are then to be swept before anything else is mirrored.
    pub fn open(
        chain: Vec<ChainedReceipt>,
        journal: ParsedJournal,
        answers: &Vec<Reprojection>,
        lens: (u64, u64),
        identities: (FileIdentity, FileIdentity),
    ) -> (r: Result<ErMirrorEmitter, OpenFault>)
        requires
            answers@.len() == chain@.len(),
            journal::distinct_events(journal::event_views(journal.events@)),
        ensures
            ({
                let receipts = mirror::receipt_views(chain@);
                let events = journal::event_views(journal.events@);
                let macs = text::text_views(journal.macs@);
                if identities.0 == identities.1 {
                    r == Err::<ErMirrorEmitter, OpenFault>(OpenFault::SameFile)
                } else {
                    match mirror::chain_fault(
                        receipts,
                        mirror::journaled_of(events),
                        answers@,
                        0,
                    ) {
                        Some(fault) => r == Err::<ErMirrorEmitter, OpenFault>(fault),
                        None => r matches Ok(emitter) && (emitter.wf() && emitter@
                            == mirror::opened(receipts, events, macs, lens, identities)),
                    }
                }
            }),
    {
        if identities.0 == identities.1 {
            return Err(OpenFault::SameFile);
        }
        let ghost receipts = mirror::receipt_views(chain@);
        let ghost events = journal::event_views(journal.events@);
        let mut journaled: StringHashMap<JournaledEvent> = StringHashMap::new();
        let mut k: usize = 0;
        assert(journaled_view(journaled@) =~= mirror::journaled_of(events.take(0)));
        while k < journal.events.len()
            invariant
                k <= journal.events@.len(),
                events == journal::event_views(journal.events@),
                journaled_view(journaled@) == mirror::journaled_of(events.take(k as int)),
            decreases journal.events@.len() - k,
        {
            let ghost before = journaled@;
            let event: JournaledEvent = journal.events[k].clone();
            let ghost entry = event@;
            let id: String = event.pre.event_id.clone();
            journaled.insert(id, event);
            proof {
                assert(entry == events[k as int]);
                assert(journaled_view(journaled@) =~= journaled_view(before).insert(
                    entry.pre.event_id,
                    entry,
                ));
                assert(events.take(k + 1).drop_last() =~= events.take(k as int));
            }
            k = k + 1;
        }
        assert(events.take(k as int) =~= events);
        let mut chained: StringHashSet = StringHashSet::new();
        let mut i: usize = 0;
        assert(chained@ =~= mirror::steps_of(receipts.take(0)));
        while i < chain.len()
            invariant
                i <= chain@.len(),
                answers@.len() == chain@.len(),
                identities.0 != identities.1,
                receipts == mirror::receipt_views(chain@),
                events == journal::event_views(journal.events@),
                chained@ == mirror::steps_of(receipts.take(i as int)),
                journaled_view(journaled@) == mirror::journaled_of(events),
                mirror::chain_fault(receipts, mirror::journaled_of(events), answers@, 0)
                    == mirror::chain_fault(
                    receipts,
                    mirror::journaled_of(events),
                    answers@,
                    i as int,
                ),
            decreases chain@.len() - i,
        {
            assert(receipts[i as int] == chain@[i as int]@);
            let step_id: &String = &chain[i].step_id;
            if event_step(step_id.as_str()) {
                assert(journaled_view(journaled@).contains_key(step_id@)
                    == journaled@.contains_key(step_id@));
                if !journaled.contains_key(step_id.as_str()) {
                    return Err(OpenFault::MissingEvidence(i as u64));
                }
                match answers[i] {
                    Reprojection::Same => {},
                    Reprojection::Different => {
                        return Err(OpenFault::NotReproduced(i as u64));
                    },
                    Reprojection::Failed => {
                        return Err(OpenFault::NotProjected(i as u64));
                    },
                }
            }
            chained.insert(step_id.clone());
            assert(receipts.take(i + 1).drop_last() =~= receipts.take(i as int));
            i = i + 1;
        }
        assert(receipts.take(i as int) =~= receipts);
        let tail: Option<String> = if chain.len() == 0 {
            None
        } else {
            assert(receipts.last() == chain@.last()@);
            Some(chain[chain.len() - 1].line.clone())
        };
        let tail_mac: String = if journal.macs.len() == 0 {
            String::new()
        } else {
            journal.macs[journal.macs.len() - 1].clone()
        };
        let emitter = ErMirrorEmitter {
            tail,
            chain_len: lens.0,
            events_len: lens.1,
            chain_identity: identities.0,
            events_identity: identities.1,
            next_seq: journal.macs.len() as u64,
            tail_mac,
            chained,
            open: StringHashSet::new(),
            closed: StringHashSet::new(),
            journaled,
            events: journal.events,
            swept: 0,
            poisoned: None,
            stage: Stage::Idle,
            operation: Operation::Rest,
            line: String::new(),
            mac: String::new(),
        };
        proof {
            let macs = text::text_views(journal.macs@);
            mirror::lemma_opened_wf(receipts, events, macs, lens, identities);
            assert(events.skip(0) =~= events);
            assert(emitter@ =~= mirror::opened(receipts, events, macs, lens, identities));
        }
        Ok(emitter)
    }

    /// The sequence number of the next journal line.
    pub fn next_seq(&self) -> (r: u64)
        ensures
            r == self@.next_seq,
    {
        self.next_seq
    }

    /// The chain MAC of the last journal line, which the next one is linked to.
    pub fn tail_mac(&self) -> (r: &String)
        ensures
            r@ == self@.tail_mac,
    {
        &self.tail_mac
    }

    /// The last receipt of the chain, which the next one is linked to.
    pub fn tail(&self) -> (r: Option<&String>)
        ensures
            match r {
                Some(line) => self@.tail == Some(line@),
                None => self@.tail is None,
            },
    {
        match &self.tail {
            Some(line) => Some(line),
            None => None,
        }
    }

    /// The line that is being written.
    pub fn line(&self) -> (r: &String)
        ensures
            r@ == self@.line,
    {
        &self.line
    }

    /// The chain MAC of the journal line that is being written.
    pub fn mac(&self) -> (r: &String)
        ensures
            r@ == self@.mac,
    {
        &self.mac
    }

    /// The fault that stopped the mirror.
    pub fn poisoned(&self) -> (r: Option<MirrorFault>)
        ensures
            r == self@.poisoned,
    {
        self.poisoned
    }

    /// The next event to sweep.
    pub fn next_stranded(&self) -> (r: Option<&JournaledEvent>)
        requires
            self.wf(),
        ensures
            match r {
                Some(event) => self@.backlog.len() > 0 && event@ == self@.backlog[0],
                None => self@.backlog.len() == 0,
            },
    {
        if self.swept < self.events.len() {
            assert(self@.backlog[0] == self.events@[self.swept as int]@);
            Some(&self.events[self.swept])
        } else {
            None
        }
    }

    fn poison(&mut self, fault: MirrorFault) -> (r: MirrorAction)
        requires
            old(self).swept <= old(self).events@.len(),
        ensures
            (final(self)@, r) == old(self)@.poison(fault),
            final(self).swept <= final(self).events@.len(),
    {
        self.poisoned = Some(fault);
        self.stage = Stage::Idle;
        self.operation = Operation::Rest;
        MirrorAction::Finish(MirrorEnd::Failed(fault))
    }

    fn finish(&mut self) -> (r: MirrorAction)
        requires
            old(self).swept <= old(self).events@.len(),
        ensures
            (final(self)@, r) == old(self)@.finished(),
            final(self).swept <= final(self).events@.len(),
    {
        self.stage = Stage::Idle;
        self.operation = Operation::Rest;
        MirrorAction::Finish(MirrorEnd::Completed)
    }

    fn begin(&mut self, operation: Operation) -> (r: MirrorAction)
        requires
            old(self).wf(),
            old(self)@.stage == Stage::Idle,
            old(self)@.backlog.len() == 0,
            !(operation is Rest),
            !(operation is Sweep),
        ensures
            final(self).wf(),
            (final(self)@, r) == old(self)@.start(operation@),
    {
        if let Some(fault) = self.poisoned {
            return MirrorAction::Finish(MirrorEnd::Poisoned(fault));
        }
        let ghost before = self@;
        self.operation = operation;
        self.stage = Stage::Locking;
        assert(self@ =~= before.start(operation@).0);
        MirrorAction::VerifyLock
    }

    /// Begins to record an event before its effect.
    pub fn record_pre_effect(&mut self, record: &PreEffectRecord) -> (r: MirrorAction)
        requires
            old(self).wf(),
            old(self)@.stage == Stage::Idle,
            old(self)@.backlog.len() == 0,
        ensures
            final(self).wf(),
            (final(self)@, r) == old(self)@.start(mirror::OperationModel::Pre(record@)),
    {
        self.begin(Operation::Pre(record.clone()))
    }

    /// Begins to record what was observed at the end of an event.
    pub fn record_post_effect(&mut self, record: &PostEffectRecord) -> (r: MirrorAction)
        requires
            old(self).wf(),
            old(self)@.stage == Stage::Idle,
            old(self)@.backlog.len() == 0,
        ensures
            final(self).wf(),
            (final(self)@, r) == old(self)@.start(mirror::OperationModel::Post(record@)),
    {
        self.begin(Operation::Post(record.clone()))
    }

    /// Begins to chain the receipt of an evaluated event.
    pub fn mirror_evaluated_event(
        &mut self,
        pre: &PreEffectRecord,
        post: &PostEffectRecord,
    ) -> (r: MirrorAction)
        requires
            old(self).wf(),
            old(self)@.stage == Stage::Idle,
            old(self)@.backlog.len() == 0,
        ensures
            final(self).wf(),
            (final(self)@, r) == old(self)@.start(mirror::OperationModel::Event(pre@, post@)),
    {
        self.begin(Operation::Event(pre.clone(), post.clone()))
    }

    /// Begins to chain the receipt of a committed round.
    pub fn mirror_committed_round(&mut self, step_id: String) -> (r: MirrorAction)
        requires
            old(self).wf(),
            old(self)@.stage == Stage::Idle,
            old(self)@.backlog.len() == 0,
        ensures
            final(self).wf(),
            (final(self)@, r) == old(self)@.start(mirror::OperationModel::Round(step_id@)),
    {
        self.begin(Operation::Round(step_id))
    }

    fn mark_event_recorded(&mut self)
        requires
            old(self).swept < old(self).events@.len(),
        ensures
            final(self)@ == old(self)@.swept(old(self)@.backlog[0]),
            final(self).swept <= final(self).events@.len(),
    {
        let ghost before = self@;
        assert(before.backlog[0] == self.events@[self.swept as int]@);
        let id: String = self.events[self.swept].pre.event_id.clone();
        if self.events[self.swept].post.is_some() {
            self.closed.insert(id);
        } else {
            self.open.insert(id);
        }
        assert(self.swept < self.events.len());
        self.swept = self.swept + 1;
        assert(self@.backlog =~= before.backlog.drop_first());
        assert(self@ =~= before.swept(before.backlog[0]));
    }

    /// Begins to sweep the next event that an earlier process left.
    pub fn sweep(&mut self) -> (r: MirrorAction)
        requires
            old(self).wf(),
            old(self)@.stage == Stage::Idle,
            old(self)@.backlog.len() > 0,
        ensures
            final(self).wf(),
            (final(self)@, r) == old(self)@.start_sweep(),
    {
        if let Some(fault) = self.poisoned {
            return MirrorAction::Finish(MirrorEnd::Poisoned(fault));
        }
        assert(self@.backlog[0] == self.events@[self.swept as int]@);
        if self.chained.contains(self.events[self.swept].pre.event_id.as_str()) {
            proof {
                mirror::lemma_swept_wf(self@);
            }
            self.mark_event_recorded();
            self.finish()
        } else {
            self.operation = Operation::Sweep(self.events[self.swept].clone());
            self.stage = Stage::Projecting;
            MirrorAction::Project
        }
    }

    fn locked(&mut self) -> (r: MirrorAction)
        requires
            old(self).wf(),
            old(self)@.stage == Stage::Locking,
        ensures
            (final(self)@, r) == old(self)@.locked(),
            final(self).swept <= final(self).events@.len(),
    {
        let ghost before = self@;
        let mut fault: Option<MirrorFault> = None;
        let mut done: bool = false;
        let mut encodes: bool = false;
        match &self.operation {
            Operation::Pre(pre) => {
                encodes = true;
                let id: &str = pre.event_id.as_str();
                if self.open.contains(id) || self.closed.contains(id) {
                    fault = Some(MirrorFault::DuplicatePre);
                }
            },
            Operation::Post(post) => {
                encodes = true;
                if !self.open.contains(post.event_id.as_str()) {
                    fault = Some(MirrorFault::PostWithoutPre);
                }
            },
            Operation::Event(pre, post) => {
                let id: &str = pre.event_id.as_str();
                if self.chained.contains(id) {
                    done = true;
                } else {
                    let ghost key = pre.event_id@;
                    let same: bool = match self.journaled.get(id) {
                        Some(event) => {
                            assert(before.journaled[key] == event@);
                            match &event.post {
                                Some(known) => event.pre.same(pre) && known.same(post),
                                None => false,
                            }
                        },
                        None => false,
                    };
                    if !same {
                        fault = Some(MirrorFault::NotJournaled);
                    }
                }
            },
            _ => {},
        }
        match fault {
            Some(fault) => self.poison(fault),
            None => {
                if done {
                    self.finish()
                } else if encodes {
                    self.stage = Stage::Encoding;
                    MirrorAction::Encode
                } else {
                    self.stage = Stage::Projecting;
                    MirrorAction::Project
                }
            },
        }
    }

    fn size_of_line(&self) -> (r: u64)
        requires
            mirror::line_size(self.line@) <= u64::MAX,
        ensures
            r == mirror::line_size(self.line@),
    {
        self.line.as_str().as_bytes().len() as u64 + 1
    }

    fn recorded(&mut self)
        requires
            old(self).wf(),
            old(self)@.stage == Stage::Committing,
        ensures
            final(self)@ == old(self)@.recorded(),
            final(self).swept <= final(self).events@.len(),
    {
        let ghost before = self@;
        let ghost old_journaled = self.journaled@;
        self.next_seq = self.next_seq + 1;
        self.tail_mac = self.mac.clone();
        match &self.operation {
            Operation::Pre(pre) => {
                let event = JournaledEvent { pre: pre.clone(), post: None };
                let ghost entry = event@;
                let ghost key = pre.event_id@;
                self.journaled.insert(pre.event_id.clone(), event);
                self.open.insert(pre.event_id.clone());
                assert(journaled_view(self.journaled@) =~= journaled_view(old_journaled).insert(
                    key,
                    entry,
                ));
            },
            Operation::Post(post) => {
                let ghost key = post.event_id@;
                let known: PreEffectRecord = match self.journaled.get(post.event_id.as_str()) {
                    Some(event) => {
                        assert(before.journaled[key] == event@);
                        event.pre.clone()
                    },
                    None => {
                        assert(before.journaled.contains_key(key));
                        vstd::pervasive::unreached()
                    },
                };
                let event = JournaledEvent { pre: known, post: Some(post.clone()) };
                let ghost entry = event@;
                self.journaled.insert(post.event_id.clone(), event);
                self.open.remove(post.event_id.as_str());
                self.closed.insert(post.event_id.clone());
                assert(journaled_view(self.journaled@) =~= journaled_view(old_journaled).insert(
                    key,
                    entry,
                ));
            },
            _ => {},
        }
        assert(self@ =~= before.recorded());
    }

    fn chained_line(&mut self)
        requires
            old(self).wf(),
            old(self)@.stage == Stage::WritingChain,
        ensures
            final(self)@ == old(self)@.chained_line(),
            final(self).swept <= final(self).events@.len(),
    {
        let ghost before = self@;
        let size: u64 = self.size_of_line();
        self.chain_len = self.chain_len + size;
        let step_id: String = match &self.operation {
            Operation::Event(pre, _) => pre.event_id.clone(),
            Operation::Sweep(event) => event.pre.event_id.clone(),
            Operation::Round(step_id) => step_id.clone(),
            _ => String::new(),
        };
        assert(step_id@ =~= before.operation.step_id());
        self.chained.insert(step_id);
        self.tail = Some(self.line.clone());
        let sweeps: bool = matches!(self.operation, Operation::Sweep(_));
        if sweeps {
            self.mark_event_recorded();
        }
        assert(self@ =~= before.chained_line());
    }

    /// Takes the result of the last action and says what to do next.
    pub fn advance(&mut self, event: MirrorEvent) -> (r: MirrorAction)
        requires
            old(self).wf(),
            old(self)@.expects(event),
        ensures
            final(self).wf(),
            (final(self)@, r) == old(self)@.next(event),
    {
        proof {
            mirror::law_mirror_stays_well_formed(self@, event);
        }
        match self.stage {
            Stage::Idle => MirrorAction::Finish(MirrorEnd::Completed),
            Stage::Locking => match event {
                MirrorEvent::LockHeld => self.locked(),
                _ => self.poison(MirrorFault::LockLost),
            },
            Stage::Encoding => match event {
                MirrorEvent::Encoded { line, mac } => {
                    self.line = line;
                    self.mac = mac;
                    self.stage = Stage::Announcing;
                    MirrorAction::Announce
                },
                _ => {
                    self.stage = Stage::Idle;
                    self.operation = Operation::Rest;
                    MirrorAction::Finish(MirrorEnd::NotEncoded)
                },
            },
            Stage::Announcing => match event {
                MirrorEvent::Done => {
                    self.stage = Stage::OpeningEvents;
                    MirrorAction::OpenEvents
                },
                _ => self.poison(MirrorFault::AnchorWrite),
            },
            Stage::OpeningEvents => match event {
                MirrorEvent::Opened { identity, len } => {
                    if identity != self.events_identity {
                        self.poison(MirrorFault::EventsReplaced)
                    } else if len != self.events_len {
                        self.poison(MirrorFault::EventsChanged)
                    } else {
                        self.stage = Stage::WritingEvents;
                        MirrorAction::WriteEvents
                    }
                },
                _ => self.poison(MirrorFault::EventsOpen),
            },
            Stage::WritingEvents => match event {
                MirrorEvent::Done => {
                    let size: u64 = self.size_of_line();
                    self.events_len = self.events_len + size;
                    self.stage = Stage::Checkpointing;
                    MirrorAction::WriteCheckpoint
                },
                _ => self.poison(MirrorFault::EventsAppend),
            },
            Stage::Checkpointing => match event {
                MirrorEvent::Done => {
                    self.stage = Stage::Committing;
                    MirrorAction::CommitAnchor
                },
                _ => self.poison(MirrorFault::CheckpointWrite),
            },
            Stage::Committing => match event {
                MirrorEvent::Done => {
                    self.recorded();
                    self.finish()
                },
                _ => self.poison(MirrorFault::AnchorWrite),
            },
            Stage::Projecting => match event {
                MirrorEvent::Projected { line } => {
                    self.line = line;
                    let sweeps: bool = matches!(self.operation, Operation::Sweep(_));
                    if sweeps {
                        self.stage = Stage::Relocking;
                        MirrorAction::VerifyLock
                    } else {
                        self.stage = Stage::OpeningChain;
                        MirrorAction::OpenChain
                    }
                },
                _ => self.poison(MirrorFault::Projection),
            },
            Stage::Relocking => match event {
                MirrorEvent::LockHeld => {
                    self.stage = Stage::OpeningChain;
                    MirrorAction::OpenChain
                },
                _ => self.poison(MirrorFault::LockLost),
            },
            Stage::OpeningChain => match event {
                MirrorEvent::Opened { identity, len } => {
                    if identity != self.chain_identity {
                        self.poison(MirrorFault::ChainReplaced)
                    } else if len != self.chain_len {
                        self.poison(MirrorFault::ChainChanged)
                    } else {
                        self.stage = Stage::WritingChain;
                        MirrorAction::WriteChain
                    }
                },
                _ => self.poison(MirrorFault::ChainOpen),
            },
            Stage::WritingChain => match event {
                MirrorEvent::Done => {
                    self.chained_line();
                    self.finish()
                },
                _ => self.poison(MirrorFault::ChainAppend),
            },
        }
    }
}

} // verus!
