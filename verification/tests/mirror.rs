//! The mirror of evaluated events, run over logs in memory, and the checks
//! that a restart makes.
use fused_runtime::emitter::ErMirrorEmitter;
use fused_runtime::journal::{
    EvidenceRecord, JournalFault, JournalReader, ParsedJournal, PostEffectRecord, PreEffectRecord,
};
use fused_runtime::mirror::{
    event_step, reserved_basename, verify_lock_inode, ChainedReceipt, FileIdentity, MirrorAction,
    MirrorEnd, MirrorEvent, MirrorFault, OpenFault, Reprojection,
};
use fused_runtime::recovery::{
    check_completeness, AnchorState, CheckpointState, RecoveryFault, Repair,
};

const CHAIN: FileIdentity = FileIdentity {
    device: 1,
    inode: 10,
};
const EVENTS: FileIdentity = FileIdentity {
    device: 1,
    inode: 11,
};

fn pre(id: &str) -> PreEffectRecord {
    PreEffectRecord {
        event_id: id.to_string(),
        content: format!("pre {id}"),
    }
}

fn post(id: &str) -> PostEffectRecord {
    PostEffectRecord {
        event_id: id.to_string(),
        content: format!("post {id}"),
    }
}

/// The files beside an emitter. The MAC of a line is its number and its text.
#[derive(Default)]
struct Disk {
    chain: Vec<String>,
    events: Vec<String>,
    macs: Vec<String>,
    records: Vec<(bool, String)>,
    checkpoint: Option<(u64, String)>,
    anchor: Option<(bool, u64, String)>,
    lock_lost: bool,
    fail_at: Option<MirrorAction>,
    foreign_bytes: u64,
}

fn size(lines: &[String]) -> u64 {
    lines.iter().map(|line| line.len() as u64 + 1).sum()
}

impl Disk {
    fn perform(
        &mut self,
        emitter: &ErMirrorEmitter,
        action: MirrorAction,
        record: &(bool, String),
    ) -> MirrorEvent {
        if self.fail_at == Some(action) {
            return MirrorEvent::Failed;
        }
        match action {
            MirrorAction::VerifyLock => {
                verify_lock_inode(Some(CHAIN), if self.lock_lost { None } else { Some(CHAIN) })
            }
            MirrorAction::Encode => MirrorEvent::Encoded {
                line: format!("{} {} {}", emitter.next_seq(), record.0, record.1),
                mac: format!("mac-{}-{}", emitter.next_seq(), record.1),
            },
            MirrorAction::Announce => {
                self.anchor = Some((false, emitter.next_seq(), emitter.mac().clone()));
                MirrorEvent::Done
            }
            MirrorAction::OpenEvents => MirrorEvent::Opened {
                identity: EVENTS,
                len: size(&self.events) + self.foreign_bytes,
            },
            MirrorAction::WriteEvents => {
                self.events.push(emitter.line().clone());
                self.macs.push(emitter.mac().clone());
                self.records.push(record.clone());
                MirrorEvent::Done
            }
            MirrorAction::WriteCheckpoint => {
                self.checkpoint = Some((emitter.next_seq(), emitter.mac().clone()));
                MirrorEvent::Done
            }
            MirrorAction::CommitAnchor => {
                self.anchor = Some((true, emitter.next_seq(), emitter.mac().clone()));
                MirrorEvent::Done
            }
            MirrorAction::Project => MirrorEvent::Projected {
                line: format!("er {}", record.1),
            },
            MirrorAction::OpenChain => MirrorEvent::Opened {
                identity: CHAIN,
                len: size(&self.chain),
            },
            MirrorAction::WriteChain => {
                self.chain.push(emitter.line().clone());
                MirrorEvent::Done
            }
            MirrorAction::Finish(_) => unreachable!(),
        }
    }

    fn drive(
        &mut self,
        emitter: &mut ErMirrorEmitter,
        first: MirrorAction,
        record: (bool, String),
    ) -> MirrorEnd {
        let mut action = first;
        loop {
            if let MirrorAction::Finish(end) = action {
                return end;
            }
            let event = self.perform(emitter, action, &record);
            action = emitter.advance(event);
        }
    }

    fn record_pre(&mut self, emitter: &mut ErMirrorEmitter, id: &str) -> MirrorEnd {
        let first = emitter.record_pre_effect(&pre(id));
        self.drive(emitter, first, (true, id.to_string()))
    }

    fn record_post(&mut self, emitter: &mut ErMirrorEmitter, id: &str) -> MirrorEnd {
        let first = emitter.record_post_effect(&post(id));
        self.drive(emitter, first, (false, id.to_string()))
    }

    fn mirror(&mut self, emitter: &mut ErMirrorEmitter, id: &str) -> MirrorEnd {
        let first = emitter.mirror_evaluated_event(&pre(id), &post(id));
        self.drive(emitter, first, (false, id.to_string()))
    }

    fn round(&mut self, emitter: &mut ErMirrorEmitter, id: &str) -> MirrorEnd {
        let first = emitter.mirror_committed_round(id.to_string());
        self.drive(emitter, first, (false, id.to_string()))
    }

    fn replay(&self) -> Result<ParsedJournal, JournalFault> {
        let log: String = self.events.iter().map(|line| format!("{line}\n")).collect();
        let mut reader = JournalReader::open(log.as_bytes())?;
        while reader.next_line().is_some() {
            let at = reader.sequence() as usize;
            let (first, id) = &self.records[at];
            let record = if *first {
                EvidenceRecord::PreEffect(pre(id))
            } else {
                EvidenceRecord::PostEffect(post(id))
            };
            reader.accept(self.macs[at].clone(), record)?;
        }
        Ok(reader.finish())
    }

    fn reopen(&self) -> ErMirrorEmitter {
        let chain: Vec<ChainedReceipt> = self
            .chain
            .iter()
            .map(|line| ChainedReceipt {
                step_id: line[3..].to_string(),
                line: line.clone(),
            })
            .collect();
        let answers: Vec<Reprojection> = chain.iter().map(|_| Reprojection::Same).collect();
        ErMirrorEmitter::open(
            chain,
            self.replay().unwrap(),
            &answers,
            (size(&self.chain), size(&self.events)),
            (CHAIN, EVENTS),
        )
        .unwrap()
    }

    fn completeness(&self) -> Result<Repair, RecoveryFault> {
        let checkpoint = match &self.checkpoint {
            Some((seq, mac)) => CheckpointState::At(*seq, mac.clone()),
            None => CheckpointState::Missing,
        };
        let anchor = match &self.anchor {
            Some((true, seq, mac)) => AnchorState::Committed(*seq, mac.clone()),
            Some((false, seq, mac)) => AnchorState::Pending(*seq, mac.clone()),
            None => AnchorState::Missing,
        };
        check_completeness(&self.macs, &checkpoint, &anchor)
    }
}

#[test]
fn an_event_is_recorded_before_and_after_and_mirrored_once() {
    let mut disk = Disk::default();
    let mut emitter = disk.reopen();
    assert_eq!(disk.record_pre(&mut emitter, "ev:1"), MirrorEnd::Completed);
    assert_eq!(disk.record_post(&mut emitter, "ev:1"), MirrorEnd::Completed);
    assert_eq!(disk.mirror(&mut emitter, "ev:1"), MirrorEnd::Completed);
    assert_eq!(disk.chain, vec!["er ev:1".to_string()]);
    assert_eq!(disk.mirror(&mut emitter, "ev:1"), MirrorEnd::Completed);
    assert_eq!(disk.chain.len(), 1);
    assert_eq!(emitter.next_seq(), 2);
    assert_eq!(emitter.tail_mac(), "mac-1-ev:1");
    assert_eq!(emitter.tail(), Some(&"er ev:1".to_string()));
    assert_eq!(disk.round(&mut emitter, "r1"), MirrorEnd::Completed);
    assert_eq!(disk.chain.len(), 2);
    assert_eq!(disk.completeness(), Ok(Repair::Nothing));
}

#[test]
fn nothing_is_signed_over_evidence_that_was_not_journaled() {
    let mut disk = Disk::default();
    let mut emitter = disk.reopen();
    assert_eq!(
        disk.mirror(&mut emitter, "ev:1"),
        MirrorEnd::Failed(MirrorFault::NotJournaled)
    );
    assert!(disk.chain.is_empty());
    assert_eq!(emitter.poisoned(), Some(MirrorFault::NotJournaled));
    assert_eq!(
        disk.record_pre(&mut emitter, "ev:2"),
        MirrorEnd::Poisoned(MirrorFault::NotJournaled)
    );
    assert!(disk.events.is_empty());
}

#[test]
fn records_out_of_order_poison_the_mirror() {
    let mut disk = Disk::default();
    let mut emitter = disk.reopen();
    disk.record_pre(&mut emitter, "ev:1");
    assert_eq!(
        disk.record_pre(&mut emitter, "ev:1"),
        MirrorEnd::Failed(MirrorFault::DuplicatePre)
    );
    let mut other = Disk::default();
    let mut emitter = other.reopen();
    assert_eq!(
        other.record_post(&mut emitter, "ev:1"),
        MirrorEnd::Failed(MirrorFault::PostWithoutPre)
    );
}

#[test]
fn a_changed_log_or_a_lost_lock_stops_the_mirror() {
    let mut disk = Disk::default();
    let mut emitter = disk.reopen();
    disk.foreign_bytes = 5;
    assert_eq!(
        disk.record_pre(&mut emitter, "ev:1"),
        MirrorEnd::Failed(MirrorFault::EventsChanged)
    );
    let mut disk = Disk::default();
    let mut emitter = disk.reopen();
    disk.lock_lost = true;
    assert_eq!(
        disk.round(&mut emitter, "r1"),
        MirrorEnd::Failed(MirrorFault::LockLost)
    );
    assert!(matches!(
        verify_lock_inode(Some(CHAIN), Some(EVENTS)),
        MirrorEvent::LockLost
    ));
}

#[test]
fn every_failed_write_stops_the_mirror_with_its_own_fault() {
    let cases = [
        (MirrorAction::Announce, MirrorFault::AnchorWrite),
        (MirrorAction::OpenEvents, MirrorFault::EventsOpen),
        (MirrorAction::WriteEvents, MirrorFault::EventsAppend),
        (MirrorAction::WriteCheckpoint, MirrorFault::CheckpointWrite),
        (MirrorAction::CommitAnchor, MirrorFault::AnchorWrite),
    ];
    for (action, fault) in cases {
        let mut disk = Disk::default();
        let mut emitter = disk.reopen();
        disk.fail_at = Some(action);
        assert_eq!(
            disk.record_pre(&mut emitter, "ev:1"),
            MirrorEnd::Failed(fault)
        );
    }
    let cases = [
        (MirrorAction::Project, MirrorFault::Projection),
        (MirrorAction::OpenChain, MirrorFault::ChainOpen),
        (MirrorAction::WriteChain, MirrorFault::ChainAppend),
    ];
    for (action, fault) in cases {
        let mut disk = Disk::default();
        let mut emitter = disk.reopen();
        disk.fail_at = Some(action);
        assert_eq!(disk.round(&mut emitter, "r1"), MirrorEnd::Failed(fault));
    }
}

#[test]
fn a_stranded_event_gets_its_receipt_at_the_next_start() {
    let mut disk = Disk::default();
    let mut emitter = disk.reopen();
    disk.record_pre(&mut emitter, "ev:1");
    disk.record_post(&mut emitter, "ev:1");
    disk.record_pre(&mut emitter, "ev:2");

    let mut again = disk.reopen();
    while let Some(stranded) = again.next_stranded() {
        let id = stranded.pre.event_id.clone();
        let first = again.sweep();
        assert_eq!(
            disk.drive(&mut again, first, (false, id)),
            MirrorEnd::Completed
        );
    }
    assert!(disk.chain.contains(&"er ev:1".to_string()));
    let chained = disk.chain.clone();
    let mut third = disk.reopen();
    while third.next_stranded().is_some() {
        let first = third.sweep();
        assert_eq!(
            disk.drive(&mut third, first, (false, "ev:2".to_string())),
            MirrorEnd::Completed
        );
    }
    assert_eq!(disk.chain, chained);
}

#[test]
fn a_chain_without_its_evidence_is_not_opened() {
    let chain = || {
        vec![ChainedReceipt {
            step_id: "ev:1".to_string(),
            line: "er ev:1".to_string(),
        }]
    };
    let empty = || ParsedJournal {
        events: Vec::new(),
        macs: Vec::new(),
    };
    assert!(matches!(
        ErMirrorEmitter::open(
            chain(),
            empty(),
            &vec![Reprojection::Same],
            (8, 0),
            (CHAIN, EVENTS)
        ),
        Err(OpenFault::MissingEvidence(0))
    ));
    assert!(matches!(
        ErMirrorEmitter::open(Vec::new(), empty(), &Vec::new(), (0, 0), (CHAIN, CHAIN)),
        Err(OpenFault::SameFile)
    ));
    let mut disk = Disk::default();
    let mut emitter = disk.reopen();
    disk.record_pre(&mut emitter, "ev:1");
    for (answer, at) in [
        (Reprojection::Different, OpenFault::NotReproduced(0)),
        (Reprojection::Failed, OpenFault::NotProjected(0)),
    ] {
        match ErMirrorEmitter::open(
            chain(),
            disk.replay().unwrap(),
            &vec![answer],
            (8, 8),
            (CHAIN, EVENTS),
        ) {
            Err(fault) => assert_eq!(fault, at),
            Ok(_) => panic!("a receipt that is not reproduced is refused"),
        }
    }
}

#[test]
fn what_a_crash_left_is_recovered_or_refused() {
    let steps = [
        (MirrorAction::Announce, Ok(Repair::Nothing)),
        (MirrorAction::OpenEvents, Err(RecoveryFault::PendingMissing)),
        (MirrorAction::WriteCheckpoint, Ok(Repair::AdvanceBoth)),
        (MirrorAction::CommitAnchor, Ok(Repair::AdvanceAnchor)),
    ];
    for (crash, expected) in steps {
        let mut disk = Disk::default();
        let mut emitter = disk.reopen();
        disk.record_pre(&mut emitter, "ev:1");
        disk.fail_at = Some(crash);
        disk.record_post(&mut emitter, "ev:1");
        assert_eq!(disk.completeness(), expected, "crash at {crash:?}");
    }
}

#[test]
fn a_truncated_or_replaced_journal_is_refused() {
    let mut disk = Disk::default();
    let mut emitter = disk.reopen();
    disk.record_pre(&mut emitter, "ev:1");
    disk.record_post(&mut emitter, "ev:1");
    let mut cut = disk.macs.clone();
    cut.pop();
    let checkpoint = CheckpointState::At(1, "mac-1-ev:1".to_string());
    let anchor = AnchorState::Committed(1, "mac-1-ev:1".to_string());
    assert_eq!(
        check_completeness(&disk.macs, &checkpoint, &anchor),
        Ok(Repair::Nothing)
    );
    assert!(check_completeness(&cut, &checkpoint, &anchor).is_err());
    assert_eq!(
        check_completeness(&disk.macs, &CheckpointState::Missing, &anchor),
        Err(RecoveryFault::CheckpointMissing)
    );
    assert_eq!(
        check_completeness(&disk.macs, &CheckpointState::Unreadable, &anchor),
        Err(RecoveryFault::CheckpointUnreadable)
    );
    assert_eq!(
        check_completeness(&disk.macs, &CheckpointState::Invalid, &anchor),
        Err(RecoveryFault::CheckpointInvalid)
    );
    assert_eq!(
        check_completeness(&Vec::new(), &checkpoint, &anchor),
        Err(RecoveryFault::CheckpointWithoutJournal)
    );
    assert_eq!(
        check_completeness(&disk.macs, &checkpoint, &AnchorState::Unreadable),
        Err(RecoveryFault::AnchorUnreadable)
    );
    assert_eq!(
        check_completeness(&disk.macs, &checkpoint, &AnchorState::Invalid),
        Err(RecoveryFault::AnchorInvalid)
    );
    let replaced = vec!["mac-0-ev:1".to_string(), "forged".to_string()];
    assert_eq!(
        check_completeness(&replaced, &checkpoint, &anchor),
        Err(RecoveryFault::TailMismatch)
    );
}

#[test]
fn a_journal_that_does_not_add_up_is_refused() {
    assert!(matches!(
        JournalReader::open(b"line"),
        Err(JournalFault::Torn)
    ));
    assert!(matches!(
        JournalReader::open(&[0xff, 0x0a]),
        Err(JournalFault::NotUtf8)
    ));
    let mut reader = JournalReader::open(b"a\nb\nc\nd\n").unwrap();
    assert_eq!(reader.next_line(), Some(&"a".to_string()));
    assert_eq!(reader.previous_mac(), "");
    assert_eq!(reader.rejected(), JournalFault::LineRejected(0));
    reader
        .accept("m0".to_string(), EvidenceRecord::PreEffect(pre("ev:1")))
        .unwrap();
    assert_eq!(reader.previous_mac(), "m0");
    assert_eq!(
        reader.accept("m1".to_string(), EvidenceRecord::PreEffect(pre("ev:1"))),
        Err(JournalFault::DuplicatePre(1))
    );

    let mut reader = JournalReader::open(b"a\nb\nc\n").unwrap();
    assert_eq!(
        reader.accept("m0".to_string(), EvidenceRecord::PostEffect(post("ev:1"))),
        Err(JournalFault::PostWithoutPre(0))
    );
    let mut reader = JournalReader::open(b"a\nb\nc\n").unwrap();
    reader
        .accept("m0".to_string(), EvidenceRecord::PreEffect(pre("ev:1")))
        .unwrap();
    reader
        .accept("m1".to_string(), EvidenceRecord::PostEffect(post("ev:1")))
        .unwrap();
    assert_eq!(
        reader.accept("m2".to_string(), EvidenceRecord::PostEffect(post("ev:1"))),
        Err(JournalFault::DuplicatePost(2))
    );
}

#[test]
fn reserved_names_and_event_steps_are_told_apart() {
    assert!(reserved_basename("events.jsonl"));
    assert!(reserved_basename("events.anchor.tmp"));
    assert!(!reserved_basename("chain.jsonl"));
    assert!(event_step("ev:1"));
    assert!(!event_step("e1"));
    assert!(!event_step("0b8e"));
}
