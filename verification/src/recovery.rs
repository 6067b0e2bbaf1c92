//! The completeness check of the evidence journal.
//!
//! Each journal line carries a chain MAC. Beside the journal stand two
//! authenticated siblings: the tail checkpoint and the tail anchor. An append
//! writes in the order pending anchor, journal line, checkpoint, committed
//! anchor. What is found at an open is accepted only if a crash somewhere in
//! that order explains it, and is then brought back to the settled form.
use vstd::prelude::*;

verus! {

/// What was found where the tail checkpoint belongs.
#[derive(Debug)]
pub enum CheckpointState {
    Missing,
    Unreadable,
    /// Its text or its MAC does not verify.
    Invalid,
    /// The sequence number and chain MAC of the last committed line.
    At(u64, String),
}

/// What was found where the tail anchor belongs.
#[derive(Debug)]
pub enum AnchorState {
    Missing,
    Unreadable,
    /// Its text or its MAC does not verify.
    Invalid,
    /// The anchor of a store that never began an append.
    Null,
    /// An append was announced.
    Pending(u64, String),
    /// An append was completed.
    Committed(u64, String),
}

/// The checkpoint over mathematical values.
#[verifier::ext_equal]
pub ghost enum CheckpointModel {
    Missing,
    Unreadable,
    Invalid,
    At(nat, Seq<char>),
}

/// The anchor over mathematical values.
#[verifier::ext_equal]
pub ghost enum AnchorModel {
    Missing,
    Unreadable,
    Invalid,
    Null,
    Pending(nat, Seq<char>),
    Committed(nat, Seq<char>),
}

impl View for CheckpointState {
    type V = CheckpointModel;

    open spec fn view(&self) -> CheckpointModel {
        match *self {
            CheckpointState::Missing => CheckpointModel::Missing,
            CheckpointState::Unreadable => CheckpointModel::Unreadable,
            CheckpointState::Invalid => CheckpointModel::Invalid,
            CheckpointState::At(seq, mac) => CheckpointModel::At(seq as nat, mac@),
        }
    }
}

impl View for AnchorState {
    type V = AnchorModel;

    open spec fn view(&self) -> AnchorModel {
        match *self {
            AnchorState::Missing => AnchorModel::Missing,
            AnchorState::Unreadable => AnchorModel::Unreadable,
            AnchorState::Invalid => AnchorModel::Invalid,
            AnchorState::Null => AnchorModel::Null,
            AnchorState::Pending(seq, mac) => AnchorModel::Pending(seq as nat, mac@),
            AnchorState::Committed(seq, mac) => AnchorModel::Committed(seq as nat, mac@),
        }
    }
}

/// What an open writes before anything is replayed.
#[derive(Clone, Copy, Debug, PartialEq, Eq, Structural)]
pub enum Repair {
    Nothing,
    /// First initialization: write the null anchor.
    CreateAnchor,
    /// Write the committed anchor of the tail line.
    AdvanceAnchor,
    /// Write the checkpoint, then the committed anchor, of the tail line.
    AdvanceBoth,
}

/// Why an evidence store is not replayed.
#[derive(Clone, Copy, Debug, PartialEq, Eq, Structural)]
pub enum RecoveryFault {
    /// The journal is empty but a checkpoint exists: it was deleted.
    CheckpointWithoutJournal,
    CheckpointUnreadable,
    CheckpointInvalid,
    /// No checkpoint over a journal of more than one line.
    CheckpointMissing,
    /// The journal does not end where the checkpoint says.
    TailMismatch,
    /// One line is not checkpointed and the anchor did not announce it.
    NotAnnounced,
    AnchorUnreadable,
    AnchorInvalid,
    /// The journal has lines but no anchor.
    AnchorMissing,
    /// The null anchor over a journal with lines.
    AnchorRestored,
    /// An announced line is not in the journal.
    PendingMissing,
    /// The announced MAC is not that of the line.
    PendingMismatch,
    /// The announced line is not the last one.
    PendingNotTail,
    /// The committed anchor is neither the tail nor its predecessor.
    AnchorMismatch,
}

/// The answer where one line is journaled but not checkpointed: it must be
/// exactly the line that the anchor announced.
pub open spec fn announced_repair(macs: Seq<Seq<char>>, anchor: AnchorModel) -> Result<
    Repair,
    RecoveryFault,
> {
    match anchor {
        AnchorModel::Missing | AnchorModel::Unreadable => Err(RecoveryFault::AnchorUnreadable),
        AnchorModel::Invalid => Err(RecoveryFault::AnchorInvalid),
        AnchorModel::Pending(seq, mac) => if seq == macs.len() - 1 && mac == macs.last() {
            Ok(Repair::AdvanceBoth)
        } else {
            Err(RecoveryFault::NotAnnounced)
        },
        _ => Err(RecoveryFault::NotAnnounced),
    }
}

/// The answer where the checkpoint names the tail (or the journal is empty).
pub open spec fn anchor_repair(macs: Seq<Seq<char>>, anchor: AnchorModel) -> Result<
    Repair,
    RecoveryFault,
> {
    let n = macs.len() as int;
    match anchor {
        AnchorModel::Missing => if n > 0 {
            Err(RecoveryFault::AnchorMissing)
        } else {
            Ok(Repair::CreateAnchor)
        },
        AnchorModel::Unreadable => Err(RecoveryFault::AnchorUnreadable),
        AnchorModel::Invalid => Err(RecoveryFault::AnchorInvalid),
        AnchorModel::Null => if n > 0 {
            Err(RecoveryFault::AnchorRestored)
        } else {
            Ok(Repair::Nothing)
        },
        AnchorModel::Pending(seq, mac) => if seq >= n {
            Err(RecoveryFault::PendingMissing)
        } else if mac != macs[seq as int] {
            Err(RecoveryFault::PendingMismatch)
        } else if seq != n - 1 {
            Err(RecoveryFault::PendingNotTail)
        } else {
            Ok(Repair::AdvanceAnchor)
        },
        AnchorModel::Committed(seq, mac) => if seq >= n || seq < n - 2 || mac != macs[seq as int] {
            Err(RecoveryFault::AnchorMismatch)
        } else if seq == n - 2 {
            Ok(Repair::AdvanceAnchor)
        } else {
            Ok(Repair::Nothing)
        },
    }
}

/// What an open answers to a journal with these chain MACs and these siblings.
pub open spec fn repair_of(
    macs: Seq<Seq<char>>,
    checkpoint: CheckpointModel,
    anchor: AnchorModel,
) -> Result<Repair, RecoveryFault> {
    let n = macs.len() as int;
    if n == 0 {
        if checkpoint is Missing {
            anchor_repair(macs, anchor)
        } else {
            Err(RecoveryFault::CheckpointWithoutJournal)
        }
    } else {
        match checkpoint {
            CheckpointModel::Unreadable => Err(RecoveryFault::CheckpointUnreadable),
            CheckpointModel::Invalid => Err(RecoveryFault::CheckpointInvalid),
            CheckpointModel::Missing => if n > 1 {
                Err(RecoveryFault::CheckpointMissing)
            } else {
                announced_repair(macs, anchor)
            },
            CheckpointModel::At(seq, mac) => if seq == n - 1 && mac == macs[n - 1] {
                anchor_repair(macs, anchor)
            } else if seq == n - 2 && n >= 2 && mac == macs[n - 2] {
                announced_repair(macs, anchor)
            } else {
                Err(RecoveryFault::TailMismatch)
            },
        }
    }
}

/// The chain MACs of a journal's lines as character sequences.
pub open spec fn mac_views(macs: Seq<String>) -> Seq<Seq<char>> {
    macs.map_values(|mac: String| mac@)
}

fn announced_line(macs: &Vec<String>, anchor: &AnchorState) -> (r: Result<Repair, RecoveryFault>)
    requires
        macs@.len() > 0,
    ensures
        r == announced_repair(mac_views(macs@), anchor@),
{
    let last: usize = macs.len() - 1;
    match anchor {
        AnchorState::Missing => Err(RecoveryFault::AnchorUnreadable),
        AnchorState::Unreadable => Err(RecoveryFault::AnchorUnreadable),
        AnchorState::Invalid => Err(RecoveryFault::AnchorInvalid),
        AnchorState::Pending(seq, mac) => {
            if *seq == last as u64 && *mac == macs[last] {
                Ok(Repair::AdvanceBoth)
            } else {
                Err(RecoveryFault::NotAnnounced)
            }
        },
        AnchorState::Null => Err(RecoveryFault::NotAnnounced),
        AnchorState::Committed(_, _) => Err(RecoveryFault::NotAnnounced),
    }
}

fn anchored_tail(macs: &Vec<String>, anchor: &AnchorState) -> (r: Result<Repair, RecoveryFault>)
    ensures
        r == anchor_repair(mac_views(macs@), anchor@),
{
    let n: usize = macs.len();
    match anchor {
        AnchorState::Missing => {
            if n > 0 {
                Err(RecoveryFault::AnchorMissing)
            } else {
                Ok(Repair::CreateAnchor)
            }
        },
        AnchorState::Unreadable => Err(RecoveryFault::AnchorUnreadable),
        AnchorState::Invalid => Err(RecoveryFault::AnchorInvalid),
        AnchorState::Null => {
            if n > 0 {
                Err(RecoveryFault::AnchorRestored)
            } else {
                Ok(Repair::Nothing)
            }
        },
        AnchorState::Pending(seq, mac) => {
            if *seq >= n as u64 {
                return Err(RecoveryFault::PendingMissing);
            }
            let k: usize = *seq as usize;
            if *mac != macs[k] {
                Err(RecoveryFault::PendingMismatch)
            } else if k != n - 1 {
                Err(RecoveryFault::PendingNotTail)
            } else {
                Ok(Repair::AdvanceAnchor)
            }
        },
        AnchorState::Committed(seq, mac) => {
            if *seq >= n as u64 {
                return Err(RecoveryFault::AnchorMismatch);
            }
            let k: usize = *seq as usize;
            let behind: usize = n - 1 - k;
            if behind > 1 || *mac != macs[k] {
                Err(RecoveryFault::AnchorMismatch)
            } else if behind == 1 {
                Ok(Repair::AdvanceAnchor)
            } else {
                Ok(Repair::Nothing)
            }
        },
    }
}

/// Decides what an open does with a journal whose lines carry the chain MACs
/// `macs`, given its two siblings: what it writes first, or why it refuses.
pub fn check_completeness(
    macs: &Vec<String>,
    checkpoint: &CheckpointState,
    anchor: &AnchorState,
) -> (r: Result<Repair, RecoveryFault>)
    ensures
        r == repair_of(mac_views(macs@), checkpoint@, anchor@),
{
    let n: usize = macs.len();
    if n == 0 {
        return match checkpoint {
            CheckpointState::Missing => anchored_tail(macs, anchor),
            _ => Err(RecoveryFault::CheckpointWithoutJournal),
        };
    }
    match checkpoint {
        CheckpointState::Unreadable => Err(RecoveryFault::CheckpointUnreadable),
        CheckpointState::Invalid => Err(RecoveryFault::CheckpointInvalid),
        CheckpointState::Missing => {
            if n > 1 {
                Err(RecoveryFault::CheckpointMissing)
            } else {
                announced_line(macs, anchor)
            }
        },
        CheckpointState::At(seq, mac) => {
            if *seq == (n - 1) as u64 && *mac == macs[n - 1] {
                anchored_tail(macs, anchor)
            } else if n >= 2 && *seq == (n - 2) as u64 && *mac == macs[n - 2] {
                announced_line(macs, anchor)
            } else {
                Err(RecoveryFault::TailMismatch)
            }
        },
    }
}

/// The journal's chain MACs and its two siblings, as they lie on disk.
#[verifier::ext_equal]
pub ghost struct EvidenceStore {
    pub macs: Seq<Seq<char>>,
    pub checkpoint: CheckpointModel,
    pub anchor: AnchorModel,
}

impl EvidenceStore {
    /// What an open answers to this store.
    pub open spec fn repair(self) -> Result<Repair, RecoveryFault> {
        repair_of(self.macs, self.checkpoint, self.anchor)
    }

    /// The store after a repair was written.
    pub open spec fn repaired(self, repair: Repair) -> EvidenceStore {
        match repair {
            Repair::Nothing => self,
            Repair::CreateAnchor => EvidenceStore { anchor: AnchorModel::Null, ..self },
            Repair::AdvanceAnchor => self.with_anchor(),
            Repair::AdvanceBoth => self.with_checkpoint().with_anchor(),
        }
    }

    /// An append is complete, or none ever began: both siblings name the tail.
    pub open spec fn settled(self) -> bool {
        let tail = self.macs.len() - 1;
        if tail < 0 {
            self.checkpoint is Missing && self.anchor is Null
        } else {
            &&& self.checkpoint == CheckpointModel::At(tail as nat, self.macs.last())
            &&& self.anchor == AnchorModel::Committed(tail as nat, self.macs.last())
        }
    }

    /// First write of an append: the anchor announces the next line.
    pub open spec fn with_announcement(self, mac: Seq<char>) -> EvidenceStore {
        EvidenceStore { anchor: AnchorModel::Pending(self.macs.len(), mac), ..self }
    }

    /// Second write of an append: the line.
    pub open spec fn with_line(self, mac: Seq<char>) -> EvidenceStore {
        EvidenceStore { macs: self.macs.push(mac), ..self }
    }

    /// Third write of an append: the checkpoint of the tail.
    pub open spec fn with_checkpoint(self) -> EvidenceStore {
        EvidenceStore {
            checkpoint: CheckpointModel::At((self.macs.len() - 1) as nat, self.macs.last()),
            ..self
        }
    }

    /// Last write of an append: the committed anchor of the tail.
    pub open spec fn with_anchor(self) -> EvidenceStore {
        EvidenceStore {
            anchor: AnchorModel::Committed((self.macs.len() - 1) as nat, self.macs.last()),
            ..self
        }
    }
}

/// A store that an open accepts is settled once its repair is written, with
/// the same lines; a second open finds nothing to repair.
pub proof fn law_recovery_settles(store: EvidenceStore)
    requires
        store.repair() is Ok,
    ensures
        store.repaired(store.repair()->Ok_0).settled(),
        store.repaired(store.repair()->Ok_0).macs == store.macs,
        store.repaired(store.repair()->Ok_0).repair() == Ok::<Repair, RecoveryFault>(
            Repair::Nothing,
        ),
{
}

/// A crash between any two writes of an append over a settled store is
/// recovered, with the new line kept as soon as it is in the journal. The one
/// exception is a line that was announced and is not in the journal: it may
/// have been deleted, so the open is refused.
pub proof fn law_crash_windows_recover(store: EvidenceStore, mac: Seq<char>)
    requires
        store.settled(),
    ensures
        store.repair() == Ok::<Repair, RecoveryFault>(Repair::Nothing),
        store.with_announcement(mac).repair() == Err::<Repair, RecoveryFault>(
            RecoveryFault::PendingMissing,
        ),
        store.with_announcement(mac).with_line(mac).repair() == Ok::<Repair, RecoveryFault>(
            Repair::AdvanceBoth,
        ),
        store.with_announcement(mac).with_line(mac).with_checkpoint().repair() == Ok::<
            Repair,
            RecoveryFault,
        >(Repair::AdvanceAnchor),
        store.with_announcement(mac).with_line(mac).with_checkpoint().with_anchor().settled(),
{
    let macs = store.macs.push(mac);
    assert(macs.last() == mac);
    if store.macs.len() > 0 {
        assert(macs[macs.len() - 2] == store.macs.last());
    }
}

/// The checkpoint names the last line of the journal.
pub open spec fn checkpointed(store: EvidenceStore) -> bool {
    store.macs.len() > 0 && store.checkpoint == CheckpointModel::At(
        (store.macs.len() - 1) as nat,
        store.macs.last(),
    )
}

/// The anchor announces the last line of the journal.
pub open spec fn announced(store: EvidenceStore) -> bool {
    store.macs.len() > 0 && store.anchor == AnchorModel::Pending(
        (store.macs.len() - 1) as nat,
        store.macs.last(),
    )
}

/// The checkpoint is that of the journal without its last line.
pub open spec fn checkpoint_lags(store: EvidenceStore) -> bool {
    let n = store.macs.len();
    n > 0 && store.checkpoint == (if n == 1 {
        CheckpointModel::Missing
    } else {
        CheckpointModel::At((n - 2) as nat, store.macs[n - 2])
    })
}

/// The anchor is that of the journal without its last line.
pub open spec fn anchor_lags(store: EvidenceStore) -> bool {
    let n = store.macs.len();
    n > 1 && store.anchor == AnchorModel::Committed((n - 2) as nat, store.macs[n - 2])
}

/// Each repair has its one cause: a store that is settled needs none, one that
/// was never begun needs its anchor, one whose checkpoint names the last line
/// needs the anchor moved, and one whose last line is announced but not yet
/// checkpointed needs both. Every other store is refused.
pub proof fn law_only_crash_windows_are_repaired(store: EvidenceStore)
    ensures
        store.repair() == Ok::<Repair, RecoveryFault>(Repair::Nothing) <==> store.settled(),
        store.repair() == Ok::<Repair, RecoveryFault>(Repair::CreateAnchor) <==> store.macs.len()
            == 0 && store.checkpoint is Missing && store.anchor is Missing,
        store.repair() == Ok::<Repair, RecoveryFault>(Repair::AdvanceAnchor) <==> checkpointed(
            store,
        ) && (announced(store) || anchor_lags(store)),
        store.repair() == Ok::<Repair, RecoveryFault>(Repair::AdvanceBoth) <==> checkpoint_lags(
            store,
        ) && announced(store),
{
}

/// A refused store is refused for what was found in it.
pub proof fn law_a_refused_store_says_why(store: EvidenceStore)
    requires
        store.repair() is Err,
    ensures
        match store.repair()->Err_0 {
            RecoveryFault::CheckpointWithoutJournal => store.macs.len() == 0
                && !(store.checkpoint is Missing),
            RecoveryFault::CheckpointUnreadable => store.macs.len() > 0 && store.checkpoint
                is Unreadable,
            RecoveryFault::CheckpointInvalid => store.macs.len() > 0 && store.checkpoint is Invalid,
            RecoveryFault::CheckpointMissing => store.macs.len() > 1 && store.checkpoint is Missing,
            RecoveryFault::TailMismatch => store.checkpoint is At && !checkpointed(store)
                && !checkpoint_lags(store),
            RecoveryFault::NotAnnounced => checkpoint_lags(store) && !announced(store) && (
            store.anchor is Null || store.anchor is Pending || store.anchor is Committed),
            RecoveryFault::AnchorUnreadable => store.anchor is Unreadable || (store.anchor
                is Missing && checkpoint_lags(store)),
            RecoveryFault::AnchorInvalid => store.anchor is Invalid,
            RecoveryFault::AnchorMissing => store.anchor is Missing && checkpointed(store),
            RecoveryFault::AnchorRestored => store.anchor is Null && checkpointed(store),
            RecoveryFault::PendingMissing => store.anchor matches AnchorModel::Pending(seq, _)
                && seq >= store.macs.len(),
            RecoveryFault::PendingMismatch => store.anchor matches AnchorModel::Pending(seq, mac)
                && seq < store.macs.len() && mac != store.macs[seq as int],
            RecoveryFault::PendingNotTail => store.anchor matches AnchorModel::Pending(seq, mac)
                && seq < store.macs.len() - 1 && mac == store.macs[seq as int],
            RecoveryFault::AnchorMismatch => store.anchor is Committed && !anchor_lags(store) && (
            store.macs.len() == 0 || checkpointed(store)) && !store.settled(),
        },
{
}

/// Lines cut off the end of the journal are noticed: whatever crash window an
/// accepted store is in, the same siblings over fewer lines are refused.
pub proof fn law_truncation_is_refused(store: EvidenceStore, kept: int)
    requires
        store.repair() is Ok,
        0 <= kept < store.macs.len(),
    ensures
        (EvidenceStore { macs: store.macs.take(kept), ..store }).repair() is Err,
{
    let cut = store.macs.take(kept);
    assert(cut.len() == kept);
}

/// Over a settled store with lines, losing the checkpoint or the anchor, or
/// restoring the anchor of a fresh store, is noticed.
pub proof fn law_a_lost_sibling_is_refused(store: EvidenceStore)
    requires
        store.settled(),
        store.macs.len() > 0,
    ensures
        (EvidenceStore { checkpoint: CheckpointModel::Missing, ..store }).repair() is Err,
        (EvidenceStore { anchor: AnchorModel::Missing, ..store }).repair() is Err,
        (EvidenceStore { anchor: AnchorModel::Null, ..store }).repair() is Err,
{
}

/// A line whose chain MAC is not the one that was committed last is noticed.
pub proof fn law_a_replaced_tail_is_refused(store: EvidenceStore, mac: Seq<char>)
    requires
        store.settled(),
        store.macs.len() > 0,
        mac != store.macs.last(),
    ensures
        (EvidenceStore { macs: store.macs.drop_last().push(mac), ..store }).repair() == Err::<
            Repair,
            RecoveryFault,
        >(RecoveryFault::TailMismatch),
{
    assert(store.macs.drop_last().push(mac).last() == mac);
}

} // verus!
