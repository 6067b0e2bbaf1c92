//! What holds of every run of the mirror.
use crate::journal;
use crate::mirror;
use crate::mirror::{FileIdentity, MirrorAction, MirrorEnd, MirrorEvent, MirrorFault, Stage};
use crate::recovery;
use vstd::prelude::*;

verus! {

/// A mirror that was stopped by a fault does nothing any more: every later
/// operation ends at once, names that fault and changes nothing.
pub proof fn law_poison_lasts(m: mirror::MirrorModel, operation: mirror::OperationModel)
    requires
        m.wf(),
        m.poisoned is Some,
    ensures
        m.start(operation) == (m, MirrorAction::Finish(MirrorEnd::Poisoned(m.poisoned->0))),
        m.start_sweep() == (m, MirrorAction::Finish(MirrorEnd::Poisoned(m.poisoned->0))),
        m.stage == Stage::Idle,
{
}

/// An operation that fails stops the mirror, so that no later receipt passes
/// over the gap; it adds nothing to the chain and claims no record.
pub proof fn law_a_failure_stops_the_mirror(
    m: mirror::MirrorModel,
    event: MirrorEvent,
    fault: MirrorFault,
)
    requires
        m.wf(),
        m.expects(event),
        m.next(event).1 == MirrorAction::Finish(MirrorEnd::Failed(fault)),
    ensures
        m.next(event).0.poisoned == Some(fault),
        m.next(event).0.chained == m.chained,
        m.next(event).0.tail == m.tail,
        m.next(event).0.journaled == m.journaled,
        m.next(event).0.next_seq == m.next_seq,
{
}

/// A record or a receipt is written only to the very file that was opened at
/// the start, ending exactly where the last append left it.
pub proof fn law_appends_meet_the_log_they_left(m: mirror::MirrorModel, event: MirrorEvent)
    requires
        m.wf(),
        m.expects(event),
    ensures
        m.next(event).1 == MirrorAction::WriteChain ==> event == (MirrorEvent::Opened {
            identity: m.chain_identity,
            len: m.chain_len,
        }),
        m.next(event).1 == MirrorAction::WriteEvents ==> event == (MirrorEvent::Opened {
            identity: m.events_identity,
            len: m.events_len,
        }),
{
}

/// A receipt claims only durable evidence: when one is written for an
/// evaluated event, the journal holds exactly the records it is made of, and
/// the event has no receipt yet.
pub proof fn law_receipts_rest_on_durable_evidence(m: mirror::MirrorModel, event: MirrorEvent)
    requires
        m.wf(),
        m.expects(event),
        m.next(event).1 == MirrorAction::WriteChain,
    ensures
        m.operation matches mirror::OperationModel::Event(pre, post) ==> {
            &&& m.journaled.contains_key(pre.event_id)
            &&& m.journaled[pre.event_id] == (journal::EventModel { pre, post: Some(post) })
            &&& !m.chained.contains(pre.event_id)
        },
        m.operation matches mirror::OperationModel::Sweep(stranded) ==> {
            &&& m.journaled.contains_key(stranded.pre.event_id)
            &&& m.journaled[stranded.pre.event_id] == stranded
            &&& !m.chained.contains(stranded.pre.event_id)
        },
{
}

/// Mirroring an event that has its receipt changes nothing and succeeds.
pub proof fn law_mirroring_again_adds_nothing(
    m: mirror::MirrorModel,
    pre: journal::PreModel,
    post: journal::PostModel,
)
    requires
        m.wf(),
        m.stage == Stage::Idle,
        m.poisoned is None,
        m.backlog.len() == 0,
        m.chained.contains(pre.event_id),
    ensures
        ({
            let begun = m.start(mirror::OperationModel::Event(pre, post)).0;
            begun.next(MirrorEvent::LockHeld) == (
                m,
                MirrorAction::Finish(MirrorEnd::Completed),
            )
        }),
{
    let begun = m.start(mirror::OperationModel::Event(pre, post)).0;
    assert(begun.next(MirrorEvent::LockHeld).0 =~= m);
}

/// An event is recorded once before its effect and once behind it: a second
/// record of either kind, or one behind an effect that was never announced,
/// stops the mirror.
pub proof fn law_an_event_is_recorded_once(
    m: mirror::MirrorModel,
    pre: journal::PreModel,
    post: journal::PostModel,
)
    requires
        m.wf(),
        m.stage == Stage::Idle,
        m.poisoned is None,
        m.backlog.len() == 0,
    ensures
        m.journaled.contains_key(pre.event_id) ==> m.start(
            mirror::OperationModel::Pre(pre),
        ).0.next(MirrorEvent::LockHeld).1 == MirrorAction::Finish(
            MirrorEnd::Failed(MirrorFault::DuplicatePre),
        ),
        !(m.journaled.contains_key(post.event_id) && m.journaled[post.event_id].post is None)
            ==> m.start(mirror::OperationModel::Post(post)).0.next(MirrorEvent::LockHeld).1
            == MirrorAction::Finish(MirrorEnd::Failed(MirrorFault::PostWithoutPre)),
{
}

/// Sweeping the first event of the backlog, however it ends well, leaves it
/// with a receipt and takes it off the backlog; receipts are never lost.
pub proof fn law_a_swept_event_has_a_receipt(m: mirror::MirrorModel, event: MirrorEvent)
    requires
        m.wf(),
        m.backlog.len() > 0,
    ensures
        m.stage == Stage::Idle && m.start_sweep().1 == MirrorAction::Finish(MirrorEnd::Completed)
            ==> {
            &&& m.start_sweep().0.chained.contains(m.backlog[0].pre.event_id)
            &&& m.start_sweep().0.backlog == m.backlog.drop_first()
        },
        m.expects(event) && m.next(event).1 == MirrorAction::Finish(MirrorEnd::Completed) ==> {
            &&& m.next(event).0.chained.contains(m.backlog[0].pre.event_id)
            &&& m.next(event).0.backlog == m.backlog.drop_first()
        },
        m.expects(event) ==> m.chained.subset_of(m.next(event).0.chained),
{
}

/// The evidence store on disk is the one that the mirror has in mind at this
/// stage of an append.
pub open spec fn describes(m: mirror::MirrorModel, store: recovery::EvidenceStore) -> bool {
    let n = m.next_seq as nat;
    let before = recovery::EvidenceStore {
        macs: store.macs.take(n as int),
        anchor: if n == 0 {
            recovery::AnchorModel::Null
        } else {
            recovery::AnchorModel::Committed((n - 1) as nat, m.tail_mac)
        },
        checkpoint: if n == 0 {
            recovery::CheckpointModel::Missing
        } else {
            recovery::CheckpointModel::At((n - 1) as nat, m.tail_mac)
        },
    };
    &&& n <= store.macs.len()
    &&& n > 0 ==> store.macs[n - 1] == m.tail_mac
    &&& store == match m.stage {
        Stage::OpeningEvents | Stage::WritingEvents => before.with_announcement(m.mac),
        Stage::Checkpointing => before.with_announcement(m.mac).with_line(m.mac),
        Stage::Committing => before.with_announcement(m.mac).with_line(m.mac).with_checkpoint(),
        _ => before,
    }
}

/// The store after the write that the mirror waits for was done.
pub open spec fn written(
    m: mirror::MirrorModel,
    store: recovery::EvidenceStore,
) -> recovery::EvidenceStore {
    match m.stage {
        Stage::Announcing => store.with_announcement(m.mac),
        Stage::WritingEvents => store.with_line(m.mac),
        Stage::Checkpointing => store.with_checkpoint(),
        Stage::Committing => store.with_anchor(),
        _ => store,
    }
}

/// As long as no write fails, the store on disk is at every moment the one
/// that the mirror has in mind.
pub proof fn law_the_store_follows_the_mirror(
    m: mirror::MirrorModel,
    store: recovery::EvidenceStore,
    event: MirrorEvent,
)
    requires
        m.wf(),
        m.expects(event),
        describes(m, store),
        !(event is Failed),
        m.next(event).0.poisoned is None,
    ensures
        describes(
            m.next(event).0,
            if event is Done {
                written(m, store)
            } else {
                store
            },
        ),
{
    let n = m.next_seq as int;
    let after = if event is Done {
        written(m, store)
    } else {
        store
    };
    match m.stage {
        Stage::WritingEvents => {
            assert(store.macs =~= store.macs.take(n));
            assert(after.macs.take(n) =~= store.macs.take(n));
        },
        Stage::Checkpointing => {
            assert(after.macs.take(n) =~= store.macs.take(n));
        },
        Stage::Committing => {
            assert(store.macs =~= store.macs.take(n).push(m.mac));
            assert(after.macs.take(n + 1) =~= after.macs);
            assert(after.macs.last() == m.mac);
        },
        _ => {},
    }
    assert(describes(m.next(event).0, after));
}

/// Whenever the process stops, the next open recovers the store, and a record
/// that was reported as made is in it. The one moment that is refused is that
/// between a line's announcement and the line.
pub proof fn law_a_crash_is_recovered(m: mirror::MirrorModel, store: recovery::EvidenceStore)
    requires
        m.wf(),
        describes(m, store),
    ensures
        store.macs.len() >= m.next_seq,
        m.stage != Stage::OpeningEvents && m.stage != Stage::WritingEvents ==> store.repair() is Ok,
        m.stage == Stage::OpeningEvents || m.stage == Stage::WritingEvents ==> store.repair()
            == Err::<recovery::Repair, recovery::RecoveryFault>(
            recovery::RecoveryFault::PendingMissing,
        ),
{
    let n = m.next_seq as int;
    let before = recovery::EvidenceStore {
        macs: store.macs.take(n),
        anchor: if n == 0 {
            recovery::AnchorModel::Null
        } else {
            recovery::AnchorModel::Committed((n - 1) as nat, m.tail_mac)
        },
        checkpoint: if n == 0 {
            recovery::CheckpointModel::Missing
        } else {
            recovery::CheckpointModel::At((n - 1) as nat, m.tail_mac)
        },
    };
    assert(before.settled()) by {
        if n > 0 {
            assert(before.macs.last() == store.macs[n - 1]);
        }
    }
    recovery::law_crash_windows_recover(before, m.mac);
}

/// The mirror after its next `n` sweeps, each of which ends at once.
pub open spec fn after_sweeps(m: mirror::MirrorModel, n: nat) -> mirror::MirrorModel
    decreases n,
{
    if n == 0 {
        m
    } else {
        after_sweeps(m, (n - 1) as nat).start_sweep().0
    }
}

/// Reopening the mirror over a journal whose events all have their receipts
/// leaves the chain as it is: every sweep ends at once, nothing is projected or
/// written, and the tail of the chain, its length and its steps stay.
pub proof fn law_a_swept_journal_adds_nothing(
    chain: Seq<mirror::ReceiptModel>,
    events: Seq<journal::EventModel>,
    macs: Seq<Seq<char>>,
    lens: (u64, u64),
    identities: (FileIdentity, FileIdentity),
    n: nat,
)
    requires
        n <= events.len(),
        forall|k: int|
            0 <= k < events.len() ==> mirror::steps_of(chain).contains(
                (#[trigger] events[k]).pre.event_id,
            ),
    ensures
        ({
            let m = mirror::opened(chain, events, macs, lens, identities);
            let swept = after_sweeps(m, n);
            &&& swept.backlog == events.skip(n as int)
            &&& swept.tail == m.tail
            &&& swept.chain_len == m.chain_len
            &&& swept.events_len == m.events_len
            &&& swept.chained == m.chained
            &&& swept.journaled == m.journaled
            &&& swept.poisoned is None
            &&& swept.stage is Idle
            &&& n < events.len() ==> swept.start_sweep().1 == MirrorAction::Finish(
                MirrorEnd::Completed,
            )
        }),
    decreases n,
{
    let m = mirror::opened(chain, events, macs, lens, identities);
    if n == 0 {
        assert(events.skip(0) =~= events);
    } else {
        law_a_swept_journal_adds_nothing(chain, events, macs, lens, identities, (n - 1) as nat);
        let before = after_sweeps(m, (n - 1) as nat);
        assert(before.backlog[0] == events[n - 1]);
        assert(events.skip(n - 1).drop_first() =~= events.skip(n as int));
    }
    if n < events.len() {
        assert(events.skip(n as int)[0] == events[n as int]);
    }
}

/// The chain log after a step of the mirror: a receipt that was written stands
/// at its end.
pub open spec fn logged(
    m: mirror::MirrorModel,
    log: Seq<mirror::ReceiptModel>,
    event: MirrorEvent,
) -> Seq<mirror::ReceiptModel> {
    if m.stage is WritingChain && event is Done {
        log.push(mirror::ReceiptModel { step_id: m.operation.step_id(), line: m.line })
    } else {
        log
    }
}

/// A mirror with its chain log and what it asks for.
pub ghost struct Sweeping {
    pub mirror: mirror::MirrorModel,
    pub log: Seq<mirror::ReceiptModel>,
    pub action: MirrorAction,
}

/// A sweep of the first event of the backlog, after some answers.
pub open spec fn sweeping(
    m: mirror::MirrorModel,
    log: Seq<mirror::ReceiptModel>,
    answers: Seq<MirrorEvent>,
) -> Sweeping
    decreases answers.len(),
{
    if answers.len() == 0 {
        let (mirror, action) = m.start_sweep();
        Sweeping { mirror, log, action }
    } else {
        let before = sweeping(m, log, answers.drop_last());
        let (mirror, action) = before.mirror.next(answers.last());
        Sweeping { mirror, log: logged(before.mirror, before.log, answers.last()), action }
    }
}

/// Each answer is one that the sweep waits for.
pub open spec fn sweep_takes(
    m: mirror::MirrorModel,
    log: Seq<mirror::ReceiptModel>,
    answers: Seq<MirrorEvent>,
) -> bool
    decreases answers.len(),
{
    answers.len() == 0 || (sweep_takes(m, log, answers.drop_last()) && !(sweeping(
        m,
        log,
        answers.drop_last(),
    ).action is Finish) && sweeping(m, log, answers.drop_last()).mirror.expects(answers.last()))
}

/// The sweep runs to its end and completes.
pub open spec fn sweep_completes(
    m: mirror::MirrorModel,
    log: Seq<mirror::ReceiptModel>,
    answers: Seq<MirrorEvent>,
) -> bool {
    sweep_takes(m, log, answers) && sweeping(m, log, answers).action == MirrorAction::Finish(
        MirrorEnd::Completed,
    )
}

/// The mirror and its chain log after some sweeps.
pub open spec fn swept_by(
    m: mirror::MirrorModel,
    log: Seq<mirror::ReceiptModel>,
    runs: Seq<Seq<MirrorEvent>>,
) -> (mirror::MirrorModel, Seq<mirror::ReceiptModel>)
    decreases runs.len(),
{
    if runs.len() == 0 {
        (m, log)
    } else {
        let before = swept_by(m, log, runs.drop_last());
        let after = sweeping(before.0, before.1, runs.last());
        (after.mirror, after.log)
    }
}

/// Each of the sweeps completes.
pub open spec fn sweeps_complete(
    m: mirror::MirrorModel,
    log: Seq<mirror::ReceiptModel>,
    runs: Seq<Seq<MirrorEvent>>,
) -> bool
    decreases runs.len(),
{
    runs.len() == 0 || (sweeps_complete(m, log, runs.drop_last()) && sweep_completes(
        swept_by(m, log, runs.drop_last()).0,
        swept_by(m, log, runs.drop_last()).1,
        runs.last(),
    ))
}

/// How many receipts of a step a chain log holds.
pub open spec fn receipts_for(log: Seq<mirror::ReceiptModel>, step_id: Seq<char>) -> nat
    decreases log.len(),
{
    if log.len() == 0 {
        0
    } else {
        receipts_for(log.drop_last(), step_id) + (if log.last().step_id == step_id {
            1nat
        } else {
            0nat
        })
    }
}

proof fn lemma_receipts_for(log: Seq<mirror::ReceiptModel>, step_id: Seq<char>)
    ensures
        mirror::steps_of(log).contains(step_id) == (receipts_for(log, step_id) > 0),
    decreases log.len(),
{
    if log.len() > 0 {
        lemma_receipts_for(log.drop_last(), step_id);
    }
}

proof fn lemma_logged(log: Seq<mirror::ReceiptModel>, receipt: mirror::ReceiptModel)
    ensures
        mirror::steps_of(log.push(receipt)) == mirror::steps_of(log).insert(receipt.step_id),
        forall|id: Seq<char>| #[trigger]
            receipts_for(log.push(receipt), id) == receipts_for(log, id) + (if receipt.step_id
                == id {
                1nat
            } else {
                0nat
            }),
{
    assert(log.push(receipt).drop_last() =~= log);
    assert(log.push(receipt).last() == receipt);
}

/// A sweep that is not over has changed nothing yet.
spec fn underway(m: mirror::MirrorModel, log: Seq<mirror::ReceiptModel>, s: Sweeping) -> bool {
    &&& s.log == log
    &&& s.mirror.wf()
    &&& s.mirror.operation == mirror::OperationModel::Sweep(m.backlog[0])
    &&& s.mirror.backlog == m.backlog
    &&& s.mirror.chained == m.chained
    &&& s.mirror.journaled == m.journaled
    &&& s.mirror.poisoned is None
    &&& s.mirror.stage is Projecting || s.mirror.stage is Relocking || s.mirror.stage
        is OpeningChain || s.mirror.stage is WritingChain
}

/// A sweep that completed: its event has a receipt, a new one if it had none.
spec fn done(m: mirror::MirrorModel, log: Seq<mirror::ReceiptModel>, s: Sweeping) -> bool {
    let id = m.backlog[0].pre.event_id;
    &&& s.mirror.wf()
    &&& s.mirror.stage is Idle
    &&& s.mirror.poisoned is None
    &&& s.mirror.backlog == m.backlog.drop_first()
    &&& s.mirror.journaled == m.journaled
    &&& s.mirror.chained == m.chained.insert(id)
    &&& if m.chained.contains(id) {
        s.log == log
    } else {
        s.log.len() == log.len() + 1 && s.log == log.push(s.log.last()) && s.log.last().step_id == id
    }
}

proof fn lemma_sweeping(
    m: mirror::MirrorModel,
    log: Seq<mirror::ReceiptModel>,
    answers: Seq<MirrorEvent>,
)
    requires
        m.wf(),
        m.stage is Idle,
        m.poisoned is None,
        m.backlog.len() > 0,
        sweep_takes(m, log, answers),
    ensures
        !(sweeping(m, log, answers).action is Finish) ==> underway(
            m,
            log,
            sweeping(m, log, answers),
        ) && !m.chained.contains(m.backlog[0].pre.event_id),
        sweeping(m, log, answers).action == MirrorAction::Finish(MirrorEnd::Completed) ==> done(
            m,
            log,
            sweeping(m, log, answers),
        ),
    decreases answers.len(),
{
    let id = m.backlog[0].pre.event_id;
    let s = sweeping(m, log, answers);
    if answers.len() == 0 {
        if m.chained.contains(id) {
            mirror::lemma_swept_wf(m);
            assert(m.chained =~= m.chained.insert(id));
        }
    } else {
        lemma_sweeping(m, log, answers.drop_last());
        let before = sweeping(m, log, answers.drop_last());
        mirror::law_mirror_stays_well_formed(before.mirror, answers.last());
        if s.action == MirrorAction::Finish(MirrorEnd::Completed) {
            assert(s.log == log.push(
                mirror::ReceiptModel { step_id: id, line: before.mirror.line },
            ));
        }
    }
}

proof fn lemma_swept_by(
    m: mirror::MirrorModel,
    log: Seq<mirror::ReceiptModel>,
    runs: Seq<Seq<MirrorEvent>>,
)
    requires
        m.wf(),
        m.stage is Idle,
        m.poisoned is None,
        mirror::steps_of(log) == m.chained,
        runs.len() <= m.backlog.len(),
        sweeps_complete(m, log, runs),
    ensures
        ({
            let (n, after) = swept_by(m, log, runs);
            &&& n.wf()
            &&& n.stage is Idle
            &&& n.poisoned is None
            &&& n.backlog == m.backlog.skip(runs.len() as int)
            &&& n.journaled == m.journaled
            &&& mirror::steps_of(after) == n.chained
            &&& m.chained.subset_of(n.chained)
            &&& forall|k: int|
                0 <= k < runs.len() ==> n.chained.contains(
                    (#[trigger] m.backlog[k]).pre.event_id,
                )
            &&& forall|id: Seq<char>| #[trigger]
                receipts_for(log, id) <= 1 ==> receipts_for(after, id) <= 1
        }),
    decreases runs.len(),
{
    if runs.len() == 0 {
        assert(m.backlog.skip(0) =~= m.backlog);
    } else {
        let earlier = runs.drop_last();
        lemma_swept_by(m, log, earlier);
        let (b, held) = swept_by(m, log, earlier);
        let k = earlier.len() as int;
        assert(b.backlog[0] == m.backlog[k]);
        lemma_sweeping(b, held, runs.last());
        let s = sweeping(b, held, runs.last());
        let id = m.backlog[k].pre.event_id;
        assert(b.backlog.drop_first() =~= m.backlog.skip(k + 1));
        if b.chained.contains(id) {
            assert(b.chained.insert(id) =~= b.chained);
        } else {
            lemma_logged(held, s.log.last());
            lemma_receipts_for(held, id);
        }
        assert forall|i: int| 0 <= i < runs.len() implies s.mirror.chained.contains(
            (#[trigger] m.backlog[i]).pre.event_id,
        ) by {
            if i < k {
                assert(b.chained.contains(m.backlog[i].pre.event_id));
            }
        }
    }
}

/// Opening the mirror again adds nothing. Once every sweep of an opened mirror
/// has completed, each event of the journal has a receipt in the chain log,
/// exactly one if there was at most one before. Opened again over that log and
/// the same journal, under any evidence, every sweep ends at once: nothing is
/// projected or written, and the chain stays as it is.
pub proof fn law_opening_again_adds_nothing(
    chain: Seq<mirror::ReceiptModel>,
    events: Seq<journal::EventModel>,
    macs: Seq<Seq<char>>,
    lens: (u64, u64),
    identities: (FileIdentity, FileIdentity),
    runs: Seq<Seq<MirrorEvent>>,
    lens_again: (u64, u64),
    identities_again: (FileIdentity, FileIdentity),
    n: nat,
)
    requires
        journal::distinct_events(events),
        runs.len() == events.len(),
        sweeps_complete(mirror::opened(chain, events, macs, lens, identities), chain, runs),
        n <= events.len(),
    ensures
        ({
            let first = mirror::opened(chain, events, macs, lens, identities);
            let (swept, log) = swept_by(first, chain, runs);
            let again = mirror::opened(log, events, macs, lens_again, identities_again);
            let later = after_sweeps(again, n);
            &&& swept.backlog.len() == 0
            &&& forall|k: int|
                0 <= k < events.len() ==> {
                    let id = (#[trigger] events[k]).pre.event_id;
                    &&& swept.chained.contains(id)
                    &&& receipts_for(log, id) >= 1
                    &&& receipts_for(chain, id) <= 1 ==> receipts_for(log, id) == 1
                }
            &&& later.backlog == events.skip(n as int)
            &&& later.tail == again.tail
            &&& later.chain_len == again.chain_len
            &&& later.events_len == again.events_len
            &&& later.chained == again.chained
            &&& later.poisoned is None
            &&& n < events.len() ==> later.start_sweep().1 == MirrorAction::Finish(
                MirrorEnd::Completed,
            )
        }),
{
    let first = mirror::opened(chain, events, macs, lens, identities);
    mirror::lemma_opened_wf(chain, events, macs, lens, identities);
    lemma_swept_by(first, chain, runs);
    let (swept, log) = swept_by(first, chain, runs);
    assert forall|k: int| 0 <= k < events.len() implies mirror::steps_of(log).contains(
        (#[trigger] events[k]).pre.event_id,
    ) && receipts_for(log, events[k].pre.event_id) >= 1 && (receipts_for(
        chain,
        events[k].pre.event_id,
    ) <= 1 ==> receipts_for(log, events[k].pre.event_id) == 1) by {
        assert(first.backlog[k] == events[k]);
        lemma_receipts_for(log, events[k].pre.event_id);
    }
    law_a_swept_journal_adds_nothing(log, events, macs, lens_again, identities_again, n);
}

/// What a well-ended write of a record goes through, each action behind the one
/// before it: the record is given its text, announced, written, checkpointed
/// and committed. Whatever the mirror waits for, success leads to the next.
pub proof fn law_a_record_is_announced_before_it_is_written(
    m: mirror::MirrorModel,
    line: String,
    mac: String,
)
    ensures
        m.stage == Stage::Encoding ==> {
            let (n, action) = m.next(MirrorEvent::Encoded { line, mac });
            action == MirrorAction::Announce && n.line == line@ && n.mac == mac@ && n.stage
                == Stage::Announcing
        },
        m.stage == Stage::Announcing ==> m.next(MirrorEvent::Done).1 == MirrorAction::OpenEvents
            && m.next(MirrorEvent::Done).0.stage == Stage::OpeningEvents,
        m.stage == Stage::OpeningEvents ==> {
            let opened = MirrorEvent::Opened { identity: m.events_identity, len: m.events_len };
            m.next(opened).1 == MirrorAction::WriteEvents && m.next(opened).0.stage
                == Stage::WritingEvents
        },
        m.stage == Stage::WritingEvents ==> m.next(MirrorEvent::Done).1
            == MirrorAction::WriteCheckpoint && m.next(MirrorEvent::Done).0.stage
            == Stage::Checkpointing,
        m.stage == Stage::Checkpointing ==> m.next(MirrorEvent::Done).1
            == MirrorAction::CommitAnchor && m.next(MirrorEvent::Done).0.stage == Stage::Committing,
        m.stage == Stage::Committing ==> m.next(MirrorEvent::Done).1 == MirrorAction::Finish(
            MirrorEnd::Completed,
        ),
{
}

/// What a well-ended receipt goes through: it is projected, the lock is looked
/// at again where an earlier process left the event, and the chain is opened,
/// as it was left, and written.
pub proof fn law_a_receipt_is_projected_before_it_is_written(
    m: mirror::MirrorModel,
    line: String,
)
    ensures
        m.stage == Stage::Projecting ==> {
            let (n, action) = m.next(MirrorEvent::Projected { line });
            &&& n.line == line@
            &&& action == (if m.operation is Sweep {
                MirrorAction::VerifyLock
            } else {
                MirrorAction::OpenChain
            })
            &&& n.operation == m.operation
        },
        m.stage == Stage::Relocking ==> m.next(MirrorEvent::LockHeld).1 == MirrorAction::OpenChain,
        m.stage == Stage::OpeningChain ==> m.next(
            MirrorEvent::Opened { identity: m.chain_identity, len: m.chain_len },
        ).1 == MirrorAction::WriteChain,
        m.stage == Stage::WritingChain ==> m.next(MirrorEvent::Done).1 == MirrorAction::Finish(
            MirrorEnd::Completed,
        ),
{
}

/// Whatever goes wrong stops the mirror under its own fault.
pub proof fn law_each_failure_has_its_own_fault(
    m: mirror::MirrorModel,
    identity: FileIdentity,
    len: u64,
)
    ensures
        m.next(MirrorEvent::LockLost).1 == MirrorAction::Finish(
            MirrorEnd::Failed(MirrorFault::LockLost),
        ) || !(m.stage == Stage::Locking || m.stage == Stage::Relocking),
        (match m.stage {
            Stage::Announcing | Stage::Committing => Some(MirrorFault::AnchorWrite),
            Stage::OpeningEvents => Some(MirrorFault::EventsOpen),
            Stage::WritingEvents => Some(MirrorFault::EventsAppend),
            Stage::Checkpointing => Some(MirrorFault::CheckpointWrite),
            Stage::Projecting => Some(MirrorFault::Projection),
            Stage::OpeningChain => Some(MirrorFault::ChainOpen),
            Stage::WritingChain => Some(MirrorFault::ChainAppend),
            _ => None,
        }) matches Some(fault) ==> m.next(MirrorEvent::Failed).1 == MirrorAction::Finish(
            MirrorEnd::Failed(fault),
        ),
        m.stage == Stage::OpeningEvents && identity != m.events_identity ==> m.next(
            MirrorEvent::Opened { identity, len },
        ).1 == MirrorAction::Finish(MirrorEnd::Failed(MirrorFault::EventsReplaced)),
        m.stage == Stage::OpeningEvents && identity == m.events_identity && len != m.events_len
            ==> m.next(MirrorEvent::Opened { identity, len }).1 == MirrorAction::Finish(
            MirrorEnd::Failed(MirrorFault::EventsChanged),
        ),
        m.stage == Stage::OpeningChain && identity != m.chain_identity ==> m.next(
            MirrorEvent::Opened { identity, len },
        ).1 == MirrorAction::Finish(MirrorEnd::Failed(MirrorFault::ChainReplaced)),
        m.stage == Stage::OpeningChain && identity == m.chain_identity && len != m.chain_len
            ==> m.next(MirrorEvent::Opened { identity, len }).1 == MirrorAction::Finish(
            MirrorEnd::Failed(MirrorFault::ChainChanged),
        ),
        m.stage == Stage::Encoding ==> m.next(MirrorEvent::NotEncoded).1 == MirrorAction::Finish(
            MirrorEnd::NotEncoded,
        ) && m.next(MirrorEvent::NotEncoded).0.poisoned == m.poisoned,
{
}

/// A committed record is the journal's last line and is known from then on:
/// one before an effect opens its event, one behind it closes the event and
/// leaves what was recorded before.
pub proof fn law_a_committed_record_is_kept(m: mirror::MirrorModel, other: Seq<char>)
    requires
        m.wf(),
        m.stage == Stage::Committing,
    ensures
        ({
            let n = m.next(MirrorEvent::Done).0;
            &&& n.next_seq == m.next_seq + 1
            &&& n.tail_mac == m.mac
            &&& n.stage == Stage::Idle
            &&& n.chained == m.chained && n.tail == m.tail && n.chain_len == m.chain_len
            &&& m.operation matches mirror::OperationModel::Pre(pre) ==> {
                &&& n.open.contains(pre.event_id)
                &&& n.journaled.contains_key(pre.event_id)
                &&& n.journaled[pre.event_id].pre == pre
                &&& n.journaled[pre.event_id].post is None
                &&& other != pre.event_id ==> (n.open.contains(other) <==> m.open.contains(other))
                    && (n.journaled.contains_key(other) <==> m.journaled.contains_key(other))
            }
            &&& m.operation matches mirror::OperationModel::Post(post) ==> {
                &&& !n.open.contains(post.event_id)
                &&& n.closed.contains(post.event_id)
                &&& n.journaled[post.event_id].pre == m.journaled[post.event_id].pre
                &&& n.journaled[post.event_id].post == Some(post)
                &&& other != post.event_id ==> (n.open.contains(other) <==> m.open.contains(other))
                    && (n.closed.contains(other) <==> m.closed.contains(other))
            }
        }),
{
}

/// A written line makes its log longer by its bytes and its line feed; no other
/// log grows.
pub proof fn law_a_written_line_grows_its_log(m: mirror::MirrorModel)
    requires
        m.wf(),
    ensures
        m.stage == Stage::WritingEvents ==> m.next(MirrorEvent::Done).0.events_len == m.events_len
            + vstd::utf8::encode_utf8(m.line).len() + 1 && m.next(MirrorEvent::Done).0.chain_len
            == m.chain_len,
        m.stage == Stage::WritingChain ==> m.next(MirrorEvent::Done).0.chain_len == m.chain_len
            + vstd::utf8::encode_utf8(m.line).len() + 1 && m.next(MirrorEvent::Done).0.events_len
            == m.events_len,
{
}

/// A written receipt is the chain's last, and its step has a receipt from then
/// on; no other step gains one.
pub proof fn law_a_written_receipt_is_the_last(m: mirror::MirrorModel, other: Seq<char>)
    requires
        m.wf(),
        m.stage == Stage::WritingChain,
    ensures
        ({
            let n = m.next(MirrorEvent::Done).0;
            let step = match m.operation {
                mirror::OperationModel::Event(pre, _) => pre.event_id,
                mirror::OperationModel::Sweep(event) => event.pre.event_id,
                mirror::OperationModel::Round(step) => step,
                _ => Seq::empty(),
            };
            &&& n.tail == Some(m.line)
            &&& n.chained.contains(step)
            &&& other != step ==> (n.chained.contains(other) <==> m.chained.contains(other))
            &&& n.journaled == m.journaled
            &&& n.next_seq == m.next_seq
            &&& n.tail_mac == m.tail_mac
        }),
{
}

/// What was left to sweep is sorted by what the journal holds of it: an event
/// with an observation is closed, one without is open.
pub proof fn law_a_swept_event_is_open_until_observed(
    m: mirror::MirrorModel,
    event: journal::EventModel,
)
    requires
        m.wf(),
        m.backlog.len() > 0,
        m.backlog[0] == event,
    ensures
        m.swept(event).open.contains(event.pre.event_id) <==> event.post is None,
        m.swept(event).closed.contains(event.pre.event_id) <==> event.post is Some,
        m.swept(event).backlog == m.backlog.drop_first(),
{
}

/// An event that is mirrored needs its two records, exactly as the journal
/// holds them; an event that has its receipt needs nothing more.
pub proof fn law_a_mirrored_event_is_journaled(
    m: mirror::MirrorModel,
    pre: journal::PreModel,
    post: journal::PostModel,
)
    requires
        m.stage == Stage::Locking,
        m.operation == mirror::OperationModel::Event(pre, post),
    ensures
        m.next(MirrorEvent::LockHeld).1 == (if m.chained.contains(pre.event_id) {
            MirrorAction::Finish(MirrorEnd::Completed)
        } else if m.journaled.contains_key(pre.event_id) && m.journaled[pre.event_id].pre == pre
            && m.journaled[pre.event_id].post == Some(post) {
            MirrorAction::Project
        } else {
            MirrorAction::Finish(MirrorEnd::Failed(MirrorFault::NotJournaled))
        }),
{
}

/// A record is refused exactly if its event was recorded before its effect
/// already, or, behind the effect, if its event is not open.
pub proof fn law_only_a_record_in_order_is_encoded(m: mirror::MirrorModel)
    requires
        m.stage == Stage::Locking,
    ensures
        m.operation matches mirror::OperationModel::Pre(pre) ==> m.next(MirrorEvent::LockHeld).1
            == (if m.open.contains(pre.event_id) || m.closed.contains(pre.event_id) {
            MirrorAction::Finish(MirrorEnd::Failed(MirrorFault::DuplicatePre))
        } else {
            MirrorAction::Encode
        }),
        m.operation matches mirror::OperationModel::Post(post) ==> m.next(MirrorEvent::LockHeld).1
            == (if m.open.contains(post.event_id) {
            MirrorAction::Encode
        } else {
            MirrorAction::Finish(MirrorEnd::Failed(MirrorFault::PostWithoutPre))
        }),
        m.operation is Round ==> m.next(MirrorEvent::LockHeld).1 == MirrorAction::Project,
{
}

/// A chained receipt of an event is backed by the journal.
pub open spec fn backed(
    chain: Seq<mirror::ReceiptModel>,
    journaled: Map<Seq<char>, journal::EventModel>,
    answers: Seq<mirror::Reprojection>,
    i: int,
) -> bool {
    mirror::is_event_step(chain[i].step_id) ==> journaled.contains_key(chain[i].step_id)
        && answers[i] == mirror::Reprojection::Same
}

/// A chain opens exactly if every event's receipt in it comes out of the
/// journal again. Otherwise the first that does not is named, under what is
/// wrong with it.
pub proof fn law_an_unbacked_receipt_is_named(
    chain: Seq<mirror::ReceiptModel>,
    journaled: Map<Seq<char>, journal::EventModel>,
    answers: Seq<mirror::Reprojection>,
    from: int,
)
    requires
        answers.len() == chain.len() <= u64::MAX,
        0 <= from <= chain.len(),
    ensures
        mirror::chain_fault(chain, journaled, answers, from) is None <==> forall|i: int|
            from <= i < chain.len() ==> #[trigger] backed(chain, journaled, answers, i),
        match mirror::chain_fault(chain, journaled, answers, from) {
            None => true,
            Some(mirror::OpenFault::MissingEvidence(at)) => from <= at < chain.len()
                && !journaled.contains_key(chain[at as int].step_id) && !backed(
                chain,
                journaled,
                answers,
                at as int,
            ) && forall|i: int| from <= i < at ==> #[trigger] backed(chain, journaled, answers, i),
            Some(mirror::OpenFault::NotReproduced(at)) => from <= at < chain.len()
                && answers[at as int] == mirror::Reprojection::Different && !backed(
                chain,
                journaled,
                answers,
                at as int,
            ) && forall|i: int| from <= i < at ==> #[trigger] backed(chain, journaled, answers, i),
            Some(mirror::OpenFault::NotProjected(at)) => from <= at < chain.len()
                && answers[at as int] == mirror::Reprojection::Failed && !backed(
                chain,
                journaled,
                answers,
                at as int,
            ) && forall|i: int| from <= i < at ==> #[trigger] backed(chain, journaled, answers, i),
            Some(_) => false,
        },
    decreases chain.len() - from,
{
    if from < chain.len() {
        law_an_unbacked_receipt_is_named(chain, journaled, answers, from + 1);
        assert(backed(chain, journaled, answers, from) <==> mirror::receipt_fault(
            chain,
            journaled,
            answers,
            from,
        ) is None);
        if mirror::receipt_fault(chain, journaled, answers, from) is None {
            if forall|j: int|
                from + 1 <= j < chain.len() ==> #[trigger] backed(chain, journaled, answers, j) {
                assert forall|i: int| from <= i < chain.len() implies #[trigger] backed(
                    chain,
                    journaled,
                    answers,
                    i,
                ) by {
                    if i > from {
                        assert(backed(chain, journaled, answers, i));
                    }
                }
            }
        }
    }
}

/// An opened mirror goes on where its logs end: at the last receipt, the last
/// line and its MAC, with the steps of the chain and the events of the journal,
/// all of which are still to be swept.
pub proof fn law_a_mirror_goes_on_where_its_logs_end(
    chain: Seq<mirror::ReceiptModel>,
    events: Seq<journal::EventModel>,
    macs: Seq<Seq<char>>,
    lens: (u64, u64),
    identities: (FileIdentity, FileIdentity),
    step: Seq<char>,
)
    requires
        macs.len() <= u64::MAX,
    ensures
        ({
            let m = mirror::opened(chain, events, macs, lens, identities);
            &&& chain.len() == 0 ==> m.tail is None
            &&& chain.len() > 0 ==> m.tail == Some(chain[chain.len() - 1].line)
            &&& m.next_seq == macs.len()
            &&& macs.len() > 0 ==> m.tail_mac == macs[macs.len() - 1]
            &&& m.chain_len == lens.0 && m.events_len == lens.1
            &&& m.chain_identity == identities.0 && m.events_identity == identities.1
            &&& m.chained.contains(step) <==> exists|i: int|
                0 <= i < chain.len() && (#[trigger] chain[i]).step_id == step
            &&& m.backlog == events
            &&& m.poisoned is None && m.stage == Stage::Idle
        }),
    decreases chain.len(),
{
    lemma_steps(chain, step);
}

proof fn lemma_steps(chain: Seq<mirror::ReceiptModel>, step: Seq<char>)
    ensures
        mirror::steps_of(chain).contains(step) <==> exists|i: int|
            0 <= i < chain.len() && (#[trigger] chain[i]).step_id == step,
    decreases chain.len(),
{
    if chain.len() > 0 {
        let before = chain.drop_last();
        lemma_steps(before, step);
        if exists|i: int| 0 <= i < before.len() && (#[trigger] before[i]).step_id == step {
            let i = choose|i: int| 0 <= i < before.len() && (#[trigger] before[i]).step_id == step;
            assert(chain[i].step_id == step);
        }
        if exists|i: int| 0 <= i < chain.len() && (#[trigger] chain[i]).step_id == step {
            let i = choose|i: int| 0 <= i < chain.len() && (#[trigger] chain[i]).step_id == step;
            if i < before.len() {
                assert(before[i].step_id == step);
            }
        }
        assert(chain[chain.len() - 1] == chain.last());
    }
}

} // verus!
