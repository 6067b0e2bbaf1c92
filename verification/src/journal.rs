//! The evidence journal: which effects were recorded before and after they ran.
//!
//! A line's MAC and its record can only be opened with the journal's key. A
//! `JournalReader` hands out the lines one by one, takes back what each one
//! opened to, and refuses a journal whose records do not pair up.
use crate::text;
use crate::text::{read_lines, torn};
use vstd::hash_map::StringHashMap;
use vstd::prelude::*;

verus! {

/// What was recorded of an event before its effect.
#[derive(Debug)]
pub struct PreEffectRecord {
    pub event_id: String,
    /// The record's canonical text; equal texts are equal records.
    pub content: String,
}

/// What was observed at the end of an event.
#[derive(Debug)]
pub struct PostEffectRecord {
    pub event_id: String,
    /// The record's canonical text; equal texts are equal records.
    pub content: String,
}

/// One record of the journal.
#[derive(Debug)]
pub enum EvidenceRecord {
    PreEffect(PreEffectRecord),
    PostEffect(PostEffectRecord),
}

/// An event as the journal holds it: stranded events have no observation.
#[derive(Debug)]
pub struct JournaledEvent {
    pub pre: PreEffectRecord,
    pub post: Option<PostEffectRecord>,
}

/// A pre-effect record over mathematical values.
#[verifier::ext_equal]
pub ghost struct PreModel {
    pub event_id: Seq<char>,
    pub content: Seq<char>,
}

/// A post-effect record over mathematical values.
#[verifier::ext_equal]
pub ghost struct PostModel {
    pub event_id: Seq<char>,
    pub content: Seq<char>,
}

/// A record over mathematical values.
#[verifier::ext_equal]
pub ghost enum RecordModel {
    Pre(PreModel),
    Post(PostModel),
}

/// A journaled event over mathematical values.
#[verifier::ext_equal]
pub ghost struct EventModel {
    pub pre: PreModel,
    pub post: Option<PostModel>,
}

impl View for PreEffectRecord {
    type V = PreModel;

    open spec fn view(&self) -> PreModel {
        PreModel { event_id: self.event_id@, content: self.content@ }
    }
}

impl View for PostEffectRecord {
    type V = PostModel;

    open spec fn view(&self) -> PostModel {
        PostModel { event_id: self.event_id@, content: self.content@ }
    }
}

impl View for EvidenceRecord {
    type V = RecordModel;

    open spec fn view(&self) -> RecordModel {
        match *self {
            EvidenceRecord::PreEffect(pre) => RecordModel::Pre(pre@),
            EvidenceRecord::PostEffect(post) => RecordModel::Post(post@),
        }
    }
}

impl View for JournaledEvent {
    type V = EventModel;

    open spec fn view(&self) -> EventModel {
        EventModel {
            pre: self.pre@,
            post: match self.post {
                Some(post) => Some(post@),
                None => None,
            },
        }
    }
}

impl Clone for PreEffectRecord {
    fn clone(&self) -> (r: Self)
        ensures
            r@ == self@,
    {
        PreEffectRecord { event_id: self.event_id.clone(), content: self.content.clone() }
    }
}

impl Clone for PostEffectRecord {
    fn clone(&self) -> (r: Self)
        ensures
            r@ == self@,
    {
        PostEffectRecord { event_id: self.event_id.clone(), content: self.content.clone() }
    }
}

impl Clone for JournaledEvent {
    fn clone(&self) -> (r: Self)
        ensures
            r@ == self@,
    {
        JournaledEvent {
            pre: self.pre.clone(),
            post: match &self.post {
                Some(post) => Some(post.clone()),
                None => None,
            },
        }
    }
}

impl PreEffectRecord {
    /// Whether two records are equal.
    pub fn same(&self, other: &PreEffectRecord) -> (r: bool)
        ensures
            r == (self@ == other@),
    {
        self.event_id == other.event_id && self.content == other.content
    }
}

impl PostEffectRecord {
    /// Whether two records are equal.
    pub fn same(&self, other: &PostEffectRecord) -> (r: bool)
        ensures
            r == (self@ == other@),
    {
        self.event_id == other.event_id && self.content == other.content
    }
}

/// Why a journal cannot be replayed; the number is that of the line.
#[derive(Clone, Copy, Debug, PartialEq, Eq, Structural)]
pub enum JournalFault {
    /// The last line lacks its line feed.
    Torn,
    NotUtf8,
    /// The chain MAC of a line, or the record in it, does not verify.
    LineRejected(u64),
    DuplicatePre(u64),
    PostWithoutPre(u64),
    DuplicatePost(u64),
}

/// A pre-effect record of `event_id` is among the records.
pub open spec fn has_pre(records: Seq<RecordModel>, event_id: Seq<char>) -> bool {
    exists|i: int|
        0 <= i < records.len() && (#[trigger] records[i] matches RecordModel::Pre(pre)
            && pre.event_id == event_id)
}

/// A post-effect record of `event_id` is among the records.
pub open spec fn has_post(records: Seq<RecordModel>, event_id: Seq<char>) -> bool {
    exists|i: int|
        0 <= i < records.len() && (#[trigger] records[i] matches RecordModel::Post(post)
            && post.event_id == event_id)
}

/// What is wrong with `record` on the line behind `before`: an event is
/// recorded once before its effect, and at most once behind that.
pub open spec fn conflict(before: Seq<RecordModel>, record: RecordModel) -> Option<JournalFault> {
    let line = before.len() as u64;
    match record {
        RecordModel::Pre(pre) => if has_pre(before, pre.event_id) {
            Some(JournalFault::DuplicatePre(line))
        } else {
            None
        },
        RecordModel::Post(post) => if !has_pre(before, post.event_id) {
            Some(JournalFault::PostWithoutPre(line))
        } else if has_post(before, post.event_id) {
            Some(JournalFault::DuplicatePost(line))
        } else {
            None
        },
    }
}

/// No record conflicts with those before it.
pub open spec fn replayable(records: Seq<RecordModel>) -> bool {
    forall|i: int|
        0 <= i < records.len() ==> conflict(records.take(i), #[trigger] records[i]) is None
}

/// The position of the event `event_id`, or the number of events.
pub open spec fn position(events: Seq<EventModel>, event_id: Seq<char>) -> int
    decreases events.len(),
{
    if events.len() == 0 {
        0
    } else if events[0].pre.event_id == event_id {
        0
    } else {
        1 + position(events.drop_first(), event_id)
    }
}

/// The events in the order of their pre-effect records, each with its
/// observation where there is one.
pub open spec fn paired(records: Seq<RecordModel>) -> Seq<EventModel>
    decreases records.len(),
{
    if records.len() == 0 {
        Seq::empty()
    } else {
        let before = paired(records.drop_last());
        match records.last() {
            RecordModel::Pre(pre) => before.push(EventModel { pre, post: None }),
            RecordModel::Post(post) => {
                let at = position(before, post.event_id);
                before.update(at, EventModel { pre: before[at].pre, post: Some(post) })
            },
        }
    }
}

/// The journaled events as models.
pub open spec fn event_views(events: Seq<JournaledEvent>) -> Seq<EventModel> {
    events.map_values(|event: JournaledEvent| event@)
}

proof fn lemma_position(events: Seq<EventModel>, event_id: Seq<char>)
    ensures
        0 <= position(events, event_id) <= events.len(),
        position(events, event_id) < events.len() ==> events[position(
            events,
            event_id,
        )].pre.event_id == event_id,
        forall|i: int|
            0 <= i < position(events, event_id) ==> (#[trigger] events[i]).pre.event_id != event_id,
    decreases events.len(),
{
    if events.len() > 0 && events[0].pre.event_id != event_id {
        let rest = events.drop_first();
        lemma_position(rest, event_id);
        let at = position(events, event_id);
        assert forall|i: int| 0 <= i < at implies (#[trigger] events[i]).pre.event_id
            != event_id by {
            if i > 0 {
                assert(rest[i - 1] == events[i]);
            }
        }
        if at < events.len() {
            assert(rest[at - 1] == events[at]);
        }
    }
}

proof fn lemma_position_is(events: Seq<EventModel>, event_id: Seq<char>, at: int)
    requires
        0 <= at < events.len(),
        events[at].pre.event_id == event_id,
        forall|i: int| 0 <= i < at ==> (#[trigger] events[i]).pre.event_id != event_id,
    ensures
        position(events, event_id) == at,
{
    lemma_position(events, event_id);
    let found = position(events, event_id);
    if found < at {
        assert(events[found].pre.event_id != event_id);
    }
    if at < found {
        assert(events[at].pre.event_id != event_id);
    }
}

/// No event stands twice.
pub open spec fn distinct_events(events: Seq<EventModel>) -> bool {
    forall|i: int, j: int|
        0 <= i < j < events.len() ==> (#[trigger] events[i]).pre.event_id != (
        #[trigger] events[j]).pre.event_id
}

/// What pairing keeps: every recorded event stands once, with exactly the
/// records that the journal holds of it.
pub open spec fn accounts_for(events: Seq<EventModel>, records: Seq<RecordModel>) -> bool {
    &&& distinct_events(events)
    &&& forall|i: int|
        0 <= i < events.len() ==> records.contains(RecordModel::Pre((#[trigger] events[i]).pre))
            && (events[i].post matches Some(post) ==> records.contains(RecordModel::Post(post))
            && post.event_id == events[i].pre.event_id)
    &&& forall|k: int|
        0 <= k < records.len() ==> match #[trigger] records[k] {
            RecordModel::Pre(pre) => exists|i: int|
                0 <= i < events.len() && (#[trigger] events[i]).pre == pre,
            RecordModel::Post(post) => exists|i: int|
                0 <= i < events.len() && (#[trigger] events[i]).post == Some(post),
        }
}

proof fn lemma_replayable_prefix(records: Seq<RecordModel>)
    requires
        replayable(records),
        records.len() > 0,
    ensures
        replayable(records.drop_last()),
        conflict(records.drop_last(), records.last()) is None,
{
    let before = records.drop_last();
    assert forall|i: int| 0 <= i < before.len() implies conflict(
        before.take(i),
        #[trigger] before[i],
    ) is None by {
        assert(before.take(i) =~= records.take(i));
        assert(before[i] == records[i]);
    }
    assert(records.take(records.len() - 1) =~= before);
    assert(records[records.len() - 1] == records.last());
}

proof fn lemma_replayable_push(records: Seq<RecordModel>, record: RecordModel)
    requires
        replayable(records),
        conflict(records, record) is None,
    ensures
        replayable(records.push(record)),
{
    let next = records.push(record);
    assert forall|i: int| 0 <= i < next.len() implies conflict(
        next.take(i),
        #[trigger] next[i],
    ) is None by {
        if i < records.len() {
            assert(next.take(i) =~= records.take(i));
            assert(next[i] == records[i]);
        } else {
            assert(next.take(i) =~= records);
        }
    }
}

proof fn lemma_pushed_contains(before: Seq<RecordModel>, record: RecordModel)
    ensures
        before.push(record).contains(record),
        forall|r: RecordModel| before.contains(r) ==> before.push(record).contains(r),
{
    let records = before.push(record);
    assert(records[before.len() as int] == record);
    assert forall|r: RecordModel| before.contains(r) implies records.contains(r) by {
        let k = choose|k: int| 0 <= k < before.len() && before[k] == r;
        assert(records[k] == r);
    }
}

proof fn lemma_pre_is_accounted_for(before: Seq<RecordModel>, pre: PreModel)
    requires
        accounts_for(paired(before), before),
        conflict(before, RecordModel::Pre(pre)) is None,
    ensures
        accounts_for(
            paired(before.push(RecordModel::Pre(pre))),
            before.push(RecordModel::Pre(pre)),
        ),
{
    let records = before.push(RecordModel::Pre(pre));
    let old_events = paired(before);
    let events = paired(records);
    assert(records.drop_last() =~= before);
    lemma_pushed_contains(before, RecordModel::Pre(pre));
    let n = old_events.len() as int;
    assert(events[n].pre == pre);
    assert forall|i: int| 0 <= i < n implies (#[trigger] old_events[i]).pre.event_id
        != pre.event_id by {
        let r = RecordModel::Pre(old_events[i].pre);
        assert(before.contains(r));
        let k = choose|k: int| 0 <= k < before.len() && before[k] == r;
        assert(before[k] matches RecordModel::Pre(p) && p.event_id
            == old_events[i].pre.event_id);
    }
    assert forall|k: int| 0 <= k < records.len() implies match #[trigger] records[k] {
        RecordModel::Pre(p) => exists|i: int|
            0 <= i < events.len() && (#[trigger] events[i]).pre == p,
        RecordModel::Post(p) => exists|i: int|
            0 <= i < events.len() && (#[trigger] events[i]).post == Some(p),
    } by {
        if k < before.len() {
            assert(records[k] == before[k]);
            match before[k] {
                RecordModel::Pre(p) => {
                    let i = choose|i: int|
                        0 <= i < old_events.len() && (#[trigger] old_events[i]).pre == p;
                    assert(events[i] == old_events[i]);
                },
                RecordModel::Post(p) => {
                    let i = choose|i: int|
                        0 <= i < old_events.len() && (#[trigger] old_events[i]).post
                            == Some(p);
                    assert(events[i] == old_events[i]);
                },
            }
        }
    }
}

proof fn lemma_post_is_accounted_for(before: Seq<RecordModel>, post: PostModel)
    requires
        accounts_for(paired(before), before),
        conflict(before, RecordModel::Post(post)) is None,
    ensures
        accounts_for(
            paired(before.push(RecordModel::Post(post))),
            before.push(RecordModel::Post(post)),
        ),
{
    let records = before.push(RecordModel::Post(post));
    let old_events = paired(before);
    let events = paired(records);
    assert(records.drop_last() =~= before);
    lemma_pushed_contains(before, RecordModel::Post(post));
    let at = position(old_events, post.event_id);
    lemma_position(old_events, post.event_id);
    // The pre-effect record of this event is in the journal, so the
    // event is among the pairs.
    let k0 = choose|k: int|
        0 <= k < before.len() && (#[trigger] before[k] matches RecordModel::Pre(pre)
            && pre.event_id == post.event_id);
    let pre0 = before[k0]->Pre_0;
    let i0 = choose|i: int|
        0 <= i < old_events.len() && (#[trigger] old_events[i]).pre == pre0;
    assert(old_events[i0].pre.event_id == post.event_id);
    assert(at <= i0);
    assert(events[at].pre == old_events[at].pre);
    assert(events[at].post == Some(post));
    // It had no observation before.
    assert(old_events[at].post is None) by {
        if old_events[at].post is Some {
            let p = old_events[at].post->0;
            assert(before.contains(RecordModel::Post(p)));
            let k = choose|k: int| 0 <= k < before.len() && before[k] == RecordModel::Post(p);
            assert(before[k] matches RecordModel::Post(q) && q.event_id == post.event_id);
            assert(has_post(before, post.event_id));
        }
    }
    assert forall|k: int| 0 <= k < records.len() implies match #[trigger] records[k] {
        RecordModel::Pre(p) => exists|i: int|
            0 <= i < events.len() && (#[trigger] events[i]).pre == p,
        RecordModel::Post(p) => exists|i: int|
            0 <= i < events.len() && (#[trigger] events[i]).post == Some(p),
    } by {
        if k < before.len() {
            assert(records[k] == before[k]);
            match before[k] {
                RecordModel::Pre(p) => {
                    let i = choose|i: int|
                        0 <= i < old_events.len() && (#[trigger] old_events[i]).pre == p;
                    assert(events[i].pre == old_events[i].pre);
                },
                RecordModel::Post(p) => {
                    let i = choose|i: int|
                        0 <= i < old_events.len() && (#[trigger] old_events[i]).post
                            == Some(p);
                    assert(i != at);
                    assert(events[i] == old_events[i]);
                },
            }
        }
    }
}

/// The events of a replayable journal account for its records: each event
/// stands once, each record in exactly the event it belongs to, and nothing
/// else is there.
pub proof fn law_events_account_for_the_journal(records: Seq<RecordModel>)
    requires
        replayable(records),
    ensures
        accounts_for(paired(records), records),
    decreases records.len(),
{
    if records.len() == 0 {
        return ;
    }
    let before = records.drop_last();
    lemma_replayable_prefix(records);
    law_events_account_for_the_journal(before);
    assert(records =~= before.push(records.last()));
    match records.last() {
        RecordModel::Pre(pre) => lemma_pre_is_accounted_for(before, pre),
        RecordModel::Post(post) => lemma_post_is_accounted_for(before, post),
    }
}

/// A journal can be replayed exactly if no event is recorded twice before its
/// effect, none twice behind it, and none behind it that is not recorded before
/// it, earlier in the journal.
pub proof fn law_a_replayable_journal_pairs_up(records: Seq<RecordModel>)
    ensures
        replayable(records) <==> {
            &&& forall|i: int, j: int|
                #![trigger records[i], records[j]]
                0 <= i < j < records.len() ==> match (records[i], records[j]) {
                    (RecordModel::Pre(a), RecordModel::Pre(b)) => a.event_id != b.event_id,
                    (RecordModel::Post(a), RecordModel::Post(b)) => a.event_id != b.event_id,
                    _ => true,
                }
            &&& forall|j: int|
                0 <= j < records.len() ==> (#[trigger] records[j] matches RecordModel::Post(post)
                    ==> exists|i: int|
                    0 <= i < j && (#[trigger] records[i] matches RecordModel::Pre(pre)
                        && pre.event_id == post.event_id))
        },
{
    let once = forall|i: int, j: int|
        #![trigger records[i], records[j]]
        0 <= i < j < records.len() ==> match (records[i], records[j]) {
            (RecordModel::Pre(a), RecordModel::Pre(b)) => a.event_id != b.event_id,
            (RecordModel::Post(a), RecordModel::Post(b)) => a.event_id != b.event_id,
            _ => true,
        };
    let behind = forall|j: int|
        0 <= j < records.len() ==> (#[trigger] records[j] matches RecordModel::Post(post)
            ==> exists|i: int|
            0 <= i < j && (#[trigger] records[i] matches RecordModel::Pre(pre) && pre.event_id
                == post.event_id));
    if replayable(records) {
        assert forall|i: int, j: int|
            #![trigger records[i], records[j]]
            0 <= i < j < records.len() implies match (records[i], records[j]) {
            (RecordModel::Pre(a), RecordModel::Pre(b)) => a.event_id != b.event_id,
            (RecordModel::Post(a), RecordModel::Post(b)) => a.event_id != b.event_id,
            _ => true,
        } by {
            assert(conflict(records.take(j), records[j]) is None);
            assert(records.take(j)[i] == records[i]);
        }
        assert forall|j: int| 0 <= j < records.len() implies (
        #[trigger] records[j] matches RecordModel::Post(post) ==> exists|i: int|
            0 <= i < j && (#[trigger] records[i] matches RecordModel::Pre(pre) && pre.event_id
                == post.event_id)) by {
            assert(conflict(records.take(j), records[j]) is None);
            if records[j] is Post {
                let id = records[j]->Post_0.event_id;
                assert(has_pre(records.take(j), id));
                let i = choose|i: int|
                    0 <= i < records.take(j).len() && (#[trigger] records.take(
                        j,
                    )[i] matches RecordModel::Pre(pre) && pre.event_id == id);
                assert(records[i] == records.take(j)[i]);
            }
        }
    }
    if once && behind {
        assert forall|j: int| 0 <= j < records.len() implies conflict(
            records.take(j),
            #[trigger] records[j],
        ) is None by {
            let before = records.take(j);
            match records[j] {
                RecordModel::Pre(pre) => {
                    if has_pre(before, pre.event_id) {
                        let i = choose|i: int|
                            0 <= i < before.len() && (#[trigger] before[i] matches RecordModel::Pre(
                                p,
                            ) && p.event_id == pre.event_id);
                        assert(records[i] == before[i]);
                    }
                },
                RecordModel::Post(post) => {
                    let i = choose|i: int|
                        0 <= i < j && (#[trigger] records[i] matches RecordModel::Pre(pre)
                            && pre.event_id == post.event_id);
                    assert(before[i] == records[i]);
                    if has_post(before, post.event_id) {
                        let k = choose|k: int|
                            0 <= k < before.len() && (#[trigger] before[k] matches RecordModel::Post(
                                p,
                            ) && p.event_id == post.event_id);
                        assert(records[k] == before[k]);
                    }
                },
            }
        }
    }
}

/// A refused record is refused under its own fault, with the number of its
/// line: the numbers count the records before it.
pub proof fn law_a_refused_record_says_why(before: Seq<RecordModel>, record: RecordModel)
    requires
        before.len() <= u64::MAX,
    ensures
        match conflict(before, record) {
            None => true,
            Some(JournalFault::DuplicatePre(line)) => line == before.len() && (
            record matches RecordModel::Pre(pre) && exists|i: int|
                0 <= i < before.len() && (#[trigger] before[i] matches RecordModel::Pre(earlier)
                    && earlier.event_id == pre.event_id)),
            Some(JournalFault::PostWithoutPre(line)) => line == before.len() && (
            record matches RecordModel::Post(post) && forall|i: int|
                0 <= i < before.len() ==> (#[trigger] before[i] matches RecordModel::Pre(earlier)
                    ==> earlier.event_id != post.event_id)),
            Some(JournalFault::DuplicatePost(line)) => line == before.len() && (
            record matches RecordModel::Post(post) && exists|i: int|
                0 <= i < before.len() && (#[trigger] before[i] matches RecordModel::Post(earlier)
                    && earlier.event_id == post.event_id)),
            Some(_) => false,
        },
{
}

/// Events stand in the order in which they were recorded before their effects:
/// such a record adds an event at the end, without an observation, and an
/// observation goes to the event of its identifier and moves none.
pub proof fn law_events_keep_the_order_of_their_records(
    records: Seq<RecordModel>,
    pre: PreModel,
    post: PostModel,
)
    ensures
        paired(Seq::<RecordModel>::empty()).len() == 0,
        paired(records.push(RecordModel::Pre(pre))) == paired(records).push(
            EventModel { pre, post: None },
        ),
        has_pre(records, post.event_id) && replayable(records) ==> {
            let events = paired(records);
            let after = paired(records.push(RecordModel::Post(post)));
            &&& after.len() == events.len()
            &&& forall|i: int|
                0 <= i < events.len() ==> (#[trigger] after[i]).pre == events[i].pre && after[i].post
                    == (if events[i].pre.event_id == post.event_id {
                    Some(post)
                } else {
                    events[i].post
                })
        },
{
    assert(records.push(RecordModel::Pre(pre)).drop_last() =~= records);
    assert(records.push(RecordModel::Post(post)).drop_last() =~= records);
    if has_pre(records, post.event_id) && replayable(records) {
        law_events_account_for_the_journal(records);
        let events = paired(records);
        let k = choose|k: int|
            0 <= k < records.len() && (#[trigger] records[k] matches RecordModel::Pre(p)
                && p.event_id == post.event_id);
        let own = records[k]->Pre_0;
        let at = choose|i: int| 0 <= i < events.len() && (#[trigger] events[i]).pre == own;
        lemma_position(events, post.event_id);
        assert(events[at].pre.event_id == post.event_id);
        let found = position(events, post.event_id);
        assert(found <= at);
        let after = paired(records.push(RecordModel::Post(post)));
        assert forall|i: int| 0 <= i < events.len() implies (#[trigger] after[i]).pre
            == events[i].pre && after[i].post == (if events[i].pre.event_id == post.event_id {
            Some(post)
        } else {
            events[i].post
        }) by {
            if i != found && events[i].pre.event_id == post.event_id {
                assert(events[found].pre.event_id == events[i].pre.event_id);
            }
        }
    }
}

/// A journal that was read to its end.
#[derive(Debug)]
pub struct ParsedJournal {
    /// The events in the order of their pre-effect records.
    pub events: Vec<JournaledEvent>,
    /// The chain MAC of each line.
    pub macs: Vec<String>,
}

/// A journal that is being read, line by line.
pub struct JournalReader {
    lines: Vec<String>,
    macs: Vec<String>,
    events: Vec<JournaledEvent>,
    index: StringHashMap<usize>,
    records: Ghost<Seq<RecordModel>>,
}

/// The lines of a journal file, or why it is refused before any line is opened.
pub open spec fn journal_lines(bytes: Seq<u8>) -> Result<Seq<Seq<char>>, JournalFault> {
    if text::is_torn(bytes) {
        Err(JournalFault::Torn)
    } else if !text::all_text(text::lines_from(bytes, 0)) {
        Err(JournalFault::NotUtf8)
    } else {
        Ok(text::written_lines(text::lines_from(bytes, 0)))
    }
}

impl JournalReader {
    /// The lines of the file.
    pub closed spec fn lines(self) -> Seq<Seq<char>> {
        text::text_views(self.lines@)
    }

    /// The chain MACs of the lines read so far.
    pub closed spec fn macs(self) -> Seq<Seq<char>> {
        text::text_views(self.macs@)
    }

    /// The records of the lines read so far.
    pub closed spec fn records(self) -> Seq<RecordModel> {
        self.records@
    }

    /// The reader's parts agree.
    pub closed spec fn wf(self) -> bool {
        let records = self.records@;
        let events = event_views(self.events@);
        &&& records.len() == self.macs@.len() <= self.lines@.len()
        &&& replayable(records)
        &&& events == paired(records)
        &&& forall|id: Seq<char>| #[trigger]
            self.index@.contains_key(id) ==> self.index@[id] < events.len()
                && events[self.index@[id] as int].pre.event_id == id
        &&& forall|i: int|
            0 <= i < events.len() ==> self.index@.contains_key(
                (#[trigger] events[i]).pre.event_id,
            )
    }

    /// Starts reading a journal file.
    pub fn open(bytes: &[u8]) -> (r: Result<JournalReader, JournalFault>)
        ensures
            match journal_lines(bytes@) {
                Err(fault) => r == Err::<JournalReader, JournalFault>(fault),
                Ok(lines) => r matches Ok(reader) && (reader.wf() && reader.lines() == lines
                    && reader.macs().len() == 0 && reader.records().len() == 0),
            },
    {
        if torn(bytes) {
            return Err(JournalFault::Torn);
        }
        match read_lines(bytes) {
            None => Err(JournalFault::NotUtf8),
            Some(lines) => {
                let reader = JournalReader {
                    lines,
                    macs: Vec::new(),
                    events: Vec::new(),
                    index: StringHashMap::new(),
                    records: Ghost(Seq::empty()),
                };
                assert(event_views(reader.events@) =~= paired(reader.records@));
                Ok(reader)
            },
        }
    }

    /// The next line to open, if there is one.
    pub fn next_line(&self) -> (r: Option<&String>)
        requires
            self.wf(),
        ensures
            match r {
                Some(line) => self.records().len() < self.lines().len() && line@
                    == self.lines()[self.records().len() as int],
                None => self.records().len() == self.lines().len(),
            },
    {
        let at: usize = self.macs.len();
        if at < self.lines.len() {
            Some(&self.lines[at])
        } else {
            None
        }
    }

    /// The sequence number of the next line.
    pub fn sequence(&self) -> (r: u64)
        requires
            self.wf(),
        ensures
            r == self.records().len(),
    {
        self.macs.len() as u64
    }

    /// The chain MAC that the next line is linked to: that of the line before
    /// it, and the empty text for the first line.
    pub fn previous_mac(&self) -> (r: String)
        requires
            self.wf(),
        ensures
            r@ == (if self.macs().len() == 0 {
                Seq::<char>::empty()
            } else {
                self.macs().last()
            }),
    {
        let at: usize = self.macs.len();
        if at == 0 {
            String::new()
        } else {
            self.macs[at - 1].clone()
        }
    }

    /// The fault of a journal whose next line did not open.
    pub fn rejected(&self) -> (r: JournalFault)
        requires
            self.wf(),
        ensures
            r == JournalFault::LineRejected(self.records().len() as u64),
    {
        JournalFault::LineRejected(self.macs.len() as u64)
    }

    proof fn lemma_event(&self, id: Seq<char>)
        requires
            self.wf(),
        ensures
            self.index@.contains_key(id) <==> has_pre(self.records@, id),
            self.index@.contains_key(id) ==> self.index@[id] == position(
                event_views(self.events@),
                id,
            ) && (event_views(self.events@)[self.index@[id] as int].post is Some <==> has_post(
                self.records@,
                id,
            )),
    {
        let records = self.records@;
        let events = event_views(self.events@);
        law_events_account_for_the_journal(records);
        if has_pre(records, id) {
            let k = choose|k: int|
                0 <= k < records.len() && (#[trigger] records[k] matches RecordModel::Pre(pre)
                    && pre.event_id == id);
            let pre = records[k]->Pre_0;
            let i = choose|i: int| 0 <= i < events.len() && (#[trigger] events[i]).pre == pre;
            assert(events[i].pre.event_id == id);
        }
        if self.index@.contains_key(id) {
            let at = self.index@[id] as int;
            let pre = events[at].pre;
            assert(records.contains(RecordModel::Pre(pre)));
            let k = choose|k: int| 0 <= k < records.len() && records[k] == RecordModel::Pre(pre);
            assert(records[k] matches RecordModel::Pre(p) && p.event_id == id);
            lemma_position_is(events, id, at);
            if events[at].post is Some {
                let post = events[at].post->0;
                assert(records.contains(RecordModel::Post(post)));
                let j = choose|j: int|
                    0 <= j < records.len() && records[j] == RecordModel::Post(post);
                assert(records[j] matches RecordModel::Post(p) && p.event_id == id);
            }
            if has_post(records, id) {
                let j = choose|j: int|
                    0 <= j < records.len() && (#[trigger] records[j] matches RecordModel::Post(p)
                        && p.event_id == id);
                let post = records[j]->Post_0;
                let i = choose|i: int|
                    0 <= i < events.len() && (#[trigger] events[i]).post == Some(post);
                assert(events[i].pre.event_id == id);
                assert(i == at);
            }
        }
    }

    fn take_pre(&mut self, mac: String, pre: PreEffectRecord)
        requires
            old(self).wf(),
            old(self).records().len() < old(self).lines().len(),
            !old(self).index@.contains_key(pre.event_id@),
            conflict(old(self).records(), RecordModel::Pre(pre@)) is None,
        ensures
            final(self).wf(),
            final(self).lines() == old(self).lines(),
            final(self).records() == old(self).records().push(RecordModel::Pre(pre@)),
            final(self).macs() == old(self).macs().push(mac@),
    {
        let ghost before = self.records@;
        let ghost old_events = event_views(self.events@);
        let ghost model = RecordModel::Pre(pre@);
        let at: usize = self.events.len();
        self.index.insert(pre.event_id.clone(), at);
        let event = JournaledEvent { pre, post: None };
        let ghost entry = event@;
        self.events.push(event);
        self.macs.push(mac);
        self.records = Ghost(before.push(model));
        proof {
            lemma_replayable_push(before, model);
            assert(before.push(model).drop_last() =~= before);
            let events = event_views(self.events@);
            assert(events =~= old_events.push(entry));
            assert(events == paired(self.records@));
            assert forall|i: int| 0 <= i < events.len() implies self.index@.contains_key(
                (#[trigger] events[i]).pre.event_id,
            ) by {
                if i < old_events.len() {
                    assert(events[i] == old_events[i]);
                }
            }
            assert(self.macs() =~= old(self).macs().push(mac@));
        }
    }

    fn take_post(&mut self, mac: String, post: PostEffectRecord, at: usize)
        requires
            old(self).wf(),
            old(self).records().len() < old(self).lines().len(),
            old(self).index@.contains_key(post.event_id@),
            old(self).index@[post.event_id@] == at,
            at == position(event_views(old(self).events@), post.event_id@),
            conflict(old(self).records(), RecordModel::Post(post@)) is None,
        ensures
            final(self).wf(),
            final(self).lines() == old(self).lines(),
            final(self).records() == old(self).records().push(RecordModel::Post(post@)),
            final(self).macs() == old(self).macs().push(mac@),
    {
        let ghost before = self.records@;
        let ghost old_events = event_views(self.events@);
        let ghost model = RecordModel::Post(post@);
        assert(old_events[at as int] == self.events@[at as int]@);
        let event = JournaledEvent { pre: self.events[at].pre.clone(), post: Some(post) };
        let ghost entry = event@;
        self.events.set(at, event);
        self.macs.push(mac);
        self.records = Ghost(before.push(model));
        proof {
            lemma_replayable_push(before, model);
            assert(before.push(model).drop_last() =~= before);
            let events = event_views(self.events@);
            assert(events =~= old_events.update(at as int, entry));
            assert(events == paired(self.records@));
            assert forall|i: int| 0 <= i < events.len() implies self.index@.contains_key(
                (#[trigger] events[i]).pre.event_id,
            ) by {
                assert(events[i].pre.event_id == old_events[i].pre.event_id);
            }
            assert forall|id: Seq<char>| #[trigger] self.index@.contains_key(id) implies
                self.index@[id] < events.len() && events[self.index@[id] as int].pre.event_id
                == id by {
                let k = self.index@[id] as int;
                assert(events[k].pre.event_id == old_events[k].pre.event_id);
            }
            assert(self.macs() =~= old(self).macs().push(mac@));
        }
    }

    /// Takes the record and the chain MAC that the next line opened to. A
    /// record that conflicts with those before it is refused, and the reader
    /// stays where it is.
    pub fn accept(&mut self, mac: String, record: EvidenceRecord) -> (r: Result<(), JournalFault>)
        requires
            old(self).wf(),
            old(self).records().len() < old(self).lines().len(),
        ensures
            final(self).wf(),
            final(self).lines() == old(self).lines(),
            match conflict(old(self).records(), record@) {
                Some(fault) => {
                    &&& r == Err::<(), JournalFault>(fault)
                    &&& final(self).records() == old(self).records()
                    &&& final(self).macs() == old(self).macs()
                },
                None => {
                    &&& r is Ok
                    &&& final(self).records() == old(self).records().push(record@)
                    &&& final(self).macs() == old(self).macs().push(mac@)
                },
            },
    {
        let line: u64 = self.macs.len() as u64;
        match record {
            EvidenceRecord::PreEffect(pre) => {
                proof {
                    self.lemma_event(pre.event_id@);
                }
                if self.index.contains_key(pre.event_id.as_str()) {
                    return Err(JournalFault::DuplicatePre(line));
                }
                self.take_pre(mac, pre);
            },
            EvidenceRecord::PostEffect(post) => {
                proof {
                    self.lemma_event(post.event_id@);
                }
                let at: usize = match self.index.get(post.event_id.as_str()) {
                    Some(at) => *at,
                    None => {
                        return Err(JournalFault::PostWithoutPre(line));
                    },
                };
                assert(event_views(self.events@)[at as int] == self.events@[at as int]@);
                if self.events[at].post.is_some() {
                    return Err(JournalFault::DuplicatePost(line));
                }
                self.take_post(mac, post, at);
            },
        }
        Ok(())
    }

    /// The journal, once its last line was taken.
    pub fn finish(self) -> (r: ParsedJournal)
        requires
            self.wf(),
            self.records().len() == self.lines().len(),
        ensures
            event_views(r.events@) == paired(self.records()),
            text::text_views(r.macs@) == self.macs(),
            r.macs@.len() == self.lines().len(),
            replayable(self.records()),
            distinct_events(event_views(r.events@)),
    {
        proof {
            law_events_account_for_the_journal(self.records@);
        }
        ParsedJournal { events: self.events, macs: self.macs }
    }
}

/// A journal that does not end with a line feed is refused for that, whatever
/// it holds; any other is refused only if it is not text.
pub proof fn law_a_torn_journal_is_refused(bytes: Seq<u8>)
    ensures
        bytes.len() > 0 && bytes[bytes.len() - 1] != 10 ==> journal_lines(bytes) == Err::<
            Seq<Seq<char>>,
            JournalFault,
        >(JournalFault::Torn),
        bytes.len() == 0 || bytes[bytes.len() - 1] == 10 ==> match journal_lines(bytes) {
            Ok(_) => text::all_text(text::lines_from(bytes, 0)),
            Err(fault) => fault == JournalFault::NotUtf8 && !text::all_text(
                text::lines_from(bytes, 0),
            ),
        },
        journal_lines(Seq::empty()) == Ok::<Seq<Seq<char>>, JournalFault>(Seq::empty()),
{
    assert(text::lines_from(Seq::empty(), 0) =~= Seq::<Seq<u8>>::empty());
    assert(text::written_lines(Seq::empty()) =~= Seq::<Seq<char>>::empty());
}

} // verus!
