//! Session control: checkpoints, rollbacks, compaction, background tasks and
//! the receipts of decisions that are no turn.
use crate::authz::ControlVerifyCost;
use crate::chat;
use crate::chat::{estimate_tokens, ChatMessage};
use crate::cost::CostTuple;
use crate::digest;
use crate::encoding;
use crate::encoding::text_of_uuid;
use crate::errors::RuntimeError;
use crate::ids::{ReceiptId, Sha256Digest, UnixTsMillis};
use crate::minting;
use crate::runtime::FusedRuntime;
use crate::session;
use crate::session::SessionEntry;
use crate::text;
use crate::text::decimal;
use vstd::prelude::*;
use vstd::string::StringExecFns;

verus! {

/// The verb of an applied compaction.
pub const COMPACT_APPLIED_VERB: &'static str = "context.compact.applied.v1";

/// The verb of a compaction that was only previewed.
pub const COMPACT_PREVIEWED_VERB: &'static str = "context.compact.previewed.v1";

/// The verb of a completed background task.
pub const TASK_COMPLETED_VERB: &'static str = "task.background.completed.v1";

/// The verb of a failed background task.
pub const TASK_FAILED_VERB: &'static str = "task.background.failed.v1";

/// A receipt that a control operation asks for.
#[derive(Clone, Copy, Debug, PartialEq, Eq)]
pub struct ControlReceipt {
    pub verb: &'static str,
    pub payload: Sha256Digest,
    pub cost: CostTuple,
    pub verify: ControlVerifyCost,
}

/// A receipt without cost, verified as every control operation is.
pub open spec fn free_receipt(verb: &'static str, payload: Sha256Digest) -> ControlReceipt {
    ControlReceipt {
        verb,
        payload,
        cost: CostTuple::zero(),
        verify: ControlVerifyCost::RuntimeDefault,
    }
}

fn free(verb: &'static str, payload: Sha256Digest) -> (r: ControlReceipt)
    ensures
        r == free_receipt(verb, payload),
{
    ControlReceipt {
        verb,
        payload,
        cost: CostTuple::zero(),
        verify: ControlVerifyCost::RuntimeDefault,
    }
}

/// A control receipt states its verb and what it is about, costs nothing, and
/// has its token verified at the runtime's own cost.
pub proof fn law_a_control_receipt_is_free(verb: &'static str, payload: Sha256Digest)
    ensures
        free_receipt(verb, payload).verb == verb,
        free_receipt(verb, payload).payload == payload,
        free_receipt(verb, payload).cost == CostTuple::zero(),
        free_receipt(verb, payload).verify == ControlVerifyCost::RuntimeDefault,
{
}

/// The last `count` bytes of a number, the highest first.
pub open spec fn big_endian(n: nat, count: nat) -> Seq<u8>
    decreases count,
{
    if count == 0 {
        Seq::empty()
    } else {
        big_endian(n / 256, (count - 1) as nat).push((n % 256) as u8)
    }
}

/// The sixteen bytes of a UUID.
pub open spec fn uuid_bytes(id: u128) -> Seq<u8> {
    big_endian(id as nat, 16)
}

/// Calls `Uuid::from_u128` and `Uuid::as_bytes` of the `uuid` crate, which keep
/// the identifier as its big-endian bytes.
#[verifier::external_body]
fn bytes_of_uuid(id: u128) -> (r: Vec<u8>)
    ensures
        r@ == uuid_bytes(id),
{
    uuid::Uuid::from_u128(id).as_bytes().to_vec()
}

/// The digest of a UUID's bytes.
pub open spec fn uuid_digest(id: u128) -> Sha256Digest {
    digest::digest_of(uuid_bytes(id))
}

fn digest_of_uuid(id: u128) -> (r: Sha256Digest)
    ensures
        r == uuid_digest(id),
{
    Sha256Digest::of(bytes_of_uuid(id).as_slice())
}

/// The label of a checkpoint: the caller's, or one that names the length of
/// the journal.
pub open spec fn checkpoint_label(label: Option<Seq<char>>, entries: nat) -> Seq<char> {
    match label {
        Some(label) => label,
        None => "checkpoint at "@ + text::decimal_text(entries) + " entries"@,
    }
}

/// The label of a checkpoint over a journal of `entries` entries.
pub fn checkpoint_summary(label: Option<String>, entries: u64) -> (r: String)
    ensures
        r@ == checkpoint_label(
            match label {
                Some(label) => Some(label@),
                None => None,
            },
            entries as nat,
        ),
{
    match label {
        Some(label) => label,
        None => {
            let mut summary: String = String::from_str("checkpoint at ");
            summary.append(decimal(entries).as_str());
            summary.append(" entries");
            summary
        },
    }
}

/// The receipt of a checkpoint.
pub fn checkpoint_receipt(summary: &str) -> (r: ControlReceipt)
    ensures
        r == free_receipt("session.checkpoint.created.v1", minting::text_digest(summary@)),
{
    free("session.checkpoint.created.v1", Sha256Digest::of_text(summary))
}

/// The receipt of a rollback.
pub fn rollback_receipt(checkpoint_id: u128) -> (r: ControlReceipt)
    ensures
        r == free_receipt("session.rollback.completed.v1", uuid_digest(checkpoint_id)),
{
    free("session.rollback.completed.v1", digest_of_uuid(checkpoint_id))
}

/// The receipt of a background task that failed with this message.
pub fn task_failed_receipt(message: &str) -> (r: ControlReceipt)
    ensures
        r == free_receipt(TASK_FAILED_VERB, minting::text_digest(message@)),
{
    free(TASK_FAILED_VERB, Sha256Digest::of_text(message))
}

impl FusedRuntime {
    /// The receipt of a background task that its user cancelled.
    pub fn cancel_background_task(&self) -> (r: ControlReceipt)
        ensures
            r == free_receipt(
                "task.background.cancelled.v1",
                minting::text_digest("cancelled by user"@),
            ),
    {
        free("task.background.cancelled.v1", Sha256Digest::of_text("cancelled by user"))
    }

    /// The receipt of a steering directive to a background task.
    pub fn accept_steer_directive(&self, target_task_id: u128, message: &str) -> (r: ControlReceipt)
        ensures
            r == free_receipt(
                "input.steer.accepted.v1",
                minting::text_digest(encoding::uuid_text(target_task_id) + ":"@ + message@),
            ),
    {
        let mut directive: String = text_of_uuid(target_task_id);
        directive.append(":");
        directive.append(message);
        free("input.steer.accepted.v1", Sha256Digest::of_text(directive.as_str()))
    }

    /// The receipt of an interrupt of a background task.
    pub fn accept_interrupt(&self, target_task_id: u128) -> (r: ControlReceipt)
        ensures
            r == free_receipt("input.interrupt.accepted.v1", uuid_digest(target_task_id)),
    {
        free("input.interrupt.accepted.v1", digest_of_uuid(target_task_id))
    }

    /// The receipt of an approval decision: its token is verified at no cost, as
    /// the decision itself was admitted.
    pub fn mint_approval_decision_receipt(
        &self,
        verb: &'static str,
        approval_id: &str,
    ) -> (r: ControlReceipt)
        ensures
            r == (ControlReceipt {
                verify: ControlVerifyCost::ApprovalDecision,
                ..free_receipt(verb, minting::text_digest(approval_id@))
            }),
    {
        ControlReceipt {
            verb,
            payload: Sha256Digest::of_text(approval_id),
            cost: CostTuple::zero(),
            verify: ControlVerifyCost::ApprovalDecision,
        }
    }

    /// What a revocation came to. `parsed` is why the token was not read, and
    /// `persisted` why the revocation may not be durable: it is acknowledged
    /// only where both went well.
    pub fn revoke_cap_token(&self, parsed: Option<String>, persisted: Option<String>) -> (r: Result<
        (),
        RuntimeError,
    >)
        ensures
            match (parsed, persisted) {
                (Some(why), _) => r matches Err(RuntimeError::CapDenied { cause: None, reason })
                    && reason@ == "revoke: "@ + why@,
                (None, Some(why)) => r matches Err(RuntimeError::Internal(text)) && text@
                    == "persisting revocation failed: "@ + why@,
                (None, None) => r is Ok,
            },
    {
        if let Some(why) = parsed {
            let mut reason: String = String::from_str("revoke: ");
            reason.append(why.as_str());
            return Err(RuntimeError::CapDenied { cause: None, reason });
        }
        if let Some(why) = persisted {
            let mut text: String = String::from_str("persisting revocation failed: ");
            text.append(why.as_str());
            return Err(RuntimeError::Internal(text));
        }
        Ok(())
    }
}

/// The receipt of a proposed approval.
pub fn approval_proposal_receipt(approval_id: &str) -> (r: ControlReceipt)
    ensures
        r == free_receipt("approval.propose.created.v1", minting::text_digest(approval_id@)),
{
    free("approval.propose.created.v1", Sha256Digest::of_text(approval_id))
}

/// A recorded checkpoint.
#[derive(Debug)]
pub struct CheckpointOutcome {
    pub checkpoint_id: u128,
    pub entry_id: u64,
    pub receipt_id: ReceiptId,
    pub summary: String,
}

/// A checkpoint of a journal.
#[derive(Debug)]
pub struct CheckpointInfo {
    pub checkpoint_id: u128,
    /// Its position in the journal.
    pub entry_id: u64,
    pub summary: String,
    pub at: u64,
}

/// A checkpoint of a journal over mathematical values.
#[verifier::ext_equal]
pub ghost struct CheckpointModel {
    pub checkpoint_id: u128,
    pub entry_id: u64,
    pub summary: Seq<char>,
    pub at: u64,
}

impl View for CheckpointInfo {
    type V = CheckpointModel;

    open spec fn view(&self) -> CheckpointModel {
        CheckpointModel {
            checkpoint_id: self.checkpoint_id,
            entry_id: self.entry_id,
            summary: self.summary@,
            at: self.at,
        }
    }
}

/// The checkpoints among the first `n` entries, in order.
pub open spec fn checkpoints(entries: Seq<session::EntryModel>, n: int) -> Seq<CheckpointModel>
    decreases n,
{
    if n <= 0 {
        Seq::empty()
    } else {
        match entries[n - 1] {
            session::EntryModel::Checkpoint { checkpoint_id, summary, at } => checkpoints(
                entries,
                n - 1,
            ).push(
                CheckpointModel {
                    checkpoint_id,
                    entry_id: (n - 1) as u64,
                    summary,
                    at: at.0,
                },
            ),
            _ => checkpoints(entries, n - 1),
        }
    }
}

/// The position of a listed checkpoint is that of its entry, and what is listed
/// of it is what the entry says.
pub open spec fn lists_entry(info: CheckpointModel, entries: Seq<session::EntryModel>) -> bool {
    &&& info.entry_id < entries.len()
    &&& entries[info.entry_id as int] matches session::EntryModel::Checkpoint {
        checkpoint_id,
        summary,
        at,
    } && checkpoint_id == info.checkpoint_id && summary == info.summary && at.0 == info.at
}

proof fn lemma_checkpoints(entries: Seq<session::EntryModel>, n: int)
    requires
        0 <= n <= entries.len() <= u64::MAX,
    ensures
        ({
            let list = checkpoints(entries, n);
            &&& forall|k: int|
                0 <= k < list.len() ==> (#[trigger] list[k]).entry_id < n && lists_entry(
                    list[k],
                    entries,
                )
            &&& forall|j: int, k: int|
                0 <= j < k < list.len() ==> (#[trigger] list[j]).entry_id < (
                #[trigger] list[k]).entry_id
            &&& forall|i: int|
                0 <= i < n && (#[trigger] entries[i]) is Checkpoint ==> exists|k: int|
                    0 <= k < list.len() && (#[trigger] list[k]).entry_id == i
        }),
    decreases n,
{
    if n > 0 {
        lemma_checkpoints(entries, n - 1);
        let before = checkpoints(entries, n - 1);
        let list = checkpoints(entries, n);
        assert forall|k: int| 0 <= k < list.len() implies (#[trigger] list[k]).entry_id < n
            && lists_entry(list[k], entries) by {
            if k < before.len() {
                assert(list[k] == before[k]);
            }
        }
        assert forall|j: int, k: int| 0 <= j < k < list.len() implies (#[trigger] list[j]).entry_id
            < (#[trigger] list[k]).entry_id by {
            assert(list[j] == before[j]);
            if k < before.len() {
                assert(list[k] == before[k]);
            }
        }
        assert forall|i: int| 0 <= i < n && (#[trigger] entries[i]) is Checkpoint implies exists|
            k: int,
        | 0 <= k < list.len() && (#[trigger] list[k]).entry_id == i by {
            if i < n - 1 {
                let k = choose|k: int|
                    0 <= k < before.len() && (#[trigger] before[k]).entry_id == i;
                assert(list[k] == before[k]);
            } else {
                assert(list[before.len() as int].entry_id == i);
            }
        }
    }
}

/// The checkpoints that are listed are exactly those of the journal, each once
/// and in order, with the place and the words of its entry.
pub proof fn law_every_checkpoint_is_listed_once(entries: Seq<session::EntryModel>)
    requires
        entries.len() <= u64::MAX,
    ensures
        ({
            let list = checkpoints(entries, entries.len() as int);
            &&& forall|k: int| 0 <= k < list.len() ==> lists_entry(#[trigger] list[k], entries)
            &&& forall|j: int, k: int|
                0 <= j < k < list.len() ==> (#[trigger] list[j]).entry_id < (
                #[trigger] list[k]).entry_id
            &&& forall|i: int|
                0 <= i < entries.len() && (#[trigger] entries[i]) is Checkpoint ==> exists|k: int|
                    0 <= k < list.len() && (#[trigger] list[k]).entry_id == i
        }),
{
    lemma_checkpoints(entries, entries.len() as int);
}

impl FusedRuntime {
    /// Lists the checkpoints of a journal, in the order of their creation.
    pub fn list_checkpoints(&self, entries: &Vec<SessionEntry>) -> (r: Vec<CheckpointInfo>)
        ensures
            r@.map_values(|info: CheckpointInfo| info@) == checkpoints(
                session::entry_views(entries@),
                entries@.len() as int,
            ),
    {
        let ghost views = session::entry_views(entries@);
        let mut list: Vec<CheckpointInfo> = Vec::new();
        let mut i: usize = 0;
        assert(list@.map_values(|info: CheckpointInfo| info@) =~= checkpoints(views, 0));
        while i < entries.len()
            invariant
                i <= entries@.len(),
                views == session::entry_views(entries@),
                list@.map_values(|info: CheckpointInfo| info@) == checkpoints(views, i as int),
            decreases entries@.len() - i,
        {
            assert(views[i as int] == entries@[i as int]@);
            let ghost before = list@.map_values(|info: CheckpointInfo| info@);
            if let SessionEntry::Checkpoint { checkpoint_id, summary, at } = &entries[i] {
                let info = CheckpointInfo {
                    checkpoint_id: *checkpoint_id,
                    entry_id: i as u64,
                    summary: summary.clone(),
                    at: at.0,
                };
                let ghost model = info@;
                list.push(info);
                assert(list@.map_values(|info: CheckpointInfo| info@) =~= before.push(model));
            }
            i = i + 1;
        }
        list
    }
}

/// An entry is the checkpoint `id`.
pub open spec fn is_checkpoint(entry: session::EntryModel, id: u128) -> bool {
    entry matches session::EntryModel::Checkpoint { checkpoint_id, .. } && checkpoint_id == id
}

/// The position of the first checkpoint `id` from `from` on, or the end.
pub open spec fn checkpoint_position(
    entries: Seq<session::EntryModel>,
    id: u128,
    from: int,
) -> int
    decreases entries.len() - from,
{
    if from >= entries.len() || is_checkpoint(entries[from], id) {
        from
    } else {
        checkpoint_position(entries, id, from + 1)
    }
}

/// A rollback that can be carried out.
#[derive(Debug)]
pub struct RollbackPlan {
    /// The receipt to write before the journal is told.
    pub receipt: ControlReceipt,
    /// The entries up to and including the checkpoint.
    pub retained_entries: Vec<SessionEntry>,
}

/// A carried out rollback.
#[derive(Debug)]
pub struct RollbackOutcome {
    pub target_checkpoint_id: u128,
    pub entry_id: u64,
    pub receipt_id: ReceiptId,
    pub retained_entries: Vec<SessionEntry>,
}

impl FusedRuntime {
    /// Plans a rollback to a checkpoint of a journal; a checkpoint that the
    /// journal does not hold is an error.
    pub fn rollback_to_checkpoint(&self, entries: &Vec<SessionEntry>, checkpoint_id: u128) -> (r: Result<
        RollbackPlan,
        RuntimeError,
    >)
        ensures
            ({
                let views = session::entry_views(entries@);
                let at = checkpoint_position(views, checkpoint_id, 0);
                if at < views.len() {
                    r matches Ok(plan) && (session::entry_views(plan.retained_entries@) == views.take(
                        at + 1,
                    ) && plan.receipt == free_receipt(
                        "session.rollback.completed.v1",
                        uuid_digest(checkpoint_id),
                    ))
                } else {
                    r matches Err(RuntimeError::Internal(text)) && text@ == "checkpoint "@
                        + encoding::uuid_text(checkpoint_id) + " not found in this session's journal"@
                }
            }),
            r is Ok <==> exists|i: int|
                0 <= i < entries@.len() && (#[trigger] entries@[i] matches
                    SessionEntry::Checkpoint { checkpoint_id: id, .. } && id == checkpoint_id),
            r matches Ok(plan) ==> {
                let kept = plan.retained_entries@;
                &&& 0 < kept.len() <= entries@.len()
                &&& forall|i: int| 0 <= i < kept.len() ==> (#[trigger] kept[i])@ == entries@[i]@
                &&& (entries@[kept.len() - 1] matches SessionEntry::Checkpoint {
                    checkpoint_id: id,
                    ..
                } && id == checkpoint_id)
                &&& forall|i: int|
                    0 <= i < kept.len() - 1 ==> !(#[trigger] entries@[i] matches
                        SessionEntry::Checkpoint { checkpoint_id: id, .. } && id == checkpoint_id)
            },
    {
        let ghost views = session::entry_views(entries@);
        let mut retained: Vec<SessionEntry> = Vec::new();
        let mut i: usize = 0;
        assert(session::entry_views(retained@) =~= views.take(0));
        while i < entries.len()
            invariant
                i <= entries@.len(),
                views == session::entry_views(entries@),
                session::entry_views(retained@) == views.take(i as int),
                forall|k: int|
                    0 <= k < i ==> !(#[trigger] entries@[k] matches SessionEntry::Checkpoint {
                        checkpoint_id: id,
                        ..
                    } && id == checkpoint_id),
                checkpoint_position(views, checkpoint_id, 0) == checkpoint_position(
                    views,
                    checkpoint_id,
                    i as int,
                ),
            decreases entries@.len() - i,
        {
            assert(views[i as int] == entries@[i as int]@);
            let ghost before = session::entry_views(retained@);
            let entry: SessionEntry = entries[i].clone();
            let ghost model = entry@;
            retained.push(entry);
            assert(session::entry_views(retained@) =~= before.push(model));
            assert(session::entry_views(retained@) =~= views.take(i + 1));
            let found: bool = match &entries[i] {
                SessionEntry::Checkpoint { checkpoint_id: id, .. } => *id == checkpoint_id,
                _ => false,
            };
            if found {
                proof {
                    let kept = session::entry_views(retained@);
                    assert(kept.len() == retained@.len());
                    assert forall|k: int| 0 <= k < retained@.len() implies (
                    #[trigger] retained@[k])@ == entries@[k]@ by {
                        assert(kept[k] == retained@[k]@);
                        assert(views[k] == entries@[k]@);
                    }
                }
                return Ok(
                    RollbackPlan {
                        receipt: rollback_receipt(checkpoint_id),
                        retained_entries: retained,
                    },
                );
            }
            i = i + 1;
        }
        let mut text: String = String::from_str("checkpoint ");
        text.append(text_of_uuid(checkpoint_id).as_str());
        text.append(" not found in this session's journal");
        Err(RuntimeError::Internal(text))
    }
}

proof fn lemma_checkpoint_position(entries: Seq<session::EntryModel>, id: u128, from: int)
    requires
        0 <= from <= entries.len(),
    ensures
        from <= checkpoint_position(entries, id, from) <= entries.len(),
        checkpoint_position(entries, id, from) < entries.len() ==> is_checkpoint(
            entries[checkpoint_position(entries, id, from)],
            id,
        ),
        forall|i: int|
            from <= i < checkpoint_position(entries, id, from) ==> !is_checkpoint(
                #[trigger] entries[i],
                id,
            ),
    decreases entries.len() - from,
{
    if from < entries.len() && !is_checkpoint(entries[from], id) {
        lemma_checkpoint_position(entries, id, from + 1);
    }
}

/// A checkpoint that was recorded can be rolled back to, and what is retained
/// is exactly the history that was there when it was recorded, with the
/// checkpoint at its end. Left out is a checkpoint whose identifier the
/// journal already held.
pub proof fn law_a_checkpoint_restores_its_history(
    history: Seq<session::EntryModel>,
    later: Seq<session::EntryModel>,
    id: u128,
    summary: Seq<char>,
    at: UnixTsMillis,
)
    requires
        forall|i: int| 0 <= i < history.len() ==> !is_checkpoint(#[trigger] history[i], id),
    ensures
        ({
            let mark = session::EntryModel::Checkpoint { checkpoint_id: id, summary, at };
            let journal = history.push(mark) + later;
            let found = checkpoint_position(journal, id, 0);
            &&& found == history.len()
            &&& journal.take(found + 1) == history.push(mark)
        }),
{
    let mark = session::EntryModel::Checkpoint { checkpoint_id: id, summary, at };
    let journal = history.push(mark) + later;
    let n = history.len() as int;
    lemma_checkpoint_position(journal, id, 0);
    let found = checkpoint_position(journal, id, 0);
    assert(journal[n] == mark);
    if found < n {
        assert(journal[found] == history[found]);
    }
    if found > n {
        assert(!is_checkpoint(journal[n], id));
    }
    assert(journal.take(n + 1) =~= history.push(mark));
}

/// An applied compaction.
#[derive(Debug)]
pub struct CompactOutcome {
    pub checkpoint_id: u128,
    pub entry_id: u64,
    pub receipt_id: ReceiptId,
    pub summary: String,
    pub before_tokens_estimate: u64,
    pub after_tokens_estimate: u64,
}

/// The outcome of a compaction whose summary is in the journal.
pub fn compact_outcome(
    history: &Vec<ChatMessage>,
    summary: String,
    checkpoint_id: u128,
    entry_id: u64,
    receipt_id: ReceiptId,
) -> (r: CompactOutcome)
    requires
        chat::content_bytes(chat::message_views(history@), history@.len() as int) <= usize::MAX,
    ensures
        r.checkpoint_id == checkpoint_id,
        r.entry_id == entry_id,
        r.receipt_id == receipt_id,
        r.summary@ == summary@,
        r.before_tokens_estimate == (chat::content_bytes(
            chat::message_views(history@),
            history@.len() as int,
        ) + 3) / 4,
        r.after_tokens_estimate == (vstd::utf8::encode_utf8(summary@).len() + 3) / 4,
{
    let before_tokens_estimate: u64 = estimate_tokens(history);
    let size: usize = summary.as_str().as_bytes().len();
    let mut answer: Vec<ChatMessage> = Vec::new();
    let message: ChatMessage = ChatMessage::assistant(summary.clone());
    let ghost model = message@;
    answer.push(message);
    proof {
        let views = chat::message_views(answer@);
        assert(views =~= seq![model]);
        reveal_with_fuel(chat::content_bytes, 2);
        assert(chat::content_bytes(views, 1) == vstd::utf8::encode_utf8(summary@).len());
    }
    let after_tokens_estimate: u64 = estimate_tokens(&answer);
    CompactOutcome {
        checkpoint_id,
        entry_id,
        receipt_id,
        summary,
        before_tokens_estimate,
        after_tokens_estimate,
    }
}

/// How a background task ended.
#[derive(Debug)]
pub struct BackgroundTaskOutcome {
    pub receipt_id: ReceiptId,
    pub result: Option<String>,
    pub error: Option<String>,
}

impl BackgroundTaskOutcome {
    /// A task that completed.
    pub fn completed(receipt_id: ReceiptId, result: String) -> (r: BackgroundTaskOutcome)
        ensures
            r.receipt_id == receipt_id,
            r.result == Some(result),
            r.error is None,
    {
        BackgroundTaskOutcome { receipt_id, result: Some(result), error: None }
    }

    /// A task that failed.
    pub fn failed(receipt_id: ReceiptId, error: String) -> (r: BackgroundTaskOutcome)
        ensures
            r.receipt_id == receipt_id,
            r.result is None,
            r.error == Some(error),
    {
        BackgroundTaskOutcome { receipt_id, result: None, error: Some(error) }
    }
}

/// Whether a failed dispatch is the failure of the task itself, which still
/// leaves a receipt, rather than of the operation.
pub fn is_task_failure(error: &RuntimeError) -> (r: bool)
    ensures
        r == (*error is ProviderUnavailable),
{
    matches!(error, RuntimeError::ProviderUnavailable)
}

/// A checkpoint keeps the label that its caller gives it, whatever it is, and
/// is otherwise labelled with the number of entries it covers.
pub proof fn law_a_checkpoint_keeps_its_label(label: Seq<char>, entries: nat)
    ensures
        checkpoint_label(Some(label), entries) == label,
        exists|before: Seq<char>, behind: Seq<char>|
            checkpoint_label(None, entries) == #[trigger] (before + text::decimal_text(entries)
                + behind),
        text::has_prefix(checkpoint_label(None, entries), "checkpoint at "@),
{
    let whole = checkpoint_label(None, entries);
    assert(whole =~= "checkpoint at "@ + text::decimal_text(entries) + " entries"@);
    assert(whole.take("checkpoint at "@.len() as int) =~= "checkpoint at "@);
}

/// The number that bytes stand for, the highest first.
pub open spec fn number_in(bytes: Seq<u8>) -> nat
    decreases bytes.len(),
{
    if bytes.len() == 0 {
        0
    } else {
        256 * number_in(bytes.drop_last()) + bytes.last() as nat
    }
}

/// The bytes of a number read as that number, wherever so many can hold it.
pub proof fn law_big_endian_bytes_read_as_their_number(n: nat, count: nat)
    ensures
        big_endian(n, count).len() == count,
        n < vstd::arithmetic::power::pow(256, count) ==> number_in(big_endian(n, count)) == n,
    decreases count,
{
    reveal(vstd::arithmetic::power::pow);
    if count > 0 {
        let less = (count - 1) as nat;
        law_big_endian_bytes_read_as_their_number(n / 256, less);
        let bytes = big_endian(n, count);
        assert(bytes.drop_last() =~= big_endian(n / 256, less));
        assert(bytes.last() == (n % 256) as u8);
        if n < vstd::arithmetic::power::pow(256, count) {
            assert(n < 256 * vstd::arithmetic::power::pow(256, less));
            assert(n / 256 < vstd::arithmetic::power::pow(256, less));
        }
    }
}

} // verus!
