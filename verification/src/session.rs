//! The entries of a session journal that the runtime writes and reads.
use crate::ids::{ReceiptId, UnixTsMillis};
use vstd::prelude::*;

verus! {

/// An entry of a session journal.
#[derive(Debug)]
pub enum SessionEntry {
    UserMessage { content: String, at: UnixTsMillis },
    /// An answer, bound to the receipt of its round.
    AssistantMessage { content: String, at: UnixTsMillis, receipt_id: ReceiptId },
    /// A tool ran, bound to the receipt of its round.
    ToolInvocation { receipt_id: ReceiptId },
    /// A named point to resume from.
    Checkpoint { checkpoint_id: u128, summary: String, at: UnixTsMillis },
    /// The live history goes back to a checkpoint.
    Rollback { target_checkpoint_id: u128, receipt_id: ReceiptId, at: UnixTsMillis },
    /// An entry that the runtime does not read.
    Other,
}

/// An entry over mathematical values.
#[verifier::ext_equal]
pub ghost enum EntryModel {
    UserMessage { content: Seq<char>, at: UnixTsMillis },
    AssistantMessage { content: Seq<char>, at: UnixTsMillis, receipt_id: ReceiptId },
    ToolInvocation { receipt_id: ReceiptId },
    Checkpoint { checkpoint_id: u128, summary: Seq<char>, at: UnixTsMillis },
    Rollback { target_checkpoint_id: u128, receipt_id: ReceiptId, at: UnixTsMillis },
    Other,
}

impl View for SessionEntry {
    type V = EntryModel;

    open spec fn view(&self) -> EntryModel {
        match *self {
            SessionEntry::UserMessage { content, at } => EntryModel::UserMessage {
                content: content@,
                at,
            },
            SessionEntry::AssistantMessage { content, at, receipt_id } =>
            EntryModel::AssistantMessage { content: content@, at, receipt_id },
            SessionEntry::ToolInvocation { receipt_id } => EntryModel::ToolInvocation {
                receipt_id,
            },
            SessionEntry::Checkpoint { checkpoint_id, summary, at } => EntryModel::Checkpoint {
                checkpoint_id,
                summary: summary@,
                at,
            },
            SessionEntry::Rollback { target_checkpoint_id, receipt_id, at } =>
            EntryModel::Rollback { target_checkpoint_id, receipt_id, at },
            SessionEntry::Other => EntryModel::Other,
        }
    }
}

impl Clone for SessionEntry {
    fn clone(&self) -> (r: Self)
        ensures
            r@ == self@,
    {
        match self {
            SessionEntry::UserMessage { content, at } => SessionEntry::UserMessage {
                content: content.clone(),
                at: *at,
            },
            SessionEntry::AssistantMessage { content, at, receipt_id } =>
            SessionEntry::AssistantMessage {
                content: content.clone(),
                at: *at,
                receipt_id: *receipt_id,
            },
            SessionEntry::ToolInvocation { receipt_id } => SessionEntry::ToolInvocation {
                receipt_id: *receipt_id,
            },
            SessionEntry::Checkpoint { checkpoint_id, summary, at } => SessionEntry::Checkpoint {
                checkpoint_id: *checkpoint_id,
                summary: summary.clone(),
                at: *at,
            },
            SessionEntry::Rollback { target_checkpoint_id, receipt_id, at } =>
            SessionEntry::Rollback {
                target_checkpoint_id: *target_checkpoint_id,
                receipt_id: *receipt_id,
                at: *at,
            },
            SessionEntry::Other => SessionEntry::Other,
        }
    }
}

/// The entries of a journal as models.
pub open spec fn entry_views(entries: Seq<SessionEntry>) -> Seq<EntryModel> {
    entries.map_values(|entry: SessionEntry| entry@)
}

/// The receipt that an entry vouches for.
pub open spec fn vouched_receipt(entry: EntryModel) -> Option<ReceiptId> {
    match entry {
        EntryModel::AssistantMessage { receipt_id, .. } => Some(receipt_id),
        EntryModel::ToolInvocation { receipt_id } => Some(receipt_id),
        _ => None,
    }
}

impl SessionEntry {
    /// The receipt that this entry vouches for.
    pub fn vouched_receipt(&self) -> (r: Option<ReceiptId>)
        ensures
            r == vouched_receipt(self@),
    {
        match self {
            SessionEntry::AssistantMessage { receipt_id, .. } => Some(*receipt_id),
            SessionEntry::ToolInvocation { receipt_id } => Some(*receipt_id),
            _ => None,
        }
    }
}

/// The receipts that a journal vouches for.
pub open spec fn vouched_receipts(entries: Seq<EntryModel>) -> Set<u128>
    decreases entries.len(),
{
    if entries.len() == 0 {
        Set::empty()
    } else {
        let before = vouched_receipts(entries.drop_last());
        match vouched_receipt(entries.last()) {
            Some(id) => before.insert(id.0),
            None => before,
        }
    }
}

/// The receipt that an answer names.
pub open spec fn answered_receipt(entry: EntryModel) -> Option<ReceiptId> {
    match entry {
        EntryModel::AssistantMessage { receipt_id, .. } => Some(receipt_id),
        _ => None,
    }
}

impl SessionEntry {
    /// The receipt that this entry names, if it is an answer.
    pub fn answered_receipt(&self) -> (r: Option<ReceiptId>)
        ensures
            r == answered_receipt(self@),
    {
        match self {
            SessionEntry::AssistantMessage { receipt_id, .. } => Some(*receipt_id),
            _ => None,
        }
    }
}

/// The distinct receipts that a journal's answers name.
pub open spec fn answered_receipts(entries: Seq<EntryModel>) -> Set<u128>
    decreases entries.len(),
{
    if entries.len() == 0 {
        Set::empty()
    } else {
        let before = answered_receipts(entries.drop_last());
        match answered_receipt(entries.last()) {
            Some(id) => before.insert(id.0),
            None => before,
        }
    }
}

pub(crate) proof fn lemma_vouched(entries: Seq<EntryModel>, id: ReceiptId)
    ensures
        vouched_receipts(entries).contains(id.0) <==> exists|i: int|
            0 <= i < entries.len() && vouched_receipt(#[trigger] entries[i]) == Some(id),
    decreases entries.len(),
{
    if entries.len() > 0 {
        let before = entries.drop_last();
        lemma_vouched(before, id);
        let n = before.len() as int;
        assert(entries[n] == entries.last());
        if vouched_receipts(before).contains(id.0) {
            let i = choose|i: int|
                0 <= i < before.len() && vouched_receipt(#[trigger] before[i]) == Some(id);
            assert(entries[i] == before[i]);
        }
        if exists|i: int|
            0 <= i < entries.len() && vouched_receipt(#[trigger] entries[i]) == Some(id) {
            let i = choose|i: int|
                0 <= i < entries.len() && vouched_receipt(#[trigger] entries[i]) == Some(id);
            if i < n {
                assert(before[i] == entries[i]);
            }
        }
    }
}

} // verus!
