//! What a sweep finds and leaves behind, said of the receipts, the journal and
//! the settlement records themselves.
use crate::ids::ReceiptId;
use crate::reconcile::{
    carries_out, orphan_ids, owed_for, sweep_of, OwedModel, OwnedRecovery, ReconciliationAction,
    ReconciliationPlan, ReconciliationStrategy, Sweep, SweepScope,
};
use crate::receipts::PersistedReceipt;
use crate::session;
use crate::session::SessionEntry;
use vstd::prelude::*;

verus! {

/// An entry of the journal names a receipt: an answer or a tool run is bound to
/// it.
pub open spec fn names(entry: session::EntryModel, id: ReceiptId) -> bool {
    ||| entry matches session::EntryModel::AssistantMessage { receipt_id, .. } && receipt_id == id
    ||| entry matches session::EntryModel::ToolInvocation { receipt_id } && receipt_id == id
}

/// Some entry of the journal names a receipt.
pub open spec fn named(entries: Seq<session::EntryModel>, id: ReceiptId) -> bool {
    exists|k: int| 0 <= k < entries.len() && names(#[trigger] entries[k], id)
}

/// Some settlement record speaks of a receipt.
pub open spec fn recorded(owed: Seq<OwedModel>, id: ReceiptId) -> bool {
    exists|k: int| 0 <= k < owed.len() && (#[trigger] owed[k]).receipt_id == id
}

/// The first settlement record that speaks of a receipt still owes entries.
pub open spec fn still_owed(owed: Seq<OwedModel>, id: ReceiptId) -> bool {
    exists|k: int|
        {
            &&& 0 <= k < owed.len()
            &&& (#[trigger] owed[k]).receipt_id == id
            &&& owed[k].entries.len() > 0
            &&& forall|j: int| 0 <= j < k ==> (#[trigger] owed[j]).receipt_id != id
        }
}

/// The verb of a receipt that answers nothing.
pub open spec fn answers_nothing(verb: Seq<char>) -> bool {
    ||| verb == "llm.completion.cancelled.v1"@
    ||| verb == "approval.propose.created.v1"@
    ||| verb == "approval.approve.accepted.v1"@
    ||| verb == "approval.reject.accepted.v1"@
    ||| verb == "tool.grant.allow.v1"@
}

/// The receipt at `i` is a completion of the swept session.
pub open spec fn completion(sweep: Sweep, i: int) -> bool {
    let body = sweep.chain[i].body;
    body.session_id == Some(sweep.session) && body.verb == sweep.verb && !answers_nothing(body.verb)
}

/// The receipt at `i` is accounted for nowhere: a record still owes entries for
/// it, which a truncation leaves to that record; or it is a completion of the
/// session that neither a record nor the journal speaks of.
pub open spec fn unaccounted(sweep: Sweep, i: int) -> bool {
    let id = sweep.chain[i].body.receipt_id;
    if recorded(sweep.owed, id) {
        still_owed(sweep.owed, id) && sweep.strategy != ReconciliationStrategy::TruncateOrphans
    } else {
        completion(sweep, i) && !named(sweep.entries, id) && !sweep.modern.contains(id)
    }
}

proof fn lemma_owed(owed: Seq<OwedModel>, id: ReceiptId)
    ensures
        owed_for(owed, id) is Some <==> recorded(owed, id),
        owed_for(owed, id) matches Some(entries) ==> exists|k: int|
            {
                &&& 0 <= k < owed.len()
                &&& (#[trigger] owed[k]).receipt_id == id
                &&& owed[k].entries == entries
                &&& forall|j: int| 0 <= j < k ==> (#[trigger] owed[j]).receipt_id != id
            },
    decreases owed.len(),
{
    if owed.len() > 0 {
        if owed[0].receipt_id == id {
            assert(recorded(owed, id));
        } else {
            let rest = owed.drop_first();
            lemma_owed(rest, id);
            if recorded(rest, id) {
                let k = choose|k: int| 0 <= k < rest.len() && (#[trigger] rest[k]).receipt_id == id;
                assert(owed[k + 1] == rest[k]);
            }
            if recorded(owed, id) {
                let k = choose|k: int| 0 <= k < owed.len() && (#[trigger] owed[k]).receipt_id == id;
                assert(rest[k - 1] == owed[k]);
            }
            if let Some(entries) = owed_for(rest, id) {
                let k = choose|k: int|
                    {
                        &&& 0 <= k < rest.len()
                        &&& (#[trigger] rest[k]).receipt_id == id
                        &&& rest[k].entries == entries
                        &&& forall|j: int| 0 <= j < k ==> (#[trigger] rest[j]).receipt_id != id
                    };
                assert(owed[k + 1] == rest[k]);
                assert forall|j: int| 0 <= j < k + 1 implies (#[trigger] owed[j]).receipt_id
                    != id by {
                    if j > 0 {
                        assert(owed[j] == rest[j - 1]);
                    }
                }
            }
        }
    }
}

proof fn lemma_still_owed(owed: Seq<OwedModel>, id: ReceiptId)
    ensures
        still_owed(owed, id) <==> (owed_for(owed, id) matches Some(entries) && entries.len() > 0),
{
    lemma_owed(owed, id);
    if still_owed(owed, id) {
        let k = choose|k: int|
            {
                &&& 0 <= k < owed.len()
                &&& (#[trigger] owed[k]).receipt_id == id
                &&& owed[k].entries.len() > 0
                &&& forall|j: int| 0 <= j < k ==> (#[trigger] owed[j]).receipt_id != id
            };
        assert(recorded(owed, id));
        let entries = owed_for(owed, id)->0;
        let j = choose|j: int|
            {
                &&& 0 <= j < owed.len()
                &&& (#[trigger] owed[j]).receipt_id == id
                &&& owed[j].entries == entries
                &&& forall|l: int| 0 <= l < j ==> (#[trigger] owed[l]).receipt_id != id
            };
        assert(j == k);
    }
}

proof fn lemma_named(entries: Seq<session::EntryModel>, id: ReceiptId)
    ensures
        named(entries, id) <==> session::vouched_receipts(entries).contains(id.0),
{
    session::lemma_vouched(entries, id);
    if named(entries, id) {
        let k = choose|k: int| 0 <= k < entries.len() && names(#[trigger] entries[k], id);
        assert(session::vouched_receipt(entries[k]) == Some(id));
    }
    if session::vouched_receipts(entries).contains(id.0) {
        let k = choose|k: int|
            0 <= k < entries.len() && session::vouched_receipt(#[trigger] entries[k]) == Some(id);
        assert(names(entries[k], id));
    }
}

proof fn lemma_orphan(sweep: Sweep, i: int)
    ensures
        sweep.is_orphan(i) <==> unaccounted(sweep, i),
{
    let id = sweep.chain[i].body.receipt_id;
    lemma_owed(sweep.owed, id);
    lemma_still_owed(sweep.owed, id);
    lemma_named(sweep.entries, id);
}

/// The positions are in ascending order and are exactly those below `n` that
/// nothing accounts for.
pub open spec fn lists_unaccounted(at: Seq<int>, sweep: Sweep, n: int) -> bool {
    &&& forall|j: int, k: int| 0 <= j < k < at.len() ==> #[trigger] at[j] < #[trigger] at[k]
    &&& forall|k: int|
        0 <= k < at.len() ==> 0 <= #[trigger] at[k] < n && unaccounted(sweep, at[k])
    &&& forall|i: int| 0 <= i < n && #[trigger] unaccounted(sweep, i) ==> at.contains(i)
}

proof fn lemma_positions(sweep: Sweep, n: int)
    requires
        0 <= n <= sweep.chain.len(),
    ensures
        lists_unaccounted(sweep.orphans(n), sweep, n),
    decreases n,
{
    if n > 0 {
        lemma_positions(sweep, n - 1);
        lemma_orphan(sweep, n - 1);
        let before = sweep.orphans(n - 1);
        let at = sweep.orphans(n);
        assert forall|i: int| 0 <= i < n && #[trigger] unaccounted(sweep, i) implies at.contains(
            i,
        ) by {
            if i < n - 1 {
                assert(before.contains(i));
                let k = choose|k: int| 0 <= k < before.len() && before[k] == i;
                assert(at[k] == i);
            } else {
                assert(at[at.len() - 1] == i);
            }
        }
    }
}

/// A sweep reports exactly the receipts that nothing accounts for, in the order
/// of the chain and each as often as the chain holds it, and says that it found
/// none exactly if there is none.
pub proof fn law_a_sweep_reports_what_nothing_accounts_for(sweep: Sweep, plan: ReconciliationPlan)
    requires
        carries_out(plan, sweep),
    ensures
        exists|at: Seq<int>|
            {
                &&& lists_unaccounted(at, sweep, sweep.chain.len() as int)
                &&& plan.report.orphan_receipt_ids@.len() == at.len()
                &&& forall|k: int|
                    0 <= k < at.len() ==> #[trigger] plan.report.orphan_receipt_ids@[k]
                        == sweep.chain[at[k]].body.receipt_id
            },
        plan.report.action == ReconciliationAction::NoOrphans <==> forall|i: int|
            0 <= i < sweep.chain.len() ==> !#[trigger] unaccounted(sweep, i),
        plan.report.receipt_count == sweep.chain.len(),
{
    let n = sweep.chain.len() as int;
    lemma_positions(sweep, n);
    let at = sweep.orphans(n);
    assert(lists_unaccounted(at, sweep, n));
    if at.len() > 0 {
        assert(unaccounted(sweep, at[0]));
    } else {
        assert forall|i: int| 0 <= i < n implies !#[trigger] unaccounted(sweep, i) by {
            if unaccounted(sweep, i) {
                assert(at.contains(i));
            }
        }
    }
}

/// A sweep looks at every receipt, every entry of the journal and every
/// settlement record that it is given, as they are.
pub proof fn law_a_sweep_looks_at_all_it_is_given(
    chain: Seq<PersistedReceipt>,
    entries: Seq<SessionEntry>,
    modern: Seq<ReceiptId>,
    owed: Seq<OwnedRecovery>,
    scope: SweepScope,
)
    ensures
        ({
            let sweep = sweep_of(chain, entries, modern, owed, scope);
            &&& sweep.chain.len() == chain.len()
            &&& forall|i: int|
                0 <= i < chain.len() ==> {
                    &&& (#[trigger] sweep.chain[i]).body.receipt_id == chain[i].body.receipt_id
                    &&& sweep.chain[i].body.session_id == chain[i].body.session_id
                    &&& sweep.chain[i].body.verb == chain[i].body.verb@
                }
            &&& sweep.entries.len() == entries.len()
            &&& forall|i: int|
                0 <= i < entries.len() ==> #[trigger] sweep.entries[i] == entries[i]@
            &&& sweep.modern == modern
            &&& sweep.owed.len() == owed.len()
            &&& forall|i: int|
                0 <= i < owed.len() ==> {
                    &&& (#[trigger] sweep.owed[i]).receipt_id == owed[i].receipt_id
                    &&& sweep.owed[i].entries.len() == owed[i].entries@.len()
                    &&& forall|k: int|
                        0 <= k < owed[i].entries@.len() ==> #[trigger] sweep.owed[i].entries[k]
                            == owed[i].entries@[k]@
                }
            &&& sweep.session == scope.session
            &&& sweep.verb == scope.verb@
            &&& sweep.strategy == scope.strategy
            &&& sweep.dry_run == scope.dry_run
            &&& sweep.now == scope.now
        }),
{
}

/// A completion of the session that no settlement record speaks of and that no
/// entry of the journal names is reported, whatever else its body states.
pub proof fn law_every_unanswered_completion_is_found(
    sweep: Sweep,
    plan: ReconciliationPlan,
    i: int,
)
    requires
        carries_out(plan, sweep),
        0 <= i < sweep.chain.len(),
        completion(sweep, i),
        !recorded(sweep.owed, sweep.chain[i].body.receipt_id),
        !sweep.modern.contains(sweep.chain[i].body.receipt_id),
        !named(sweep.entries, sweep.chain[i].body.receipt_id),
    ensures
        plan.report.orphan_receipt_ids@.contains(sweep.chain[i].body.receipt_id),
        plan.report.action != ReconciliationAction::NoOrphans,
{
    let n = sweep.chain.len() as int;
    lemma_positions(sweep, n);
    law_a_sweep_reports_what_nothing_accounts_for(sweep, plan);
    assert(unaccounted(sweep, i));
    let at = sweep.orphans(n);
    let k = choose|k: int| 0 <= k < at.len() && at[k] == i;
    assert(orphan_ids(sweep)[k] == sweep.chain[i].body.receipt_id);
}

/// Two chains whose bodies agree in identifier, session and verb have the same
/// orphans.
pub proof fn law_orphans_depend_on_identifier_session_and_verb(a: Sweep, b: Sweep)
    requires
        a.chain.len() == b.chain.len(),
        forall|i: int|
            0 <= i < a.chain.len() ==> (#[trigger] a.chain[i]).body.receipt_id
                == b.chain[i].body.receipt_id && a.chain[i].body.session_id
                == b.chain[i].body.session_id && a.chain[i].body.verb == b.chain[i].body.verb,
        b == (Sweep { chain: b.chain, ..a }),
    ensures
        orphan_ids(a) == orphan_ids(b),
{
    lemma_same_orphans(a, b, a.chain.len() as int);
    lemma_positions(a, a.chain.len() as int);
    assert(orphan_ids(a) =~= orphan_ids(b));
}

proof fn lemma_same_orphans(a: Sweep, b: Sweep, n: int)
    requires
        0 <= n <= a.chain.len(),
        a.chain.len() == b.chain.len(),
        forall|i: int|
            0 <= i < a.chain.len() ==> (#[trigger] a.chain[i]).body.receipt_id
                == b.chain[i].body.receipt_id && a.chain[i].body.session_id
                == b.chain[i].body.session_id && a.chain[i].body.verb == b.chain[i].body.verb,
        b == (Sweep { chain: b.chain, ..a }),
    ensures
        a.orphans(n) == b.orphans(n),
    decreases n,
{
    if n > 0 {
        lemma_same_orphans(a, b, n - 1);
        assert(a.chain[n - 1].body.verb == b.chain[n - 1].body.verb);
    }
}

proof fn lemma_named_concat(
    a: Seq<session::EntryModel>,
    b: Seq<session::EntryModel>,
    id: ReceiptId,
)
    requires
        named(a, id) || named(b, id),
    ensures
        named(a + b, id),
{
    if named(a, id) {
        let k = choose|k: int| 0 <= k < a.len() && names(#[trigger] a[k], id);
        assert((a + b)[k] == a[k]);
    } else {
        let k = choose|k: int| 0 <= k < b.len() && names(#[trigger] b[k], id);
        assert((a + b)[a.len() + k] == b[k]);
    }
}

proof fn lemma_appended(sweep: Sweep, n: int, i: int)
    requires
        0 <= i < n <= sweep.chain.len(),
        unaccounted(sweep, i),
        !recorded(sweep.owed, sweep.chain[i].body.receipt_id),
    ensures
        named(sweep.appends(n), sweep.chain[i].body.receipt_id),
    decreases n,
{
    let id = sweep.chain[i].body.receipt_id;
    lemma_owed(sweep.owed, id);
    if i < n - 1 {
        lemma_appended(sweep, n - 1, i);
        if sweep.is_orphan(n - 1) {
            lemma_named_concat(sweep.appends(n - 1), sweep.recovery_entries(n - 1), id);
        }
    } else {
        lemma_orphan(sweep, i);
        let added = sweep.recovery_entries(i);
        assert(names(added[0], id));
        lemma_named_concat(sweep.appends(i), added, id);
    }
}

/// After a sweep that heals by appending, every completion of the session is
/// named by the journal or is the business of a settlement record.
pub proof fn law_an_appended_sweep_leaves_no_completion_unnamed(
    sweep: Sweep,
    plan: ReconciliationPlan,
    i: int,
)
    requires
        carries_out(plan, sweep),
        sweep.strategy == ReconciliationStrategy::AppendSyntheticJournal,
        !sweep.dry_run,
        0 <= i < sweep.chain.len(),
        completion(sweep, i),
    ensures
        ({
            let id = sweep.chain[i].body.receipt_id;
            named(sweep.entries + session::entry_views(plan.appends@), id) || sweep.modern.contains(
                id,
            ) || recorded(sweep.owed, id)
        }),
{
    let n = sweep.chain.len() as int;
    let id = sweep.chain[i].body.receipt_id;
    law_a_sweep_reports_what_nothing_accounts_for(sweep, plan);
    if named(sweep.entries, id) {
        lemma_named_concat(sweep.entries, session::entry_views(plan.appends@), id);
    } else if !sweep.modern.contains(id) && !recorded(sweep.owed, id) {
        assert(unaccounted(sweep, i));
        lemma_appended(sweep, n, i);
        lemma_named_concat(sweep.entries, session::entry_views(plan.appends@), id);
    }
}

/// The entry is one that the sweep may append: an answer at the sweep's time
/// that names a reported receipt which no record speaks of, or an entry that a
/// record owes.
pub open spec fn warranted(entry: session::EntryModel, sweep: Sweep) -> bool {
    ||| exists|i: int|
        {
            &&& 0 <= i < sweep.chain.len()
            &&& #[trigger] unaccounted(sweep, i)
            &&& !recorded(sweep.owed, sweep.chain[i].body.receipt_id)
            &&& entry matches session::EntryModel::AssistantMessage { receipt_id, at, .. }
                && receipt_id == sweep.chain[i].body.receipt_id && at == sweep.now
        }
    ||| exists|k: int|
        0 <= k < sweep.owed.len() && (#[trigger] sweep.owed[k]).entries.contains(entry)
}

proof fn lemma_warranted(sweep: Sweep, n: int, k: int)
    requires
        0 <= n <= sweep.chain.len(),
        0 <= k < sweep.appends(n).len(),
    ensures
        warranted(sweep.appends(n)[k], sweep),
    decreases n,
{
    let before = sweep.appends(n - 1);
    if k < before.len() {
        lemma_warranted(sweep, n - 1, k);
        assert(sweep.appends(n)[k] == before[k]);
    } else {
        let i = n - 1;
        let id = sweep.chain[i].body.receipt_id;
        let added = sweep.recovery_entries(i);
        let entry = sweep.appends(n)[k];
        assert(entry == added[k - before.len()]);
        lemma_orphan(sweep, i);
        lemma_owed(sweep.owed, id);
        if recorded(sweep.owed, id) {
            let j = choose|j: int|
                {
                    &&& 0 <= j < sweep.owed.len()
                    &&& (#[trigger] sweep.owed[j]).receipt_id == id
                    &&& sweep.owed[j].entries == added
                    &&& forall|l: int|
                        0 <= l < j ==> (#[trigger] sweep.owed[l]).receipt_id != id
                };
            assert(sweep.owed[j].entries.contains(entry));
        } else {
            assert(unaccounted(sweep, i));
        }
    }
}

/// Only a sweep that heals by appending writes to the journal, and every entry
/// that it writes is warranted by a receipt that it reports. What it says it
/// appended is what it hands out.
pub proof fn law_a_sweep_appends_only_what_is_warranted(sweep: Sweep, plan: ReconciliationPlan)
    requires
        carries_out(plan, sweep),
        sweep.appends(sweep.chain.len() as int).len() <= usize::MAX,
    ensures
        plan.appends@.len() > 0 ==> sweep.strategy
            == ReconciliationStrategy::AppendSyntheticJournal && !sweep.dry_run,
        forall|k: int|
            0 <= k < plan.appends@.len() ==> warranted((#[trigger] plan.appends@[k])@, sweep),
        plan.report.action matches ReconciliationAction::AppendedSyntheticJournal { count }
            ==> count == plan.appends@.len(),
{
    let n = sweep.chain.len() as int;
    let views = session::entry_views(plan.appends@);
    assert(views.len() == plan.appends@.len());
    assert forall|k: int| 0 <= k < plan.appends@.len() implies warranted(
        (#[trigger] plan.appends@[k])@,
        sweep,
    ) by {
        assert(views[k] == plan.appends@[k]@);
        lemma_warranted(sweep, n, k);
    }
}

/// A truncation cuts off exactly the reported receipts: they are the end of the
/// chain, it says how many they are, and none of them is a settlement record's.
/// Where they are not the end of the chain, nothing is cut.
pub proof fn law_a_truncation_cuts_the_reported_end(sweep: Sweep, plan: ReconciliationPlan)
    requires
        carries_out(plan, sweep),
        sweep.chain.len() <= usize::MAX,
    ensures
        plan.retained is Some <==> plan.report.action is TruncatedReceipts,
        plan.retained matches Some(kept) ==> {
            &&& sweep.strategy == ReconciliationStrategy::TruncateOrphans
            &&& !sweep.dry_run
            &&& kept < sweep.chain.len()
            &&& plan.report.action == (ReconciliationAction::TruncatedReceipts {
                count: (sweep.chain.len() - kept) as usize,
            })
            &&& forall|i: int|
                0 <= i < sweep.chain.len() ==> (#[trigger] unaccounted(sweep, i) <==> kept <= i)
        },
{
    let n = sweep.chain.len() as int;
    lemma_positions(sweep, n);
    let at = sweep.orphans(n);
    if plan.retained is Some {
        let first = at[0];
        assert(at.len() > 0);
        assert forall|i: int| 0 <= i < n implies (#[trigger] unaccounted(sweep, i) <==> first
            <= i) by {
            lemma_orphan(sweep, i);
            lemma_orphan(sweep, first);
            if unaccounted(sweep, i) {
                let k = choose|k: int| 0 <= k < at.len() && at[k] == i;
                assert(k > 0 ==> at[0] < at[k]);
            }
            if first <= i {
                assert(unaccounted(sweep, first));
                assert(sweep.is_orphan(first));
                assert(sweep.is_orphan(i));
            }
        }
        assert forall|i: int| first <= i < n implies #[trigger] at.contains(i) by {
            assert(unaccounted(sweep, i));
        }
        lemma_suffix_length(at, first, n);
    }
}

proof fn lemma_suffix_length(at: Seq<int>, first: int, n: int)
    requires
        at.len() > 0,
        at[0] == first,
        first < n,
        forall|j: int, k: int| 0 <= j < k < at.len() ==> #[trigger] at[j] < #[trigger] at[k],
        forall|k: int| 0 <= k < at.len() ==> 0 <= #[trigger] at[k] < n,
        forall|i: int| first <= i < n ==> #[trigger] at.contains(i),
    ensures
        at.len() == n - first,
    decreases n - first,
{
    let rest = at.drop_first();
    if first + 1 < n {
        assert forall|i: int| first + 1 <= i < n implies #[trigger] rest.contains(i) by {
            assert(at.contains(i));
            let k = choose|k: int| 0 <= k < at.len() && at[k] == i;
            assert(rest[k - 1] == i);
        }
        assert(rest.contains(first + 1));
        let k = choose|k: int| 0 <= k < rest.len() && rest[k] == first + 1;
        assert(at[k + 1] == first + 1);
        assert(rest[0] == at[1]);
        if k > 0 {
            assert(at[1] < at[k + 1]);
            assert(at[0] < at[1]);
        }
        assert forall|j: int, l: int| 0 <= j < l < rest.len() implies #[trigger] rest[j]
            < #[trigger] rest[l] by {
            assert(at[j + 1] < at[l + 1]);
        }
        assert forall|l: int| 0 <= l < rest.len() implies 0 <= #[trigger] rest[l] < n by {
            assert(at[l + 1] < n);
        }
        lemma_suffix_length(rest, first + 1, n);
    } else if at.len() > 1 {
        assert(at[0] < at[1]);
    }
}

/// A sweep is undecidable only where it is to cut off receipts behind which one
/// stays.
pub proof fn law_only_a_gap_in_the_end_is_undecidable(sweep: Sweep)
    ensures
        sweep.action() is Err <==> {
            &&& sweep.strategy == ReconciliationStrategy::TruncateOrphans
            &&& !sweep.dry_run
            &&& exists|i: int, j: int|
                0 <= i < j < sweep.chain.len() && #[trigger] unaccounted(sweep, i)
                    && !#[trigger] unaccounted(sweep, j)
        },
        sweep.action() matches Err(error) ==> error is Undecidable,
{
    let n = sweep.chain.len() as int;
    lemma_positions(sweep, n);
    assert forall|i: int| #[trigger] sweep.is_orphan(i) <==> unaccounted(sweep, i) by {
        lemma_orphan(sweep, i);
    }
    assert forall|i: int| #[trigger] unaccounted(sweep, i) <==> sweep.is_orphan(i) by {
        lemma_orphan(sweep, i);
    }
    if !sweep.orphans_are_a_suffix() {
        let (i, j) = choose|i: int, j: int|
            0 <= i <= j < n && #[trigger] sweep.is_orphan(i) && !#[trigger] sweep.is_orphan(j);
        assert(unaccounted(sweep, i) && !unaccounted(sweep, j));
        assert(sweep.orphans(n).contains(i));
    }
    if exists|i: int, j: int|
        0 <= i < j < n && #[trigger] unaccounted(sweep, i) && !#[trigger] unaccounted(sweep, j) {
        let (i, j) = choose|i: int, j: int|
            0 <= i < j < n && #[trigger] unaccounted(sweep, i) && !#[trigger] unaccounted(sweep, j);
        assert(sweep.is_orphan(i) && !sweep.is_orphan(j));
        assert(sweep.orphans(n).contains(i));
    }
}

proof fn lemma_answered(entries: Seq<session::EntryModel>, id: ReceiptId)
    ensures
        session::answered_receipts(entries).contains(id.0) <==> exists|k: int|
            0 <= k < entries.len() && (#[trigger] entries[k] matches
                session::EntryModel::AssistantMessage { receipt_id, .. } && receipt_id == id),
    decreases entries.len(),
{
    if entries.len() > 0 {
        let before = entries.drop_last();
        lemma_answered(before, id);
        let n = before.len() as int;
        assert(entries[n] == entries.last());
        if session::answered_receipts(before).contains(id.0) {
            let k = choose|k: int|
                0 <= k < before.len() && (#[trigger] before[k] matches
                    session::EntryModel::AssistantMessage { receipt_id, .. } && receipt_id == id);
            assert(entries[k] == before[k]);
        }
        if exists|k: int|
            0 <= k < entries.len() && (#[trigger] entries[k] matches
                session::EntryModel::AssistantMessage { receipt_id, .. } && receipt_id == id) {
            let k = choose|k: int|
                0 <= k < entries.len() && (#[trigger] entries[k] matches
                    session::EntryModel::AssistantMessage { receipt_id, .. } && receipt_id == id);
            if k < n {
                assert(before[k] == entries[k]);
            }
        }
    }
}

/// The journaled receipts that a report counts are exactly the distinct ones
/// that an answer of the journal names.
pub proof fn law_the_report_counts_the_answered_receipts(
    sweep: Sweep,
    plan: ReconciliationPlan,
    answered: Set<u128>,
)
    requires
        carries_out(plan, sweep),
        forall|id: ReceiptId|
            answered.contains(#[trigger] id.0) <==> exists|k: int|
                0 <= k < sweep.entries.len() && (#[trigger] sweep.entries[k] matches
                    session::EntryModel::AssistantMessage { receipt_id, .. } && receipt_id == id),
    ensures
        plan.report.journaled_receipt_count == answered.len(),
{
    assert forall|n: u128| answered.contains(n) == session::answered_receipts(
        sweep.entries,
    ).contains(n) by {
        let id = ReceiptId(n);
        lemma_answered(sweep.entries, id);
        assert(answered.contains(id.0) == answered.contains(n));
    }
    assert(answered =~= session::answered_receipts(sweep.entries));
}

} // verus!
