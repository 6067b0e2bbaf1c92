//! Orphan receipts: receipts of a session's chain that its journal does not
//! account for, and what a sweep does about them.
use crate::encoding;
use crate::encoding::text_of_uuid;
use crate::ids::{ReceiptId, SessionId, Sha256Digest, UnixTsMillis};
use crate::receipts;
use crate::receipts::{
    parent_of, verify_persisted_chain_with_jwks, PersistedReceipt, ReceiptBody, ReceiptChainError,
};
use crate::session;
use crate::session::SessionEntry;
use crate::text;
use std::collections::HashSet;
use vstd::prelude::*;
use vstd::string::StringExecFns;

verus! {

broadcast use vstd::std_specs::hash::group_hash_axioms;

/// The verb of a turn that ended after a round was committed.
pub const CANCELLED_VERB: &'static str = "llm.completion.cancelled.v1";

/// How a sweep heals the orphans it finds.
#[derive(Clone, Copy, Debug, PartialEq, Eq, Structural)]
pub enum ReconciliationStrategy {
    /// Report them and change nothing.
    IgnoreOrphans,
    /// Append a recovery entry for each of them to the journal.
    AppendSyntheticJournal,
    /// Cut them off the end of the receipt log.
    TruncateOrphans,
}

impl Default for ReconciliationStrategy {
    fn default() -> (r: Self)
        ensures
            r == ReconciliationStrategy::AppendSyntheticJournal,
    {
        ReconciliationStrategy::AppendSyntheticJournal
    }
}

/// What a sweep did.
#[derive(Clone, Copy, Debug, PartialEq, Eq, Structural)]
pub enum ReconciliationAction {
    NoOrphans,
    /// Orphans were found and left in place.
    ReportedOnly,
    AppendedSyntheticJournal { count: usize },
    TruncatedReceipts { count: usize },
}

/// The outcome of a sweep.
#[derive(Debug)]
pub struct ReconciliationReport {
    /// The receipts of the chain.
    pub receipt_count: usize,
    /// The distinct receipts that the journal's answers name.
    pub journaled_receipt_count: usize,
    /// The orphans, as they were found.
    pub orphan_receipt_ids: Vec<ReceiptId>,
    pub action: ReconciliationAction,
    pub dry_run: bool,
}

impl ReconciliationReport {
    /// The number of orphans that were found.
    pub fn orphan_receipt_count(&self) -> (r: usize)
        ensures
            r == self.orphan_receipt_ids@.len(),
    {
        self.orphan_receipt_ids.len()
    }
}

/// Why no safe recovery is known.
#[derive(Clone, Copy, Debug, PartialEq, Eq, Structural)]
pub enum UndecidableReason {
    /// A turn may still be about to journal its receipt.
    TurnInFlight,
    /// The settlement records cannot be read.
    Supervision,
    /// A receipt that stays is linked to an orphan.
    NotASuffix,
}

/// Why a sweep failed.
#[derive(Clone, Copy, Debug, PartialEq, Eq, Structural)]
pub enum ReconciliationError {
    ReceiptChain(ReceiptChainError),
    /// The journal cannot be replayed or appended to.
    Journal,
    /// The receipt log cannot be rewritten.
    Io,
    Undecidable(UndecidableReason),
}

/// What a settlement record still owes the journal for a receipt.
#[derive(Debug)]
pub struct OwnedRecovery {
    pub receipt_id: ReceiptId,
    pub entries: Vec<SessionEntry>,
}

/// What a settlement record owes, over mathematical values.
#[verifier::ext_equal]
pub ghost struct OwedModel {
    pub receipt_id: ReceiptId,
    pub entries: Seq<session::EntryModel>,
}

impl View for OwnedRecovery {
    type V = OwedModel;

    open spec fn view(&self) -> OwedModel {
        OwedModel {
            receipt_id: self.receipt_id,
            entries: session::entry_views(self.entries@),
        }
    }
}

/// The owed entries as models.
pub open spec fn owed_views(owed: Seq<OwnedRecovery>) -> Seq<OwedModel> {
    owed.map_values(|recovery: OwnedRecovery| recovery@)
}

/// What a sweep looks at besides the chain itself.
pub struct SweepScope {
    pub session: SessionId,
    /// The verb of this runtime's completions.
    pub verb: String,
    pub strategy: ReconciliationStrategy,
    pub dry_run: bool,
    pub now: UnixTsMillis,
}

/// A sweep's view of the world, over mathematical values.
#[verifier::ext_equal]
pub ghost struct Sweep {
    pub chain: Seq<receipts::PersistedModel>,
    pub entries: Seq<session::EntryModel>,
    /// The receipts that settlement records account for.
    pub modern: Seq<ReceiptId>,
    pub owed: Seq<OwedModel>,
    pub session: SessionId,
    pub verb: Seq<char>,
    pub strategy: ReconciliationStrategy,
    pub dry_run: bool,
    pub now: UnixTsMillis,
}

/// Verbs of receipts that answer nothing, so that no journal entry is missing.
pub open spec fn is_control_verb(verb: Seq<char>) -> bool {
    ||| verb == CANCELLED_VERB@
    ||| verb == "approval.propose.created.v1"@
    ||| verb == "approval.approve.accepted.v1"@
    ||| verb == "approval.reject.accepted.v1"@
    ||| verb == "tool.grant.allow.v1"@
}

/// The first entry list that is owed for a receipt.
pub open spec fn owed_for(owed: Seq<OwedModel>, id: ReceiptId) -> Option<Seq<session::EntryModel>>
    decreases owed.len(),
{
    if owed.len() == 0 {
        None
    } else if owed[0].receipt_id == id {
        Some(owed[0].entries)
    } else {
        owed_for(owed.drop_first(), id)
    }
}

/// The text of a recovery entry.
pub open spec fn recovery_text(id: ReceiptId) -> Seq<char> {
    "[reconciled] recovered orphan receipt "@ + encoding::uuid_text(id.0)
        + ": its receipt was durably minted (stage 6) but the process crashed before the journal append (stage 10), so the original assistant content is unrecoverable."@
}

impl Sweep {
    /// The receipt at `i` is an orphan. One that a settlement record accounts
    /// for is an orphan only while that record owes entries, and never for
    /// truncation. Another one is if it is a completion of this session that
    /// the journal does not vouch for.
    pub open spec fn is_orphan(self, i: int) -> bool {
        let body = self.chain[i].body;
        match owed_for(self.owed, body.receipt_id) {
            Some(entries) => self.strategy != ReconciliationStrategy::TruncateOrphans
                && entries.len() > 0,
            None => {
                &&& body.session_id == Some(self.session)
                &&& !session::vouched_receipts(self.entries).contains(body.receipt_id.0)
                &&& !self.modern.contains(body.receipt_id)
                &&& body.verb == self.verb
                &&& !is_control_verb(body.verb)
            },
        }
    }

    /// The positions of the orphans among the first `n` receipts.
    pub open spec fn orphans(self, n: int) -> Seq<int>
        decreases n,
    {
        if n <= 0 {
            Seq::empty()
        } else if self.is_orphan(n - 1) {
            self.orphans(n - 1).push(n - 1)
        } else {
            self.orphans(n - 1)
        }
    }

    /// The recovery entries of one orphan: what its settlement record owes, or
    /// a marker that names the receipt.
    pub open spec fn recovery_entries(self, i: int) -> Seq<session::EntryModel> {
        let id = self.chain[i].body.receipt_id;
        match owed_for(self.owed, id) {
            Some(entries) => entries,
            None => seq![
                session::EntryModel::AssistantMessage {
                    content: recovery_text(id),
                    at: self.now,
                    receipt_id: id,
                },
            ],
        }
    }

    /// The recovery entries of the orphans among the first `n` receipts.
    pub open spec fn appends(self, n: int) -> Seq<session::EntryModel>
        decreases n,
    {
        if n <= 0 {
            Seq::empty()
        } else if self.is_orphan(n - 1) {
            self.appends(n - 1) + self.recovery_entries(n - 1)
        } else {
            self.appends(n - 1)
        }
    }

    /// The orphans are the end of the chain.
    pub open spec fn orphans_are_a_suffix(self) -> bool {
        let n = self.chain.len() as int;
        forall|i: int, j: int|
            0 <= i <= j < n && #[trigger] self.is_orphan(i) ==> #[trigger] self.is_orphan(j)
    }

    /// What the sweep does.
    pub open spec fn action(self) -> Result<ReconciliationAction, ReconciliationError> {
        let n = self.chain.len() as int;
        if self.orphans(n).len() == 0 {
            Ok(ReconciliationAction::NoOrphans)
        } else if self.dry_run || self.strategy == ReconciliationStrategy::IgnoreOrphans {
            Ok(ReconciliationAction::ReportedOnly)
        } else if self.strategy == ReconciliationStrategy::AppendSyntheticJournal {
            Ok(
                ReconciliationAction::AppendedSyntheticJournal {
                    count: self.appends(n).len() as usize,
                },
            )
        } else if self.orphans_are_a_suffix() {
            Ok(
                ReconciliationAction::TruncatedReceipts { count: self.orphans(n).len() as usize },
            )
        } else {
            Err(ReconciliationError::Undecidable(UndecidableReason::NotASuffix))
        }
    }
}

/// What a sweep does: its report, the entries to append to the journal, and
/// how many receipts stay if the log is to be cut.
#[derive(Debug)]
pub struct ReconciliationPlan {
    pub report: ReconciliationReport,
    pub appends: Vec<SessionEntry>,
    pub retained: Option<usize>,
}

/// The sweep of these stores.
pub open spec fn sweep_of(
    chain: Seq<PersistedReceipt>,
    entries: Seq<SessionEntry>,
    modern: Seq<ReceiptId>,
    owed: Seq<OwnedRecovery>,
    scope: SweepScope,
) -> Sweep {
    Sweep {
        chain: receipts::chain_views(chain),
        entries: session::entry_views(entries),
        modern,
        owed: owed_views(owed),
        session: scope.session,
        verb: scope.verb@,
        strategy: scope.strategy,
        dry_run: scope.dry_run,
        now: scope.now,
    }
}

/// The identifiers of the orphans, in the order of the chain.
pub open spec fn orphan_ids(sweep: Sweep) -> Seq<ReceiptId> {
    sweep.orphans(sweep.chain.len() as int).map_values(|i: int| sweep.chain[i].body.receipt_id)
}

/// A plan does exactly what the sweep asks for.
pub open spec fn carries_out(plan: ReconciliationPlan, sweep: Sweep) -> bool {
    let n = sweep.chain.len() as int;
    let orphans = sweep.orphans(n);
    &&& sweep.action() == Ok::<ReconciliationAction, ReconciliationError>(plan.report.action)
    &&& plan.report.receipt_count == n
    &&& plan.report.journaled_receipt_count == session::answered_receipts(sweep.entries).len()
    &&& plan.report.orphan_receipt_ids@ == orphan_ids(sweep)
    &&& plan.report.dry_run == sweep.dry_run
    &&& session::entry_views(plan.appends@) == (
    if plan.report.action is AppendedSyntheticJournal {
        sweep.appends(n)
    } else {
        Seq::empty()
    })
    &&& plan.retained == (if plan.report.action is TruncatedReceipts {
        Some(orphans[0] as usize)
    } else {
        None
    })
}

fn control_verb(verb: &String) -> (r: bool)
    ensures
        r == is_control_verb(verb@),
{
    *verb == String::from_str(CANCELLED_VERB) || *verb == String::from_str(
        "approval.propose.created.v1",
    ) || *verb == String::from_str("approval.approve.accepted.v1") || *verb == String::from_str(
        "approval.reject.accepted.v1",
    ) || *verb == String::from_str("tool.grant.allow.v1")
}

fn find_owed(owed: &Vec<OwnedRecovery>, id: ReceiptId) -> (r: Option<&Vec<SessionEntry>>)
    ensures
        match r {
            Some(entries) => owed_for(owed_views(owed@), id) == Some(
                session::entry_views(entries@),
            ),
            None => owed_for(owed_views(owed@), id) is None,
        },
{
    let ghost views = owed_views(owed@);
    let mut i: usize = 0;
    assert(views.skip(0) =~= views);
    while i < owed.len()
        invariant
            i <= owed@.len(),
            views == owed_views(owed@),
            owed_for(views, id) == owed_for(views.skip(i as int), id),
        decreases owed@.len() - i,
    {
        assert(views.skip(i as int)[0] == owed@[i as int]@);
        if owed[i].receipt_id == id {
            return Some(&owed[i].entries);
        }
        assert(views.skip(i as int).drop_first() =~= views.skip(i + 1));
        i = i + 1;
    }
    None
}

fn names_receipt(ids: &Vec<ReceiptId>, id: ReceiptId) -> (r: bool)
    ensures
        r == ids@.contains(id),
{
    let mut i: usize = 0;
    while i < ids.len()
        invariant
            i <= ids@.len(),
            forall|k: int| 0 <= k < i ==> ids@[k] != id,
        decreases ids@.len() - i,
    {
        if ids[i] == id {
            return true;
        }
        i = i + 1;
    }
    false
}

fn vouched_set(entries: &Vec<SessionEntry>) -> (r: HashSet<u128>)
    ensures
        r@ == session::vouched_receipts(session::entry_views(entries@)),
{
    let ghost views = session::entry_views(entries@);
    let mut seen: HashSet<u128> = HashSet::new();
    let mut i: usize = 0;
    assert(seen@ =~= session::vouched_receipts(views.take(0)));
    while i < entries.len()
        invariant
            i <= entries@.len(),
            views == session::entry_views(entries@),
            seen@ == session::vouched_receipts(views.take(i as int)),
        decreases entries@.len() - i,
    {
        assert(views[i as int] == entries@[i as int]@);
        assert(views.take(i + 1).drop_last() =~= views.take(i as int));
        assert(views.take(i + 1).last() == views[i as int]);
        if let Some(id) = entries[i].vouched_receipt() {
            seen.insert(id.0);
        }
        i = i + 1;
    }
    assert(views.take(i as int) =~= views);
    seen
}

fn answered_set(entries: &Vec<SessionEntry>) -> (r: HashSet<u128>)
    ensures
        r@ == session::answered_receipts(session::entry_views(entries@)),
{
    let ghost views = session::entry_views(entries@);
    let mut seen: HashSet<u128> = HashSet::new();
    let mut i: usize = 0;
    assert(seen@ =~= session::answered_receipts(views.take(0)));
    while i < entries.len()
        invariant
            i <= entries@.len(),
            views == session::entry_views(entries@),
            seen@ == session::answered_receipts(views.take(i as int)),
        decreases entries@.len() - i,
    {
        assert(views[i as int] == entries@[i as int]@);
        assert(views.take(i + 1).drop_last() =~= views.take(i as int));
        assert(views.take(i + 1).last() == views[i as int]);
        if let Some(id) = entries[i].answered_receipt() {
            seen.insert(id.0);
        }
        i = i + 1;
    }
    assert(views.take(i as int) =~= views);
    seen
}

fn recovery_entry(id: ReceiptId, now: UnixTsMillis) -> (r: SessionEntry)
    ensures
        r@ == (session::EntryModel::AssistantMessage {
            content: recovery_text(id),
            at: now,
            receipt_id: id,
        }),
{
    let mut content: String = String::from_str("[reconciled] recovered orphan receipt ");
    content.append(text_of_uuid(id.0).as_str());
    content.append(
        ": its receipt was durably minted (stage 6) but the process crashed before the journal append (stage 10), so the original assistant content is unrecoverable.",
    );
    SessionEntry::AssistantMessage { content, at: now, receipt_id: id }
}

fn push_recovery(
    appends: &mut Vec<SessionEntry>,
    owed: &Vec<OwnedRecovery>,
    id: ReceiptId,
    now: UnixTsMillis,
)
    ensures
        session::entry_views(final(appends)@) == session::entry_views(old(appends)@) + (
        match owed_for(owed_views(owed@), id) {
            Some(entries) => entries,
            None => seq![
                session::EntryModel::AssistantMessage {
                    content: recovery_text(id),
                    at: now,
                    receipt_id: id,
                },
            ],
        }),
{
    let ghost before = session::entry_views(appends@);
    match find_owed(owed, id) {
        Some(entries) => {
            let ghost views = session::entry_views(entries@);
            let mut i: usize = 0;
            assert(session::entry_views(appends@) =~= before + views.take(0));
            while i < entries.len()
                invariant
                    i <= entries@.len(),
                    views == session::entry_views(entries@),
                    session::entry_views(appends@) == before + views.take(i as int),
                decreases entries@.len() - i,
            {
                let ghost so_far = session::entry_views(appends@);
                let entry: SessionEntry = entries[i].clone();
                let ghost model = entry@;
                assert(model == views[i as int]);
                appends.push(entry);
                assert(session::entry_views(appends@) =~= so_far.push(model));
                assert(session::entry_views(appends@) =~= before + views.take(i + 1));
                i = i + 1;
            }
            assert(views.take(i as int) =~= views);
        },
        None => {
            let entry: SessionEntry = recovery_entry(id, now);
            let ghost model = entry@;
            appends.push(entry);
            assert(session::entry_views(appends@) =~= before.push(model));
        },
    }
}

/// What a scan of the chain found.
struct Scan {
    ids: Vec<ReceiptId>,
    first: Option<usize>,
    broken: bool,
    appends: Vec<SessionEntry>,
}

/// A scan of the first `n` receipts found this.
spec fn scanned(scan: Scan, sweep: Sweep, n: int) -> bool {
    &&& scan.ids@ == sweep.orphans(n).map_values(|i: int| sweep.chain[i].body.receipt_id)
    &&& match scan.first {
        Some(first) => {
            &&& first < n
            &&& sweep.orphans(n).len() > 0
            &&& sweep.orphans(n)[0] == first
            &&& sweep.is_orphan(first as int)
            &&& forall|m: int| 0 <= m < first ==> !#[trigger] sweep.is_orphan(m)
        },
        None => {
            &&& sweep.orphans(n).len() == 0
            &&& forall|m: int| 0 <= m < n ==> !#[trigger] sweep.is_orphan(m)
        },
    }
    &&& scan.broken <==> exists|i: int, j: int|
        0 <= i < j < n && #[trigger] sweep.is_orphan(i) && !#[trigger] sweep.is_orphan(j)
    &&& session::entry_views(scan.appends@) == sweep.appends(n)
}

fn scan_chain(
    chain: &Vec<PersistedReceipt>,
    entries: &Vec<SessionEntry>,
    modern: &Vec<ReceiptId>,
    owed: &Vec<OwnedRecovery>,
    scope: &SweepScope,
    vouched: &HashSet<u128>,
) -> (r: Scan)
    requires
        vouched@ == session::vouched_receipts(session::entry_views(entries@)),
    ensures
        scanned(r, sweep_of(chain@, entries@, modern@, owed@, *scope), chain@.len() as int),
{
    let ghost sweep = sweep_of(chain@, entries@, modern@, owed@, *scope);
    let mut scan = Scan {
        ids: Vec::new(),
        first: None,
        broken: false,
        appends: Vec::new(),
    };
    let mut i: usize = 0;
    assert(scan.ids@ =~= sweep.orphans(0).map_values(|i: int| sweep.chain[i].body.receipt_id));
    assert(session::entry_views(scan.appends@) =~= sweep.appends(0));
    while i < chain.len()
        invariant
            i <= chain@.len(),
            sweep == sweep_of(chain@, entries@, modern@, owed@, *scope),
            vouched@ == session::vouched_receipts(session::entry_views(entries@)),
            scanned(scan, sweep, i as int),
        decreases chain@.len() - i,
    {
        let ghost before = scan;
        let body: &ReceiptBody = &chain[i].body;
        assert(sweep.chain[i as int] == chain@[i as int]@);
        let id: ReceiptId = body.receipt_id;
        let in_session: bool = body.session_id == Some(scope.session);
        let is_modern: bool = names_receipt(modern, id);
        let owed_entries = find_owed(owed, id);
        let orphan: bool = match owed_entries {
            Some(entries) => scope.strategy != ReconciliationStrategy::TruncateOrphans
                && entries.len() > 0,
            None => in_session && !vouched.contains(&id.0) && !is_modern && body.verb == scope.verb
                && !control_verb(&body.verb),
        };
        assert(orphan == sweep.is_orphan(i as int));
        if orphan {
            scan.ids.push(id);
            push_recovery(&mut scan.appends, owed, id, scope.now);
            if scan.first.is_none() {
                scan.first = Some(i);
            }
        } else if scan.first.is_some() {
            scan.broken = true;
        }
        proof {
            let n = i + 1;
            assert(sweep.orphans(n) == if orphan {
                sweep.orphans(i as int).push(i as int)
            } else {
                sweep.orphans(i as int)
            });
            assert(scan.ids@ =~= sweep.orphans(n).map_values(
                |i: int| sweep.chain[i].body.receipt_id,
            ));
            assert(session::entry_views(scan.appends@) =~= sweep.appends(n));
            if !before.broken && scan.broken {
                let first = before.first->0 as int;
                assert(sweep.is_orphan(first) && !sweep.is_orphan(i as int));
            }
            if exists|a: int, b: int|
                0 <= a < b < n && #[trigger] sweep.is_orphan(a) && !#[trigger] sweep.is_orphan(b) {
                let (a, b) = choose|a: int, b: int|
                    0 <= a < b < n && #[trigger] sweep.is_orphan(a) && !#[trigger] sweep.is_orphan(
                        b,
                    );
                if b == i {
                    assert(before.first is Some);
                } else {
                    assert(before.broken);
                }
            }
        }
        i = i + 1;
    }
    scan
}

/// Decides a sweep over a receipt log and a session journal. `signed` holds
/// for each receipt the body that its signature vouches for; `modern` and
/// `owed` are what the settlement records account for and still owe.
pub fn reconcile_receipts(
    chain: &Vec<PersistedReceipt>,
    signed: &Vec<Option<ReceiptBody>>,
    entries: &Vec<SessionEntry>,
    modern: &Vec<ReceiptId>,
    owed: &Vec<OwnedRecovery>,
    scope: &SweepScope,
) -> (r: Result<ReconciliationPlan, ReconciliationError>)
    requires
        signed@.len() == chain@.len(),
    ensures
        ({
            let sweep = sweep_of(chain@, entries@, modern@, owed@, *scope);
            match receipts::first_error(sweep.chain, receipts::decoded_views(signed@), 0) {
                Some(error) => r == Err::<ReconciliationPlan, ReconciliationError>(
                    ReconciliationError::ReceiptChain(error),
                ),
                None => match sweep.action() {
                    Err(error) => r == Err::<ReconciliationPlan, ReconciliationError>(error),
                    Ok(_) => r matches Ok(plan) && carries_out(plan, sweep),
                },
            }
        }),
{
    if let Err(error) = verify_persisted_chain_with_jwks(chain, signed) {
        return Err(ReconciliationError::ReceiptChain(error));
    }
    let ghost sweep = sweep_of(chain@, entries@, modern@, owed@, *scope);
    let ghost n = chain@.len() as int;
    let vouched: HashSet<u128> = vouched_set(entries);
    let scan: Scan = scan_chain(chain, entries, modern, owed, scope, &vouched);
    let report = ReconciliationReport {
        receipt_count: chain.len(),
        journaled_receipt_count: answered_set(entries).len(),
        orphan_receipt_ids: scan.ids,
        action: ReconciliationAction::NoOrphans,
        dry_run: scope.dry_run,
    };
    let mut plan = ReconciliationPlan { report, appends: Vec::new(), retained: None };
    assert(session::entry_views(plan.appends@) =~= Seq::empty());
    let first: usize = match scan.first {
        None => {
            return Ok(plan);
        },
        Some(first) => first,
    };
    if scope.dry_run || scope.strategy == ReconciliationStrategy::IgnoreOrphans {
        plan.report.action = ReconciliationAction::ReportedOnly;
        return Ok(plan);
    }
    if scope.strategy == ReconciliationStrategy::AppendSyntheticJournal {
        plan.report.action = ReconciliationAction::AppendedSyntheticJournal {
            count: scan.appends.len(),
        };
        plan.appends = scan.appends;
        return Ok(plan);
    }
    if scan.broken {
        proof {
            let (a, b) = choose|a: int, b: int|
                0 <= a < b < n && #[trigger] sweep.is_orphan(a) && !#[trigger] sweep.is_orphan(b);
            assert(!sweep.orphans_are_a_suffix());
        }
        return Err(ReconciliationError::Undecidable(UndecidableReason::NotASuffix));
    }
    assert(sweep.orphans_are_a_suffix());
    plan.report.action = ReconciliationAction::TruncatedReceipts {
        count: plan.report.orphan_receipt_ids.len(),
    };
    plan.retained = Some(first);
    Ok(plan)
}

/// The text of a log that holds the first `n` receipts.
pub open spec fn log_text(chain: Seq<receipts::PersistedModel>, n: int) -> Seq<char>
    decreases n,
{
    if n <= 0 {
        Seq::empty()
    } else {
        log_text(chain, n - 1) + chain[n - 1].jws + "\n"@
    }
}

/// The log that is left when all but the first `kept` receipts are cut off,
/// and the digest that the next receipt will name.
pub fn truncate_orphan_suffix(chain: &Vec<PersistedReceipt>, kept: usize) -> (r: (
    String,
    Option<Sha256Digest>,
))
    requires
        kept <= chain@.len(),
    ensures
        r.0@ == log_text(receipts::chain_views(chain@), kept as int),
        r.1 == receipts::expected_parent(receipts::chain_views(chain@).take(kept as int), kept as int),
{
    let ghost views = receipts::chain_views(chain@);
    let mut log: String = String::new();
    let mut i: usize = 0;
    assert(log@ =~= log_text(views, 0));
    while i < kept
        invariant
            i <= kept <= chain@.len(),
            views == receipts::chain_views(chain@),
            log@ == log_text(views, i as int),
        decreases kept - i,
    {
        assert(views[i as int] == chain@[i as int]@);
        log.append(chain[i].jws_compact.as_str());
        log.append("\n");
        i = i + 1;
    }
    (log, parent_of(chain, kept))
}

proof fn lemma_vouched_concat(a: Seq<session::EntryModel>, b: Seq<session::EntryModel>, id: ReceiptId)
    requires
        session::vouched_receipts(a).contains(id.0) || session::vouched_receipts(b).contains(id.0),
    ensures
        session::vouched_receipts(a + b).contains(id.0),
{
    session::lemma_vouched(a, id);
    session::lemma_vouched(b, id);
    session::lemma_vouched(a + b, id);
    if session::vouched_receipts(a).contains(id.0) {
        let i = choose|i: int|
            0 <= i < a.len() && session::vouched_receipt(#[trigger] a[i]) == Some(id);
        assert((a + b)[i] == a[i]);
    } else {
        let i = choose|i: int|
            0 <= i < b.len() && session::vouched_receipt(#[trigger] b[i]) == Some(id);
        assert((a + b)[a.len() + i] == b[i]);
    }
}

proof fn lemma_appends_vouch(sweep: Sweep, n: int, i: int)
    requires
        0 <= i < n <= sweep.chain.len(),
        sweep.is_orphan(i),
        owed_for(sweep.owed, sweep.chain[i].body.receipt_id) is None,
    ensures
        session::vouched_receipts(sweep.appends(n)).contains(sweep.chain[i].body.receipt_id.0),
    decreases n,
{
    let id = sweep.chain[i].body.receipt_id;
    let before = sweep.appends(n - 1);
    if i < n - 1 {
        lemma_appends_vouch(sweep, n - 1, i);
        if sweep.is_orphan(n - 1) {
            lemma_vouched_concat(before, sweep.recovery_entries(n - 1), id);
        }
    } else {
        let added = sweep.recovery_entries(i);
        session::lemma_vouched(added, id);
        assert(session::vouched_receipt(added[0]) == Some(id));
        lemma_vouched_concat(before, added, id);
    }
}

proof fn lemma_no_orphans(sweep: Sweep, n: int)
    requires
        0 <= n <= sweep.chain.len(),
        forall|i: int| 0 <= i < n ==> !#[trigger] sweep.is_orphan(i),
    ensures
        sweep.orphans(n) == Seq::<int>::empty(),
        sweep.appends(n) == Seq::<session::EntryModel>::empty(),
    decreases n,
{
    if n > 0 {
        assert(!sweep.is_orphan(n - 1));
        lemma_no_orphans(sweep, n - 1);
    }
}

/// What a second sweep finds is only what a settlement record still owes: the
/// receipts that no record accounts for are vouched for by what the first sweep
/// appended.
pub proof fn law_a_second_sweep_finds_only_what_is_still_owed(
    sweep: Sweep,
    owed_after: Seq<OwedModel>,
    i: int,
)
    requires
        sweep.strategy == ReconciliationStrategy::AppendSyntheticJournal,
        forall|id: ReceiptId|
            owed_for(sweep.owed, id) is Some ==> #[trigger] owed_for(owed_after, id) is Some,
        0 <= i < sweep.chain.len(),
    ensures
        ({
            let again = Sweep {
                entries: sweep.entries + sweep.appends(sweep.chain.len() as int),
                owed: owed_after,
                ..sweep
            };
            again.is_orphan(i) ==> (owed_for(
                owed_after,
                sweep.chain[i].body.receipt_id,
            ) matches Some(entries) && entries.len() > 0)
        }),
{
    let n = sweep.chain.len() as int;
    let appended = sweep.appends(n);
    let id = sweep.chain[i].body.receipt_id;
    if owed_for(owed_after, id) is None {
        assert(owed_for(sweep.owed, id) is None);
        if sweep.is_orphan(i) {
            lemma_appends_vouch(sweep, n, i);
            lemma_vouched_concat(sweep.entries, appended, id);
        } else if session::vouched_receipts(sweep.entries).contains(id.0) {
            lemma_vouched_concat(sweep.entries, appended, id);
        }
    }
}

/// A sweep that appended its recovery entries is complete: once they are in
/// the journal, and nothing is owed any more where they came from settlement
/// records, a second sweep finds no orphan.
pub proof fn law_a_second_sweep_finds_nothing(sweep: Sweep, owed_after: Seq<OwedModel>)
    requires
        sweep.strategy == ReconciliationStrategy::AppendSyntheticJournal,
        forall|id: ReceiptId|
            match owed_for(sweep.owed, id) {
                Some(_) => #[trigger] owed_for(owed_after, id) == Some(
                    Seq::<session::EntryModel>::empty(),
                ),
                None => owed_for(owed_after, id) is None,
            },
    ensures
        ({
            let n = sweep.chain.len() as int;
            let again = Sweep {
                entries: sweep.entries + sweep.appends(n),
                owed: owed_after,
                ..sweep
            };
            &&& again.action() == Ok::<ReconciliationAction, ReconciliationError>(
                ReconciliationAction::NoOrphans,
            )
            &&& orphan_ids(again) == Seq::<ReceiptId>::empty()
            &&& again.appends(n) == Seq::<session::EntryModel>::empty()
        }),
{
    let n = sweep.chain.len() as int;
    let appended = sweep.appends(n);
    let again = Sweep { entries: sweep.entries + appended, owed: owed_after, ..sweep };
    assert forall|id: ReceiptId| owed_for(sweep.owed, id) is Some implies #[trigger] owed_for(
        owed_after,
        id,
    ) is Some by {}
    assert forall|i: int| 0 <= i < n implies !#[trigger] again.is_orphan(i) by {
        law_a_second_sweep_finds_only_what_is_still_owed(sweep, owed_after, i);
        let id = sweep.chain[i].body.receipt_id;
        assert(owed_for(sweep.owed, id) is None || owed_for(owed_after, id) == Some(
            Seq::<session::EntryModel>::empty(),
        ));
    }
    lemma_no_orphans(again, n);
    assert(orphan_ids(again) =~= Seq::<ReceiptId>::empty());
}

proof fn lemma_first_orphan(sweep: Sweep, n: int)
    requires
        0 <= n <= sweep.chain.len(),
        sweep.orphans(n).len() > 0,
    ensures
        0 <= sweep.orphans(n)[0] < n,
        sweep.is_orphan(sweep.orphans(n)[0]),
        forall|i: int| 0 <= i < sweep.orphans(n)[0] ==> !#[trigger] sweep.is_orphan(i),
    decreases n,
{
    if sweep.orphans(n - 1).len() > 0 {
        lemma_first_orphan(sweep, n - 1);
    } else {
        assert forall|i: int| 0 <= i < n - 1 implies !#[trigger] sweep.is_orphan(i) by {
            if sweep.is_orphan(i) {
                lemma_orphan_counts(sweep, n - 1, i);
            }
        }
    }
}

proof fn lemma_orphan_counts(sweep: Sweep, n: int, i: int)
    requires
        0 <= i < n <= sweep.chain.len(),
        sweep.is_orphan(i),
    ensures
        sweep.orphans(n).len() > 0,
    decreases n,
{
    if i < n - 1 {
        lemma_orphan_counts(sweep, n - 1, i);
    }
}

/// Truncation removes exactly the orphans, leaves a chain that is linked if
/// the whole one was, and never removes a receipt that a settlement record
/// accounts for.
pub proof fn law_truncation_removes_exactly_the_orphans(sweep: Sweep)
    requires
        sweep.action() matches Ok(action) && action is TruncatedReceipts,
    ensures
        ({
            let n = sweep.chain.len() as int;
            let kept = sweep.orphans(n)[0];
            &&& 0 <= kept < n
            &&& forall|i: int| 0 <= i < n ==> (#[trigger] sweep.is_orphan(i) <==> kept <= i)
            &&& forall|i: int|
                kept <= i < n ==> owed_for(
                    sweep.owed,
                    (#[trigger] sweep.chain[i]).body.receipt_id,
                ) is None
            &&& receipts::linked(sweep.chain) ==> receipts::linked(sweep.chain.take(kept))
        }),
{
    let n = sweep.chain.len() as int;
    let kept = sweep.orphans(n)[0];
    lemma_first_orphan(sweep, n);
    assert forall|i: int| kept <= i < n implies #[trigger] sweep.is_orphan(i) by {
        assert(sweep.is_orphan(kept));
    }
    assert forall|i: int| kept <= i < n implies owed_for(
        sweep.owed,
        (#[trigger] sweep.chain[i]).body.receipt_id,
    ) is None by {
        assert(sweep.is_orphan(i));
    }
    if receipts::linked(sweep.chain) {
        receipts::law_a_prefix_stays_linked(sweep.chain, kept);
    }
}

/// A dry run, and a sweep that ignores orphans, changes neither store.
pub proof fn law_a_dry_run_changes_nothing(sweep: Sweep, plan: ReconciliationPlan)
    requires
        carries_out(plan, sweep),
        sweep.dry_run || sweep.strategy == ReconciliationStrategy::IgnoreOrphans,
    ensures
        plan.appends@.len() == 0,
        plan.retained is None,
{
    assert(session::entry_views(plan.appends@).len() == plan.appends@.len());
}

/// The log of a cut chain is read back as exactly the receipts that stay.
/// Left out are signed forms that are blank or hold a line feed.
pub proof fn law_a_cut_log_is_read_back(chain: Seq<receipts::PersistedModel>, n: int)
    requires
        0 <= n <= chain.len(),
        forall|i: int, k: int|
            0 <= i < chain.len() && 0 <= k < chain[i].jws.len() ==> #[trigger] chain[i].jws[k]
                != '\n',
        forall|i: int| 0 <= i < chain.len() ==> !text::is_blank((#[trigger] chain[i]).jws),
    ensures
        ({
            let log = vstd::utf8::encode_utf8(log_text(chain, n));
            let lines = receipts::receipt_lines_from(log, 0);
            &&& !text::is_torn(log)
            &&& receipts::readable_from(log, 0)
            &&& lines.len() == n
            &&& forall|i: int|
                0 <= i < n ==> (#[trigger] lines[i]).text == chain[i].jws && lines[i].terminated
        }),
    decreases n,
{
    if n == 0 {
        assert(log_text(chain, 0) =~= Seq::empty());
        assert(vstd::utf8::encode_utf8(Seq::<char>::empty()).len() == 0);
    } else {
        law_a_cut_log_is_read_back(chain, n - 1);
        let before = log_text(chain, n - 1);
        let jws = chain[n - 1].jws;
        let line = vstd::utf8::encode_utf8(jws);
        let head = vstd::utf8::encode_utf8(before);
        let log = vstd::utf8::encode_utf8(log_text(chain, n));
        text::lemma_encode_concat(before + jws, "\n"@);
        text::lemma_encode_concat(before, jws);
        text::lemma_encoded_line_feed();
        assert(log =~= head + line.push(text::LINE_FEED));
        assert forall|k: int| 0 <= k < jws.len() implies #[trigger] jws[k] != '\n' by {
            assert(chain[n - 1].jws[k] != '\n');
        }
        text::lemma_encoded_line_has_no_line_feed(jws);
        vstd::utf8::encode_utf8_valid_utf8(jws);
        vstd::utf8::encode_utf8_decode_utf8(jws);
        receipts::law_an_appended_receipt_is_read_back(head, line);
        assert(log.last() == text::LINE_FEED);
        let lines = receipts::receipt_lines_from(log, 0);
        let earlier = receipts::receipt_lines_from(head, 0);
        assert forall|i: int| 0 <= i < n implies (#[trigger] lines[i]).text == chain[i].jws
            && lines[i].terminated by {
            if i < n - 1 {
                assert(lines[i] == earlier[i]);
            }
        }
    }
}

} // verus!
