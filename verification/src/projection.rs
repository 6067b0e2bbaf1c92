//! Projecting settled rounds to the session journal, in commit order.
use crate::evidence;
use crate::evidence::{JournalProjection, TurnObligation};
use crate::ids::{SessionId, TurnId};
use crate::settlement;
use crate::settlement::{SettlementCoordinator, SettlementSupervisor};
use crate::slot;
use crate::slot::{JournalEntry, SettlementError, Step};
use crate::slot_model;
use crate::slot_model::ProjectionOutcome;
use vstd::prelude::*;

verus! {

/// A round whose journal entry is owed.
#[derive(Clone, Copy, Debug, PartialEq, Eq, Structural)]
pub struct ProjectionWork {
    pub commit_ordinal: Option<u64>,
    pub turn: TurnId,
    pub ordinal: u32,
    pub id: u128,
}

/// The entries that the first `n` rounds of a turn owe, in round order.
pub open spec fn owed_by(turn: evidence::TurnModel, n: int) -> Seq<ProjectionWork>
    decreases n,
{
    if n <= 0 {
        Seq::empty()
    } else {
        let rest = owed_by(turn, n - 1);
        match turn.rounds[n - 1].projection {
            JournalProjection::Pending(id) => rest.push(
                ProjectionWork {
                    commit_ordinal: turn.rounds[n - 1].commit_ordinal,
                    turn: turn.turn_id,
                    ordinal: turn.rounds[n - 1].ordinal,
                    id,
                },
            ),
            _ => rest,
        }
    }
}

/// The entries that the first `n` turns owe.
pub open spec fn owed_by_all(
    turns: Seq<settlement::TurnSettlementStatus>,
    n: int,
) -> Seq<ProjectionWork>
    decreases n,
{
    if n <= 0 {
        Seq::empty()
    } else {
        owed_by_all(turns, n - 1) + owed_by(
            turns[n - 1].turn@,
            turns[n - 1].turn@.rounds.len() as int,
        )
    }
}

/// `a` is projected no later than `b`: no ordinal comes first, then ascending.
pub open spec fn no_later(a: ProjectionWork, b: ProjectionWork) -> bool {
    match (a.commit_ordinal, b.commit_ordinal) {
        (None, _) => true,
        (Some(_), None) => false,
        (Some(x), Some(y)) => x <= y,
    }
}

/// In projection order.
pub open spec fn in_commit_order(work: Seq<ProjectionWork>) -> bool {
    forall|i: int, j: int|
        0 <= i < j < work.len() ==> no_later(#[trigger] work[i], #[trigger] work[j])
}

/// The slots of a registry, by turn.
pub type Registry = Map<TurnId, slot::SlotModel>;

/// The slots that a registry shows.
pub open spec fn registry_of(c: settlement::CoordinatorModel) -> Registry {
    Map::new(|t: TurnId| c.slots.contains_key(t), |t: TurnId| c.facts(t))
}

/// Where a round stands.
pub ghost struct Place {
    pub turn: TurnId,
    pub ordinal: int,
}

/// Where the round of an entry stands.
pub open spec fn place_of(work: ProjectionWork) -> Place {
    Place { turn: work.turn, ordinal: work.ordinal as int }
}

/// The round at this place owes the entry.
pub open spec fn owes(turn: evidence::TurnModel, work: ProjectionWork) -> bool {
    &&& turn.turn_id == work.turn
    &&& work.ordinal < turn.rounds.len()
    &&& turn.rounds[work.ordinal as int].projection == JournalProjection::Pending(work.id)
}

/// The entries are owed by different rounds of the registry.
pub open spec fn owed_apart(a: Registry, work: Seq<ProjectionWork>) -> bool {
    &&& forall|k: int|
        0 <= k < work.len() ==> a.contains_key((#[trigger] work[k]).turn) && owes(
            a[work[k].turn].turn,
            work[k],
        )
    &&& forall|j: int, k: int|
        0 <= j < k < work.len() ==> place_of(#[trigger] work[j]) != place_of(#[trigger] work[k])
}

/// `a` stands before `b`, by turn and round.
spec fn stands_before(a: ProjectionWork, b: ProjectionWork) -> bool {
    a.turn.0 < b.turn.0 || (a.turn == b.turn && a.ordinal < b.ordinal)
}

proof fn lemma_owed_by(turn: evidence::TurnModel, n: int)
    requires
        0 <= n <= turn.rounds.len(),
        forall|i: int|
            0 <= i < turn.rounds.len() ==> (#[trigger] turn.rounds[i]).ordinal == i,
    ensures
        forall|k: int|
            0 <= k < owed_by(turn, n).len() ==> owes(turn, #[trigger] owed_by(turn, n)[k])
                && owed_by(turn, n)[k].ordinal < n,
        forall|j: int, k: int|
            0 <= j < k < owed_by(turn, n).len() ==> stands_before(
                #[trigger] owed_by(turn, n)[j],
                #[trigger] owed_by(turn, n)[k],
            ),
    decreases n,
{
    if n > 0 {
        lemma_owed_by(turn, n - 1);
        assert(turn.rounds[n - 1].ordinal == n - 1);
        let rest = owed_by(turn, n - 1);
        let all = owed_by(turn, n);
        assert forall|k: int| 0 <= k < all.len() implies owes(turn, #[trigger] all[k])
            && all[k].ordinal < n by {
            if k < rest.len() {
                assert(all[k] == rest[k]);
            }
        }
        assert forall|j: int, k: int| 0 <= j < k < all.len() implies stands_before(
            #[trigger] all[j],
            #[trigger] all[k],
        ) by {
            assert(all[j] == rest[j]);
            if k < rest.len() {
                assert(all[k] == rest[k]);
            }
        }
    }
}

/// Each turn is listed with its rounds in order, and the turns ascend.
spec fn listed(turns: Seq<settlement::TurnSettlementStatus>) -> bool {
    &&& forall|m: int, i: int|
        0 <= m < turns.len() && 0 <= i < turns[m].turn@.rounds.len() ==> (
        #[trigger] turns[m].turn@.rounds[i]).ordinal == i
    &&& forall|m: int, o: int|
        0 <= m < o < turns.len() ==> (#[trigger] turns[m]).turn@.turn_id.0 < (
        #[trigger] turns[o]).turn@.turn_id.0
}

proof fn lemma_owed_by_all(turns: Seq<settlement::TurnSettlementStatus>, n: int)
    requires
        0 <= n <= turns.len(),
        listed(turns),
    ensures
        forall|k: int|
            0 <= k < owed_by_all(turns, n).len() ==> exists|m: int|
                0 <= m < n && owes((#[trigger] turns[m]).turn@, #[trigger] owed_by_all(turns, n)[k]),
        forall|j: int, k: int|
            0 <= j < k < owed_by_all(turns, n).len() ==> stands_before(
                #[trigger] owed_by_all(turns, n)[j],
                #[trigger] owed_by_all(turns, n)[k],
            ),
    decreases n,
{
    if n > 0 {
        lemma_owed_by_all(turns, n - 1);
        let turn = turns[n - 1].turn@;
        let len = turn.rounds.len() as int;
        assert forall|i: int| 0 <= i < turn.rounds.len() implies (
        #[trigger] turn.rounds[i]).ordinal == i by {
            assert(turns[n - 1].turn@.rounds[i].ordinal == i);
        }
        lemma_owed_by(turn, len);
        let rest = owed_by_all(turns, n - 1);
        let own = owed_by(turn, len);
        let all = owed_by_all(turns, n);
        assert(all == rest + own);
        assert forall|k: int| 0 <= k < all.len() implies exists|m: int|
            0 <= m < n && owes((#[trigger] turns[m]).turn@, #[trigger] all[k]) by {
            if k < rest.len() {
                assert(all[k] == rest[k]);
                let m = choose|m: int|
                    0 <= m < n - 1 && owes((#[trigger] turns[m]).turn@, rest[k]);
                assert(owes(turns[m].turn@, all[k]));
            } else {
                assert(all[k] == own[k - rest.len()]);
                assert(owes(turns[n - 1].turn@, all[k]));
            }
        }
        assert forall|j: int, k: int| 0 <= j < k < all.len() implies stands_before(
            #[trigger] all[j],
            #[trigger] all[k],
        ) by {
            if k < rest.len() {
                assert(all[j] == rest[j] && all[k] == rest[k]);
            } else if j >= rest.len() {
                assert(all[j] == own[j - rest.len()] && all[k] == own[k - rest.len()]);
            } else {
                assert(all[j] == rest[j] && all[k] == own[k - rest.len()]);
                let m = choose|m: int|
                    0 <= m < n - 1 && owes((#[trigger] turns[m]).turn@, rest[j]);
                assert(turns[m].turn@.turn_id.0 < turns[n - 1].turn@.turn_id.0);
            }
        }
    }
}

proof fn lemma_owed_apart(
    c: settlement::CoordinatorModel,
    status: settlement::SettlementStatus,
    work: Seq<ProjectionWork>,
)
    requires
        c.wf(),
        describes(c, status),
        work.to_multiset() == owed_by_all(
            status.turns@,
            status.turns@.len() as int,
        ).to_multiset(),
    ensures
        owed_apart(registry_of(c), work),
{
    let turns = status.turns@;
    let all = owed_by_all(turns, turns.len() as int);
    assert forall|m: int, i: int|
        0 <= m < turns.len() && 0 <= i < turns[m].turn@.rounds.len() implies (
    #[trigger] turns[m].turn@.rounds[i]).ordinal == i by {
        let id = turns[m].turn@.turn_id;
        assert(c.slots.contains_key(id));
        assert(c.facts(id).wf());
        assert(c.facts(id).turn.rounds[i].ordinal == i);
    }
    lemma_owed_by_all(turns, turns.len() as int);
    assert(all.no_duplicates()) by {
        assert forall|j: int, k: int|
            0 <= j < all.len() && 0 <= k < all.len() && j != k implies all[j] != all[k] by {
            if j < k {
                assert(stands_before(all[j], all[k]));
            } else {
                assert(stands_before(all[k], all[j]));
            }
        }
    }
    all.lemma_multiset_has_no_duplicates();
    work.to_multiset_ensures();
    all.to_multiset_ensures();
    work.lemma_multiset_has_no_duplicates_conv();
    assert forall|k: int| 0 <= k < work.len() implies registry_of(c).contains_key(
        (#[trigger] work[k]).turn,
    ) && owes(registry_of(c)[work[k].turn].turn, work[k]) by {
        let p = lemma_listed(work, all, k);
        let m = choose|m: int|
            0 <= m < turns.len() && owes((#[trigger] turns[m]).turn@, all[p]);
        assert(c.slots.contains_key(turns[m].turn@.turn_id));
    }
    assert forall|j: int, k: int| 0 <= j < k < work.len() implies place_of(#[trigger] work[j])
        != place_of(#[trigger] work[k]) by {
        let p = lemma_listed(work, all, j);
        let q = lemma_listed(work, all, k);
        if p < q {
            assert(stands_before(all[p], all[q]));
        } else if q < p {
            assert(stands_before(all[q], all[p]));
        } else {
            assert(work[j] != work[k]);
        }
    }
}

proof fn lemma_listed(work: Seq<ProjectionWork>, all: Seq<ProjectionWork>, k: int) -> (p: int)
    requires
        0 <= k < work.len(),
        work.to_multiset() == all.to_multiset(),
    ensures
        0 <= p < all.len(),
        all[p] == work[k],
{
    work.to_multiset_ensures();
    all.to_multiset_ensures();
    assert(work.contains(work[k]));
    assert(all.to_multiset().count(work[k]) > 0);
    assert(all.contains(work[k]));
    choose|p: int| 0 <= p < all.len() && all[p] == work[k]
}

fn is_no_later(a: &ProjectionWork, b: &ProjectionWork) -> (r: bool)
    ensures
        r == no_later(*a, *b),
{
    match (a.commit_ordinal, b.commit_ordinal) {
        (None, _) => true,
        (Some(_), None) => false,
        (Some(x), Some(y)) => x <= y,
    }
}

fn collect_owed(turn: &TurnObligation, work: &mut Vec<ProjectionWork>)
    ensures
        final(work)@ == old(work)@ + owed_by(turn@, turn@.rounds.len() as int),
{
    let mut i: usize = 0;
    let ghost before = work@;
    assert(before + owed_by(turn@, 0) =~= before);
    while i < turn.rounds.len()
        invariant
            i <= turn.rounds.len(),
            work@ == before + owed_by(turn@, i as int),
        decreases turn.rounds.len() - i,
    {
        if let JournalProjection::Pending(id) = turn.rounds[i].projection {
            let item = ProjectionWork {
                commit_ordinal: turn.rounds[i].commit_ordinal,
                turn: turn.turn_id,
                ordinal: turn.rounds[i].ordinal,
                id,
            };
            work.push(item);
            assert((before + owed_by(turn@, i as int)).push(item) =~= before + owed_by(
                turn@,
                i as int,
            ).push(item));
        }
        i += 1;
    }
}

fn insert_in_order(sorted: &mut Vec<ProjectionWork>, item: ProjectionWork)
    requires
        in_commit_order(old(sorted)@),
    ensures
        in_commit_order(final(sorted)@),
        final(sorted)@.to_multiset() == old(sorted)@.to_multiset().insert(item),
{
    let mut i: usize = sorted.len();
    while i > 0 && !is_no_later(&sorted[i - 1], &item)
        invariant
            i <= sorted.len(),
            *sorted == *old(sorted),
            in_commit_order(sorted@),
            forall|j: int| i <= j < sorted.len() ==> !no_later(#[trigger] sorted@[j], item),
        decreases i,
    {
        i -= 1;
    }
    let ghost before = sorted@;
    sorted.insert(i, item);
    proof {
        before.to_multiset_ensures();
        vstd::seq_lib::to_multiset_insert(before, i as int, item);
        assert forall|a: int, b: int| 0 <= a < b < sorted@.len() implies no_later(
            #[trigger] sorted@[a],
            #[trigger] sorted@[b],
        ) by {
            let pa = if a < i { a } else { a - 1 };
            let pb = if b < i { b } else { b - 1 };
            if a != i && b != i {
                assert(sorted@[a] == before[pa]);
                assert(sorted@[b] == before[pb]);
            } else if a == i {
                assert(sorted@[b] == before[b - 1]);
                assert(!no_later(before[b - 1], item));
            } else {
                assert(sorted@[a] == before[a]);
                if a < i - 1 {
                    assert(no_later(before[a], before[i - 1]));
                }
            }
        }
    }
}

impl SettlementSupervisor {
    /// The rounds whose journal entry is owed, in commit order.
    pub fn pending_work(&self, c: &SettlementCoordinator) -> (r: Vec<ProjectionWork>)
        requires
            c.wf(),
        ensures
            in_commit_order(r@),
            owed_apart(registry_of(c@), r@),
            exists|status: settlement::SettlementStatus| #[trigger]
                describes(c@, status) && r@.to_multiset() == owed_by_all(
                    status.turns@,
                    status.turns@.len() as int,
                ).to_multiset(),
    {
        let status = c.status();
        proof {
            assert(describes(c@, status));
        }
        let mut owed: Vec<ProjectionWork> = Vec::new();
        let mut i: usize = 0;
        while i < status.turns.len()
            invariant
                i <= status.turns.len(),
                owed@ == owed_by_all(status.turns@, i as int),
            decreases status.turns.len() - i,
        {
            collect_owed(&status.turns[i].turn, &mut owed);
            i += 1;
        }
        let mut r: Vec<ProjectionWork> = Vec::new();
        let mut k: usize = 0;
        assert(owed@.take(0) =~= r@);
        while k < owed.len()
            invariant
                k <= owed.len(),
                in_commit_order(r@),
                r@.to_multiset() == owed@.take(k as int).to_multiset(),
            decreases owed.len() - k,
        {
            proof {
                owed@.take(k as int).to_multiset_ensures();
                assert(owed@.take(k + 1) =~= owed@.take(k as int).push(owed@[k as int]));
            }
            insert_in_order(&mut r, owed[k]);
            k += 1;
        }
        assert(owed@.take(owed@.len() as int) =~= owed@);
        proof {
            c.lemma_wf_model();
            lemma_owed_apart(c@, status, r@);
        }
        r
    }

    /// Starts projecting one round: the entry to append, or nothing where the
    /// round is not settled far enough. The attempt is retained before the
    /// journal is asked. The slot is held until it is handed back.
    pub fn begin_projection(
        &self,
        c: &mut SettlementCoordinator,
        work: &ProjectionWork,
        journal: SessionId,
    ) -> (r: Result<Option<JournalEntry>, SettlementError>)
        requires
            old(c).wf(),
            old(c)@.taken(work.turn) matches Ok(s) ==> work.ordinal < s.turn.rounds.len(),
        ensures
            final(c).wf(),
            match old(c)@.taken(work.turn) {
                Err(e) => r == Err::<Option<JournalEntry>, SettlementError>(e) && final(c)@
                    == old(c)@,
                Ok(s) => {
                    let (next, result) = s.project(work.ordinal as int, work.id, journal);
                    &&& r == result
                    &&& final(c)@ == old(c)@.engaged(
                        work.turn,
                        s,
                        (
                            next,
                            slot_model::finished(
                                match result {
                                    Ok(_) => Ok(()),
                                    Err(e) => Err(e),
                                },
                            ),
                        ),
                    )
                },
            },
    {
        c.project(work.turn, work.ordinal as usize, work.id, journal)
    }

    /// Goes on with a projection, given what became of the journal append.
    pub fn complete_projection(
        &self,
        c: &mut SettlementCoordinator,
        work: &ProjectionWork,
        outcome: ProjectionOutcome,
    ) -> (r: Result<Step, SettlementError>)
        requires
            old(c).wf(),
        ensures
            final(c).wf(),
            settlement::operated(
                old(c)@,
                work.turn,
                |s: slot::SlotModel| s.projected(work.ordinal as int, work.id, outcome),
                r,
                final(c)@,
            ),
    {
        c.projected(work.turn, work.ordinal as usize, work.id, outcome)
    }
}

/// `status` lists the turns of the registry with their facts.
pub open spec fn describes(
    c: settlement::CoordinatorModel,
    status: settlement::SettlementStatus,
) -> bool {
    &&& status.turns@.len() == c.slots.dom().len()
    &&& forall|i: int|
        0 <= i < status.turns@.len() ==> {
            let id = (#[trigger] status.turns@[i]).turn@.turn_id;
            &&& c.slots.contains_key(id)
            &&& settlement::shows(status.turns@[i], c.facts(id), c.abandoned.contains(id))
        }
    &&& forall|i: int, j: int|
        0 <= i < j < status.turns@.len() ==> (#[trigger] status.turns@[i]).turn@.turn_id.0 < (
        #[trigger] status.turns@[j]).turn@.turn_id.0
}

/// What came of trying one entry.
#[derive(Clone, Copy, Debug, PartialEq, Eq, Structural)]
pub enum Tried {
    /// Its round is not settled far enough.
    Skipped,
    /// The journal holds it.
    Acknowledged,
    Failed(SettlementError),
}

/// A pass over owed entries, as mathematical values.
#[verifier::ext_equal]
pub ghost struct PassModel {
    pub work: Seq<ProjectionWork>,
    /// How many entries are behind the pass.
    pub at: nat,
    /// How many of them were acknowledged.
    pub count: nat,
    /// Why the pass stopped early.
    pub failure: Option<SettlementError>,
}

impl PassModel {
    /// The entry to try next.
    pub open spec fn current(self) -> Option<ProjectionWork> {
        if self.failure is None && self.at < self.work.len() {
            Some(self.work[self.at as int])
        } else {
            None
        }
    }

    /// The pass after one entry was tried.
    pub open spec fn next(self, tried: Tried) -> PassModel {
        match tried {
            Tried::Skipped => PassModel { at: self.at + 1, ..self },
            Tried::Acknowledged => PassModel { at: self.at + 1, count: self.count + 1, ..self },
            Tried::Failed(error) => PassModel { failure: Some(error), ..self },
        }
    }

    /// What the pass reports: the first failure, or how many entries were
    /// acknowledged.
    pub open spec fn result(self) -> Result<nat, SettlementError> {
        match self.failure {
            Some(error) => Err(error),
            None => Ok(self.count),
        }
    }
}

/// A pass over the given entries, before the first one.
pub open spec fn fresh_pass(work: Seq<ProjectionWork>) -> PassModel {
    PassModel { work, at: 0, count: 0, failure: None }
}

/// One bounded pass over the owed entries: each is tried at most once, and the
/// first failure ends the pass.
#[derive(Debug)]
pub struct ProjectionPass {
    work: Vec<ProjectionWork>,
    at: usize,
    count: usize,
    failure: Option<SettlementError>,
}

impl View for ProjectionPass {
    type V = PassModel;

    closed spec fn view(&self) -> PassModel {
        PassModel {
            work: self.work@,
            at: self.at as nat,
            count: self.count as nat,
            failure: self.failure,
        }
    }
}

impl ProjectionPass {
    /// No more entries were acknowledged than tried.
    pub closed spec fn wf(&self) -> bool {
        self.count <= self.at <= self.work@.len()
    }

    /// A pass over the given entries.
    pub fn new(work: Vec<ProjectionWork>) -> (r: ProjectionPass)
        ensures
            r.wf(),
            r@ == fresh_pass(work@),
    {
        ProjectionPass { work, at: 0, count: 0, failure: None }
    }

    /// The entry to try next.
    pub fn current(&self) -> (r: Option<ProjectionWork>)
        requires
            self.wf(),
        ensures
            r == self@.current(),
    {
        if self.failure.is_none() && self.at < self.work.len() {
            Some(self.work[self.at])
        } else {
            None
        }
    }

    /// Takes what came of the current entry.
    pub fn advance(&mut self, tried: Tried)
        requires
            old(self).wf(),
            old(self)@.current() is Some,
        ensures
            final(self).wf(),
            final(self)@ == old(self)@.next(tried),
    {
        let n: usize = self.work.len();
        assert(self.at < n);
        match tried {
            Tried::Skipped => {
                self.at += 1;
            },
            Tried::Acknowledged => {
                self.at += 1;
                self.count += 1;
            },
            Tried::Failed(error) => {
                self.failure = Some(error);
            },
        }
    }

    /// The first failure, or how many entries were acknowledged.
    pub fn result(&self) -> (r: Result<usize, SettlementError>)
        ensures
            match self@.result() {
                Ok(count) => r matches Ok(n) && n == count,
                Err(error) => r == Err::<usize, SettlementError>(error),
            },
    {
        match self.failure {
            Some(error) => Err(error),
            None => Ok(self.count),
        }
    }
}

/// A pass after its entries were tried with these results.
pub open spec fn passed(work: Seq<ProjectionWork>, tried: Seq<Tried>) -> PassModel
    decreases tried.len(),
{
    if tried.len() == 0 {
        fresh_pass(work)
    } else {
        passed(work, tried.drop_last()).next(tried.last())
    }
}

/// Each result is that of an entry that the pass asked for.
pub open spec fn takes(work: Seq<ProjectionWork>, tried: Seq<Tried>) -> bool
    decreases tried.len(),
{
    tried.len() == 0 || (takes(work, tried.drop_last()) && passed(
        work,
        tried.drop_last(),
    ).current() is Some)
}

/// How many entries were acknowledged.
pub open spec fn acknowledged_among(tried: Seq<Tried>) -> nat
    decreases tried.len(),
{
    if tried.len() == 0 {
        0
    } else {
        acknowledged_among(tried.drop_last()) + (if tried.last() is Acknowledged {
            1nat
        } else {
            0nat
        })
    }
}

/// A pass tries the owed entries in their order, each at most once. It stops at
/// the first failure and reports it; otherwise it goes on to the last entry and
/// reports how many were acknowledged.
pub proof fn law_a_pass_stops_at_its_first_failure(
    work: Seq<ProjectionWork>,
    tried: Seq<Tried>,
)
    requires
        takes(work, tried),
    ensures
        tried.len() <= work.len(),
        forall|i: int| 0 <= i < tried.len() - 1 ==> !((#[trigger] tried[i]) is Failed),
        tried.len() > 0 && tried.last() is Failed ==> passed(work, tried).current() is None
            && passed(work, tried).result() == Err::<nat, SettlementError>(tried.last()->Failed_0),
        tried.len() == 0 || !(tried.last() is Failed) ==> {
            &&& passed(work, tried).result() == Ok::<nat, SettlementError>(acknowledged_among(tried))
            &&& passed(work, tried).current() == (if tried.len() < work.len() {
                Some(work[tried.len() as int])
            } else {
                None
            })
        },
    decreases tried.len(),
{
    lemma_passed(work, tried);
    if tried.len() > 0 {
        let before = tried.drop_last();
        law_a_pass_stops_at_its_first_failure(work, before);
        assert forall|i: int| 0 <= i < tried.len() - 1 implies !((#[trigger] tried[i])
            is Failed) by {
            assert(tried[i] == before[i]);
            if i == before.len() - 1 {
                assert(before.last() == tried[i]);
            }
        }
    }
}

proof fn lemma_passed(work: Seq<ProjectionWork>, tried: Seq<Tried>)
    requires
        takes(work, tried),
    ensures
        passed(work, tried).work == work,
        tried.len() == 0 || !(tried.last() is Failed) ==> passed(work, tried) == (PassModel {
            work,
            at: tried.len(),
            count: acknowledged_among(tried),
            failure: None,
        }),
        tried.len() > 0 && tried.last() is Failed ==> passed(work, tried).failure == Some(
            tried.last()->Failed_0,
        ) && passed(work, tried).at == tried.len() - 1,
    decreases tried.len(),
{
    if tried.len() > 0 {
        lemma_passed(work, tried.drop_last());
    }
}

proof fn lemma_owed_before(a: evidence::TurnModel, b: evidence::TurnModel, at: int, n: int)
    requires
        0 <= at < a.rounds.len(),
        0 <= n <= a.rounds.len(),
        a.turn_id == b.turn_id,
        b.rounds.len() == a.rounds.len(),
        forall|i: int| 0 <= i < a.rounds.len() && i != at ==> a.rounds[i] == b.rounds[i],
        a.rounds[at].projection is Pending,
        !(b.rounds[at].projection is Pending),
    ensures
        n <= at ==> owed_by(b, n) == owed_by(a, n),
        n > at ==> owed_by(b, n).len() + 1 == owed_by(a, n).len() && owed_by(a, n).to_multiset()
            == owed_by(b, n).to_multiset().insert(owed_item(a, at)),
    decreases n,
{
    if n > 0 {
        lemma_owed_before(a, b, at, n - 1);
        owed_by(a, n - 1).to_multiset_ensures();
        owed_by(b, n - 1).to_multiset_ensures();
        if n - 1 > at {
            assert(a.rounds[n - 1] == b.rounds[n - 1]);
            if a.rounds[n - 1].projection is Pending {
                let item = owed_item(a, n - 1);
                assert(owed_by(a, n).to_multiset() == owed_by(a, n - 1).to_multiset().insert(item));
                assert(owed_by(b, n).to_multiset() == owed_by(b, n - 1).to_multiset().insert(item));
                assert(owed_by(a, n).to_multiset() =~= owed_by(b, n).to_multiset().insert(
                    owed_item(a, at),
                ));
            }
        } else if n - 1 == at {
            assert(owed_by(a, n).to_multiset() =~= owed_by(b, n).to_multiset().insert(
                owed_item(a, at),
            ));
        }
    }
}

/// What the round at `i` owes while its entry is pending.
pub open spec fn owed_item(turn: evidence::TurnModel, i: int) -> ProjectionWork {
    ProjectionWork {
        commit_ordinal: turn.rounds[i].commit_ordinal,
        turn: turn.turn_id,
        ordinal: turn.rounds[i].ordinal,
        id: turn.rounds[i].projection->Pending_0,
    }
}

/// An entry that the journal holds is owed no more: of what the turn owed,
/// exactly that entry is gone, whatever becomes of recording it. Its round
/// moves from pending to acknowledged and no other round changes.
pub proof fn law_a_durable_entry_is_owed_no_more(s: slot::SlotModel, ordinal: int, id: u128)
    requires
        0 <= ordinal < s.turn.rounds.len(),
        s.turn.rounds[ordinal].projection == JournalProjection::Pending(id),
    ensures
        ({
            let n = s.projected(ordinal, id, ProjectionOutcome::Durable).0;
            &&& n.turn.rounds.len() == s.turn.rounds.len()
            &&& n.turn.rounds[ordinal].projection == JournalProjection::Acknowledged(id)
            &&& forall|i: int|
                0 <= i < s.turn.rounds.len() && i != ordinal ==> n.turn.rounds[i]
                    == #[trigger] s.turn.rounds[i]
            &&& owed_by(s.turn, s.turn.rounds.len() as int).to_multiset() == owed_by(
                n.turn,
                n.turn.rounds.len() as int,
            ).to_multiset().insert(owed_item(s.turn, ordinal))
        }),
{
    let n = s.projected(ordinal, id, ProjectionOutcome::Durable).0;
    lemma_owed_before(s.turn, n.turn, ordinal, s.turn.rounds.len() as int);
}

/// An entry of which nobody knows whether the journal holds it is never handed
/// out again: the slot answers `ProjectionUnknown` to it and to every other of
/// its entries, and it owes what it owed.
pub proof fn law_an_unknown_entry_stays_unknown(
    s: slot::SlotModel,
    ordinal: int,
    id: u128,
    later: int,
    other: u128,
    journal: SessionId,
)
    requires
        0 <= ordinal < s.turn.rounds.len(),
        s.turn.rounds[ordinal].projection == JournalProjection::Pending(id),
    ensures
        ({
            let (n, step) = s.projected(ordinal, id, ProjectionOutcome::Unknown);
            &&& step == slot_model::finished(Err(SettlementError::ProjectionUnknown))
            &&& n.turn == s.turn
            &&& n.project(later, other, journal) == (
                n,
                Err::<Option<JournalEntry>, SettlementError>(SettlementError::ProjectionUnknown),
            )
        }),
{
}

/// While an attempt is outstanding its entry is not handed out a second time.
pub proof fn law_an_outstanding_attempt_is_not_repeated(
    s: slot::SlotModel,
    ordinal: int,
    id: u128,
    journal: SessionId,
)
    requires
        s.attempted(id),
    ensures
        s.project(ordinal, id, journal).1 is Err,
        s.project(ordinal, id, journal).0 == s,
        s.outcome() is Ok && s.pending is None && !s.dirty && s.turn.journal_owner == Some(journal)
            ==> s.project(ordinal, id, journal).1 == Err::<Option<JournalEntry>, SettlementError>(
            SettlementError::ProjectionUnknown,
        ),
{
}

} // verus!
