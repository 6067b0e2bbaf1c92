//! Small registries keyed by turn: a set of turns, and the slots of the turns
//! that are executing or owe something.
use crate::ids::TurnId;
use crate::slot;
use crate::slot::Slot;
use std::collections::{HashMap, HashSet};
use vstd::prelude::*;
use vstd::std_specs::hash::{spec_hash_keys_iter, spec_keys_iter};
use vstd::std_specs::iter::IteratorSpec;

verus! {

/// The turns with the given numbers.
pub open spec fn turns_numbered(numbers: Set<u128>) -> Set<TurnId> {
    numbers.map(|n: u128| TurnId(n))
}

proof fn lemma_numbered(numbers: Set<u128>)
    ensures
        forall|id: TurnId| #[trigger]
            turns_numbered(numbers).contains(id) == numbers.contains(id.0),
        numbers.finite() ==> turns_numbered(numbers).finite() && turns_numbered(numbers).len()
            == numbers.len(),
{
    let f = |n: u128| TurnId(n);
    assert forall|id: TurnId| #[trigger] turns_numbered(numbers).contains(id) == numbers.contains(
        id.0,
    ) by {
        if numbers.contains(id.0) {
            assert(f(id.0) == id);
            assert(numbers.map(f).contains(f(id.0)));
        }
    }
    if numbers.finite() {
        vstd::set_lib::lemma_map_size(numbers, turns_numbered(numbers), f);
    }
}

/// A set of turns.
#[derive(Debug)]
pub struct TurnSet {
    members: HashSet<u128>,
}

impl View for TurnSet {
    type V = Set<TurnId>;

    closed spec fn view(&self) -> Set<TurnId> {
        turns_numbered(self.members@)
    }
}

impl TurnSet {
    /// The empty set.
    pub fn new() -> (r: TurnSet)
        ensures
            r@ == Set::<TurnId>::empty(),
    {
        let r = TurnSet { members: HashSet::new() };
        proof {
            lemma_numbered(r.members@);
            assert(r@ =~= Set::<TurnId>::empty());
        }
        r
    }

    /// There are finitely many members.
    pub proof fn lemma_finite(&self)
        ensures
            self@.finite(),
    {
        self.lemma_size();
    }

    proof fn lemma_size(&self)
        ensures
            self@.finite(),
            self@.len() == self.members@.len(),
    {
        let all = IteratorSpec::remaining(&spec_hash_keys_iter(&self.members));
        vstd::seq_lib::seq_to_set_is_finite(all.unref());
        lemma_numbered(self.members@);
    }

    /// Whether a turn is a member.
    pub fn contains(&self, id: TurnId) -> (r: bool)
        ensures
            r == self@.contains(id),
    {
        proof {
            lemma_numbered(self.members@);
        }
        self.members.contains(&id.0)
    }

    /// Adds a turn.
    pub fn insert(&mut self, id: TurnId)
        ensures
            final(self)@ == old(self)@.insert(id),
    {
        self.members.insert(id.0);
        proof {
            lemma_numbered(old(self).members@);
            lemma_numbered(self.members@);
            assert(self@ =~= old(self)@.insert(id));
        }
    }

    /// Takes a turn out.
    pub fn remove(&mut self, id: TurnId)
        ensures
            final(self)@ == old(self)@.remove(id),
    {
        self.members.remove(&id.0);
        proof {
            lemma_numbered(old(self).members@);
            lemma_numbered(self.members@);
            assert(self@ =~= old(self)@.remove(id));
        }
    }

    /// The number of members.
    pub fn len(&self) -> (n: usize)
        ensures
            n == self@.len(),
    {
        proof {
            self.lemma_size();
        }
        self.members.len()
    }

    /// Whether there is no member.
    pub fn is_empty(&self) -> (r: bool)
        ensures
            r == (self@ == Set::<TurnId>::empty()),
    {
        let r = self.members.is_empty();
        proof {
            lemma_numbered(self.members@);
            if r {
                assert(self@ =~= Set::<TurnId>::empty());
            }
            if self@ == Set::<TurnId>::empty() {
                assert forall|n: u128| !self.members@.contains(n) by {
                    assert(!self@.contains(TurnId(n)));
                }
                assert(self.members@ =~= Set::<u128>::empty());
            }
        }
        r
    }

    /// The members, each once, in no particular order.
    pub fn to_vec(&self) -> (r: Vec<TurnId>)
        ensures
            r@.no_duplicates(),
            r@.to_set() == self@,
    {
        let ghost all = IteratorSpec::remaining(&spec_hash_keys_iter(&self.members));
        let mut r: Vec<TurnId> = Vec::new();
        for id in it: self.members.iter()
            invariant
                it.seq() == all,
                r@.len() == it.index(),
                forall|k: int| 0 <= k < r@.len() ==> #[trigger] r@[k] == TurnId(*all[k]),
        {
            r.push(TurnId(*id));
        }
        proof {
            lemma_listed(r@, all.unref(), self.members@);
        }
        r
    }
}

proof fn lemma_listed(ids: Seq<TurnId>, all: Seq<u128>, numbers: Set<u128>)
    requires
        all.no_duplicates(),
        all.to_set() == numbers,
        ids.len() == all.len(),
        forall|k: int| 0 <= k < ids.len() ==> #[trigger] ids[k] == TurnId(all[k]),
    ensures
        ids.no_duplicates(),
        ids.to_set() == turns_numbered(numbers),
{
    lemma_numbered(numbers);
    assert forall|id: TurnId| ids.to_set().contains(id) == turns_numbered(numbers).contains(id) by {
        if ids.to_set().contains(id) {
            let k = choose|k: int| 0 <= k < ids.len() && ids[k] == id;
            assert(all.to_set().contains(all[k]));
        }
        if numbers.contains(id.0) {
            let k = choose|k: int| 0 <= k < all.len() && all[k] == id.0;
            assert(ids[k] == id);
        }
    }
    assert(ids.to_set() =~= turns_numbered(numbers));
}

/// The slots of the turns that are executing or owe something, by turn; a slot
/// is away while an operation holds it.
#[derive(Debug)]
pub struct TurnTable {
    slots: HashMap<u128, Option<Slot>>,
}

/// The model of an optional slot.
pub open spec fn slot_option(s: Option<Slot>) -> Option<slot::SlotModel> {
    match s {
        Some(x) => Some(x@),
        None => None,
    }
}

/// What became of an attempt to take a slot.
#[derive(Debug)]
pub enum Taken {
    Missing,
    Away,
    Slot(Slot),
}

impl View for TurnTable {
    type V = Map<TurnId, Option<slot::SlotModel>>;

    closed spec fn view(&self) -> Map<TurnId, Option<slot::SlotModel>> {
        Map::new(
            |id: TurnId| self.slots@.contains_key(id.0),
            |id: TurnId| slot_option(self.slots@[id.0]),
        )
    }
}

/// The turns stand in strictly ascending order.
pub open spec fn ascending(ids: Seq<TurnId>) -> bool {
    forall|i: int, j: int|
        0 <= i < j < ids.len() ==> (#[trigger] ids[i]).0 < (#[trigger] ids[j]).0
}

/// Puts a turn at its place in an ascending list that lacks it.
fn place(ids: &mut Vec<TurnId>, id: TurnId)
    requires
        ascending(old(ids)@),
        !old(ids)@.contains(id),
    ensures
        ascending(final(ids)@),
        final(ids)@.len() == old(ids)@.len() + 1,
        final(ids)@.to_set() == old(ids)@.to_set().insert(id),
{
    let mut at: usize = 0;
    while at < ids.len() && ids[at].0 < id.0
        invariant
            *ids == *old(ids),
            at <= ids@.len(),
            forall|k: int| 0 <= k < at ==> (#[trigger] ids@[k]).0 < id.0,
        decreases ids.len() - at,
    {
        at += 1;
    }
    let ghost before = ids@;
    ids.insert(at, id);
    proof {
        let after = ids@;
        if at < before.len() {
            assert(before.contains(before[at as int]));
            assert(before[at as int].0 > id.0);
        }
        assert forall|i: int, j: int| 0 <= i < j < after.len() implies (#[trigger] after[i]).0 < (
        #[trigger] after[j]).0 by {
            let bi = if i < at { i } else { i - 1 };
            let bj = if j < at { j } else { j - 1 };
            if i != at && j != at {
                assert(after[i] == before[bi] && after[j] == before[bj]);
            } else if j == at {
                assert(after[i] == before[i]);
            } else {
                assert(after[j] == before[j - 1]);
                if j - 1 > at {
                    assert(before[at as int].0 < before[j - 1].0);
                }
            }
        }
        assert forall|t: TurnId| after.to_set().contains(t) == before.to_set().insert(id).contains(
            t,
        ) by {
            if after.contains(t) {
                let k = choose|k: int| 0 <= k < after.len() && after[k] == t;
                if k < at {
                    assert(before[k] == t);
                } else if k > at {
                    assert(before[k - 1] == t);
                }
            }
            if before.contains(t) {
                let k = choose|k: int| 0 <= k < before.len() && before[k] == t;
                if k < at {
                    assert(after[k] == t);
                } else {
                    assert(after[k + 1] == t);
                }
            }
            assert(after[at as int] == id);
        }
        assert(after.to_set() =~= before.to_set().insert(id));
    }
}

proof fn lemma_taken_one_more(ids: Seq<TurnId>, n: int, t: TurnId)
    requires
        0 <= n < ids.len(),
    ensures
        ids.take(n + 1).contains(t) == (ids.take(n).contains(t) || t == ids[n]),
{
    let more = ids.take(n + 1);
    if more.contains(t) {
        let k = choose|k: int| 0 <= k < more.len() && more[k] == t;
        if k < n {
            assert(ids.take(n)[k] == t);
        }
    }
    if ids.take(n).contains(t) {
        let k = choose|k: int| 0 <= k < n && ids.take(n)[k] == t;
        assert(more[k] == t);
    }
    assert(more[n] == ids[n]);
}

impl TurnTable {
    proof fn lemma_turns(&self)
        ensures
            self@.dom() == turns_numbered(self.slots@.dom()),
            self@.dom().finite(),
            self@.dom().len() == self.slots@.dom().len(),
    {
        lemma_numbered(self.slots@.dom());
        assert(self@.dom() =~= turns_numbered(self.slots@.dom()));
    }

    /// The empty table.
    pub fn new() -> (r: TurnTable)
        ensures
            r@ == Map::<TurnId, Option<slot::SlotModel>>::empty(),
    {
        let r = TurnTable { slots: HashMap::new() };
        assert(r@ =~= Map::<TurnId, Option<slot::SlotModel>>::empty());
        r
    }

    /// Whether a turn has an entry.
    pub fn contains(&self, id: TurnId) -> (r: bool)
        ensures
            r == self@.contains_key(id),
    {
        self.slots.contains_key(&id.0)
    }

    /// The slot of a turn, unless it is away.
    pub fn get(&self, id: TurnId) -> (r: Option<&Slot>)
        ensures
            r is Some == (self@.contains_key(id) && self@[id] is Some),
            r matches Some(s) ==> self@[id] == Some(s@),
    {
        match self.slots.get(&id.0) {
            Some(Some(s)) => Some(s),
            _ => None,
        }
    }

    /// The number of entries.
    pub fn len(&self) -> (n: usize)
        ensures
            n == self@.dom().len(),
    {
        proof {
            self.lemma_turns();
        }
        self.slots.len()
    }

    /// The turns with an entry, in ascending order.
    pub fn turns(&self) -> (r: Vec<TurnId>)
        ensures
            ascending(r@),
            r@.len() == self@.dom().len(),
            r@.to_set() == self@.dom(),
    {
        let ghost all = IteratorSpec::remaining(&spec_keys_iter(&self.slots));
        let mut found: Vec<TurnId> = Vec::new();
        for id in it: self.slots.keys()
            invariant
                it.seq() == all,
                found@.len() == it.index(),
                forall|k: int| 0 <= k < found@.len() ==> #[trigger] found@[k] == TurnId(*all[k]),
        {
            found.push(TurnId(*id));
        }
        proof {
            self.lemma_turns();
            lemma_listed(found@, all.unref(), self.slots@.dom());
        }
        let mut r: Vec<TurnId> = Vec::new();
        let mut i: usize = 0;
        while i < found.len()
            invariant
                found@.no_duplicates(),
                i <= found@.len(),
                r@.len() == i,
                ascending(r@),
                forall|t: TurnId| #[trigger] r@.to_set().contains(t) == found@.take(
                    i as int,
                ).contains(t),
            decreases found.len() - i,
        {
            let ghost before = r@;
            let id = found[i];
            proof {
                if r@.contains(id) {
                    assert(r@.to_set().contains(id));
                    let k = choose|k: int| 0 <= k < i && found@.take(i as int)[k] == id;
                    assert(found@[k] == found@[i as int]);
                }
            }
            place(&mut r, id);
            i += 1;
            proof {
                assert forall|t: TurnId| #[trigger] r@.to_set().contains(t) == found@.take(
                    i as int,
                ).contains(t) by {
                    lemma_taken_one_more(found@, i - 1, t);
                    assert(before.to_set().contains(t) == found@.take(i - 1).contains(t));
                }
            }
        }
        proof {
            assert(found@.take(i as int) =~= found@);
            assert(r@.to_set() =~= found@.to_set());
        }
        r
    }

    /// Takes the slot of a turn away, leaving its entry.
    pub fn take(&mut self, id: TurnId) -> (r: Taken)
        ensures
            match r {
                Taken::Missing => !old(self)@.contains_key(id) && final(self)@ == old(self)@,
                Taken::Away => old(self)@.contains_key(id) && old(self)@[id] is None
                    && final(self)@ == old(self)@,
                Taken::Slot(s) => old(self)@.contains_key(id) && old(self)@[id] == Some(s@)
                    && final(self)@ == old(self)@.insert(id, None),
            },
    {
        match self.slots.remove(&id.0) {
            None => {
                assert(self@ =~= old(self)@);
                Taken::Missing
            },
            Some(slot) => {
                self.slots.insert(id.0, None);
                match slot {
                    None => {
                        assert(self@ =~= old(self)@);
                        Taken::Away
                    },
                    Some(s) => {
                        assert(self@ =~= old(self)@.insert(id, None));
                        Taken::Slot(s)
                    },
                }
            },
        }
    }

    /// Puts a slot in, over the turn's entry where it has one.
    pub fn put(&mut self, id: TurnId, slot: Slot)
        ensures
            final(self)@ == old(self)@.insert(id, Some(slot@)),
    {
        self.slots.insert(id.0, Some(slot));
        assert(self@ =~= old(self)@.insert(id, Some(slot@)));
    }

    /// Removes a turn's entry.
    pub fn remove(&mut self, id: TurnId)
        ensures
            final(self)@ == old(self)@.remove(id),
    {
        self.slots.remove(&id.0);
        assert(self@ =~= old(self)@.remove(id));
    }

    /// Whether every slot that is not away leaves the way free for new work.
    pub fn all_quiet(&self) -> (r: bool)
        ensures
            r == (forall|id: TurnId| #[trigger]
                self@.contains_key(id) && self@[id] is Some ==> self@[id]->0.quiet()),
    {
        for id in it: self.slots.keys()
            invariant
                it.seq().unref().to_set() == self.slots@.dom(),
                forall|k: int|
                    0 <= k < it.index() ==> self.quiet_at(*(#[trigger] it.seq()[k])),
        {
            if let Some(Some(s)) = self.slots.get(id) {
                if !s.quiet() {
                    assert(self@.contains_key(TurnId(*id)));
                    return false;
                }
            }
        }
        true
    }

    spec fn quiet_at(&self, n: u128) -> bool {
        self@.contains_key(TurnId(n)) && self@[TurnId(n)] is Some ==> self@[TurnId(n)]->0.quiet()
    }
}

} // verus!
