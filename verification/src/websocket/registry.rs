//! The session registry: which connection identifier maps to which channel.
//!
//! A registry is modelled as a sequence of entries with pairwise distinct
//! identifiers. The sequence fixes the order in which sessions are visited;
//! the membership map derived from it is what subscribers can observe.

use vstd::prelude::*;

verus! {

/// What the registry holds for one connection, as a mathematical value.
pub struct Entry<C> {
    pub id: Seq<char>,
    pub channel: C,
}

/// One live connection: its identifier and the capability to push frames to it.
#[derive(Debug)]
pub struct Session<C> {
    pub id: String,
    pub channel: C,
}

impl<C> View for Session<C> {
    type V = Entry<C>;

    open spec fn view(&self) -> Entry<C> {
        Entry { id: self.id@, channel: self.channel }
    }
}

/// Some entry carries the identifier `id`.
pub open spec fn holds<C>(entries: Seq<Entry<C>>, id: Seq<char>) -> bool {
    exists|i: int| 0 <= i < entries.len() && (#[trigger] entries[i]).id == id
}

/// The position of the entry that carries `id`, where there is one.
pub open spec fn slot<C>(entries: Seq<Entry<C>>, id: Seq<char>) -> int {
    choose|i: int| 0 <= i < entries.len() && (#[trigger] entries[i]).id == id
}

/// No identifier occurs twice.
pub open spec fn distinct<C>(entries: Seq<Entry<C>>) -> bool {
    forall|i: int, j: int|
        0 <= i < j < entries.len() ==> (#[trigger] entries[i]).id != (#[trigger] entries[j]).id
}

/// The channel registered under `id`, if any.
pub open spec fn lookup<C>(entries: Seq<Entry<C>>, id: Seq<char>) -> Option<C> {
    if holds(entries, id) {
        Some(entries[slot(entries, id)].channel)
    } else {
        None
    }
}

/// The observable membership: identifier to channel.
pub open spec fn members<C>(entries: Seq<Entry<C>>) -> Map<Seq<char>, C> {
    Map::new(|id: Seq<char>| holds(entries, id), |id: Seq<char>| entries[slot(entries, id)].channel)
}

/// The entries after `channel` is registered under `id`: the entry for `id`
/// is replaced where it stands, or a new entry is added at the end.
pub open spec fn registered<C>(entries: Seq<Entry<C>>, id: Seq<char>, channel: C) -> Seq<Entry<C>> {
    if holds(entries, id) {
        entries.update(slot(entries, id), Entry { id, channel })
    } else {
        entries.push(Entry { id, channel })
    }
}

/// The entries after `id` is unregistered: its entry is taken out and the
/// others keep their order; nothing changes where `id` is absent.
pub open spec fn unregistered<C>(entries: Seq<Entry<C>>, id: Seq<char>) -> Seq<Entry<C>> {
    if holds(entries, id) {
        entries.remove(slot(entries, id))
    } else {
        entries
    }
}

/// With distinct identifiers, the entry at position `i` is the one that
/// `slot` finds for its identifier.
pub proof fn lemma_slot_of_entry<C>(entries: Seq<Entry<C>>, i: int)
    requires
        distinct(entries),
        0 <= i < entries.len(),
    ensures
        holds(entries, entries[i].id),
        slot(entries, entries[i].id) == i,
{
    let j = slot(entries, entries[i].id);
    assert(0 <= j < entries.len() && entries[j].id == entries[i].id);
    if j < i {
        assert(entries[j].id != entries[i].id);
    } else if i < j {
        assert(entries[i].id != entries[j].id);
    }
}

/// Registering keeps identifiers distinct and acts on the membership as an
/// insertion: the last writer for an identifier wins.
pub proof fn lemma_registered<C>(entries: Seq<Entry<C>>, id: Seq<char>, channel: C)
    requires
        distinct(entries),
    ensures
        distinct(registered(entries, id, channel)),
        members(registered(entries, id, channel)) == members(entries).insert(id, channel),
        holds(entries, id) ==> registered(entries, id, channel).len() == entries.len(),
        !holds(entries, id) ==> registered(entries, id, channel).len() == entries.len() + 1,
{
    let after = registered(entries, id, channel);
    let at = if holds(entries, id) { slot(entries, id) } else { entries.len() as int };
    assert(0 <= at < after.len() && after[at] == Entry { id, channel });
    assert forall|k: int| 0 <= k < after.len() && k != at implies 0 <= k < entries.len()
        && after[k] == entries[k] && entries[k].id != id by {
        if holds(entries, id) {
            if entries[k].id == id {
                lemma_slot_of_entry(entries, k);
            }
        } else {
            if entries[k].id == id {
                assert(holds(entries, id));
            }
        }
    }
    assert(distinct(after)) by {
        assert forall|i: int, j: int| 0 <= i < j < after.len() implies (#[trigger] after[i]).id != (
        #[trigger] after[j]).id by {
            if i != at && j != at {
                assert(entries[i].id != entries[j].id);
            }
        }
    }
    lemma_slot_of_entry(after, at);
    assert forall|key: Seq<char>| holds(after, key) <==> (key == id || holds(entries, key)) by {
        if holds(after, key) {
            let k = slot(after, key);
            if k != at {
                assert(entries[k].id == key);
            }
        }
        if key != id && holds(entries, key) {
            let k = slot(entries, key);
            assert(after[k].id == key);
        }
    }
    assert forall|key: Seq<char>| key != id && holds(entries, key) implies after[slot(after, key)].channel
        == entries[slot(entries, key)].channel by {
        let k = slot(entries, key);
        assert(after[k] == entries[k]);
        lemma_slot_of_entry(after, k);
    }
    assert(members(after) =~= members(entries).insert(id, channel));
}

/// Unregistering keeps identifiers distinct and acts on the membership as a
/// removal; an absent identifier leaves everything as it was.
pub proof fn lemma_unregistered<C>(entries: Seq<Entry<C>>, id: Seq<char>)
    requires
        distinct(entries),
    ensures
        distinct(unregistered(entries, id)),
        members(unregistered(entries, id)) == members(entries).remove(id),
        !holds(unregistered(entries, id), id),
        holds(entries, id) ==> unregistered(entries, id).len() == entries.len() - 1,
        !holds(entries, id) ==> unregistered(entries, id) == entries,
{
    let after = unregistered(entries, id);
    if holds(entries, id) {
        let at = slot(entries, id);
        assert forall|k: int| 0 <= k < after.len() implies (#[trigger] after[k]) == entries[if k < at {
            k
        } else {
            k + 1
        }] && after[k].id != id by {
            let from = if k < at { k } else { k + 1 };
            if entries[from].id == id {
                lemma_slot_of_entry(entries, from);
            }
        }
        assert(distinct(after)) by {
            assert forall|i: int, j: int| 0 <= i < j < after.len() implies (#[trigger] after[i]).id != (
            #[trigger] after[j]).id by {
                let fi = if i < at { i } else { i + 1 };
                let fj = if j < at { j } else { j + 1 };
                assert(entries[fi].id != entries[fj].id);
            }
        }
        assert forall|key: Seq<char>| holds(after, key) <==> (key != id && holds(entries, key)) by {
            if holds(after, key) {
                let k = slot(after, key);
                let from = if k < at { k } else { k + 1 };
                assert(entries[from].id == key);
            }
            if key != id && holds(entries, key) {
                let from = slot(entries, key);
                let k = if from < at { from } else { from - 1 };
                assert(after[k].id == key);
            }
        }
        assert forall|key: Seq<char>| key != id && holds(entries, key) implies after[slot(after, key)].channel
            == entries[slot(entries, key)].channel by {
            let from = slot(entries, key);
            let k = if from < at { from } else { from - 1 };
            assert(after[k] == entries[from]);
            lemma_slot_of_entry(after, k);
        }
        assert(members(after) =~= members(entries).remove(id));
    } else {
        assert(members(after) =~= members(entries).remove(id));
    }
}

/// The set of live sessions, keyed by connection identifier.
pub struct Registry<C> {
    sessions: Vec<Session<C>>,
}

impl<C> View for Registry<C> {
    type V = Seq<Entry<C>>;

    /// The entries in the order in which they are visited.
    open spec fn view(&self) -> Seq<Entry<C>> {
        self.sessions().map_values(|s: Session<C>| s@)
    }
}

impl<C> Registry<C> {
    /// The sessions as they are stored, in visiting order.
    pub closed spec fn sessions(&self) -> Seq<Session<C>> {
        self.sessions@
    }

    /// At most one session per identifier.
    pub open spec fn wf(&self) -> bool {
        distinct(self@)
    }

    /// The observable membership of the registry.
    pub open spec fn members(&self) -> Map<Seq<char>, C> {
        members(self@)
    }

    /// An empty registry.
    pub fn new() -> (registry: Self)
        ensures
            registry.wf(),
            registry@ == Seq::<Entry<C>>::empty(),
            registry.members() == Map::<Seq<char>, C>::empty(),
    {
        let registry = Registry { sessions: Vec::new() };
        assert(registry@ =~= Seq::<Entry<C>>::empty());
        assert(registry.members() =~= Map::<Seq<char>, C>::empty());
        registry
    }

    /// The position of the session registered under `id`.
    fn find(&self, id: &String) -> (found: Option<usize>)
        requires
            self.wf(),
        ensures
            match found {
                Some(i) => holds(self@, id@) && i as int == slot(self@, id@) && i < self@.len(),
                None => !holds(self@, id@),
            },
    {
        let mut i: usize = 0;
        while i < self.sessions.len()
            invariant
                self.wf(),
                i <= self.sessions@.len(),
                forall|k: int| 0 <= k < i ==> (#[trigger] self@[k]).id != id@,
            decreases self.sessions@.len() - i,
        {
            if self.sessions[i].id == *id {
                proof {
                    assert(self@[i as int].id == id@);
                    lemma_slot_of_entry(self@, i as int);
                }
                return Some(i);
            }
            i += 1;
        }
        None
    }

    /// The number of registered sessions.
    pub fn len(&self) -> (n: usize)
        ensures
            n == self@.len(),
    {
        self.sessions.len()
    }

    /// Whether a session is registered under `id`.
    pub fn contains(&self, id: &String) -> (found: bool)
        requires
            self.wf(),
        ensures
            found == holds(self@, id@),
            found == self.members().contains_key(id@),
    {
        self.find(id).is_some()
    }

    /// The channel registered under `id`, if any.
    pub fn get(&self, id: &String) -> (channel: Option<&C>)
        requires
            self.wf(),
        ensures
            match channel {
                Some(found) => lookup(self@, id@) == Some(*found),
                None => lookup(self@, id@) is None,
            },
    {
        match self.find(id) {
            Some(i) => Some(&self.sessions[i].channel),
            None => None,
        }
    }

    /// Registers `channel` under `id`. A session already registered under
    /// `id` is replaced and its channel discarded.
    pub fn register(&mut self, id: String, channel: C)
        requires
            old(self).wf(),
        ensures
            final(self).wf(),
            final(self)@ == registered(old(self)@, id@, channel),
            final(self).members() == old(self).members().insert(id@, channel),
    {
        proof {
            lemma_registered(self@, id@, channel);
        }
        match self.find(&id) {
            Some(i) => {
                self.sessions[i] = Session { id, channel };
            },
            None => {
                self.sessions.push(Session { id, channel });
            },
        }
        assert(self@ =~= registered(old(self)@, id@, channel));
    }

    /// Calls `f` once for every registered session, in visiting order, and
    /// collects what it returned. An empty registry gives an empty result.
    pub fn for_each<R, F: Fn(&Session<C>) -> R>(&self, f: F) -> (results: Vec<R>)
        requires
            forall|i: int|
                0 <= i < self.sessions().len() ==> call_requires(f, (&#[trigger] self.sessions()[i],)),
        ensures
            results@.len() == self.sessions().len(),
            forall|i: int|
                0 <= i < self.sessions().len() ==> call_ensures(
                    f,
                    (&self.sessions()[i],),
                    #[trigger] results@[i],
                ),
    {
        let mut results: Vec<R> = Vec::new();
        let mut i: usize = 0;
        while i < self.sessions.len()
            invariant
                i <= self.sessions@.len(),
                results@.len() == i,
                forall|k: int|
                    0 <= k < self.sessions().len() ==> call_requires(
                        f,
                        (&#[trigger] self.sessions()[k],),
                    ),
                forall|k: int|
                    0 <= k < i ==> call_ensures(f, (&self.sessions()[k],), #[trigger] results@[k]),
            decreases self.sessions@.len() - i,
        {
            assert(self.sessions@[i as int] == self.sessions()[i as int]);
            let result = f(&self.sessions[i]);
            results.push(result);
            i += 1;
        }
        results
    }

    /// Removes the session registered under `id`, if there is one.
    pub fn unregister(&mut self, id: &String)
        requires
            old(self).wf(),
        ensures
            final(self).wf(),
            final(self)@ == unregistered(old(self)@, id@),
            final(self).members() == old(self).members().remove(id@),
    {
        proof {
            lemma_unregistered(self@, id@);
        }
        match self.find(id) {
            Some(i) => {
                self.sessions.remove(i);
            },
            None => {},
        }
        assert(self@ =~= unregistered(old(self)@, id@));
    }
}

} // verus!
