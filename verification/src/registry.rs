//! The client's collections of handles: a set of handles, and a table from
//! session handles to session states, both kept in std's hash collections.

use vstd::prelude::*;
use std::collections::{HashMap, HashSet};
use vstd::std_specs::iter::IteratorSpec;
use crate::options::SessionState;

verus! {

broadcast use vstd::std_specs::hash::group_hash_axioms;

/// A set of handles.
pub struct HandleSet {
    items: HashSet<u64>,
}

impl View for HandleSet {
    type V = Set<u64>;

    closed spec fn view(&self) -> Set<u64> {
        self.items@
    }
}

impl HandleSet {
    /// The set is finite.
    pub closed spec fn wf(&self) -> bool {
        self.items@.finite()
    }

    /// The empty set.
    pub fn new() -> (s: HandleSet)
        ensures
            s.wf(),
            s@ == Set::<u64>::empty(),
    {
        HandleSet { items: HashSet::new() }
    }

    /// Whether `h` is in the set.
    pub fn contains(&self, h: u64) -> (b: bool)
        ensures
            b == self@.contains(h),
    {
        self.items.contains(&h)
    }

    /// Adds `h`.
    pub fn insert(&mut self, h: u64)
        requires
            old(self).wf(),
        ensures
            final(self).wf(),
            final(self)@ == old(self)@.insert(h),
    {
        self.items.insert(h);
    }

    /// Removes `h`, and tells whether it was there.
    pub fn remove(&mut self, h: u64) -> (was: bool)
        requires
            old(self).wf(),
        ensures
            final(self).wf(),
            final(self)@ == old(self)@.remove(h),
            was == old(self)@.contains(h),
    {
        self.items.remove(&h)
    }

    /// The set is finite, with no more handles than a `usize` counts.
    pub proof fn lemma_bounded(&self)
        requires
            self.wf(),
        ensures
            self@.finite(),
            self@.len() <= usize::MAX,
    {
        assert(self.items.len() == self.items@.len());
    }

    /// How many handles the set holds.
    pub fn len(&self) -> (n: usize)
        requires
            self.wf(),
        ensures
            n == self@.len(),
    {
        self.items.len()
    }

    /// The handles, each once, in some order.
    pub fn to_vec(&self) -> (v: Vec<u64>)
        requires
            self.wf(),
        ensures
            v@.no_duplicates(),
            v@.to_set() == self@,
    {
        let mut v: Vec<u64> = Vec::new();
        let ghost keys = IteratorSpec::remaining(&self.items.iter());
        for h in it: self.items.iter()
            invariant
                it.seq() == keys,
                keys.unref().to_set() == self.items@,
                keys.no_duplicates(),
                v@.len() == it.index(),
                forall|i: int| 0 <= i < it.index() ==> v@[i] == *keys[i],
        {
            v.push(*h);
        }
        assert(v@ =~= keys.unref());
        v
    }
}

/// The handles whose state is draining.
pub open spec fn draining_handles(m: Map<u64, SessionState>) -> Set<u64> {
    m.dom().filter(|h: u64| m[h] == SessionState::Draining)
}

/// A table from session handles to session states, with the number of
/// draining sessions kept alongside.
pub struct StateTable {
    states: HashMap<u64, SessionState>,
    draining: u64,
}

impl View for StateTable {
    type V = Map<u64, SessionState>;

    closed spec fn view(&self) -> Map<u64, SessionState> {
        self.states@
    }
}

impl StateTable {
    /// The draining count is the number of draining sessions.
    pub closed spec fn wf(&self) -> bool {
        &&& draining_handles(self.states@).finite()
        &&& self.draining == draining_handles(self.states@).len()
    }

    /// The empty table.
    pub fn new() -> (t: StateTable)
        ensures
            t.wf(),
            t@ == Map::<u64, SessionState>::empty(),
    {
        let t = StateTable { states: HashMap::new(), draining: 0 };
        assert(draining_handles(t.states@) =~= Set::<u64>::empty());
        t
    }

    /// The state of `h`, if the table has it.
    pub fn get(&self, h: u64) -> (r: Option<SessionState>)
        ensures
            r == (if self@.contains_key(h) {
                Some(self@[h])
            } else {
                None::<SessionState>
            }),
    {
        match self.states.get(&h) {
            Some(s) => Some(*s),
            None => None,
        }
    }

    /// Sets the state of `h`.
    pub fn insert(&mut self, h: u64, state: SessionState)
        requires
            old(self).wf(),
        ensures
            final(self).wf(),
            final(self)@ == old(self)@.insert(h, state),
    {
        let was_draining = self.get(h) == Some(SessionState::Draining);
        let ghost before = self.states@;
        self.states.insert(h, state);
        proof {
            let d0 = draining_handles(before);
            let d1 = draining_handles(self.states@);
            assert(was_draining == d0.contains(h));
            if state == SessionState::Draining {
                assert(d1 =~= d0.insert(h));
                assert(d0.subset_of(before.dom()));
                vstd::set_lib::lemma_len_subset(d1, self.states@.dom());
                assert(self.states.len() == self.states@.len());
            } else {
                assert(d1 =~= d0.remove(h));
            }
        }
        if state == SessionState::Draining {
            if !was_draining {
                self.draining = self.draining + 1;
            }
        } else if was_draining {
            self.draining = self.draining - 1;
        }
    }

    /// Removes `h`, if the table has it.
    pub fn remove(&mut self, h: u64)
        requires
            old(self).wf(),
        ensures
            final(self).wf(),
            final(self)@ == old(self)@.remove(h),
    {
        let was_draining = self.get(h) == Some(SessionState::Draining);
        let ghost before = self.states@;
        self.states.remove(&h);
        proof {
            assert(draining_handles(self.states@) =~= draining_handles(before).remove(h));
        }
        if was_draining {
            self.draining = self.draining - 1;
        }
    }

    /// How many sessions are draining.
    pub fn count_draining(&self) -> (n: u64)
        requires
            self.wf(),
        ensures
            draining_handles(self@).finite(),
            n == draining_handles(self@).len(),
    {
        self.draining
    }
}

/// The streams owned by `session`.
pub open spec fn owned_by(owners: Map<u64, u64>, session: u64) -> Set<u64> {
    owners.dom().filter(|stream: u64| owners[stream] == session)
}

/// A table from stream handles to the session that each stream belongs to.
pub struct StreamOwners {
    owners: HashMap<u64, u64>,
}

impl View for StreamOwners {
    type V = Map<u64, u64>;

    closed spec fn view(&self) -> Map<u64, u64> {
        self.owners@
    }
}

impl StreamOwners {
    /// The empty table.
    pub fn new() -> (t: StreamOwners)
        ensures
            t@ == Map::<u64, u64>::empty(),
    {
        StreamOwners { owners: HashMap::new() }
    }

    /// The session that `stream` belongs to, if the table has it.
    pub fn get(&self, stream: u64) -> (r: Option<u64>)
        ensures
            r == (if self@.contains_key(stream) {
                Some(self@[stream])
            } else {
                None::<u64>
            }),
    {
        match self.owners.get(&stream) {
            Some(s) => Some(*s),
            None => None,
        }
    }

    /// Records that `stream` belongs to `session`.
    pub fn insert(&mut self, stream: u64, session: u64)
        ensures
            final(self)@ == old(self)@.insert(stream, session),
    {
        self.owners.insert(stream, session);
    }

    /// Forgets `stream`.
    pub fn remove(&mut self, stream: u64)
        ensures
            final(self)@ == old(self)@.remove(stream),
    {
        self.owners.remove(&stream);
    }

    /// The streams that belong to `session`, in some order.
    pub fn owned_by(&self, session: u64) -> (v: Vec<u64>)
        ensures
            v@.to_set() == owned_by(self@, session),
    {
        let mut v: Vec<u64> = Vec::new();
        let ghost pairs = IteratorSpec::remaining(&self.owners.iter());
        let ghost m = self.owners@;
        for pair in it: self.owners.iter()
            invariant
                it.seq() == pairs,
                m == self.owners@,
                pairs.len() == m.dom().len(),
                forall|j: int| 0 <= j < pairs.len() ==> m.contains_key(*(#[trigger] pairs[j]).0) && m[*pairs[j].0] == *pairs[j].1,
                forall|k: u64| #[trigger] m.contains_key(k) ==> pairs.contains((&k, &m[k])),
                forall|x: u64|
                    v@.contains(x) <==> exists|j: int|
                        0 <= j < it.index() && *(#[trigger] pairs[j]).0 == x && *pairs[j].1 == session,
        {
            let (stream, owner) = pair;
            let ghost before = v@;
            if *owner == session {
                v.push(*stream);
            }
            proof {
                let i = it.index();
                assert(pair == pairs[i]);
                assert forall|x: u64|
                    v@.contains(x) <==> exists|j: int|
                        0 <= j < i + 1 && *(#[trigger] pairs[j]).0 == x && *pairs[j].1 == session by {
                    if before.contains(x) {
                        let j = choose|j: int| 0 <= j < i && *(#[trigger] pairs[j]).0 == x && *pairs[j].1 == session;
                        assert(0 <= j < i + 1 && *pairs[j].0 == x && *pairs[j].1 == session);
                        assert(v@.contains(x)) by {
                            let k = choose|k: int| 0 <= k < before.len() && before[k] == x;
                            assert(v@[k] == x);
                        }
                    }
                    if v@.contains(x) && !before.contains(x) {
                        assert(*owner == session);
                        assert(v@ == before.push(*stream));
                        let k = choose|k: int| 0 <= k < v@.len() && v@[k] == x;
                        assert(x == *stream);
                        assert(*pairs[i].0 == x && *pairs[i].1 == session);
                    }
                    if exists|j: int| 0 <= j < i + 1 && *(#[trigger] pairs[j]).0 == x && *pairs[j].1 == session {
                        let j = choose|j: int| 0 <= j < i + 1 && *(#[trigger] pairs[j]).0 == x && *pairs[j].1 == session;
                        if j == i {
                            assert(v@ == before.push(*stream));
                            assert(v@[before.len() as int] == x);
                        } else {
                            assert(before.contains(x));
                        }
                    }
                }
            }
        }
        proof {
            assert forall|x: u64| v@.to_set().contains(x) <==> owned_by(m, session).contains(x) by {
                if owned_by(m, session).contains(x) {
                    assert(pairs.contains((&x, &m[x])));
                    let j = choose|j: int| 0 <= j < pairs.len() && pairs[j] == (&x, &m[x]);
                    assert(*pairs[j].0 == x);
                }
            }
            assert(v@.to_set() =~= owned_by(m, session));
        }
        v
    }
}

} // verus!
