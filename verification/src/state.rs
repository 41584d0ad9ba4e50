//! The typed state store: at most one value for each type key.

use crate::assoc::{
    distinct_keys, entries_map, has_key, lemma_entry_at, lemma_no_entries, lemma_push_entry,
    lemma_update_entry, position_of,
};
use crate::wrap::State;
use vstd::prelude::*;

verus! {

/// The stable identifier of an application-defined type.
#[derive(Clone, Copy, Debug, PartialEq, Eq, Structural, Hash)]
pub struct TypeKey(pub u64);

/// Holds at most one value for each type key.
///
/// Seeding a key that already has a value replaces the value: the last write
/// wins.
pub struct TypedStateStore<V> {
    entries: Vec<(TypeKey, V)>,
}

/// What a store holds after the values of `seeds` were put into `start`,
/// one after the other.
pub open spec fn seeded<V>(start: Map<TypeKey, V>, seeds: Seq<(TypeKey, V)>) -> Map<TypeKey, V>
    decreases seeds.len(),
{
    if seeds.len() == 0 {
        start
    } else {
        seeded(start, seeds.drop_last()).insert(seeds.last().0, seeds.last().1)
    }
}

/// Whether the seed at `i` is the last one of `seeds` with its key.
pub open spec fn is_last_seed<V>(seeds: Seq<(TypeKey, V)>, i: int) -> bool {
    &&& 0 <= i < seeds.len()
    &&& forall|j: int| i < j < seeds.len() ==> (#[trigger] seeds[j]).0 != seeds[i].0
}

/// A store that was empty holds a value for exactly the keys that were
/// seeded, and for each of them the value that was seeded last.
pub proof fn lemma_seeded<V>(seeds: Seq<(TypeKey, V)>)
    ensures
        forall|key: TypeKey|
            seeded(Map::<TypeKey, V>::empty(), seeds).contains_key(key) <==> has_key(seeds, key),
        forall|i: int| #[trigger]
            is_last_seed(seeds, i) ==> seeded(Map::<TypeKey, V>::empty(), seeds)[seeds[i].0]
                == seeds[i].1,
    decreases seeds.len(),
{
    let start = Map::<TypeKey, V>::empty();
    if seeds.len() == 0 {
    } else {
        let earlier = seeds.drop_last();
        let n = earlier.len() as int;
        lemma_seeded(earlier);
        assert forall|key: TypeKey| seeded(start, seeds).contains_key(key) <==> has_key(
            seeds,
            key,
        ) by {
            if has_key(earlier, key) {
                let i = position_of(earlier, key);
                assert(seeds[i].0 == key);
            }
            if has_key(seeds, key) && key != seeds[n].0 {
                let i = position_of(seeds, key);
                assert(earlier[i].0 == key);
            }
            if key == seeds[n].0 {
                assert(seeds[n].0 == key);
            }
        }
        assert forall|i: int| #[trigger] is_last_seed(seeds, i) implies seeded(
            start,
            seeds,
        )[seeds[i].0] == seeds[i].1 by {
            if i < n {
                assert(seeds[n].0 != seeds[i].0);
                assert(is_last_seed(earlier, i)) by {
                    assert forall|j: int| i < j < earlier.len() implies (#[trigger] earlier[j]).0
                        != earlier[i].0 by {
                        assert(seeds[j].0 != seeds[i].0);
                    }
                }
            }
        }
    }
}

impl<V> View for TypedStateStore<V> {
    type V = Map<TypeKey, V>;

    /// The value that the store holds for each seeded key.
    closed spec fn view(&self) -> Map<TypeKey, V> {
        entries_map(self.entries@)
    }
}

impl<V> TypedStateStore<V> {
    #[verifier::type_invariant]
    spec fn well_formed(self) -> bool {
        distinct_keys(self.entries@)
    }

    /// An empty store.
    pub fn new() -> (r: Self)
        ensures
            r@ == Map::<TypeKey, V>::empty(),
    {
        proof {
            lemma_no_entries::<TypeKey, V>();
        }
        TypedStateStore { entries: Vec::new() }
    }

    /// The position of the entry for `key`, if there is one.
    fn find(&self, key: TypeKey) -> (r: Option<usize>)
        ensures
            match r {
                Some(i) => i < self.entries@.len() && self.entries@[i as int].0 == key,
                None => !has_key(self.entries@, key),
            },
    {
        let mut i: usize = 0;
        while i < self.entries.len()
            invariant
                i <= self.entries@.len(),
                forall|j: int| 0 <= j < i ==> (#[trigger] self.entries@[j]).0 != key,
            decreases self.entries@.len() - i,
        {
            if self.entries[i].0 == key {
                return Some(i);
            }
            i += 1;
        }
        None
    }

    /// Whether a value was seeded for `key`.
    pub fn contains(&self, key: TypeKey) -> (r: bool)
        ensures
            r == self@.contains_key(key),
    {
        self.find(key).is_some()
    }

    /// Puts `value` under `key`, in place of any value that the key had.
    pub fn seed(&mut self, key: TypeKey, value: V)
        ensures
            final(self)@ == old(self)@.insert(key, value),
    {
        proof {
            use_type_invariant(&*self);
        }
        let found = self.find(key);
        let mut entries: Vec<(TypeKey, V)> = Vec::new();
        std::mem::swap(&mut entries, &mut self.entries);
        match found {
            Some(i) => {
                proof {
                    lemma_update_entry(entries@, i as int, value);
                }
                entries.set(i, (key, value));
            },
            None => {
                proof {
                    lemma_push_entry(entries@, key, value);
                }
                entries.push((key, value));
            },
        }
        self.entries = entries;
    }

    /// The value seeded for `key`, if there is one.
    pub fn get(&self, key: TypeKey) -> (r: Option<&V>)
        ensures
            match r {
                Some(v) => self@.contains_key(key) && *v == self@[key],
                None => !self@.contains_key(key),
            },
    {
        proof {
            use_type_invariant(self);
        }
        match self.find(key) {
            Some(i) => {
                proof {
                    lemma_entry_at(self.entries@, i as int);
                }
                Some(&self.entries[i].1)
            },
            None => None,
        }
    }
}

impl<V: Clone + Send + Sync> TypedStateStore<V> {
    /// A snapshot of the value seeded for `key`, if there is one.
    pub fn snapshot(&self, key: TypeKey) -> (r: Option<State<V>>)
        ensures
            match r {
                Some(s) => self@.contains_key(key) && cloned(self@[key], s@),
                None => !self@.contains_key(key),
            },
    {
        match self.get(key) {
            Some(v) => Some(State::new(v.clone())),
            None => None,
        }
    }
}

} // verus!
