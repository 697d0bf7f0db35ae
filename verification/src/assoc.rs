//! A small map kept as a list of entries, each key once, compared by view.

use vstd::prelude::*;
use crate::principal::Principal;

verus! {

/// Keys that can be compared for equality of their views.
pub trait KeyView: View + Sized {
    /// Whether the two keys have the same view.
    fn same_key(&self, other: &Self) -> (r: bool)
        ensures
            r == (self@ == other@),
    ;
}

impl KeyView for String {
    fn same_key(&self, other: &Self) -> (r: bool) {
        *self == *other
    }
}

impl KeyView for Principal {
    fn same_key(&self, other: &Self) -> (r: bool) {
        self.same_as(other)
    }
}

/// No key view occurs twice among `entries`.
pub open spec fn keys_distinct<K: View, V>(entries: Seq<(K, V)>) -> bool {
    forall|i: int, j: int|
        0 <= i < entries.len() && 0 <= j < entries.len() && i != j ==> entries[i].0@
            != entries[j].0@
}

/// The map that a list of entries stands for (a later entry wins).
pub open spec fn entries_map<K: View, V>(entries: Seq<(K, V)>) -> Map<K::V, V>
    decreases entries.len(),
{
    if entries.len() == 0 {
        Map::empty()
    } else {
        entries_map(entries.drop_last()).insert(entries.last().0@, entries.last().1)
    }
}

/// With distinct keys, a key is in the map exactly when some entry has it, and
/// the map gives that entry's value.
pub proof fn lemma_entries_map_contains<K: View, V>(entries: Seq<(K, V)>, key: K::V)
    requires
        keys_distinct(entries),
    ensures
        entries_map(entries).contains_key(key) <==> exists|i: int|
            0 <= i < entries.len() && #[trigger] entries[i].0@ == key,
        forall|i: int|
            0 <= i < entries.len() && #[trigger] entries[i].0@ == key ==> entries_map(entries)[key]
                == entries[i].1,
    decreases entries.len(),
{
    if entries.len() > 0 {
        let init = entries.drop_last();
        assert(keys_distinct(init));
        lemma_entries_map_contains(init, key);
        if entries_map(entries).contains_key(key) && entries.last().0@ != key {
            let i = choose|i: int| 0 <= i < init.len() && #[trigger] init[i].0@ == key;
            assert(entries[i].0@ == key);
        }
        if exists|i: int| 0 <= i < entries.len() && #[trigger] entries[i].0@ == key {
            let i = choose|i: int| 0 <= i < entries.len() && #[trigger] entries[i].0@ == key;
            if i < init.len() {
                assert(entries[i] == init[i]);
            }
        }
        assert forall|i: int|
            0 <= i < entries.len() && #[trigger] entries[i].0@ == key implies entries_map(
            entries,
        )[key] == entries[i].1 by {
            if i < entries.len() - 1 {
                assert(init[i] == entries[i]);
            }
        }
    }
}

/// Two lists of distinct entries with the same keys and values stand for the same map.
proof fn lemma_entries_map_ext<K: View, V>(a: Seq<(K, V)>, b: Seq<(K, V)>, m: Map<K::V, V>)
    requires
        keys_distinct(a),
        keys_distinct(b),
        forall|k: K::V|
            #![trigger m.contains_key(k)]
            m.contains_key(k) <==> exists|i: int| 0 <= i < b.len() && #[trigger] b[i].0@ == k,
        forall|i: int| 0 <= i < b.len() ==> m[#[trigger] b[i].0@] == b[i].1,
    ensures
        entries_map(b) == m,
{
    assert forall|k: K::V| #![auto] entries_map(b).contains_key(k) == m.contains_key(k) by {
        lemma_entries_map_contains(b, k);
    }
    assert forall|k: K::V| #![auto] entries_map(b).contains_key(k) implies entries_map(b)[k]
        == m[k] by {
        lemma_entries_map_contains(b, k);
        let i = choose|i: int| 0 <= i < b.len() && #[trigger] b[i].0@ == k;
    }
    assert(entries_map(b) =~= m);
}

/// A map kept as a list of entries in which no key occurs twice.
#[derive(Debug)]
pub struct AssocMap<K: KeyView, V> {
    entries: Vec<(K, V)>,
}

/// The position of `key` among `entries`.
fn position_of<K: KeyView, V>(entries: &Vec<(K, V)>, key: &K) -> (r: Option<usize>)
    ensures
        r matches Some(i) ==> i < entries@.len() && entries@[i as int].0@ == key@,
        r is None ==> forall|i: int| 0 <= i < entries@.len() ==> #[trigger] entries@[i].0@ != key@,
{
    let mut i: usize = 0;
    while i < entries.len()
        invariant
            i <= entries@.len(),
            forall|k: int| 0 <= k < i ==> #[trigger] entries@[k].0@ != key@,
        decreases entries@.len() - i,
    {
        if entries[i].0.same_key(key) {
            return Some(i);
        }
        i = i + 1;
    }
    None
}

impl<K: KeyView, V> View for AssocMap<K, V> {
    type V = Map<K::V, V>;

    closed spec fn view(&self) -> Map<K::V, V> {
        entries_map(self.entries@)
    }
}

impl<K: KeyView, V> AssocMap<K, V> {
    #[verifier::type_invariant]
    spec fn distinct(&self) -> bool {
        keys_distinct(self.entries@)
    }

    /// The empty map.
    pub fn new() -> (r: AssocMap<K, V>)
        ensures
            r@ == Map::<K::V, V>::empty(),
    {
        AssocMap { entries: Vec::new() }
    }

    /// The value stored under `key`, if any.
    pub fn get(&self, key: &K) -> (r: Option<&V>)
        ensures
            r is Some <==> self@.contains_key(key@),
            r matches Some(v) ==> *v == self@[key@],
    {
        proof {
            use_type_invariant(self);
            lemma_entries_map_contains(self.entries@, key@);
        }
        match position_of(&self.entries, key) {
            Some(i) => Some(&self.entries[i].1),
            None => None,
        }
    }

    /// The entries of the map, each key once.
    pub fn entries(&self) -> (r: &[(K, V)])
        ensures
            keys_distinct(r@),
            forall|k: K::V|
                #![trigger self@.contains_key(k)]
                self@.contains_key(k) <==> exists|i: int| 0 <= i < r@.len() && #[trigger] r@[i].0@ == k,
            forall|i: int| 0 <= i < r@.len() ==> #[trigger] self@[r@[i].0@] == r@[i].1,
    {
        proof {
            use_type_invariant(self);
            assert forall|k: K::V| #![trigger self@.contains_key(k)]
                self@.contains_key(k) <==> exists|i: int|
                    0 <= i < self.entries@.len() && #[trigger] self.entries@[i].0@ == k by {
                lemma_entries_map_contains(self.entries@, k);
            }
            assert forall|i: int| 0 <= i < self.entries@.len() implies #[trigger] self@[self.entries@[i].0@]
                == self.entries@[i].1 by {
                lemma_entries_map_contains(self.entries@, self.entries@[i].0@);
            }
        }
        self.entries.as_slice()
    }

    /// Stores `value` under `key`, replacing what was stored there.
    pub fn insert(&mut self, key: K, value: V)
        ensures
            final(self)@ == old(self)@.insert(key@, value),
    {
        proof {
            use_type_invariant(&*self);
        }
        let ghost old_entries = self.entries@;
        let ghost key_view = key@;
        let mut entries: Vec<(K, V)> = Vec::new();
        std::mem::swap(&mut entries, &mut self.entries);
        let found = position_of(&entries, &key);
        match found {
            Some(j) => {
                entries.set(j, (key, value));
                proof {
                    lemma_replace_entry(old_entries, j as int, entries@[j as int]);
                }
            },
            None => {
                entries.push((key, value));
                proof {
                    assert(entries@.drop_last() =~= old_entries);
                }
            },
        }
        self.entries = entries;
    }

    /// Takes the entry of `key` out of the map, giving back its value.
    pub fn remove(&mut self, key: &K) -> (r: Option<V>)
        ensures
            r is Some <==> old(self)@.contains_key(key@),
            r matches Some(v) ==> v == old(self)@[key@],
            final(self)@ == old(self)@.remove(key@),
    {
        proof {
            use_type_invariant(&*self);
            lemma_entries_map_contains(self.entries@, key@);
        }
        let ghost old_entries = self.entries@;
        let ghost old_map = self@;
        let mut entries: Vec<(K, V)> = Vec::new();
        std::mem::swap(&mut entries, &mut self.entries);
        match position_of(&entries, key) {
            Some(j) => {
                let (_, v) = entries.remove(j);
                proof {
                    let new_entries = entries@;
                    assert(new_entries =~= old_entries.remove(j as int));
                    assert(keys_distinct(new_entries));
                    assert forall|k: K::V|
                        #![trigger old_map.remove(key@).contains_key(k)]
                        old_map.remove(key@).contains_key(k) <==> exists|i: int|
                            0 <= i < new_entries.len() && #[trigger] new_entries[i].0@ == k by {
                        lemma_entries_map_contains(old_entries, k);
                        if old_map.remove(key@).contains_key(k) {
                            let i = choose|i: int|
                                0 <= i < old_entries.len() && #[trigger] old_entries[i].0@ == k;
                            if i < j {
                                assert(new_entries[i].0@ == k);
                            } else {
                                assert(new_entries[i - 1].0@ == k);
                            }
                        }
                        if exists|i: int| 0 <= i < new_entries.len() && #[trigger] new_entries[i].0@ == k {
                            let i = choose|i: int|
                                0 <= i < new_entries.len() && #[trigger] new_entries[i].0@ == k;
                            if i < j {
                                assert(old_entries[i].0@ == k);
                            } else {
                                assert(old_entries[i + 1].0@ == k);
                            }
                        }
                    }
                    assert forall|i: int| 0 <= i < new_entries.len() implies old_map.remove(key@)[
                        #[trigger] new_entries[i].0@] == new_entries[i].1 by {
                        if i < j {
                            lemma_entries_map_contains(old_entries, old_entries[i].0@);
                        } else {
                            lemma_entries_map_contains(old_entries, old_entries[i + 1].0@);
                        }
                    }
                    lemma_entries_map_ext(old_entries, new_entries, old_map.remove(key@));
                }
                self.entries = entries;
                Some(v)
            },
            None => {
                proof {
                    assert(old_map.remove(key@) =~= old_map);
                }
                self.entries = entries;
                None
            },
        }
    }
}

proof fn lemma_replace_entry<K: View, V>(entries: Seq<(K, V)>, j: int, entry: (K, V))
    requires
        keys_distinct(entries),
        0 <= j < entries.len(),
        entries[j].0@ == entry.0@,
    ensures
        keys_distinct(entries.update(j, entry)),
        entries_map(entries.update(j, entry)) == entries_map(entries).insert(entry.0@, entry.1),
{
    let updated = entries.update(j, entry);
    let m = entries_map(entries).insert(entry.0@, entry.1);
    assert(keys_distinct(updated));
    assert forall|k: K::V|
        #![trigger m.contains_key(k)]
        m.contains_key(k) <==> exists|i: int| 0 <= i < updated.len() && #[trigger] updated[i].0@ == k by {
        lemma_entries_map_contains(entries, k);
        if k != entry.0@ && m.contains_key(k) {
            let i = choose|i: int| 0 <= i < entries.len() && #[trigger] entries[i].0@ == k;
            assert(updated[i].0@ == k);
        }
        if k == entry.0@ {
            assert(updated[j].0@ == k);
        }
        if exists|i: int| 0 <= i < updated.len() && #[trigger] updated[i].0@ == k {
            let i = choose|i: int| 0 <= i < updated.len() && #[trigger] updated[i].0@ == k;
            if i != j {
                assert(entries[i].0@ == k);
            }
        }
    }
    assert forall|i: int| 0 <= i < updated.len() implies m[#[trigger] updated[i].0@] == updated[i].1 by {
        if i != j {
            lemma_entries_map_contains(entries, entries[i].0@);
        }
    }
    lemma_entries_map_ext(entries, updated, m);
}

} // verus!

verus! {

/// A set of principals.
#[derive(Debug)]
pub struct PrincipalSet {
    members: AssocMap<Principal, ()>,
}

impl View for PrincipalSet {
    type V = Set<Seq<u8>>;

    closed spec fn view(&self) -> Set<Seq<u8>> {
        self.members@.dom()
    }
}

impl PrincipalSet {
    /// The empty set.
    pub fn new() -> (r: PrincipalSet)
        ensures
            r@ == Set::<Seq<u8>>::empty(),
    {
        let r = PrincipalSet { members: AssocMap::new() };
        assert(r@ =~= Set::<Seq<u8>>::empty());
        r
    }

    /// Whether `p` is in the set.
    pub fn contains(&self, p: &Principal) -> (r: bool)
        ensures
            r == self@.contains(p@),
    {
        self.members.get(p).is_some()
    }

    /// Adds `p` to the set.
    pub fn insert(&mut self, p: Principal)
        ensures
            final(self)@ == old(self)@.insert(p@),
    {
        self.members.insert(p, ());
        assert(self@ =~= old(self)@.insert(p@));
    }

    /// Takes `p` out of the set.
    pub fn remove(&mut self, p: &Principal)
        ensures
            final(self)@ == old(self)@.remove(p@),
    {
        let _ = self.members.remove(p);
        assert(self@ =~= old(self)@.remove(p@));
    }

    /// The members of the set, each once.
    pub fn members(&self) -> (r: Vec<&Principal>)
        ensures
            forall|i: int, j: int| 0 <= i < r@.len() && 0 <= j < r@.len() && i != j ==> r@[i]@ != r@[j]@,
            forall|x: Seq<u8>| #![trigger self@.contains(x)]
                self@.contains(x) <==> exists|i: int| 0 <= i < r@.len() && #[trigger] r@[i]@ == x,
    {
        let entries = self.members.entries();
        let mut r: Vec<&Principal> = Vec::new();
        let mut i: usize = 0;
        while i < entries.len()
            invariant
                i <= entries@.len(),
                r@.len() == i,
                forall|k: int| 0 <= k < i ==> #[trigger] r@[k] == &entries@[k].0,
            decreases entries@.len() - i,
        {
            r.push(&entries[i].0);
            i = i + 1;
        }
        assert forall|x: Seq<u8>| #![trigger self@.contains(x)]
            self@.contains(x) <==> exists|i: int| 0 <= i < r@.len() && #[trigger] r@[i]@ == x by {
            if self@.contains(x) {
                assert(self.members@.contains_key(x));
                let i = choose|i: int| 0 <= i < entries@.len() && #[trigger] entries@[i].0@ == x;
                assert(r@[i]@ == x);
            }
            if exists|i: int| 0 <= i < r@.len() && #[trigger] r@[i]@ == x {
                let i = choose|i: int| 0 <= i < r@.len() && #[trigger] r@[i]@ == x;
                assert(entries@[i].0@ == x);
            }
        }
        r
    }
}

} // verus!
