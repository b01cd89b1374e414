//! A table of values keyed by text, as the app keeps its running downloads
//! and HLS processes.
use vstd::prelude::*;

verus! {

/// The table that a list of entries describes: each key to its value.
pub open spec fn entries_to_map<V>(s: Seq<(String, V)>) -> Map<Seq<char>, V>
    decreases s.len(),
{
    if s.len() == 0 {
        Map::empty()
    } else {
        entries_to_map(s.drop_last()).insert(s.last().0@, s.last().1)
    }
}

pub open spec fn distinct_keys<V>(s: Seq<(String, V)>) -> bool {
    forall|i: int, j: int| 0 <= i < j < s.len() ==> #[trigger] s[i].0@ != #[trigger] s[j].0@
}

pub proof fn lemma_entries_to_map<V>(s: Seq<(String, V)>)
    requires
        distinct_keys(s),
    ensures
        forall|k: Seq<char>|
            #[trigger] entries_to_map(s).contains_key(k) <==> exists|i: int|
                0 <= i < s.len() && s[i].0@ == k,
        forall|i: int| 0 <= i < s.len() ==> entries_to_map(s)[#[trigger] s[i].0@] == s[i].1,
    decreases s.len(),
{
    if s.len() > 0 {
        let p = s.drop_last();
        assert(distinct_keys(p));
        lemma_entries_to_map(p);
        assert forall|k: Seq<char>|
            #[trigger] entries_to_map(s).contains_key(k) <==> exists|i: int|
                0 <= i < s.len() && s[i].0@ == k by {
            assert(entries_to_map(s) == entries_to_map(p).insert(s.last().0@, s.last().1));
            if entries_to_map(s).contains_key(k) && k != s.last().0@ {
                assert(entries_to_map(p).contains_key(k));
                let i = choose|i: int| 0 <= i < p.len() && p[i].0@ == k;
                assert(s[i].0@ == k);
            }
            if exists|i: int| 0 <= i < s.len() && s[i].0@ == k {
                let i = choose|i: int| 0 <= i < s.len() && s[i].0@ == k;
                if i < s.len() - 1 {
                    assert(p[i].0@ == k);
                    assert(entries_to_map(p).contains_key(k));
                }
            }
        }
        assert forall|i: int| 0 <= i < s.len() implies entries_to_map(s)[#[trigger] s[i].0@]
            == s[i].1 by {
            if i < s.len() - 1 {
                assert(p[i] == s[i]);
                assert(s[i].0@ != s[s.len() - 1].0@);
            }
        }
    }
}

/// Two entry lists with distinct keys, the same keys and the same value for
/// each key describe the same table.
proof fn lemma_same_table<V>(s: Seq<(String, V)>, m: Map<Seq<char>, V>)
    requires
        distinct_keys(s),
        forall|k: Seq<char>| #[trigger] m.contains_key(k) <==> exists|i: int| 0 <= i < s.len() && s[i].0@ == k,
        forall|i: int| 0 <= i < s.len() ==> m[#[trigger] s[i].0@] == s[i].1,
    ensures
        entries_to_map(s) == m,
{
    lemma_entries_to_map(s);
    assert forall|k: Seq<char>| #[trigger] entries_to_map(s).contains_key(k) implies entries_to_map(s)[k] == m[k] by {
        let i = choose|i: int| 0 <= i < s.len() && s[i].0@ == k;
        assert(entries_to_map(s)[s[i].0@] == s[i].1);
    }
    assert(entries_to_map(s) =~= m);
}

/// Where `key` stands among the entries.
fn position_of<V>(entries: &Vec<(String, V)>, key: &String) -> (r: Option<usize>)
    ensures
        match r {
            Some(i) => i < entries.len() && entries@[i as int].0@ == key@,
            None => forall|i: int| 0 <= i < entries.len() ==> entries@[i].0@ != key@,
        },
{
    let mut i: usize = 0;
    while i < entries.len()
        invariant
            i <= entries.len(),
            forall|j: int| 0 <= j < i ==> entries@[j].0@ != key@,
        decreases entries.len() - i,
    {
        if entries[i].0 == *key {
            return Some(i);
        }
        i += 1;
    }
    None
}

/// Values keyed by text, each key at most once.
pub struct Registry<V> {
    entries: Vec<(String, V)>,
}

impl<V> View for Registry<V> {
    type V = Map<Seq<char>, V>;

    closed spec fn view(&self) -> Map<Seq<char>, V> {
        entries_to_map(self.entries@)
    }
}

impl<V> Registry<V> {
    /// No key is stored twice.
    #[verifier::type_invariant]
    closed spec fn keys_unique(&self) -> bool {
        distinct_keys(self.entries@)
    }

    pub fn new() -> (r: Self)
        ensures
            r@ == Map::<Seq<char>, V>::empty(),
    {
        Registry { entries: Vec::new() }
    }

    /// The value stored under `key`.
    pub fn get(&self, key: &String) -> (r: Option<&V>)
        ensures
            match r {
                Some(v) => self@.contains_key(key@) && *v == self@[key@],
                None => !self@.contains_key(key@),
            },
    {
        proof {
            use_type_invariant(self);
            lemma_entries_to_map(self.entries@);
        }
        match position_of(&self.entries, key) {
            Some(i) => Some(&self.entries[i].1),
            None => None,
        }
    }

    /// A value is stored under `key`.
    pub fn contains_key(&self, key: &String) -> (r: bool)
        ensures
            r == self@.contains_key(key@),
    {
        proof {
            use_type_invariant(self);
            lemma_entries_to_map(self.entries@);
        }
        position_of(&self.entries, key).is_some()
    }

    /// Nothing is stored.
    pub fn is_empty(&self) -> (r: bool)
        ensures
            r == (self@ == Map::<Seq<char>, V>::empty()),
    {
        proof {
            use_type_invariant(self);
            lemma_entries_to_map(self.entries@);
            if self.entries@.len() > 0 {
                assert(self@.contains_key(self.entries@[0].0@));
                assert(!Map::<Seq<char>, V>::empty().contains_key(self.entries@[0].0@));
            } else {
                assert(self@ =~= Map::<Seq<char>, V>::empty());
            }
        }
        self.entries.len() == 0
    }

    /// Stores `value` under `key`, in place of any value stored there.
    pub fn insert(&mut self, key: String, value: V)
        ensures
            final(self)@ == old(self)@.insert(key@, value),
    {
        proof {
            use_type_invariant(&*self);
        }
        let mut entries: Vec<(String, V)> = Vec::new();
        std::mem::swap(&mut entries, &mut self.entries);
        let ghost old_entries = entries@;
        let ghost target = old(self)@.insert(key@, value);
        proof {
            lemma_entries_to_map(old_entries);
        }
        match position_of(&entries, &key) {
            Some(i) => {
                entries.set(i, (key, value));
                proof {
                    let s = entries@;
                    assert(s == old_entries.update(i as int, s[i as int]));
                    assert(distinct_keys(s)) by {
                        assert forall|a: int, b: int| 0 <= a < b < s.len() implies #[trigger] s[a].0@
                            != #[trigger] s[b].0@ by {
                            assert(old_entries[a].0@ != old_entries[b].0@);
                        }
                    }
                    assert forall|k: Seq<char>| #[trigger] target.contains_key(k) <==> exists|j: int|
                        0 <= j < s.len() && s[j].0@ == k by {
                        if target.contains_key(k) && k != s[i as int].0@ {
                            let j = choose|j: int| 0 <= j < old_entries.len() && old_entries[j].0@ == k;
                            assert(s[j].0@ == k);
                        }
                        if exists|j: int| 0 <= j < s.len() && s[j].0@ == k {
                            let j = choose|j: int| 0 <= j < s.len() && s[j].0@ == k;
                            if j != i {
                                assert(old_entries[j].0@ == k);
                            }
                        }
                    }
                    assert forall|j: int| 0 <= j < s.len() implies target[#[trigger] s[j].0@] == s[j].1 by {
                        if j != i {
                            assert(old_entries[j] == s[j]);
                            assert(old_entries[j].0@ != old_entries[i as int].0@);
                        }
                    }
                    lemma_same_table(s, target);
                }
            },
            None => {
                entries.push((key, value));
                proof {
                    let s = entries@;
                    assert(s.drop_last() =~= old_entries);
                    assert(distinct_keys(s)) by {
                        assert forall|a: int, b: int| 0 <= a < b < s.len() implies #[trigger] s[a].0@
                            != #[trigger] s[b].0@ by {
                            if b == s.len() - 1 {
                                assert(old_entries[a].0@ != key@);
                            } else {
                                assert(old_entries[a] == s[a]);
                                assert(old_entries[b] == s[b]);
                            }
                        }
                    }
                }
            },
        }
        self.entries = entries;
    }

    /// Removes what is stored under `key` and hands it back.
    pub fn remove(&mut self, key: &String) -> (r: Option<V>)
        ensures
            final(self)@ == old(self)@.remove(key@),
            match r {
                Some(v) => old(self)@.contains_key(key@) && v == old(self)@[key@],
                None => !old(self)@.contains_key(key@),
            },
    {
        proof {
            use_type_invariant(&*self);
        }
        let mut entries: Vec<(String, V)> = Vec::new();
        std::mem::swap(&mut entries, &mut self.entries);
        let ghost old_entries = entries@;
        let ghost target = old(self)@.remove(key@);
        proof {
            lemma_entries_to_map(old_entries);
        }
        let r = match position_of(&entries, key) {
            Some(i) => {
                let (_, v) = entries.remove(i);
                proof {
                    let s = entries@;
                    assert(s =~= old_entries.remove(i as int));
                    assert(forall|j: int| 0 <= j < i ==> s[j] == old_entries[j]);
                    assert(forall|j: int| i <= j < s.len() ==> s[j] == old_entries[j + 1]);
                    assert(distinct_keys(s)) by {
                        assert forall|a: int, b: int| 0 <= a < b < s.len() implies #[trigger] s[a].0@
                            != #[trigger] s[b].0@ by {
                            let a0 = if a < i { a } else { a + 1 };
                            let b0 = if b < i { b } else { b + 1 };
                            assert(old_entries[a0].0@ != old_entries[b0].0@);
                        }
                    }
                    assert forall|k: Seq<char>| #[trigger] target.contains_key(k) <==> exists|j: int|
                        0 <= j < s.len() && s[j].0@ == k by {
                        if target.contains_key(k) {
                            let j = choose|j: int| 0 <= j < old_entries.len() && old_entries[j].0@ == k;
                            if j < i {
                                assert(s[j].0@ == k);
                            } else {
                                assert(j != i);
                                assert(s[j - 1].0@ == k);
                            }
                        }
                        if exists|j: int| 0 <= j < s.len() && s[j].0@ == k {
                            let j = choose|j: int| 0 <= j < s.len() && s[j].0@ == k;
                            let j0 = if j < i { j } else { j + 1 };
                            assert(old_entries[j0].0@ == k);
                            assert(old_entries[j0].0@ != old_entries[i as int].0@);
                        }
                    }
                    assert forall|j: int| 0 <= j < s.len() implies target[#[trigger] s[j].0@] == s[j].1 by {
                        let j0 = if j < i { j } else { j + 1 };
                        assert(old_entries[j0] == s[j]);
                        assert(old_entries[j0].0@ != old_entries[i as int].0@);
                    }
                    lemma_same_table(s, target);
                }
                Some(v)
            },
            None => {
                proof {
                    assert(old(self)@.remove(key@) =~= old(self)@);
                }
                None
            },
        };
        self.entries = entries;
        r
    }
}


/// Law: what is stored under a key is what `get` gives back; after `remove`
/// nothing is stored under it; other keys are not touched by either.
pub proof fn lemma_registry_laws<V>(before: Map<Seq<char>, V>, key: Seq<char>, value: V, other: Seq<char>)
    ensures
        before.insert(key, value).contains_key(key),
        before.insert(key, value)[key] == value,
        !before.remove(key).contains_key(key),
        other != key ==> before.insert(key, value).contains_key(other) == before.contains_key(other),
        other != key ==> before.remove(key).contains_key(other) == before.contains_key(other),
{
}

} // verus!
