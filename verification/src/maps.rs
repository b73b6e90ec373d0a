//! Association lists with the meaning of maps: [`AssocMap`] with one key per
//! value, [`MultiMap`] with two.
use crate::digest::Digest;
use vstd::prelude::*;

verus! {

/// A key that can be compared.
pub trait Key: Copy {
    /// Whether the two keys are the same key.
    fn same(&self, other: &Self) -> (r: bool)
        ensures
            r == (*self == *other),
    ;
}

impl Key for Digest {
    fn same(&self, other: &Self) -> (r: bool) {
        let mut i: usize = 0;
        while i < 32
            invariant
                i <= 32,
                forall|j: int| 0 <= j < i ==> self@[j] == other@[j],
            decreases 32 - i,
        {
            if self[i] != other[i] {
                assert(self@[i as int] != other@[i as int]);
                return false;
            }
            i += 1;
        }
        assert(*self =~= *other);
        true
    }
}

/// A map kept as a list of entries in which no key occurs twice.
pub struct AssocMap<K, V> {
    entries: Vec<(K, V)>,
}

/// The key stands at position `i` of the entries.
spec fn at<K, V>(entries: Seq<(K, V)>, key: K, i: int) -> bool {
    0 <= i < entries.len() && entries[i].0 == key
}

spec fn distinct<K, V>(entries: Seq<(K, V)>) -> bool {
    forall|i: int, j: int|
        0 <= i < j < entries.len() ==> (#[trigger] entries[i]).0 != (#[trigger] entries[j]).0
}

spec fn as_map<K, V>(entries: Seq<(K, V)>) -> Map<K, V> {
    Map::new(
        |k: K| exists|i: int| #[trigger] at(entries, k, i),
        |k: K| entries[choose|i: int| #[trigger] at(entries, k, i)].1,
    )
}

proof fn lemma_at<K, V>(entries: Seq<(K, V)>, i: int)
    requires
        distinct(entries),
        0 <= i < entries.len(),
    ensures
        as_map(entries).contains_key(entries[i].0),
        as_map(entries)[entries[i].0] == entries[i].1,
{
    let k = entries[i].0;
    assert(at(entries, k, i));
    let j = choose|j: int| #[trigger] at(entries, k, j);
    assert(i == j);
}

proof fn lemma_push<K, V>(entries: Seq<(K, V)>, k: K, v: V)
    requires
        distinct(entries),
        !as_map(entries).contains_key(k),
    ensures
        distinct(entries.push((k, v))),
        as_map(entries.push((k, v))) == as_map(entries).insert(k, v),
{
    let after = entries.push((k, v));
    assert forall|i: int, j: int| 0 <= i < j < after.len() implies (#[trigger] after[i]).0 != (
    #[trigger] after[j]).0 by {
        if j == entries.len() {
            assert(at(entries, entries[i].0, i));
        }
    }
    assert forall|q: K| as_map(after).contains_key(q) <==> as_map(entries).insert(
        k,
        v,
    ).contains_key(q) by {
        if as_map(entries).contains_key(q) {
            let i = choose|i: int| #[trigger] at(entries, q, i);
            assert(at(after, q, i));
        }
        if q == k {
            assert(at(after, q, entries.len() as int));
        }
        if as_map(after).contains_key(q) && q != k {
            let i = choose|i: int| #[trigger] at(after, q, i);
            assert(at(entries, q, i));
        }
    }
    assert forall|q: K| as_map(after).contains_key(q) implies as_map(after)[q] == as_map(
        entries,
    ).insert(k, v)[q] by {
        let i = choose|i: int| #[trigger] at(after, q, i);
        lemma_at(after, i);
        if i < entries.len() {
            assert(at(entries, q, i));
            lemma_at(entries, i);
        }
    }
    assert(as_map(after) =~= as_map(entries).insert(k, v));
}

proof fn lemma_remove<K, V>(entries: Seq<(K, V)>, at_index: int)
    requires
        distinct(entries),
        0 <= at_index < entries.len(),
    ensures
        distinct(entries.remove(at_index)),
        as_map(entries.remove(at_index)) == as_map(entries).remove(entries[at_index].0),
{
    let after = entries.remove(at_index);
    let gone = entries[at_index].0;
    let shift = |i: int| if i < at_index { i } else { i + 1 };
    assert forall|i: int| 0 <= i < after.len() implies #[trigger] after[i] == entries[shift(
        i,
    )] by {}
    assert forall|q: K| as_map(after).contains_key(q) <==> as_map(entries).remove(
        gone,
    ).contains_key(q) by {
        if as_map(after).contains_key(q) {
            let i = choose|i: int| #[trigger] at(after, q, i);
            assert(after[i] == entries[shift(i)]);
            assert(at(entries, q, shift(i)));
        }
        if as_map(entries).remove(gone).contains_key(q) {
            let i = choose|i: int| #[trigger] at(entries, q, i);
            let j = if i < at_index { i } else { i - 1 };
            assert(after[j] == entries[shift(j)]);
            assert(at(after, q, j));
        }
    }
    assert forall|q: K| as_map(after).contains_key(q) implies as_map(after)[q] == as_map(
        entries,
    )[q] by {
        let i = choose|i: int| #[trigger] at(after, q, i);
        lemma_at(after, i);
        assert(after[i] == entries[shift(i)]);
        lemma_at(entries, shift(i));
    }
    assert(as_map(after) =~= as_map(entries).remove(gone));
}

proof fn lemma_len<K, V>(entries: Seq<(K, V)>)
    requires
        distinct(entries),
    ensures
        as_map(entries).dom().finite(),
        as_map(entries).dom().len() == entries.len(),
    decreases entries.len(),
{
    if entries.len() == 0 {
        assert(as_map(entries).dom() =~= Set::<K>::empty()) by {
            assert forall|k: K| !as_map(entries).contains_key(k) by {
                if as_map(entries).contains_key(k) {
                    let i = choose|i: int| #[trigger] at(entries, k, i);
                }
            }
        }
    } else {
        let before = entries.drop_last();
        let (k, v) = entries.last();
        assert(before.push((k, v)) =~= entries);
        assert(!as_map(before).contains_key(k)) by {
            if as_map(before).contains_key(k) {
                let i = choose|i: int| #[trigger] at(before, k, i);
                assert(entries[i].0 == entries[entries.len() - 1].0);
            }
        }
        assert(distinct(before)) by {
            assert forall|i: int, j: int| 0 <= i < j < before.len() implies (#[trigger] before[i]).0
                != (#[trigger] before[j]).0 by {
                assert(entries[i].0 != entries[j].0);
            }
        }
        lemma_push(before, k, v);
        lemma_len(before);
    }
}

impl<K, V> View for AssocMap<K, V> {
    type V = Map<K, V>;

    closed spec fn view(&self) -> Map<K, V> {
        as_map(self.entries@)
    }
}

impl<K: Key, V> AssocMap<K, V> {
    /// No key occurs twice.
    pub closed spec fn wf(&self) -> bool {
        distinct(self.entries@)
    }

    /// The empty map.
    pub fn new() -> (r: Self)
        ensures
            r.wf(),
            r@ == Map::<K, V>::empty(),
    {
        let r = AssocMap { entries: Vec::new() };
        assert(r@ =~= Map::<K, V>::empty()) by {
            assert forall|k: K| !r@.contains_key(k) by {
                if r@.contains_key(k) {
                    let i = choose|i: int| #[trigger] at(r.entries@, k, i);
                }
            }
        }
        r
    }

    /// The number of entries.
    pub fn len(&self) -> (n: usize)
        requires
            self.wf(),
        ensures
            self@.dom().finite(),
            n == self@.dom().len(),
    {
        proof {
            lemma_len(self.entries@);
        }
        self.entries.len()
    }

    /// Where `key` stands in the list.
    fn position(&self, key: &K) -> (r: Option<usize>)
        requires
            self.wf(),
        ensures
            match r {
                Some(i) => i < self.entries@.len() && self.entries@[i as int].0 == *key
                    && self@.contains_key(*key) && self@[*key] == self.entries@[i as int].1,
                None => !self@.contains_key(*key),
            },
    {
        let mut i: usize = 0;
        while i < self.entries.len()
            invariant
                self.wf(),
                i <= self.entries@.len(),
                forall|j: int| 0 <= j < i ==> (#[trigger] self.entries@[j]).0 != *key,
            decreases self.entries@.len() - i,
        {
            if self.entries[i].0.same(key) {
                proof {
                    lemma_at(self.entries@, i as int);
                }
                return Some(i);
            }
            i += 1;
        }
        assert(!self@.contains_key(*key)) by {
            if self@.contains_key(*key) {
                let j = choose|j: int| #[trigger] at(self.entries@, *key, j);
                assert(self.entries@[j].0 == *key);
            }
        }
        None
    }

    /// The value under `key`.
    pub fn get(&self, key: &K) -> (r: Option<&V>)
        requires
            self.wf(),
        ensures
            match r {
                Some(v) => self@.contains_key(*key) && self@[*key] == *v,
                None => !self@.contains_key(*key),
            },
    {
        match self.position(key) {
            Some(i) => Some(&self.entries[i].1),
            None => None,
        }
    }

    /// Puts `value` under `key` and hands back what it displaces.
    pub fn insert(&mut self, key: K, value: V) -> (r: Option<V>)
        requires
            old(self).wf(),
        ensures
            final(self).wf(),
            final(self)@ == old(self)@.insert(key, value),
            match r {
                Some(v) => old(self)@.contains_key(key) && old(self)@[key] == v,
                None => !old(self)@.contains_key(key),
            },
    {
        let displaced = self.remove(&key);
        let ghost between = *self;
        proof {
            lemma_push(self.entries@, key, value);
        }
        self.entries.push((key, value));
        assert(self@ == between@.insert(key, value));
        assert(self@ =~= old(self)@.insert(key, value));
        displaced
    }

    /// Takes out the entry under `key` and hands back its value.
    pub fn remove(&mut self, key: &K) -> (r: Option<V>)
        requires
            old(self).wf(),
        ensures
            final(self).wf(),
            final(self)@ == old(self)@.remove(*key),
            match r {
                Some(v) => old(self)@.contains_key(*key) && old(self)@[*key] == v,
                None => !old(self)@.contains_key(*key),
            },
    {
        match self.position(key) {
            Some(i) => {
                proof {
                    lemma_remove(self.entries@, i as int);
                }
                let (_, v) = self.entries.remove(i);
                Some(v)
            },
            None => {
                assert(self@ =~= old(self)@.remove(*key));
                None
            },
        }
    }
}

/// A map in which each value has two keys, and either finds it. No two values
/// share a first key, nor a second one. It is seen as a map from the first key
/// to the second key and the value.
pub struct MultiMap<V> {
    by_first: AssocMap<Digest, (Digest, V)>,
}

/// No two entries have the same second key.
pub open spec fn second_keys_distinct<V>(m: Map<Digest, (Digest, V)>) -> bool {
    forall|a: Digest, b: Digest| #[trigger]
        m.contains_key(a) && #[trigger] m.contains_key(b) && m[a].0 == m[b].0 ==> a == b
}

/// Whether some entry has `k2` as its second key.
pub open spec fn has_second<V>(m: Map<Digest, (Digest, V)>, k2: Digest) -> bool {
    exists|k1: Digest| #[trigger] m.contains_key(k1) && m[k1].0 == k2
}

/// The first key of the entry whose second key is `k2`.
pub open spec fn first_of<V>(m: Map<Digest, (Digest, V)>, k2: Digest) -> Digest {
    choose|k1: Digest| #[trigger] m.contains_key(k1) && m[k1].0 == k2
}

/// An entry is found by its second key, and nothing is found by a key that no entry
/// has.
pub proof fn law_second_key_finds_its_entry<V>(
    m: Map<Digest, (Digest, V)>,
    k1: Digest,
    k2: Digest,
)
    requires
        forall|a: Digest, b: Digest|
            m.contains_key(a) && m.contains_key(b) && a != b ==> #[trigger] m[a].0
                != #[trigger] m[b].0,
    ensures
        second_keys_distinct(m),
        m.contains_key(k1) && m[k1].0 == k2 ==> has_second(m, k2) && first_of(m, k2) == k1,
        has_second(m, k2) ==> m.contains_key(first_of(m, k2)) && m[first_of(m, k2)].0 == k2,
        (forall|k: Digest| #[trigger] m.contains_key(k) ==> m[k].0 != k2) ==> !has_second(m, k2),
{
    assert forall|a: Digest, b: Digest| #[trigger]
        m.contains_key(a) && #[trigger] m.contains_key(b) && m[a].0 == m[b].0 implies a == b by {
        assert(a != b ==> m[a].0 != m[b].0);
    }
    if m.contains_key(k1) && m[k1].0 == k2 {
        assert(has_second(m, k2));
        let k = first_of(m, k2);
        assert(m.contains_key(k) && m[k].0 == k2);
    }
}

impl<V> View for MultiMap<V> {
    type V = Map<Digest, (Digest, V)>;

    closed spec fn view(&self) -> Map<Digest, (Digest, V)> {
        self.by_first@
    }
}

impl<V> MultiMap<V> {
    /// Neither a first nor a second key occurs twice.
    pub closed spec fn wf(&self) -> bool {
        self.by_first.wf() && second_keys_distinct(self@)
    }

    /// No two values share a second key.
    pub proof fn law_second_keys_are_distinct(&self)
        requires
            self.wf(),
        ensures
            second_keys_distinct(self@),
            forall|a: Digest, b: Digest|
                self@.contains_key(a) && self@.contains_key(b) && a != b ==> #[trigger] self@[a].0
                    != #[trigger] self@[b].0,
    {
    }

    /// The empty map.
    pub fn new() -> (r: Self)
        ensures
            r.wf(),
            r@ == Map::<Digest, (Digest, V)>::empty(),
    {
        MultiMap { by_first: AssocMap::new() }
    }

    /// Puts `value` under both keys, unless one of them is taken: then nothing
    /// changes and all three come back.
    pub fn insert(&mut self, k1: Digest, k2: Digest, value: V) -> (r: Result<
        (),
        (Digest, Digest, V),
    >)
        requires
            old(self).wf(),
        ensures
            final(self).wf(),
            r is Ok <==> !old(self)@.contains_key(k1) && !has_second(old(self)@, k2),
            r is Ok ==> final(self)@ == old(self)@.insert(k1, (k2, value)),
            r is Err ==> final(self)@ == old(self)@ && r->Err_0 == (k1, k2, value),
            r is Ok <==> !old(self)@.contains_key(k1) && forall|k: Digest| #[trigger]
                old(self)@.contains_key(k) ==> old(self)@[k].0 != k2,
    {
        if self.by_first.get(&k1).is_some() || self.position2(&k2).is_some() {
            return Err((k1, k2, value));
        }
        let _ = self.by_first.insert(k1, (k2, value));
        Ok(())
    }

    /// The value whose first key is `k1`.
    pub fn get1(&self, k1: &Digest) -> (r: Option<&V>)
        requires
            self.wf(),
        ensures
            match r {
                Some(v) => self@.contains_key(*k1) && self@[*k1].1 == *v,
                None => !self@.contains_key(*k1),
            },
    {
        match self.by_first.get(k1) {
            Some(entry) => Some(&entry.1),
            None => None,
        }
    }

    /// Where the entry with second key `k2` stands in the list.
    fn position2(&self, k2: &Digest) -> (r: Option<usize>)
        requires
            self.wf(),
        ensures
            match r {
                Some(i) => {
                    &&& i < self.by_first.entries@.len()
                    &&& has_second(self@, *k2)
                    &&& self@[first_of(self@, *k2)] == self.by_first.entries@[i as int].1
                    &&& first_of(self@, *k2) == self.by_first.entries@[i as int].0
                },
                None => !has_second(self@, *k2),
            },
    {
        let mut i: usize = 0;
        while i < self.by_first.entries.len()
            invariant
                self.wf(),
                i <= self.by_first.entries@.len(),
                forall|j: int| 0 <= j < i ==> (#[trigger] self.by_first.entries@[j]).1.0 != *k2,
            decreases self.by_first.entries@.len() - i,
        {
            if self.by_first.entries[i].1.0.same(k2) {
                proof {
                    lemma_at(self.by_first.entries@, i as int);
                    let k1 = self.by_first.entries@[i as int].0;
                    assert(self@.contains_key(k1) && self@[k1].0 == *k2);
                    assert(first_of(self@, *k2) == k1);
                }
                return Some(i);
            }
            i += 1;
        }
        assert(!has_second(self@, *k2)) by {
            if has_second(self@, *k2) {
                let k1 = first_of(self@, *k2);
                let j = choose|j: int| #[trigger] at(self.by_first.entries@, k1, j);
                lemma_at(self.by_first.entries@, j);
                assert(self.by_first.entries@[j].1.0 == *k2);
            }
        }
        None
    }

    /// The value whose second key is `k2`.
    pub fn get2(&self, k2: &Digest) -> (r: Option<&V>)
        requires
            self.wf(),
        ensures
            match r {
                Some(v) => has_second(self@, *k2) && self@[first_of(self@, *k2)].1 == *v,
                None => !has_second(self@, *k2),
            },
            match r {
                Some(v) => exists|k: Digest| #[trigger]
                    self@.contains_key(k) && self@[k] == (*k2, *v),
                None => forall|k: Digest| #[trigger]
                    self@.contains_key(k) ==> self@[k].0 != *k2,
            },
            second_keys_distinct(self@),
    {
        match self.position2(k2) {
            Some(i) => Some(&self.by_first.entries[i].1.1),
            None => None,
        }
    }

    /// Takes out the entry whose first key is `k1` and hands back its value.
    pub fn remove1(&mut self, k1: &Digest) -> (r: Option<V>)
        requires
            old(self).wf(),
        ensures
            final(self).wf(),
            final(self)@ == old(self)@.remove(*k1),
            match r {
                Some(v) => old(self)@.contains_key(*k1) && old(self)@[*k1].1 == v,
                None => !old(self)@.contains_key(*k1),
            },
    {
        match self.by_first.remove(k1) {
            Some((_, v)) => Some(v),
            None => None,
        }
    }

    /// Takes out the entry whose second key is `k2` and hands back its value.
    pub fn remove2(&mut self, k2: &Digest) -> (r: Option<V>)
        requires
            old(self).wf(),
        ensures
            final(self).wf(),
            match r {
                Some(v) => {
                    &&& has_second(old(self)@, *k2)
                    &&& old(self)@[first_of(old(self)@, *k2)].1 == v
                    &&& final(self)@ == old(self)@.remove(first_of(old(self)@, *k2))
                },
                None => !has_second(old(self)@, *k2) && final(self)@ == old(self)@,
            },
            match r {
                Some(v) => exists|k: Digest| #[trigger]
                    old(self)@.contains_key(k) && old(self)@[k] == (*k2, v) && final(self)@ == old(
                        self,
                    )@.remove(k),
                None => forall|k: Digest| #[trigger]
                    old(self)@.contains_key(k) ==> old(self)@[k].0 != *k2,
            },
            second_keys_distinct(old(self)@),
    {
        match self.position2(k2) {
            Some(i) => {
                let k1 = self.by_first.entries[i].0;
                self.remove1(&k1)
            },
            None => None,
        }
    }
}

} // verus!
