use vstd::prelude::*;

verus! {

/// Keys of the association stores: equality is decidable in executable code
/// and agrees with mathematical equality on the type.
pub trait KeyEq: Sized + Copy {
    fn key_eq(&self, other: &Self) -> (r: bool)
        ensures
            r <==> *self == *other,
    ;
}

/// The mathematical contents of a sequence of key/value pairs, later entries
/// overriding earlier ones.
pub open spec fn map_of<K, V>(s: Seq<(K, V)>) -> Map<K, V>
    decreases s.len(),
{
    if s.len() == 0 {
        Map::empty()
    } else {
        map_of(s.drop_last()).insert(s.last().0, s.last().1)
    }
}

/// No key occurs twice.
pub open spec fn keys_distinct<K, V>(s: Seq<(K, V)>) -> bool {
    forall|i: int, j: int| 0 <= i < j < s.len() ==> s[i].0 != s[j].0
}

pub proof fn lemma_map_of_contains<K, V>(s: Seq<(K, V)>, k: K)
    ensures
        map_of(s).contains_key(k) <==> exists|i: int| 0 <= i < s.len() && s[i].0 == k,
    decreases s.len(),
{
    if s.len() > 0 {
        lemma_map_of_contains(s.drop_last(), k);
        if s.last().0 == k {
            assert(s[s.len() - 1].0 == k);
        } else {
            if map_of(s).contains_key(k) {
                let i = choose|i: int|
                    0 <= i < s.drop_last().len() && s.drop_last()[i].0 == k;
                assert(s[i].0 == k);
            }
            if exists|i: int| 0 <= i < s.len() && s[i].0 == k {
                let i = choose|i: int| 0 <= i < s.len() && s[i].0 == k;
                assert(s.drop_last()[i].0 == k);
            }
        }
    }
}

pub proof fn lemma_map_of_index<K, V>(s: Seq<(K, V)>, i: int)
    requires
        keys_distinct(s),
        0 <= i < s.len(),
    ensures
        map_of(s).contains_key(s[i].0),
        map_of(s)[s[i].0] == s[i].1,
    decreases s.len(),
{
    if i == s.len() - 1 {
    } else {
        assert(keys_distinct(s.drop_last()));
        lemma_map_of_index(s.drop_last(), i);
        assert(s.drop_last()[i] == s[i]);
        assert(s[i].0 != s.last().0);
    }
}

/// Replacing the value at one position is, at the level of contents, an
/// insertion for that entry's key.
pub proof fn lemma_map_of_update<K, V>(s: Seq<(K, V)>, i: int, v: V)
    requires
        keys_distinct(s),
        0 <= i < s.len(),
    ensures
        keys_distinct(s.update(i, (s[i].0, v))),
        map_of(s.update(i, (s[i].0, v))) == map_of(s).insert(s[i].0, v),
{
    let k = s[i].0;
    let t = s.update(i, (k, v));
    assert forall|a: int, b: int| 0 <= a < b < t.len() implies t[a].0 != t[b].0 by {
        assert(t[a].0 == s[a].0 && t[b].0 == s[b].0);
    }
    assert forall|k2: K|
        map_of(t).contains_key(k2) == map_of(s).insert(k, v).contains_key(k2) by {
        lemma_map_of_contains(t, k2);
        lemma_map_of_contains(s, k2);
        if exists|j: int| 0 <= j < s.len() && s[j].0 == k2 {
            let j = choose|j: int| 0 <= j < s.len() && s[j].0 == k2;
            assert(t[j].0 == k2);
        }
        if exists|j: int| 0 <= j < t.len() && t[j].0 == k2 {
            let j = choose|j: int| 0 <= j < t.len() && t[j].0 == k2;
            assert(s[j].0 == k2);
        }
    }
    assert forall|k2: K| #[trigger] map_of(t).contains_key(k2) implies map_of(t)[k2]
        == map_of(s).insert(k, v)[k2] by {
        lemma_map_of_contains(t, k2);
        let j = choose|j: int| 0 <= j < t.len() && t[j].0 == k2;
        lemma_map_of_index(t, j);
        if k2 == k {
            assert(j == i);
        } else {
            assert(j != i);
            assert(s[j] == t[j]);
            lemma_map_of_index(s, j);
        }
    }
    assert(map_of(t) =~= map_of(s).insert(k, v));
}

/// Appending an entry with a fresh key is an insertion.
pub proof fn lemma_map_of_push<K, V>(s: Seq<(K, V)>, k: K, v: V)
    requires
        keys_distinct(s),
        forall|i: int| 0 <= i < s.len() ==> s[i].0 != k,
    ensures
        keys_distinct(s.push((k, v))),
        map_of(s.push((k, v))) == map_of(s).insert(k, v),
{
    let t = s.push((k, v));
    assert forall|a: int, b: int| 0 <= a < b < t.len() implies t[a].0 != t[b].0 by {
        if b < t.len() - 1 {
            assert(t[a].0 == s[a].0 && t[b].0 == s[b].0);
        } else {
            assert(t[a].0 == s[a].0 && t[b].0 == k);
        }
    }
    assert(t.drop_last() =~= s);
    assert(t.last() == (k, v));
}

/// Deleting the entry at one position is, at the level of contents, a removal
/// of that entry's key.
pub proof fn lemma_map_of_remove<K, V>(s: Seq<(K, V)>, i: int)
    requires
        keys_distinct(s),
        0 <= i < s.len(),
    ensures
        keys_distinct(s.remove(i)),
        map_of(s.remove(i)) == map_of(s).remove(s[i].0),
{
    let k = s[i].0;
    let t = s.remove(i);
    assert forall|a: int, b: int| 0 <= a < b < t.len() implies t[a].0 != t[b].0 by {
        let a2: int = if a < i { a } else { a + 1 };
        let b2: int = if b < i { b } else { b + 1 };
        assert(t[a].0 == s[a2].0 && t[b].0 == s[b2].0);
    }
    assert forall|k2: K|
        map_of(t).contains_key(k2) == map_of(s).remove(k).contains_key(k2) by {
        lemma_map_of_contains(t, k2);
        lemma_map_of_contains(s, k2);
        if exists|j: int| 0 <= j < t.len() && t[j].0 == k2 {
            let j = choose|j: int| 0 <= j < t.len() && t[j].0 == k2;
            let j2: int = if j < i { j } else { j + 1 };
            assert(s[j2].0 == k2);
            assert(k2 != k);
        }
        if k2 != k && exists|j: int| 0 <= j < s.len() && s[j].0 == k2 {
            let j = choose|j: int| 0 <= j < s.len() && s[j].0 == k2;
            let j2: int = if j < i { j } else { j - 1 };
            assert(t[j2].0 == k2);
        }
    }
    assert forall|k2: K| #[trigger] map_of(t).contains_key(k2) implies map_of(t)[k2]
        == map_of(s).remove(k)[k2] by {
        lemma_map_of_contains(t, k2);
        let j = choose|j: int| 0 <= j < t.len() && t[j].0 == k2;
        lemma_map_of_index(t, j);
        let j2: int = if j < i { j } else { j + 1 };
        assert(s[j2] == t[j]);
        lemma_map_of_index(s, j2);
        assert(k2 != k);
    }
    assert(map_of(t) =~= map_of(s).remove(k));
}

/// With distinct keys, the number of entries equals the size of the contents.
pub proof fn lemma_map_of_len<K, V>(s: Seq<(K, V)>)
    requires
        keys_distinct(s),
    ensures
        map_of(s).dom().finite(),
        map_of(s).dom().len() == s.len(),
    decreases s.len(),
{
    if s.len() > 0 {
        assert(keys_distinct(s.drop_last()));
        lemma_map_of_len(s.drop_last());
        lemma_map_of_contains(s.drop_last(), s.last().0);
        assert(forall|i: int|
            0 <= i < s.drop_last().len() ==> s.drop_last()[i].0 != s.last().0);
        assert(!map_of(s.drop_last()).contains_key(s.last().0));
        assert(map_of(s).dom() =~= map_of(s.drop_last()).dom().insert(s.last().0));
    }
}

/// An association store: a vector of key/value pairs with pairwise distinct
/// keys, read as a mathematical map.  One writer owns a value of this type;
/// readers receive copies of the stored values, never references into it.
#[derive(Clone)]
pub struct AssocVec<K, V> {
    pairs: Vec<(K, V)>,
}

impl<K, V> View for AssocVec<K, V> {
    type V = Map<K, V>;

    closed spec fn view(&self) -> Map<K, V> {
        map_of(self.pairs@)
    }
}

impl<K: KeyEq, V> AssocVec<K, V> {
    pub closed spec fn wf(&self) -> bool {
        keys_distinct(self.pairs@)
    }

    pub fn with_capacity(capacity: usize) -> (r: Self)
        ensures
            r.wf(),
            r@ == Map::<K, V>::empty(),
    {
        AssocVec { pairs: Vec::with_capacity(capacity) }
    }

    fn position(&self, key: &K) -> (r: Option<usize>)
        ensures
            match r {
                Some(i) => i < self.pairs@.len() && self.pairs@[i as int].0 == *key,
                None => forall|j: int| 0 <= j < self.pairs@.len() ==> self.pairs@[j].0 != *key,
            },
    {
        let mut i: usize = 0;
        while i < self.pairs.len()
            invariant
                i <= self.pairs@.len(),
                forall|j: int| 0 <= j < i ==> self.pairs@[j].0 != *key,
            decreases self.pairs@.len() - i,
        {
            if self.pairs[i].0.key_eq(key) {
                return Some(i);
            }
            i = i + 1;
        }
        None
    }

    pub fn contains_key(&self, key: &K) -> (r: bool)
        requires
            self.wf(),
        ensures
            r == self@.contains_key(*key),
    {
        proof {
            lemma_map_of_contains(self.pairs@, *key);
        }
        self.position(key).is_some()
    }

    pub fn get(&self, key: &K) -> (r: Option<&V>)
        requires
            self.wf(),
        ensures
            match r {
                Some(v) => self@.contains_key(*key) && *v == self@[*key],
                None => !self@.contains_key(*key),
            },
    {
        proof {
            lemma_map_of_contains(self.pairs@, *key);
        }
        match self.position(key) {
            Some(i) => {
                proof {
                    lemma_map_of_index(self.pairs@, i as int);
                }
                Some(&self.pairs[i].1)
            },
            None => None,
        }
    }

    pub fn insert(&mut self, key: K, value: V)
        requires
            old(self).wf(),
        ensures
            final(self).wf(),
            final(self)@ == old(self)@.insert(key, value),
    {
        match self.position(&key) {
            Some(i) => {
                proof {
                    lemma_map_of_update(self.pairs@, i as int, value);
                }
                self.pairs[i] = (key, value);
            },
            None => {
                proof {
                    lemma_map_of_push(self.pairs@, key, value);
                }
                self.pairs.push((key, value));
            },
        }
    }

    pub fn remove(&mut self, key: &K) -> (r: Option<V>)
        requires
            old(self).wf(),
        ensures
            final(self).wf(),
            final(self)@ == old(self)@.remove(*key),
            match r {
                Some(v) => old(self)@.contains_key(*key) && v == old(self)@[*key],
                None => !old(self)@.contains_key(*key),
            },
    {
        proof {
            lemma_map_of_contains(self.pairs@, *key);
        }
        match self.position(key) {
            Some(i) => {
                proof {
                    lemma_map_of_index(self.pairs@, i as int);
                    lemma_map_of_remove(self.pairs@, i as int);
                }
                let pair = self.pairs.remove(i);
                proof {
                    assert(old(self)@.remove(*key) =~= old(self)@.remove(pair.0));
                }
                Some(pair.1)
            },
            None => {
                proof {
                    assert(old(self)@.remove(*key) =~= old(self)@);
                }
                None
            },
        }
    }

    pub fn len(&self) -> (r: usize)
        requires
            self.wf(),
        ensures
            self@.dom().finite(),
            r == self@.dom().len(),
    {
        proof {
            lemma_map_of_len(self.pairs@);
        }
        self.pairs.len()
    }
}

} // verus!
