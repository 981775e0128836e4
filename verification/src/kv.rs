//! A flat string-to-string mapping with unique keys.
//!
//! This is the shape shared by the persisted context, action headers,
//! project configuration and query parameters.  The view of a [`KvMap`] is a
//! mathematical `Map<Seq<char>, Seq<char>>`; keys are unique in the backing
//! vector, so iteration order never changes which mapping is represented.

use vstd::prelude::*;

verus! {

/// No two entries share a key.
pub open spec fn unique_keys(pairs: Seq<(String, String)>) -> bool {
    forall|i: int, j: int|
        0 <= i < j < pairs.len() ==> pairs[i].0@ != pairs[j].0@
}

/// The mapping a pair list stands for; a later entry wins over an earlier one.
pub open spec fn map_of_pairs(pairs: Seq<(String, String)>) -> Map<Seq<char>, Seq<char>>
    decreases pairs.len(),
{
    if pairs.len() == 0 {
        Map::empty()
    } else {
        map_of_pairs(pairs.drop_last()).insert(pairs.last().0@, pairs.last().1@)
    }
}

/// A key occurs in the mapping exactly when some entry holds it.
pub proof fn lemma_map_of_pairs_contains(pairs: Seq<(String, String)>, k: Seq<char>)
    ensures
        map_of_pairs(pairs).contains_key(k) <==> (exists|i: int|
            0 <= i < pairs.len() && pairs[i].0@ == k),
    decreases pairs.len(),
{
    if pairs.len() > 0 {
        lemma_map_of_pairs_contains(pairs.drop_last(), k);
        if pairs.last().0@ == k {
            assert(pairs[pairs.len() - 1].0@ == k);
        } else {
            if map_of_pairs(pairs).contains_key(k) {
                let i = choose|i: int| 0 <= i < pairs.drop_last().len() && pairs.drop_last()[i].0@
                    == k;
                assert(pairs[i].0@ == k);
            }
            if exists|i: int| 0 <= i < pairs.len() && pairs[i].0@ == k {
                let i = choose|i: int| 0 <= i < pairs.len() && pairs[i].0@ == k;
                assert(i < pairs.len() - 1);
                assert(pairs.drop_last()[i].0@ == k);
            }
        }
    }
}

/// Under unique keys, the entry holding a key gives its value in the mapping.
pub proof fn lemma_map_of_pairs_get(pairs: Seq<(String, String)>, i: int)
    requires
        unique_keys(pairs),
        0 <= i < pairs.len(),
    ensures
        map_of_pairs(pairs).contains_key(pairs[i].0@),
        map_of_pairs(pairs)[pairs[i].0@] == pairs[i].1@,
    decreases pairs.len(),
{
    if i == pairs.len() - 1 {
    } else {
        assert(pairs[i].0@ != pairs.last().0@);
        lemma_map_of_pairs_get(pairs.drop_last(), i);
        assert(pairs.drop_last()[i] == pairs[i]);
    }
}

/// Removing an entry removes exactly its key from the mapping.
pub proof fn lemma_map_of_pairs_remove(pairs: Seq<(String, String)>, i: int)
    requires
        unique_keys(pairs),
        0 <= i < pairs.len(),
    ensures
        map_of_pairs(pairs.remove(i)) =~= map_of_pairs(pairs).remove(pairs[i].0@),
    decreases pairs.len(),
{
    lemma_map_of_pairs_contains(pairs.drop_last(), pairs.last().0@);
    if i == pairs.len() - 1 {
        assert(pairs.remove(i) =~= pairs.drop_last());
        assert(!map_of_pairs(pairs.drop_last()).contains_key(pairs.last().0@));
    } else {
        assert(pairs.remove(i).drop_last() =~= pairs.drop_last().remove(i));
        assert(pairs.remove(i).last() == pairs.last());
        lemma_map_of_pairs_remove(pairs.drop_last(), i);
        assert(pairs.drop_last()[i] == pairs[i]);
        assert(map_of_pairs(pairs.remove(i)) =~= map_of_pairs(pairs.drop_last()).remove(
            pairs[i].0@,
        ).insert(pairs.last().0@, pairs.last().1@));
        assert(pairs[i].0@ != pairs.last().0@);
    }
}

/// Removing an entry keeps the remaining keys unique.
pub proof fn lemma_unique_keys_remove(pairs: Seq<(String, String)>, i: int)
    requires
        unique_keys(pairs),
        0 <= i < pairs.len(),
    ensures
        unique_keys(pairs.remove(i)),
{
    assert forall|a: int, b: int|
        0 <= a < b < pairs.remove(i).len() implies pairs.remove(i)[a].0@ != pairs.remove(
        i,
    )[b].0@ by {
        let a0 = if a < i {
            a
        } else {
            a + 1
        };
        let b0 = if b < i {
            b
        } else {
            b + 1
        };
        assert(pairs.remove(i)[a] == pairs[a0]);
        assert(pairs.remove(i)[b] == pairs[b0]);
    }
}

/// The entries of a mapping stand for its view, and unique keys follow
/// from well-formedness.
pub proof fn lemma_entries_view(m: KvMap)
    ensures
        map_of_pairs(m.entries()) == m@,
        m.wf() ==> unique_keys(m.entries()),
{
}

/// A flat string-to-string mapping with unique keys.
pub struct KvMap {
    pairs: Vec<(String, String)>,
}

impl View for KvMap {
    type V = Map<Seq<char>, Seq<char>>;

    closed spec fn view(&self) -> Map<Seq<char>, Seq<char>> {
        map_of_pairs(self.pairs@)
    }
}

impl KvMap {
    /// Keys are unique in the backing vector.
    pub closed spec fn wf(&self) -> bool {
        unique_keys(self.pairs@)
    }

    /// The backing entries, in insertion order.
    pub closed spec fn entries(&self) -> Seq<(String, String)> {
        self.pairs@
    }

    /// The empty mapping.
    pub fn new() -> (r: KvMap)
        ensures
            r.wf(),
            r@ =~= Map::<Seq<char>, Seq<char>>::empty(),
            r.entries() =~= Seq::<(String, String)>::empty(),
    {
        KvMap { pairs: Vec::new() }
    }

    /// How many keys are bound.
    pub fn len(&self) -> (n: usize)
        ensures
            n == self.entries().len(),
    {
        self.pairs.len()
    }

    /// The value bound to `key`, if any.
    pub fn get<'a>(&'a self, key: &String) -> (r: Option<&'a String>)
        requires
            self.wf(),
        ensures
            match r {
                Some(v) => self@.contains_key(key@) && self@[key@] == v@,
                None => !self@.contains_key(key@),
            },
    {
        let n = self.pairs.len();
        let mut i: usize = 0;
        while i < n
            invariant
                n == self.pairs@.len(),
                i <= n,
                self.wf(),
                forall|j: int| 0 <= j < i ==> self.pairs@[j].0@ != key@,
            decreases n - i,
        {
            if self.pairs[i].0.eq(key) {
                proof {
                    lemma_map_of_pairs_get(self.pairs@, i as int);
                }
                return Some(&self.pairs[i].1);
            }
            i += 1;
        }
        proof {
            lemma_map_of_pairs_contains(self.pairs@, key@);
        }
        None
    }

    /// Whether `key` is bound.
    pub fn contains_key(&self, key: &String) -> (r: bool)
        requires
            self.wf(),
        ensures
            r == self@.contains_key(key@),
    {
        self.get(key).is_some()
    }

    /// A copy of the mapping.
    pub fn duplicate(&self) -> (r: KvMap)
        ensures
            r@ == self@,
            r.entries() == self.entries(),
            r.wf() == self.wf(),
    {
        let mut pairs: Vec<(String, String)> = Vec::new();
        let n = self.pairs.len();
        let mut i: usize = 0;
        while i < n
            invariant
                i <= n,
                n == self.pairs@.len(),
                pairs@ == self.pairs@.subrange(0, i as int),
            decreases n - i,
        {
            pairs.push((self.pairs[i].0.clone(), self.pairs[i].1.clone()));
            proof {
                assert(pairs@ =~= self.pairs@.subrange(0, i + 1 as int));
            }
            i += 1;
        }
        proof {
            assert(pairs@ =~= self.pairs@);
        }
        KvMap { pairs }
    }

    /// The entries as a pair vector, in insertion order; keys are unique.
    pub fn to_pairs(&self) -> (r: &Vec<(String, String)>)
        ensures
            r@ == self.entries(),
            map_of_pairs(r@) == self@,
            self.wf() ==> unique_keys(r@),
    {
        &self.pairs
    }

    /// The mapping made of the given entries, whose keys must be unique.
    pub fn from_unique_pairs(pairs: Vec<(String, String)>) -> (r: KvMap)
        requires
            unique_keys(pairs@),
        ensures
            r.wf(),
            r@ == map_of_pairs(pairs@),
            r.entries() == pairs@,
    {
        KvMap { pairs }
    }

    /// Bind `key` to `value`, replacing any earlier binding.
    pub fn insert(&mut self, key: String, value: String)
        requires
            old(self).wf(),
        ensures
            final(self).wf(),
            final(self)@ =~= old(self)@.insert(key@, value@),
    {
        let ghost pairs0 = self.pairs@;
        let n = self.pairs.len();
        let mut i: usize = 0;
        let mut found: Option<usize> = None;
        while i < n
            invariant
                n == self.pairs@.len(),
                i <= n,
                self.wf(),
                self.pairs@ == pairs0,
                match found {
                    Some(f) => f < i && self.pairs@[f as int].0@ == key@,
                    None => forall|j: int| 0 <= j < i ==> self.pairs@[j].0@ != key@,
                },
            decreases n - i,
        {
            if found.is_none() && self.pairs[i].0.eq(&key) {
                found = Some(i);
            }
            i += 1;
        }
        match found {
            Some(f) => {
                proof {
                    lemma_map_of_pairs_remove(pairs0, f as int);
                    lemma_unique_keys_remove(pairs0, f as int);
                }
                self.pairs.remove(f);
                let ghost removed = self.pairs@;
                self.pairs.push((key, value));
                proof {
                    assert(self.pairs@.drop_last() =~= removed);
                    assert forall|a: int, b: int|
                        0 <= a < b < self.pairs@.len() implies self.pairs@[a].0@
                        != self.pairs@[b].0@ by {
                        if b == self.pairs@.len() - 1 {
                            let a0 = if a < f {
                                a
                            } else {
                                a + 1
                            };
                            assert(removed[a] == pairs0[a0]);
                            if a0 != f {
                                assert(pairs0[a0].0@ != pairs0[f as int].0@);
                            }
                        } else {
                            assert(removed[a] == self.pairs@[a]);
                            assert(removed[b] == self.pairs@[b]);
                        }
                    }
                    assert(self@ =~= old(self)@.insert(key@, value@));
                }
            },
            None => {
                proof {
                    lemma_map_of_pairs_contains(pairs0, key@);
                }
                let ghost before = self.pairs@;
                self.pairs.push((key, value));
                proof {
                    assert(self.pairs@.drop_last() =~= before);
                    assert forall|a: int, b: int|
                        0 <= a < b < self.pairs@.len() implies self.pairs@[a].0@
                        != self.pairs@[b].0@ by {
                        if b == self.pairs@.len() - 1 {
                            assert(before[a] == self.pairs@[a]);
                        }
                    }
                    assert(self@ =~= old(self)@.insert(key@, value@));
                }
            },
        }
    }
}

} // verus!
