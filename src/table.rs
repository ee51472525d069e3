use vstd::prelude::*;

use crate::text::same_text;

verus! {

/// A value that a table can hold: what it stands for, and a copy that stands
/// for the same.
pub trait Model: Sized {
    type M;

    spec fn model(&self) -> Self::M;

    fn copy_of(&self) -> (r: Self)
        ensures
            r.model() == self.model(),
    ;
}

/// A map from names to values; a later `insert` under a name replaces what
/// was there.
pub struct Table<V> {
    entries: Vec<(String, V)>,
}

pub open spec fn keys_of<V>(es: Seq<(String, V)>) -> Seq<Seq<char>> {
    es.map_values(|e: (String, V)| e.0@)
}

/// Entries whose names are pairwise different.
pub open spec fn distinct_keys<V>(es: Seq<(String, V)>) -> bool {
    forall|i: int, j: int| 0 <= i < j < es.len() ==> es[i].0@ != es[j].0@
}

/// The map that entries with distinct names stand for.
pub open spec fn map_of<V: Model>(es: Seq<(String, V)>) -> Map<Seq<char>, V::M> {
    Map::new(
        |k: Seq<char>| index_from(keys_of(es), k, 0) is Some,
        |k: Seq<char>| es[index_from(keys_of(es), k, 0)->0].1.model(),
    )
}

impl<V: Model> Table<V> {
    pub closed spec fn view(&self) -> Map<Seq<char>, V::M> {
        map_of(self.entries@)
    }

    pub closed spec fn wf(&self) -> bool {
        distinct_keys(self.entries@)
    }

    pub fn new() -> (r: Table<V>)
        ensures
            r.wf(),
            r.view() == Map::<Seq<char>, V::M>::empty(),
    {
        let r = Table { entries: Vec::new() };
        assert(r.view() =~= Map::<Seq<char>, V::M>::empty());
        r
    }

    fn find(&self, k: &str) -> (r: Option<usize>)
        ensures
            r matches Some(i) ==> index_from(keys_of(self.entries@), k@, 0) == Some(i as int) && i
                < self.entries@.len(),
            r is None ==> index_from(keys_of(self.entries@), k@, 0) is None,
    {
        let mut i: usize = 0;
        while i < self.entries.len()
            invariant
                i <= self.entries@.len(),
                index_from(keys_of(self.entries@), k@, 0) == index_from(
                    keys_of(self.entries@),
                    k@,
                    i as int,
                ),
            decreases self.entries@.len() - i,
        {
            if same_text(self.entries[i].0.as_str(), k) {
                return Some(i);
            }
            i = i + 1;
        }
        None
    }

    pub fn contains(&self, k: &str) -> (r: bool)
        ensures
            r == self.view().contains_key(k@),
    {
        self.find(k).is_some()
    }

    /// A copy of the value held under a name.
    pub fn get(&self, k: &str) -> (r: Option<V>)
        ensures
            match r {
                Some(v) => self.view().contains_key(k@) && v.model() == self.view()[k@],
                None => !self.view().contains_key(k@),
            },
    {
        match self.find(k) {
            Some(i) => Some(self.entries[i].1.copy_of()),
            None => None,
        }
    }

    pub fn insert(&mut self, k: &str, v: V)
        requires
            old(self).wf(),
        ensures
            final(self).wf(),
            final(self).view() == old(self).view().insert(k@, v.model()),
    {
        let ghost old_es = self.entries@;
        let ghost old_keys = keys_of(old_es);
        let ghost vm = v.model();
        match self.find(k) {
            Some(i) => {
                proof {
                    lemma_index_from(old_keys, k@, 0);
                }
                self.entries.set(i, (k.to_string(), v));
                assert(keys_of(self.entries@) =~= old_keys);
                proof {
                    assert forall|q: Seq<char>| q != k@ implies #[trigger] index_from(
                        keys_of(self.entries@),
                        q,
                        0,
                    ) != Some(i as int) by {
                        lemma_index_from(old_keys, q, 0);
                    }
                    assert forall|a: int, b: int| 0 <= a < b < self.entries@.len() implies
                        self.entries@[a].0@ != self.entries@[b].0@ by {
                        assert(keys_of(self.entries@)[a] == old_keys[a]);
                        assert(keys_of(self.entries@)[b] == old_keys[b]);
                    }
                }
            },
            None => {
                proof {
                    assert forall|q: Seq<char>| q != k@ implies index_from(
                        old_keys.push(k@),
                        q,
                        0,
                    ) == index_from(old_keys, q, 0) by {
                        lemma_index_push(old_keys, k@, q, 0);
                    }
                    lemma_index_push(old_keys, k@, k@, 0);
                    assert forall|a: int| 0 <= a < old_es.len() implies old_es[a].0@ != k@ by {
                        lemma_index_absent(old_keys, k@, 0, a);
                    }
                }
                self.entries.push((k.to_string(), v));
                assert(keys_of(self.entries@) =~= old_keys.push(k@));
            },
        }
        proof {
            assert forall|q: Seq<char>| q != k@ && #[trigger] old(self).view().contains_key(q)
                implies self.entries@[index_from(keys_of(self.entries@), q, 0)->0] == old_es[index_from(
                old_keys,
                q,
                0,
            )->0] by {
                lemma_index_from(old_keys, q, 0);
            }
        }
        assert(self.view() =~= old(self).view().insert(k@, vm));
    }

    /// The entries, each name once.
    pub fn into_entries(self) -> (r: Vec<(String, V)>)
        requires
            self.wf(),
        ensures
            distinct_keys(r@),
            map_of(r@) == self.view(),
    {
        self.entries
    }
}

pub proof fn lemma_index_absent(keys: Seq<Seq<char>>, k: Seq<char>, i: int, a: int)
    requires
        0 <= i <= a < keys.len(),
        index_from(keys, k, i) is None,
    ensures
        keys[a] != k,
    decreases a - i,
{
    if i < a {
        lemma_index_absent(keys, k, i + 1, a);
    }
}


/// The index of the first entry at or after `i` whose key is `k`.
pub open spec fn index_from(keys: Seq<Seq<char>>, k: Seq<char>, i: int) -> Option<int>
    decreases keys.len() - i,
{
    if i < 0 || i >= keys.len() {
        None
    } else if keys[i] == k {
        Some(i)
    } else {
        index_from(keys, k, i + 1)
    }
}

pub proof fn lemma_index_from(keys: Seq<Seq<char>>, k: Seq<char>, i: int)
    requires
        0 <= i,
    ensures
        index_from(keys, k, i) matches Some(j) ==> i <= j < keys.len() && keys[j] == k,
    decreases keys.len() - i,
{
    if i < keys.len() && keys[i] != k {
        lemma_index_from(keys, k, i + 1);
    }
}

pub proof fn lemma_index_push(keys: Seq<Seq<char>>, u: Seq<char>, k: Seq<char>, i: int)
    requires
        0 <= i <= keys.len(),
        index_from(keys, u, i) is None,
    ensures
        k != u ==> index_from(keys.push(u), k, i) == index_from(keys, k, i),
        index_from(keys.push(u), u, i) == Some(keys.len() as int),
    decreases keys.len() - i,
{
    let pushed = keys.push(u);
    if i < keys.len() {
        assert(pushed[i] == keys[i]);
        lemma_index_push(keys, u, k, i + 1);
    } else {
        assert(pushed[i] == u);
        assert(index_from(pushed, k, i + 1) is None);
    }
}

} // verus!
