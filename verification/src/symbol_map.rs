//! The result map of a batch: one entry per ticker symbol, keys unique,
//! the latest write for a symbol winning.

use vstd::prelude::*;

verus! {

/// The key of entry `i`, as a sequence of characters.
pub open spec fn key_at<V>(entries: Seq<(String, V)>, i: int) -> Seq<char> {
    entries[i].0@
}

/// No two entries share a key.
pub open spec fn distinct_keys<V>(entries: Seq<(String, V)>) -> bool {
    forall|i: int, j: int|
        0 <= i < j < entries.len() ==> #[trigger] key_at(entries, i) != #[trigger] key_at(
            entries,
            j,
        )
}

/// The map the entries denote, later entries overriding earlier ones.
pub open spec fn to_map<V>(entries: Seq<(String, V)>) -> Map<Seq<char>, V>
    decreases entries.len(),
{
    if entries.len() == 0 {
        Map::empty()
    } else {
        to_map(entries.drop_last()).insert(entries.last().0@, entries.last().1)
    }
}

/// A key is in the map exactly when some entry carries it.
pub proof fn lemma_to_map_contains<V>(entries: Seq<(String, V)>, k: Seq<char>)
    ensures
        to_map(entries).contains_key(k) <==> exists|i: int|
            0 <= i < entries.len() && #[trigger] key_at(entries, i) == k,
    decreases entries.len(),
{
    if entries.len() > 0 {
        lemma_to_map_contains(entries.drop_last(), k);
        if entries.last().0@ == k {
            assert(key_at(entries, entries.len() - 1) == k);
        } else if exists|i: int|
            0 <= i < entries.drop_last().len() && #[trigger] key_at(entries.drop_last(), i) == k {
            let i = choose|i: int|
                0 <= i < entries.drop_last().len() && #[trigger] key_at(entries.drop_last(), i)
                    == k;
            assert(key_at(entries, i) == k);
        } else if exists|i: int| 0 <= i < entries.len() && #[trigger] key_at(entries, i) == k {
            let i = choose|i: int| 0 <= i < entries.len() && #[trigger] key_at(entries, i) == k;
            assert(i < entries.len() - 1);
            assert(key_at(entries.drop_last(), i) == k);
        }
    }
}

/// With distinct keys, the map sends entry `i`'s key to entry `i`'s value.
pub proof fn lemma_to_map_at<V>(entries: Seq<(String, V)>, i: int)
    requires
        distinct_keys(entries),
        0 <= i < entries.len(),
    ensures
        to_map(entries).contains_key(key_at(entries, i)),
        to_map(entries)[key_at(entries, i)] == entries[i].1,
    decreases entries.len(),
{
    if i == entries.len() - 1 {
    } else {
        assert(distinct_keys(entries.drop_last())) by {
            assert forall|p: int, q: int|
                0 <= p < q < entries.drop_last().len() implies #[trigger] key_at(
                entries.drop_last(),
                p,
            ) != #[trigger] key_at(entries.drop_last(), q) by {
                assert(key_at(entries, p) != key_at(entries, q));
            }
        }
        assert(key_at(entries.drop_last(), i) == key_at(entries, i));
        assert(key_at(entries, i) != key_at(entries, entries.len() - 1));
        lemma_to_map_at(entries.drop_last(), i);
    }
}

/// With distinct keys the map has exactly one key per entry.
pub proof fn lemma_to_map_len<V>(entries: Seq<(String, V)>)
    requires
        distinct_keys(entries),
    ensures
        to_map(entries).dom().finite(),
        to_map(entries).dom().len() == entries.len(),
    decreases entries.len(),
{
    if entries.len() == 0 {
        assert(to_map(entries).dom() =~= Set::<Seq<char>>::empty());
    } else {
        let prefix = entries.drop_last();
        assert(distinct_keys(prefix)) by {
            assert forall|p: int, q: int|
                0 <= p < q < prefix.len() implies #[trigger] key_at(prefix, p) != #[trigger] key_at(
                prefix,
                q,
            ) by {
                assert(key_at(entries, p) != key_at(entries, q));
            }
        }
        lemma_to_map_len(prefix);
        lemma_to_map_contains(prefix, entries.last().0@);
        assert(!to_map(prefix).contains_key(entries.last().0@)) by {
            assert forall|i: int| 0 <= i < prefix.len() implies #[trigger] key_at(prefix, i)
                != entries.last().0@ by {
                assert(key_at(entries, i) != key_at(entries, entries.len() - 1));
            }
        }
        assert(to_map(entries).dom() =~= to_map(prefix).dom().insert(entries.last().0@));
    }
}

/// Replacing entry `i` by an entry with the same key is an insert at that
/// key.
pub proof fn lemma_to_map_update<V>(entries: Seq<(String, V)>, i: int, e: (String, V))
    requires
        distinct_keys(entries),
        0 <= i < entries.len(),
        key_at(entries, i) == e.0@,
    ensures
        to_map(entries.update(i, e)) =~= to_map(entries).insert(e.0@, e.1),
    decreases entries.len(),
{
    if i == entries.len() - 1 {
        assert(entries.update(i, e).drop_last() =~= entries.drop_last());
        assert(entries.update(i, e).last() == e);
    } else {
        assert(distinct_keys(entries.drop_last())) by {
            assert forall|p: int, q: int|
                0 <= p < q < entries.drop_last().len() implies #[trigger] key_at(
                entries.drop_last(),
                p,
            ) != #[trigger] key_at(entries.drop_last(), q) by {
                assert(key_at(entries, p) != key_at(entries, q));
            }
        }
        assert(key_at(entries.drop_last(), i) == key_at(entries, i));
        lemma_to_map_update(entries.drop_last(), i, e);
        assert(entries.update(i, e).drop_last() =~= entries.drop_last().update(i, e));
        assert(entries.update(i, e).last() == entries.last());
        assert(key_at(entries, i) != key_at(entries, entries.len() - 1));
    }
}

/// A map from ticker symbols to per-ticker results, its entries carrying
/// unique keys.
pub struct SymbolMap<V> {
    entries: Vec<(String, V)>,
}

impl<V> View for SymbolMap<V> {
    type V = Map<Seq<char>, V>;

    closed spec fn view(&self) -> Map<Seq<char>, V> {
        to_map(self.entries@)
    }
}

impl<V> SymbolMap<V> {
    /// Keys are pairwise distinct; every constructor and mutator keeps
    /// this.
    pub closed spec fn wf(&self) -> bool {
        distinct_keys(self.entries@)
    }

    /// An empty map.
    pub fn new() -> (r: SymbolMap<V>)
        ensures
            r@ == Map::<Seq<char>, V>::empty(),
            r.wf(),
    {
        SymbolMap { entries: Vec::new() }
    }

    /// Bind `key` to `value`, replacing any earlier binding of the same
    /// symbol.
    pub fn insert(&mut self, key: String, value: V)
        requires
            old(self).wf(),
        ensures
            final(self)@ == old(self)@.insert(key@, value),
            final(self).wf(),
    {
        let n = self.entries.len();
        let mut i: usize = 0;
        while i < n
            invariant
                n == self.entries@.len(),
                0 <= i <= n,
                self.entries@ == old(self).entries@,
                distinct_keys(self.entries@),
                forall|j: int| 0 <= j < i ==> #[trigger] key_at(self.entries@, j) != key@,
            decreases n - i,
        {
            if self.entries[i].0 == key {
                proof {
                    assert(key_at(self.entries@, i as int) == key@);
                }
                self.entries[i] = (key, value);
                proof {
                    let ghost e = self.entries@[i as int];
                    lemma_to_map_update(old(self).entries@, i as int, e);
                    assert forall|p: int, q: int|
                        0 <= p < q < self.entries@.len() implies #[trigger] key_at(
                        self.entries@,
                        p,
                    ) != #[trigger] key_at(self.entries@, q) by {
                        assert(key_at(old(self).entries@, p) != key_at(old(self).entries@, q));
                        assert(key_at(self.entries@, p) == key_at(old(self).entries@, p));
                        assert(key_at(self.entries@, q) == key_at(old(self).entries@, q));
                    }
                }
                return ;
            }
            i = i + 1;
        }
        self.entries.push((key, value));
        proof {
            assert(self.entries@.drop_last() =~= old(self).entries@);
            assert forall|p: int, q: int|
                0 <= p < q < self.entries@.len() implies #[trigger] key_at(self.entries@, p)
                != #[trigger] key_at(self.entries@, q) by {
                if q < self.entries@.len() - 1 {
                    assert(key_at(old(self).entries@, p) != key_at(old(self).entries@, q));
                }
                assert(key_at(self.entries@, p) == key_at(old(self).entries@, p));
            }
        }
    }

    /// The value bound to `key`, if any.
    pub fn get(&self, key: &String) -> (r: Option<&V>)
        requires
            self.wf(),
        ensures
            r is Some <==> self@.contains_key(key@),
            r matches Some(v) ==> self@.contains_key(key@) && *v == self@[key@],
    {
        let n = self.entries.len();
        let mut i: usize = 0;
        while i < n
            invariant
                n == self.entries@.len(),
                0 <= i <= n,
                self.wf(),
                forall|j: int| 0 <= j < i ==> #[trigger] key_at(self.entries@, j) != key@,
            decreases n - i,
        {
            if self.entries[i].0 == *key {
                proof {
                    lemma_to_map_at(self.entries@, i as int);
                }
                return Some(&self.entries[i].1);
            }
            i = i + 1;
        }
        proof {
            lemma_to_map_contains(self.entries@, key@);
        }
        None
    }

    /// Whether any entry is bound to `key`.
    pub fn contains_key(&self, key: &String) -> (r: bool)
        requires
            self.wf(),
        ensures
            r == self@.contains_key(key@),
    {
        match self.get(key) {
            Some(_) => true,
            None => false,
        }
    }

    /// How many symbols are bound.
    pub fn len(&self) -> (r: usize)
        requires
            self.wf(),
        ensures
            r == self@.dom().len(),
    {
        proof {
            lemma_to_map_len(self.entries@);
        }
        self.entries.len()
    }

    /// The entries themselves, for iteration; each is a binding of the
    /// map.
    pub fn entries(&self) -> (r: &Vec<(String, V)>)
        requires
            self.wf(),
        ensures
            r@.len() == self@.dom().len(),
            forall|i: int|
                0 <= i < r@.len() ==> self@.contains_key(#[trigger] key_at(r@, i)) && self@[key_at(
                    r@,
                    i,
                )] == r@[i].1,
    {
        proof {
            lemma_to_map_len(self.entries@);
            assert forall|i: int| 0 <= i < self.entries@.len() implies self@.contains_key(
                #[trigger] key_at(self.entries@, i),
            ) && self@[key_at(self.entries@, i)] == self.entries@[i].1 by {
                lemma_to_map_at(self.entries@, i);
            }
        }
        &self.entries
    }
}

} // verus!
