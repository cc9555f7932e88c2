//! A tool inventory: how many tools of each kind a player may still place.

use vstd::prelude::*;

use crate::field::tool::Tool;

verus! {

/// The count stored for `key`: that of the first entry with the key.
pub open spec fn lookup_count(entries: Seq<(Tool, usize)>, key: Tool) -> Option<usize>
    decreases entries.len(),
{
    if entries.len() == 0 {
        None
    } else if entries[0].0 == key {
        Some(entries[0].1)
    } else {
        lookup_count(entries.drop_first(), key)
    }
}

/// The index of the first entry with `key`, if there is one.
pub open spec fn index_of_key(entries: Seq<(Tool, usize)>, key: Tool) -> Option<int>
    decreases entries.len(),
{
    if entries.len() == 0 {
        None
    } else if entries[0].0 == key {
        Some(0)
    } else {
        match index_of_key(entries.drop_first(), key) {
            Some(i) => Some(i + 1),
            None => None,
        }
    }
}

proof fn lemma_first_key(entries: Seq<(Tool, usize)>, key: Tool, i: int)
    requires
        0 <= i < entries.len(),
        entries[i].0 == key,
        forall|j: int| 0 <= j < i ==> entries[j].0 != key,
    ensures
        index_of_key(entries, key) == Some(i),
        lookup_count(entries, key) == Some(entries[i].1),
    decreases i,
{
    if i > 0 {
        assert forall|j: int| 0 <= j < i - 1 implies entries.drop_first()[j].0 != key by {
            assert(entries.drop_first()[j] == entries[j + 1]);
        }
        lemma_first_key(entries.drop_first(), key, i - 1);
    }
}

proof fn lemma_no_key(entries: Seq<(Tool, usize)>, key: Tool)
    requires
        forall|j: int| 0 <= j < entries.len() ==> entries[j].0 != key,
    ensures
        index_of_key(entries, key) is None,
        lookup_count(entries, key) is None,
    decreases entries.len(),
{
    if entries.len() > 0 {
        assert forall|j: int| 0 <= j < entries.len() - 1 implies entries.drop_first()[j].0
            != key by {
            assert(entries.drop_first()[j] == entries[j + 1]);
        }
        lemma_no_key(entries.drop_first(), key);
    }
}

/// Changing the count of the first entry with `key` changes the lookup of that key only.
proof fn lemma_update_first(entries: Seq<(Tool, usize)>, key: Tool, i: int, n: usize)
    requires
        index_of_key(entries, key) == Some(i),
    ensures
        0 <= i < entries.len(),
        forall|k: Tool| #[trigger]
            lookup_count(entries.update(i, (key, n)), k) == if k == key {
                Some(n)
            } else {
                lookup_count(entries, k)
            },
    decreases entries.len(),
{
    let u = entries.update(i, (key, n));
    if entries[0].0 == key {
        assert(i == 0);
        assert(u.drop_first() =~= entries.drop_first());
        assert forall|k: Tool| #[trigger]
            lookup_count(u, k) == if k == key {
                Some(n)
            } else {
                lookup_count(entries, k)
            } by {
            assert(u[0] == (key, n));
        }
    } else {
        lemma_update_first(entries.drop_first(), key, i - 1, n);
        assert(u.drop_first() =~= entries.drop_first().update(i - 1, (key, n)));
        assert forall|k: Tool| #[trigger]
            lookup_count(u, k) == if k == key {
                Some(n)
            } else {
                lookup_count(entries, k)
            } by {
            assert(u[0] == entries[0]);
            assert(lookup_count(u.drop_first(), k) == lookup_count(
                entries.drop_first().update(i - 1, (key, n)),
                k,
            ));
        }
    }
}

/// Appending an entry for a key that is not present adds exactly that key.
proof fn lemma_push_new(entries: Seq<(Tool, usize)>, key: Tool, n: usize)
    requires
        lookup_count(entries, key) is None,
    ensures
        forall|k: Tool| #[trigger]
            lookup_count(entries.push((key, n)), k) == if k == key {
                Some(n)
            } else {
                lookup_count(entries, k)
            },
    decreases entries.len(),
{
    let p = entries.push((key, n));
    if entries.len() == 0 {
        assert(p.drop_first() =~= Seq::<(Tool, usize)>::empty());
        assert forall|k: Tool| #[trigger]
            lookup_count(p, k) == if k == key {
                Some(n)
            } else {
                lookup_count(entries, k)
            } by {
            assert(p[0] == (key, n));
            assert(lookup_count(p.drop_first(), k) is None);
        }
    } else {
        lemma_push_new(entries.drop_first(), key, n);
        assert(p.drop_first() =~= entries.drop_first().push((key, n)));
        assert forall|k: Tool| #[trigger]
            lookup_count(p, k) == if k == key {
                Some(n)
            } else {
                lookup_count(entries, k)
            } by {
            assert(p[0] == entries[0]);
            assert(lookup_count(p.drop_first(), k) == lookup_count(
                entries.drop_first().push((key, n)),
                k,
            ));
        }
    }
}

/// How many tools of each kind are available; kinds without entry have no count.
#[derive(Debug, Clone, PartialEq, Eq, Default)]
pub struct Inventory {
    entries: Vec<(Tool, usize)>,
}

impl Inventory {
    /// The count of every tool that has one.
    pub closed spec fn counts(&self) -> Map<Tool, usize> {
        Map::new(
            |k: Tool| lookup_count(self.entries@, k) is Some,
            |k: Tool| lookup_count(self.entries@, k).unwrap(),
        )
    }

    /// Whether every kind has at most one entry.
    pub closed spec fn keys_unique(&self) -> bool {
        forall|i: int, j: int|
            0 <= i < j < self.entries@.len() ==> #[trigger] self.entries@[i].0 != #[trigger] self.entries@[j].0
    }

    /// The count of `key`, if it has one.
    pub open spec fn count_of(&self, key: Tool) -> Option<usize> {
        if self.counts().dom().contains(key) {
            Some(self.counts()[key])
        } else {
            None
        }
    }

    /// An inventory without any counts.
    pub fn new() -> (r: Inventory)
        ensures
            r.counts() == Map::<Tool, usize>::empty(),
            r.keys_unique(),
    {
        let r = Inventory { entries: Vec::new() };
        assert(r.counts() =~= Map::<Tool, usize>::empty());
        r
    }

    /// The count of `key`, if it has one.
    pub fn get(&self, key: Tool) -> (r: Option<usize>)
        ensures
            r == self.count_of(key),
    {
        let mut i: usize = 0;
        while i < self.entries.len()
            invariant
                i <= self.entries@.len(),
                forall|j: int| 0 <= j < i ==> self.entries@[j].0 != key,
            decreases self.entries@.len() - i,
        {
            if self.entries[i].0 == key {
                proof {
                    lemma_first_key(self.entries@, key, i as int);
                }
                return Some(self.entries[i].1);
            }
            i = i + 1;
        }
        proof {
            lemma_no_key(self.entries@, key);
        }
        None
    }

    /// Sets the count of `key` to `n`.
    pub fn insert(&mut self, key: Tool, n: usize)
        ensures
            final(self).counts() == old(self).counts().insert(key, n),
            old(self).keys_unique() ==> final(self).keys_unique(),
    {
        let mut i: usize = 0;
        while i < self.entries.len()
            invariant
                i <= self.entries@.len(),
                self.entries@ == old(self).entries@,
                forall|j: int| 0 <= j < i ==> self.entries@[j].0 != key,
            decreases self.entries@.len() - i,
        {
            if self.entries[i].0 == key {
                proof {
                    lemma_first_key(self.entries@, key, i as int);
                    lemma_update_first(self.entries@, key, i as int, n);
                }
                self.entries.set(i, (key, n));
                assert(self.counts() =~= old(self).counts().insert(key, n));
                return;
            }
            i = i + 1;
        }
        proof {
            lemma_no_key(self.entries@, key);
            lemma_push_new(self.entries@, key, n);
        }
        self.entries.push((key, n));
        assert(self.counts() =~= old(self).counts().insert(key, n));
    }
}

/// After setting the count of a kind, reading it gives the new count, and every other
/// kind reads as before.
pub proof fn lemma_count_after_insert(before: Inventory, after: Inventory, key: Tool, n: usize, other: Tool)
    requires
        after.counts() == before.counts().insert(key, n),
    ensures
        after.count_of(key) == Some(n),
        other != key ==> after.count_of(other) == before.count_of(other),
{
}

} // verus!
