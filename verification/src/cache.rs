//! The node neighbor cache.
//!
//! The cache memoizes, per node, the directed traversals leading away from
//! that node, as the edge store handed them out. Entries are created on
//! first lookup, evicted oldest-inserted-first when a fixed capacity is
//! exceeded, invalidated one node at a time when a score, closure or
//! road-work fact changes for ways touching that node, and cleared
//! wholesale on data re-import.
//!
//! The representation is an association list in insertion order with no
//! duplicate keys; `spec_find` is its lookup function and the contracts of
//! every operation are stated over it.

use crate::edge::EdgePoint;
use vstd::prelude::*;

verus! {

/// What a lookup finds in an association list: the value of the first
/// entry carrying the key.
pub open spec fn spec_find(s: Seq<(i64, Vec<EdgePoint>)>, node: i64) -> Option<Seq<EdgePoint>>
    decreases s.len(),
{
    if s.len() == 0 {
        None
    } else if s[0].0 == node {
        Some(s[0].1@)
    } else {
        spec_find(s.drop_first(), node)
    }
}

/// No two entries carry the same key.
pub open spec fn spec_distinct_keys(s: Seq<(i64, Vec<EdgePoint>)>) -> bool {
    forall|i: int, j: int| 0 <= i < j < s.len() ==> s[i].0 != s[j].0
}

/// A found key names some entry, and with distinct keys the entry it names
/// is the only one.
proof fn lemma_find_index(s: Seq<(i64, Vec<EdgePoint>)>, node: i64, i: int)
    requires
        spec_distinct_keys(s),
        0 <= i < s.len(),
        s[i].0 == node,
    ensures
        spec_find(s, node) == Some(s[i].1@),
    decreases s.len(),
{
    if i == 0 {
    } else {
        lemma_find_index(s.drop_first(), node, i - 1);
    }
}

/// A key that no entry carries is not found.
proof fn lemma_find_absent(s: Seq<(i64, Vec<EdgePoint>)>, node: i64)
    requires
        forall|i: int| 0 <= i < s.len() ==> s[i].0 != node,
    ensures
        spec_find(s, node) is None,
    decreases s.len(),
{
    if s.len() > 0 {
        lemma_find_absent(s.drop_first(), node);
    }
}

/// Pushing an entry at the end changes only the lookup of its key, and
/// that only when the key was absent.
proof fn lemma_find_push(s: Seq<(i64, Vec<EdgePoint>)>, x: (i64, Vec<EdgePoint>), node: i64)
    ensures
        spec_find(s, node) is Some ==> spec_find(s.push(x), node) == spec_find(s, node),
        spec_find(s, node) is None && x.0 == node ==> spec_find(s.push(x), node) == Some(x.1@),
        spec_find(s, node) is None && x.0 != node ==> spec_find(s.push(x), node) is None,
    decreases s.len(),
{
    if s.len() == 0 {
        assert(s.push(x)[0] == x);
        assert(s.push(x).drop_first() =~= Seq::<(i64, Vec<EdgePoint>)>::empty());
        assert(spec_find(Seq::<(i64, Vec<EdgePoint>)>::empty(), node) is None);
    } else {
        assert(s.push(x)[0] == s[0]);
        assert(s.push(x).drop_first() =~= s.drop_first().push(x));
        lemma_find_push(s.drop_first(), x, node);
    }
}

/// Updating the entry at one index changes only the lookup of the keys
/// involved at that index.
proof fn lemma_find_update(
    s: Seq<(i64, Vec<EdgePoint>)>,
    i: int,
    x: (i64, Vec<EdgePoint>),
    node: i64,
)
    requires
        spec_distinct_keys(s),
        0 <= i < s.len(),
        s[i].0 == x.0,
    ensures
        node == x.0 ==> spec_find(s.update(i, x), node) == Some(x.1@),
        node != x.0 ==> spec_find(s.update(i, x), node) == spec_find(s, node),
    decreases s.len(),
{
    if i == 0 {
        assert(s.update(0, x)[0] == x);
        assert(s.update(0, x).drop_first() =~= s.drop_first());
    } else {
        assert(s.update(i, x)[0] == s[0]);
        assert(s.update(i, x).drop_first() =~= s.drop_first().update(i - 1, x));
        lemma_find_update(s.drop_first(), i - 1, x, node);
    }
}

/// Removing the entry at one index removes its key from the lookup and
/// leaves every other key's lookup unchanged.
proof fn lemma_find_remove(s: Seq<(i64, Vec<EdgePoint>)>, i: int, node: i64)
    requires
        spec_distinct_keys(s),
        0 <= i < s.len(),
    ensures
        node == s[i].0 ==> spec_find(s.remove(i), node) is None,
        node != s[i].0 ==> spec_find(s.remove(i), node) == spec_find(s, node),
    decreases s.len(),
{
    if node == s[i].0 {
        assert forall|j: int| 0 <= j < s.remove(i).len() implies s.remove(i)[j].0 != node by {
            if j < i {
                assert(s.remove(i)[j] == s[j]);
            } else {
                assert(s.remove(i)[j] == s[j + 1]);
            }
        }
        lemma_find_absent(s.remove(i), node);
    } else {
        if i == 0 {
            assert(s.remove(0) =~= s.drop_first());
        } else {
            assert(s.remove(i)[0] == s[0]);
            assert(s.remove(i).drop_first() =~= s.drop_first().remove(i - 1));
            lemma_find_remove(s.drop_first(), i - 1, node);
        }
    }
}

/// The node neighbor cache: an insertion-ordered association list from
/// node id to that node's outgoing traversals, bounded by a capacity.
pub struct EdgePointCache {
    entries: Vec<(i64, Vec<EdgePoint>)>,
    capacity: usize,
}

impl EdgePointCache {
    /// The entries in insertion order.
    pub closed spec fn spec_entries(&self) -> Seq<(i64, Vec<EdgePoint>)> {
        self.entries@
    }

    /// The capacity the cache was created with.
    pub closed spec fn spec_capacity(&self) -> usize {
        self.capacity
    }

    /// What a lookup of `node` finds.
    pub open spec fn spec_get(&self, node: i64) -> Option<Seq<EdgePoint>> {
        spec_find(self.spec_entries(), node)
    }

    /// How many nodes are cached.
    pub open spec fn spec_len(&self) -> nat {
        self.spec_entries().len()
    }

    /// Keys are distinct, the capacity is positive, and the entry count
    /// never exceeds it.
    pub open spec fn wf(&self) -> bool {
        &&& spec_distinct_keys(self.spec_entries())
        &&& self.spec_capacity() >= 1
        &&& self.spec_len() <= self.spec_capacity()
    }

    /// An empty cache holding at most `capacity` nodes.
    pub fn new(capacity: usize) -> (c: EdgePointCache)
        requires
            capacity >= 1,
        ensures
            c.wf(),
            c.spec_len() == 0,
            c.spec_capacity() == capacity,
            forall|n: i64| c.spec_get(n) is None,
    {
        let c = EdgePointCache { entries: Vec::new(), capacity };
        proof {
            assert forall|n: i64| c.spec_get(n) is None by {
                lemma_find_absent(c.spec_entries(), n);
            }
        }
        c
    }

    /// How many nodes are cached.
    pub fn len(&self) -> (n: usize)
        ensures
            n == self.spec_len(),
    {
        self.entries.len()
    }

    /// The cached traversals for `node`, if present.
    pub fn get(&self, node: i64) -> (r: Option<&Vec<EdgePoint>>)
        requires
            self.wf(),
        ensures
            match r {
                Some(v) => self.spec_get(node) == Some(v@),
                None => self.spec_get(node) is None,
            },
    {
        let n = self.entries.len();
        let mut i: usize = 0;
        while i < n
            invariant
                n == self.entries@.len(),
                0 <= i <= n,
                self.wf(),
                forall|j: int| 0 <= j < i ==> self.entries@[j].0 != node,
            decreases n - i,
        {
            if self.entries[i].0 == node {
                proof {
                    lemma_find_index(self.spec_entries(), node, i as int);
                }
                return Some(&self.entries[i].1);
            }
            i = i + 1;
        }
        proof {
            lemma_find_absent(self.spec_entries(), node);
        }
        None
    }

    /// Caches `neighbors` for `node`. An already-cached node is replaced in
    /// place; a new node evicts the single oldest-inserted key first when
    /// the cache is full. Everything still cached afterwards is exactly
    /// what it was before.
    pub fn insert(&mut self, node: i64, neighbors: Vec<EdgePoint>)
        requires
            old(self).wf(),
        ensures
            final(self).wf(),
            final(self).spec_capacity() == old(self).spec_capacity(),
            final(self).spec_get(node) == Some(neighbors@),
            old(self).spec_get(node) is Some ==> {
                &&& final(self).spec_len() == old(self).spec_len()
                &&& forall|k: i64|
                    k != node ==> final(self).spec_get(k) == old(self).spec_get(k)
            },
            old(self).spec_get(node) is None && old(self).spec_len() < old(self).spec_capacity()
                ==> {
                &&& final(self).spec_len() == old(self).spec_len() + 1
                &&& forall|k: i64|
                    k != node ==> final(self).spec_get(k) == old(self).spec_get(k)
            },
            old(self).spec_get(node) is None && old(self).spec_len() == old(self).spec_capacity()
                ==> {
                &&& final(self).spec_len() == old(self).spec_len()
                &&& final(self).spec_get(old(self).spec_entries()[0].0) is None
                &&& forall|k: i64|
                    k != node && k != old(self).spec_entries()[0].0 ==> final(self).spec_get(k)
                        == old(self).spec_get(k)
            },
    {
        let ghost pre = self.entries@;
        let n = self.entries.len();
        let mut i: usize = 0;
        while i < n
            invariant
                n == self.entries@.len(),
                0 <= i <= n,
                self.entries@ == pre,
                pre == old(self).spec_entries(),
                self.spec_capacity() == old(self).spec_capacity(),
                old(self).wf(),
                spec_distinct_keys(pre),
                forall|j: int| 0 <= j < i ==> self.entries@[j].0 != node,
            decreases n - i,
        {
            if self.entries[i].0 == node {
                proof {
                    lemma_find_index(pre, node, i as int);
                }
                let ghost value_view = neighbors@;
                self.entries[i] = (node, neighbors);
                proof {
                    let x = self.entries@[i as int];
                    assert(self.entries@ == pre.update(i as int, x));
                    assert(x.0 == node && x.1@ == value_view);
                    assert forall|j: int|
                        0 <= j < self.entries@.len() implies self.entries@[j].0 == pre[j].0 by {
                        if j != i {
                            assert(self.entries@[j] == pre[j]);
                        }
                    }
                    assert(spec_distinct_keys(self.entries@));
                    assert forall|k: i64| #![auto]
                        spec_find(self.entries@, k) == (if k == node {
                            Some(value_view)
                        } else {
                            spec_find(pre, k)
                        }) by {
                        lemma_find_update(pre, i as int, x, k);
                    }
                }
                return ;
            }
            i = i + 1;
        }
        proof {
            lemma_find_absent(pre, node);
        }
        if self.entries.len() == self.capacity {
            let ghost oldest = self.entries@[0].0;
            self.entries.remove(0);
            proof {
                assert forall|j: int|
                    0 <= j < self.entries@.len() implies self.entries@[j] == pre[j + 1] by {
                    assert(self.entries@[j] == pre.remove(0)[j]);
                }
                assert(spec_distinct_keys(self.entries@));
                assert forall|k: i64| #![auto]
                    spec_find(self.entries@, k) == (if k == oldest {
                        None
                    } else {
                        spec_find(pre, k)
                    }) by {
                    lemma_find_remove(pre, 0, k);
                    assert(self.entries@ == pre.remove(0));
                }
            }
        }
        let ghost mid = self.entries@;
        let ghost value_view = neighbors@;
        proof {
            assert forall|j: int| 0 <= j < mid.len() implies mid[j].0 != node by {
                if mid.len() == pre.len() {
                    assert(mid[j] == pre[j]);
                } else {
                    assert(mid[j] == pre[j + 1]);
                }
            }
            lemma_find_absent(mid, node);
            assert(spec_distinct_keys(mid));
        }
        self.entries.push((node, neighbors));
        proof {
            let x = self.entries@[self.entries@.len() - 1];
            assert(self.entries@ == mid.push(x));
            assert(x.0 == node && x.1@ == value_view);
            assert forall|a: int, b: int|
                0 <= a < b < self.entries@.len() implies self.entries@[a].0
                    != self.entries@[b].0 by {
                if b < self.entries@.len() - 1 {
                    assert(self.entries@[a] == mid[a] && self.entries@[b] == mid[b]);
                } else {
                    assert(self.entries@[a] == mid[a]);
                }
            }
            assert forall|k: i64| #![auto]
                spec_find(self.entries@, k) == (if k == node {
                    Some(value_view)
                } else {
                    spec_find(mid, k)
                }) by {
                lemma_find_push(mid, x, k);
            }
        }
    }

    /// Drops the entry for `node`, if any; every other entry is unchanged.
    pub fn remove(&mut self, node: i64)
        requires
            old(self).wf(),
        ensures
            final(self).wf(),
            final(self).spec_capacity() == old(self).spec_capacity(),
            final(self).spec_get(node) is None,
            forall|k: i64| k != node ==> final(self).spec_get(k) == old(self).spec_get(k),
            final(self).spec_len() <= old(self).spec_len(),
    {
        let ghost pre = self.entries@;
        let n = self.entries.len();
        let mut i: usize = 0;
        while i < n
            invariant
                n == self.entries@.len(),
                0 <= i <= n,
                self.entries@ == pre,
                pre == old(self).spec_entries(),
                self.spec_capacity() == old(self).spec_capacity(),
                old(self).wf(),
                spec_distinct_keys(pre),
                forall|j: int| 0 <= j < i ==> self.entries@[j].0 != node,
            decreases n - i,
        {
            if self.entries[i].0 == node {
                self.entries.remove(i);
                proof {
                    assert forall|j: int, l: int|
                        0 <= j < l < self.entries@.len() implies self.entries@[j].0
                            != self.entries@[l].0 by {
                        assert(self.entries@[j] == pre.remove(i as int)[j]);
                        assert(self.entries@[l] == pre.remove(i as int)[l]);
                        if l < i {
                            assert(pre.remove(i as int)[j] == pre[j]);
                            assert(pre.remove(i as int)[l] == pre[l]);
                        } else if j < i {
                            assert(pre.remove(i as int)[j] == pre[j]);
                            assert(pre.remove(i as int)[l] == pre[l + 1]);
                        } else {
                            assert(pre.remove(i as int)[j] == pre[j + 1]);
                            assert(pre.remove(i as int)[l] == pre[l + 1]);
                        }
                    }
                    assert forall|k: i64| #![auto]
                        spec_find(self.entries@, k) == (if k == node {
                            None
                        } else {
                            spec_find(pre, k)
                        }) by {
                        lemma_find_remove(pre, i as int, k);
                    }
                }
                return ;
            }
            i = i + 1;
        }
        proof {
            lemma_find_absent(pre, node);
        }
    }

    /// Empties the cache.
    pub fn clear(&mut self)
        requires
            old(self).wf(),
        ensures
            final(self).wf(),
            final(self).spec_capacity() == old(self).spec_capacity(),
            final(self).spec_len() == 0,
            forall|n: i64| final(self).spec_get(n) is None,
    {
        self.entries = Vec::new();
        proof {
            assert forall|n: i64| final(self).spec_get(n) is None by {
                lemma_find_absent(self.entries@, n);
            }
        }
    }
}

} // verus!
