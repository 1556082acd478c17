//! The set of obstacle identities currently intersecting the active
//! placement footprint, maintained from paired enter/exit notifications.

use vstd::prelude::*;

verus! {

/// A set of obstacle identities, backed by a duplicate-free vector and
/// viewed as the set of its elements. Its emptiness is the sole gate the
/// placement controller uses to allow confirmation.
#[derive(Clone, Debug)]
pub struct OverlapSet {
    items: Vec<u64>,
}

impl View for OverlapSet {
    type V = Set<u64>;

    closed spec fn view(&self) -> Set<u64> {
        self.items@.to_set()
    }
}

impl OverlapSet {
    /// No identity is held twice.
    pub closed spec fn wf(self) -> bool {
        self.items@.no_duplicates()
    }

    /// The empty set.
    pub fn new() -> (s: OverlapSet)
        ensures
            s.wf(),
            s@ == Set::<u64>::empty(),
    {
        let s = OverlapSet { items: Vec::new() };
        proof {
            assert(s.items@.to_set() =~= Set::<u64>::empty());
        }
        s
    }

    /// Whether obstacle `e` is in the set.
    pub fn contains(&self, e: u64) -> (r: bool)
        ensures
            r == self@.contains(e),
    {
        let mut i: usize = 0;
        while i < self.items.len()
            invariant
                i <= self.items.len(),
                forall|j: int| 0 <= j < i ==> self.items@[j] != e,
            decreases self.items.len() - i,
        {
            if self.items[i] == e {
                return true;
            }
            i = i + 1;
        }
        false
    }

    /// How many obstacles the set holds.
    pub fn len(&self) -> (n: usize)
        requires
            self.wf(),
        ensures
            n == self@.len(),
    {
        proof {
            self.items@.unique_seq_to_set();
        }
        self.items.len()
    }

    /// Whether no obstacle overlaps the footprint.
    pub fn is_empty(&self) -> (r: bool)
        ensures
            r == self@.is_empty(),
    {
        let r = self.items.len() == 0;
        proof {
            if self.items.len() == 0 {
                assert(self.items@.to_set() =~= Set::<u64>::empty());
            } else {
                assert(self.items@.to_set().contains(self.items@[0]));
            }
        }
        r
    }

    /// Inserts obstacle `e`; no effect when it is already tracked.
    pub fn insert(&mut self, e: u64)
        requires
            old(self).wf(),
        ensures
            final(self).wf(),
            final(self)@ == old(self)@.insert(e),
    {
        if !self.contains(e) {
            let ghost prior = self.items@;
            self.items.push(e);
            proof {
                assert(self.items@ =~= prior + seq![e]);
                assert forall|j1: int, j2: int|
                    0 <= j1 < j2 < self.items@.len() implies self.items@[j1] != self.items@[j2] by {
                    if j2 < prior.len() {
                        assert(prior[j1] != prior[j2]);
                    } else {
                        assert(!prior.contains(self.items@[j2]));
                    }
                }
                Seq::<u64>::lemma_to_set_insert_commutes(prior, e);
            }
        } else {
            proof {
                assert(old(self)@.insert(e) =~= old(self)@);
            }
        }
    }

    /// Removes obstacle `e`; no effect when it is not tracked.
    pub fn remove(&mut self, e: u64)
        requires
            old(self).wf(),
        ensures
            final(self).wf(),
            final(self)@ == old(self)@.remove(e),
    {
        let ghost prior = self.items@;
        let mut i: usize = 0;
        while i < self.items.len()
            invariant
                i <= self.items.len(),
                self.items@ == prior,
                prior == old(self).items@,
                prior.no_duplicates(),
                forall|j: int| 0 <= j < i ==> prior[j] != e,
            decreases self.items.len() - i,
        {
            if self.items[i] == e {
                self.items.remove(i);
                proof {
                    lemma_removed_index_set(prior, i as int);
                }
                return;
            }
            i = i + 1;
        }
        proof {
            assert(!prior.contains(e));
            assert(old(self)@.remove(e) =~= old(self)@);
        }
    }
}

/// Removing the element at index `i` from a duplicate-free sequence removes
/// exactly that element from the set of its elements.
proof fn lemma_removed_index_set(s: Seq<u64>, i: int)
    requires
        s.no_duplicates(),
        0 <= i < s.len(),
    ensures
        s.remove(i).no_duplicates(),
        s.remove(i).to_set() == s.to_set().remove(s[i]),
{
    let t = s.remove(i);
    let e = s[i];
    assert(t.len() == s.len() - 1);
    assert forall|j: int| 0 <= j < t.len() implies t[j] == (if j < i {
        s[j]
    } else {
        s[j + 1]
    }) by {}
    assert forall|j1: int, j2: int| 0 <= j1 < j2 < t.len() implies t[j1] != t[j2] by {
        let k1 = if j1 < i {
            j1
        } else {
            j1 + 1
        };
        let k2 = if j2 < i {
            j2
        } else {
            j2 + 1
        };
        assert(t[j1] == s[k1] && t[j2] == s[k2] && k1 < k2);
    }
    assert forall|x: u64| t.to_set().contains(x) implies s.to_set().remove(e).contains(x) by {
        let j = choose|j: int| 0 <= j < t.len() && t[j] == x;
        let k = if j < i {
            j
        } else {
            j + 1
        };
        assert(s[k] == x);
        assert(x != e);
    }
    assert forall|x: u64| s.to_set().remove(e).contains(x) implies t.to_set().contains(x) by {
        let k = choose|k: int| 0 <= k < s.len() && s[k] == x;
        assert(k != i);
        let j = if k < i {
            k
        } else {
            k - 1
        };
        assert(t[j] == x);
    }
    assert(t.to_set() =~= s.to_set().remove(e));
}

} // verus!
