//! Row identifiers and sets of them.
//!
//! A row id is a 64-bit integer whose upper 32 bits address the fragment (a
//! horizontal partition of the table) and whose lower 32 bits give the
//! ordinal within that fragment.  Search results are sets of row ids, kept in
//! canonical strictly increasing order.

use vstd::prelude::*;

verus! {

/// The fragment portion of a row id: its upper 32 bits.
pub open spec fn spec_fragment_id(row_id: u64) -> u32 {
    (row_id >> 32) as u32
}

/// Extract the fragment id addressed by the upper 32 bits of a row id.
pub fn fragment_id(row_id: u64) -> (f: u32)
    ensures
        f == spec_fragment_id(row_id),
{
    (row_id >> 32) as u32
}

/// A set of row ids, stored in strictly increasing order.
///
/// The order makes the representation canonical: two `RowIdSet` values hold
/// the same set of ids exactly when they are structurally equal.
#[derive(Clone, Debug, PartialEq, Eq)]
pub struct RowIdSet {
    ids: Vec<u64>,
}

impl View for RowIdSet {
    type V = Set<u64>;

    closed spec fn view(&self) -> Set<u64> {
        self.ids@.to_set()
    }
}

impl RowIdSet {
    /// The ids are strictly increasing, so each id occurs once.
    pub closed spec fn wf(&self) -> bool {
        forall|i: int, j: int| 0 <= i < j < self.ids@.len() ==> self.ids@[i] < self.ids@[j]
    }

    pub fn new() -> (s: RowIdSet)
        ensures
            s.wf(),
            s@ == Set::<u64>::empty(),
    {
        let s = RowIdSet { ids: Vec::new() };
        proof {
            assert(s.ids@.to_set() =~= Set::<u64>::empty());
        }
        s
    }

    pub fn len(&self) -> (n: usize)
        requires
            self.wf(),
        ensures
            n == self@.len(),
    {
        proof {
            self.ids@.unique_seq_to_set();
        }
        self.ids.len()
    }

    pub fn is_empty(&self) -> (b: bool)
        requires
            self.wf(),
        ensures
            b == self@.is_empty(),
    {
        proof {
            self.ids@.unique_seq_to_set();
            if self.ids@.len() == 0 {
                assert(self@ =~= Set::<u64>::empty());
            }
        }
        self.ids.len() == 0
    }

    pub fn contains(&self, id: u64) -> (b: bool)
        ensures
            b == self@.contains(id),
    {
        let n = self.ids.len();
        let mut i: usize = 0;
        while i < n
            invariant
                0 <= i <= n,
                n == self.ids@.len(),
                forall|j: int| 0 <= j < i ==> self.ids@[j] != id,
            decreases n - i,
        {
            if self.ids[i] == id {
                assert(self.ids@.contains(id));
                return true;
            }
            i = i + 1;
        }
        assert(!self.ids@.contains(id));
        false
    }

    /// Add an id to the set, keeping the strictly increasing order.
    pub fn insert(&mut self, id: u64)
        requires
            old(self).wf(),
        ensures
            final(self).wf(),
            final(self)@ == old(self)@.insert(id),
    {
        let ghost pre = self.ids@;
        let n = self.ids.len();
        let mut pos: usize = 0;
        while pos < n && self.ids[pos] < id
            invariant
                0 <= pos <= n,
                self.ids@ == pre,
                n == pre.len(),
                forall|j: int| 0 <= j < pos ==> pre[j] < id,
            decreases n - pos,
        {
            pos = pos + 1;
        }
        if pos < n && self.ids[pos] == id {
            proof {
                assert(pre.contains(id));
                assert(pre.to_set().insert(id) =~= pre.to_set());
            }
            return ;
        }
        self.ids.insert(pos, id);
        proof {
            let post = self.ids@;
            assert(post == pre.insert(pos as int, id));
            assert forall|i: int, j: int| 0 <= i < j < post.len() implies post[i] < post[j] by {
                if j < pos {
                } else if i < pos && j == pos {
                    assert(post[i] == pre[i] && post[j] == id);
                } else if i == pos {
                    assert(post[i] == id && post[j] == pre[j - 1]);
                    assert(!(pre[j - 1] < id));
                    assert(pre[j - 1] != id) by {
                        if pre[j - 1] == id {
                            assert(pre.contains(id));
                        }
                    }
                } else if i > pos {
                    assert(post[i] == pre[i - 1] && post[j] == pre[j - 1]);
                }
            }
            assert forall|x: u64| post.to_set().contains(x) implies pre.to_set().insert(
                id,
            ).contains(x) by {
                let j = choose|j: int| 0 <= j < post.len() && post[j] == x;
                if j != pos {
                    let k: int = if j < pos {
                        j
                    } else {
                        j - 1
                    };
                    assert(pre[k] == x);
                    assert(pre.contains(x));
                }
            }
            assert forall|x: u64| pre.to_set().insert(id).contains(x) implies
                post.to_set().contains(x) by {
                if x == id {
                    assert(post[pos as int] == x);
                    assert(post.contains(x));
                } else {
                    let j = choose|j: int| 0 <= j < pre.len() && pre[j] == x;
                    let k: int = if j < pos {
                        j
                    } else {
                        j + 1
                    };
                    assert(post[k] == x);
                    assert(post.contains(x));
                }
            }
            assert(post.to_set() =~= pre.to_set().insert(id));
        }
    }

    /// The ids in increasing order.
    pub fn to_vec(&self) -> (v: Vec<u64>)
        requires
            self.wf(),
        ensures
            v@.to_set() == self@,
            forall|i: int, j: int| 0 <= i < j < v@.len() ==> v@[i] < v@[j],
    {
        self.ids.clone()
    }
}

} // verus!
