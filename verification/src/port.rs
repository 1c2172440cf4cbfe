//! Allocator of public ports for dynamically registered tunnels.
//!
//! The manager owns the set of currently-free ports of a configured
//! inclusive range.  `allocate` hands a free port out, `release` puts a
//! port back when its tunnel is torn down, and `remove` marks a port as
//! unusable after a failed bind.  The manager does not itself bind
//! sockets: the caller binds the port it was handed and reports failure
//! with `remove`.
use vstd::prelude::*;

verus! {

/// Owner of the free public ports of one server process.
pub struct PortManager {
    free: Vec<u16>,
}

impl PortManager {
    /// A port is free exactly when the manager still holds it.
    pub closed spec fn is_free(self, p: u16) -> bool {
        self.free@.contains(p)
    }

    /// The free list never holds a port twice; otherwise one port could
    /// be handed to two callers.
    pub closed spec fn wf(self) -> bool {
        self.free@.no_duplicates()
    }

    /// How many ports are still free.
    pub closed spec fn free_count(self) -> nat {
        self.free@.len()
    }

    /// One `allocate` call: `p` was free before, is free no longer, and no
    /// other port changed state.
    pub open spec fn allocates(pre: PortManager, p: u16, post: PortManager) -> bool {
        &&& pre.is_free(p)
        &&& !post.is_free(p)
        &&& forall|q: u16| q != p ==> post.is_free(q) == pre.is_free(q)
    }

    /// A manager whose free set is the whole range `lo..=hi`.
    pub fn new(lo: u16, hi: u16) -> (r: PortManager)
        requires
            lo <= hi,
        ensures
            r.wf(),
            forall|q: u16| r.is_free(q) <==> lo <= q <= hi,
            r.free_count() == hi - lo + 1,
    {
        let mut free: Vec<u16> = Vec::new();
        let mut next: u32 = lo as u32;
        while next <= hi as u32
            invariant
                lo <= hi,
                (lo as u32) <= next <= (hi as u32) + 1,
                free@.no_duplicates(),
                free@.len() == next - lo,
                forall|q: u16| free@.contains(q) <==> (lo as u32) <= (q as u32) < next,
            decreases (hi as u32) + 1 - next,
        {
            let p: u16 = next as u16;
            assert(!free@.contains(p));
            let ghost before = free@;
            free.push(p);
            proof {
                assert(free@ == before.push(p));
                assert(next < 0x10000);
                assert(p as u32 == next);
                assert forall|q: u16| free@.contains(q) implies (lo as u32) <= (q as u32) < next
                    + 1 by {
                    let i = choose|i: int| 0 <= i < free@.len() && free@[i] == q;
                    if i < before.len() {
                        assert(before[i] == q);
                        assert(before.contains(q));
                    } else {
                        assert(i == before.len());
                        assert(free@[i] == p);
                        assert(q == p);
                    }
                }
                assert forall|q: u16| (lo as u32) <= (q as u32) < next + 1 implies free@.contains(
                    q,
                ) by {
                    if (q as u32) < next {
                        assert(before.contains(q));
                        let i = choose|i: int| 0 <= i < before.len() && before[i] == q;
                        assert(free@[i] == q);
                    } else {
                        assert(q == p);
                        assert(free@[before.len() as int] == p);
                    }
                }
            }
            next = next + 1;
        }
        PortManager { free }
    }

    /// Pops an arbitrary free port, or reports exhaustion with `None`
    /// when the free set is empty.
    pub fn allocate(&mut self) -> (r: Option<u16>)
        requires
            old(self).wf(),
        ensures
            final(self).wf(),
            r matches Some(p) ==> PortManager::allocates(*old(self), p, *final(self)),
            r is None <==> old(self).free_count() == 0,
            r is None ==> forall|q: u16| !old(self).is_free(q),
            r is None ==> forall|q: u16| final(self).is_free(q) == old(self).is_free(q),
            final(self).free_count() == if r is Some { old(self).free_count() - 1 } else { old(self).free_count() as int },
    {
        let r = self.free.pop();
        proof {
            if let Some(p) = r {
                let pre = old(self).free@;
                assert(self.free@ == pre.drop_last());
                assert(!self.free@.contains(p)) by {
                    if self.free@.contains(p) {
                        let i = choose|i: int| 0 <= i < self.free@.len() && self.free@[i] == p;
                        assert(pre[i] == p && pre[pre.len() - 1] == p && i != pre.len() - 1);
                    }
                }
                assert forall|q: u16| q != p implies self.is_free(q) == old(self).is_free(q) by {
                    if pre.contains(q) {
                        let i = choose|i: int| 0 <= i < pre.len() && pre[i] == q;
                        assert(i != pre.len() - 1);
                        assert(self.free@[i] == q);
                    }
                    if self.free@.contains(q) {
                        let i = choose|i: int| 0 <= i < self.free@.len() && self.free@[i] == q;
                        assert(pre[i] == q);
                    }
                }
            }
        }
        r
    }

    /// Returns a port to the free set; a port that is already free stays
    /// free once.
    pub fn release(&mut self, p: u16)
        requires
            old(self).wf(),
        ensures
            final(self).wf(),
            final(self).is_free(p),
            forall|q: u16| q != p ==> final(self).is_free(q) == old(self).is_free(q),
    {
        if !self.holds(p) {
            self.free.push(p);
            proof {
                let pre = old(self).free@;
                assert(self.free@ == pre.push(p));
                assert(self.free@.drop_last() == pre);
                assert(forall|q: u16| pre.contains(q) ==> self.free@.contains(q)) by {
                    assert forall|q: u16| pre.contains(q) implies self.free@.contains(q) by {
                        let i = choose|i: int| 0 <= i < pre.len() && pre[i] == q;
                        assert(self.free@[i] == q);
                    }
                }
                assert forall|q: u16| self.free@.contains(q) && q != p implies pre.contains(q) by {
                    let i = choose|i: int| 0 <= i < self.free@.len() && self.free@[i] == q;
                    assert(i != self.free@.len() - 1);
                    assert(pre[i] == q);
                }
                assert(self.free@.contains(p)) by {
                    assert(self.free@[self.free@.len() - 1] == p);
                }
            }
        }
    }

    /// Marks a port permanently unusable: it leaves the free set and the
    /// manager will not hand it out again until it is released.
    pub fn remove(&mut self, p: u16)
        requires
            old(self).wf(),
        ensures
            final(self).wf(),
            !final(self).is_free(p),
            forall|q: u16| q != p ==> final(self).is_free(q) == old(self).is_free(q),
    {
        let ghost pre = self.free@;
        let mut i: usize = 0;
        while i < self.free.len()
            invariant
                old(self).wf(),
                pre == old(self).free@,
                self.free@ == pre,
                i <= pre.len(),
                forall|j: int| 0 <= j < i ==> pre[j] != p,
            decreases pre.len() - i,
        {
            if self.free[i] == p {
                self.free.remove(i);
                proof {
                    assert(self.free@ == pre.remove(i as int));
                    pre.remove_ensures(i as int);
                    assert(self.free@.no_duplicates()) by {
                        assert forall|j: int, k: int|
                            0 <= j < k < self.free@.len() implies self.free@[j]
                            != self.free@[k] by {
                            let j0: int = if j < i { j } else { j + 1 };
                            let k0: int = if k < i { k } else { k + 1 };
                            assert(self.free@[j] == pre[j0] && self.free@[k] == pre[k0]);
                            assert(j0 < k0);
                        }
                    }
                    assert(!self.free@.contains(p)) by {
                        if self.free@.contains(p) {
                            let j = choose|j: int| 0 <= j < self.free@.len() && self.free@[j] == p;
                            if j < i {
                                assert(pre[j] == p);
                            } else {
                                assert(pre[j + 1] == p && pre[i as int] == p && j + 1 != i);
                            }
                        }
                    }
                    assert forall|q: u16| q != p implies self.is_free(q) == old(self).is_free(q) by {
                        if pre.contains(q) {
                            let j = choose|j: int| 0 <= j < pre.len() && pre[j] == q;
                            if j < i {
                                assert(self.free@[j] == q);
                            } else {
                                assert(j != i);
                                assert(self.free@[j - 1] == q);
                            }
                        }
                        if self.free@.contains(q) {
                            let j = choose|j: int| 0 <= j < self.free@.len() && self.free@[j] == q;
                            if j < i {
                                assert(pre[j] == q);
                            } else {
                                assert(pre[j + 1] == q);
                            }
                        }
                    }
                }
                return;
            }
            i = i + 1;
        }
        assert(!pre.contains(p)) by {
            if pre.contains(p) {
                let j = choose|j: int| 0 <= j < pre.len() && pre[j] == p;
            }
        }
    }

    /// Whether the manager still holds `p` in its free set.
    pub fn holds(&self, p: u16) -> (r: bool)
        ensures
            r == self.is_free(p),
    {
        let mut i: usize = 0;
        while i < self.free.len()
            invariant
                i <= self.free@.len(),
                forall|j: int| 0 <= j < i ==> self.free@[j] != p,
            decreases self.free@.len() - i,
        {
            if self.free[i] == p {
                return true;
            }
            i = i + 1;
        }
        false
    }

    /// How many ports are currently free.
    pub fn available(&self) -> (n: usize)
        ensures
            n == self.free_count(),
    {
        self.free.len()
    }
}

/// Two allocations with no release or remove between them never hand out
/// the same port: the first allocation takes its port out of the free set,
/// and the second can only return a port that is still free.
pub proof fn lemma_no_double_grant(
    m0: PortManager,
    p1: u16,
    m1: PortManager,
    p2: u16,
    m2: PortManager,
)
    requires
        PortManager::allocates(m0, p1, m1),
        PortManager::allocates(m1, p2, m2),
    ensures
        p1 != p2,
{
    assert(m1.is_free(p2));
    assert(!m1.is_free(p1));
}

} // verus!
