//! Opaque-handle identity: small integers standing for library-owned
//! resources, one independent namespace per resource class (wallet, pool,
//! command, storage, search).
//!
//! Invariants of a namespace: the value 0 is reserved as "no handle" and is
//! never issued; two simultaneously live resources never share a value; a
//! released value may be reused by a later allocation; values carry no
//! meaning beyond identity.

use vstd::prelude::*;

verus! {

pub type IndyHandle = i32;

pub type CallbackHandle = i32;

pub type PoolHandle = i32;

pub type CommandHandle = i32;

pub type StorageHandle = i32;

pub type SearchHandle = i32;

/// A wallet handle, kept distinct from the other namespaces in signatures.
/// The value 0 denotes "no wallet".
#[derive(Debug, Hash, PartialEq, Eq, Copy, Clone, Structural)]
pub struct WalletHandle(pub i32);

/// No element occurs twice.
pub open spec fn distinct_seq(s: Seq<i32>) -> bool {
    forall|j: int, k: int| 0 <= j < k < s.len() ==> s[j] != s[k]
}

/// Counter-plus-reuse bookkeeping for one namespace. The allocator owns only
/// the bookkeeping; the resource behind a handle belongs to its subsystem.
pub struct HandleAllocator {
    next: i32,
    live: Vec<i32>,
    freed: Vec<i32>,
}

impl HandleAllocator {
    /// Internal soundness of the bookkeeping: every recorded value is
    /// positive and below the counter, no value is recorded twice, and no
    /// value is both live and awaiting reuse.
    pub closed spec fn wf(&self) -> bool {
        &&& 1 <= self.next
        &&& forall|k: int| 0 <= k < self.live@.len() ==> 0 < #[trigger] self.live@[k] < self.next
        &&& distinct_seq(self.live@)
        &&& forall|k: int| 0 <= k < self.freed@.len() ==> 0 < #[trigger] self.freed@[k] < self.next
        &&& distinct_seq(self.freed@)
        &&& forall|j: int, k: int|
            0 <= j < self.live@.len() && 0 <= k < self.freed@.len() ==> self.live@[j]
                != self.freed@[k]
    }

    /// Whether `h` currently names a live resource of this namespace.
    pub closed spec fn spec_is_live(&self, h: i32) -> bool {
        self.live@.contains(h)
    }

    /// A fresh value is available: either a released one awaits reuse or the
    /// counter has room. Only a namespace that exhausted every positive
    /// `i32` with none released lacks this.
    pub closed spec fn spec_can_allocate(&self) -> bool {
        self.freed@.len() > 0 || self.next < i32::MAX
    }

    /// An empty namespace: nothing live, counter at its start.
    pub fn new() -> (r: HandleAllocator)
        ensures
            r.wf(),
            forall|h: i32| !r.spec_is_live(h),
            r.spec_can_allocate(),
    {
        HandleAllocator { next: 1, live: Vec::new(), freed: Vec::new() }
    }

    pub fn can_allocate(&self) -> (r: bool)
        ensures
            r == self.spec_can_allocate(),
    {
        self.freed.len() > 0 || self.next < i32::MAX
    }

    /// Issue a handle: never 0, never a value that is live right now; a
    /// released value may come back. The result is live afterwards and
    /// nothing else changes liveness.
    pub fn allocate(&mut self) -> (r: i32)
        requires
            old(self).wf(),
            old(self).spec_can_allocate(),
        ensures
            final(self).wf(),
            r != 0,
            !old(self).spec_is_live(r),
            final(self).spec_is_live(r),
            forall|h: i32|
                final(self).spec_is_live(h) <==> (old(self).spec_is_live(h) || h == r),
    {
        let h: i32 = match self.freed.pop() {
            Some(v) => v,
            None => {
                let v = self.next;
                self.next = self.next + 1;
                v
            },
        };
        proof {
            assert(!self.live@.contains(h)) by {
                if self.live@.contains(h) {
                    let j = choose|j: int| 0 <= j < self.live@.len() && self.live@[j] == h;
                }
            }
        }
        self.live.push(h);
        proof {
            assert forall|h2: i32| final(self).spec_is_live(h2) <==> (old(self).spec_is_live(h2)
                || h2 == h) by {
                if old(self).spec_is_live(h2) {
                    let j = choose|j: int|
                        0 <= j < old(self).live@.len() && old(self).live@[j] == h2;
                    assert(self.live@[j] == h2);
                }
                if h2 == h {
                    assert(self.live@[self.live@.len() - 1] == h2);
                }
                if self.live@.contains(h2) {
                    let j = choose|j: int| 0 <= j < self.live@.len() && self.live@[j] == h2;
                    if j < self.live@.len() - 1 {
                        assert(old(self).live@[j] == h2);
                    }
                }
            }
        }
        h
    }

    /// Whether `h` names a live resource. Presenting a dead handle to a
    /// subsystem is answered there with that subsystem's invalid-handle
    /// code; the allocator only answers the liveness question.
    pub fn is_live(&self, h: i32) -> (r: bool)
        ensures
            r == self.spec_is_live(h),
    {
        let mut i: usize = 0;
        while i < self.live.len()
            invariant
                0 <= i <= self.live@.len(),
                forall|k: int| 0 <= k < i ==> self.live@[k] != h,
            decreases self.live@.len() - i,
        {
            if self.live[i] == h {
                proof {
                    assert(self.live@[i as int] == h);
                }
                return true;
            }
            i = i + 1;
        }
        proof {
            if self.live@.contains(h) {
                let j = choose|j: int| 0 <= j < self.live@.len() && self.live@[j] == h;
            }
        }
        false
    }

    /// Retire `h`: afterwards it is not live and every other value keeps its
    /// liveness. Releasing a value that is not live is a harmless no-op, so
    /// release is idempotent and never fails.
    pub fn release(&mut self, h: i32)
        requires
            old(self).wf(),
        ensures
            final(self).wf(),
            !final(self).spec_is_live(h),
            forall|h2: i32|
                final(self).spec_is_live(h2) <==> (old(self).spec_is_live(h2) && h2 != h),
            old(self).spec_can_allocate() ==> final(self).spec_can_allocate(),
    {
        let mut i: usize = 0;
        while i < self.live.len()
            invariant
                old(self) == self,
                old(self).wf(),
                0 <= i <= self.live@.len(),
                forall|k: int| 0 <= k < i ==> self.live@[k] != h,
            decreases self.live@.len() - i,
        {
            if self.live[i] == h {
                proof {
                    assert(self.live@[i as int] == h);
                }
                let ghost pre = self.live@;
                let ghost prefreed = self.freed@;
                self.live.remove(i);
                self.freed.push(h);
                proof {
                    let gi = i as int;
                    pre.remove_ensures(gi);
                    assert(self.live@ == pre.remove(gi));
                    assert(self.freed@ == prefreed.push(h));
                    assert forall|h2: i32|
                        self.live@.contains(h2) <==> (pre.contains(h2) && h2 != h) by {
                        if self.live@.contains(h2) {
                            let j = choose|j: int|
                                0 <= j < self.live@.len() && self.live@[j] == h2;
                            if j < gi {
                                assert(pre.remove(gi)[j] == pre[j]);
                                assert(pre[j] != pre[gi]);
                            } else {
                                assert(pre.remove(gi)[j] == pre[j + 1]);
                                assert(pre[j + 1] != pre[gi]);
                            }
                        }
                        if pre.contains(h2) && h2 != h {
                            let j = choose|j: int| 0 <= j < pre.len() && pre[j] == h2;
                            if j < gi {
                                assert(pre.remove(gi)[j] == pre[j]);
                            } else {
                                assert(pre.remove(gi)[j - 1] == pre[j]);
                            }
                        }
                    }
                    assert forall|k: int|
                        0 <= k < self.live@.len() implies 0 < #[trigger] self.live@[k]
                        < self.next by {
                        if k < gi {
                            assert(self.live@[k] == pre[k]);
                        } else {
                            assert(self.live@[k] == pre[k + 1]);
                        }
                    }
                    assert forall|j: int, k: int|
                        0 <= j < k < self.live@.len() implies self.live@[j] != self.live@[k] by {
                        let j0 = if j < gi { j } else { j + 1 };
                        let k0 = if k < gi { k } else { k + 1 };
                        assert(self.live@[j] == pre[j0]);
                        assert(self.live@[k] == pre[k0]);
                        assert(pre[j0] != pre[k0]);
                    }
                    assert(!prefreed.contains(h)) by {
                        if prefreed.contains(h) {
                            let k = choose|k: int|
                                0 <= k < prefreed.len() && prefreed[k] == h;
                            assert(pre[gi] != prefreed[k]);
                        }
                    }
                    assert forall|j: int, k: int|
                        0 <= j < k < self.freed@.len() implies self.freed@[j]
                        != self.freed@[k] by {
                        if k < prefreed.len() {
                            assert(self.freed@[j] == prefreed[j]);
                            assert(self.freed@[k] == prefreed[k]);
                        } else {
                            assert(self.freed@[k] == h);
                            assert(self.freed@[j] == prefreed[j]);
                            assert(!prefreed.contains(h));
                            assert(prefreed[j] != h);
                        }
                    }
                    assert forall|j: int, k: int|
                        0 <= j < self.live@.len() && 0 <= k
                            < self.freed@.len() implies self.live@[j] != self.freed@[k] by {
                        let j0 = if j < gi { j } else { j + 1 };
                        assert(self.live@[j] == pre[j0]);
                        if k < prefreed.len() {
                            assert(self.freed@[k] == prefreed[k]);
                            assert(pre[j0] != prefreed[k]);
                        } else {
                            assert(self.freed@[k] == h);
                            assert(pre[j0] != pre[gi]);
                        }
                    }
                }
                return ;
            }
            i = i + 1;
        }
        proof {
            if self.live@.contains(h) {
                let j = choose|j: int| 0 <= j < self.live@.len() && self.live@[j] == h;
            }
        }
    }
}

/// Allocation freshness compounds: if a run of handles is issued into one
/// namespace with none of them released in between, each being nonzero and
/// not live at its own allocation (exactly what `allocate` ensures, under
/// any serialization of concurrent callers), then the run is pairwise
/// distinct and nonzero throughout.
pub proof fn lemma_allocations_distinct(live0: Seq<i32>, hs: Seq<i32>)
    requires
        forall|i: int|
            0 <= i < hs.len() ==> hs[i] != 0 && !live0.contains(hs[i]) && !hs.take(i).contains(
                hs[i],
            ),
    ensures
        forall|i: int, j: int| 0 <= i < j < hs.len() ==> hs[i] != hs[j],
        forall|i: int| 0 <= i < hs.len() ==> hs[i] != 0,
{
    assert forall|i: int, j: int| 0 <= i < j < hs.len() implies hs[i] != hs[j] by {
        assert(hs.take(j)[i] == hs[i]);
        if hs[i] == hs[j] {
            assert(hs.take(j).contains(hs[j]));
        }
    }
}

} // verus!
