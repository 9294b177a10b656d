use std::collections::HashMap;
use vstd::prelude::*;
use vstd::std_specs::hash::spec_values_iter;
use vstd::std_specs::iter::IteratorSpec;

use crate::region::Region;

verus! {

broadcast use vstd::std_specs::hash::group_hash_axioms;

/// True when some active claim overlaps `r`.
pub open spec fn conflicts(active: Map<usize, Region>, r: Region) -> bool {
    exists|k: usize| #[trigger] active.contains_key(k) && active[k].spec_overlaps(r)
}

/// No two claims of the map share a byte.
pub open spec fn pairwise_disjoint(active: Map<usize, Region>) -> bool {
    forall|k1: usize, k2: usize|
        #![trigger active[k1], active[k2]]
        active.contains_key(k1) && active.contains_key(k2) && k1 != k2 ==> !active[k1].spec_overlaps(
            active[k2],
        )
}

/// A token for one claim; the only way to obtain one is `BorrowChecker::borrow`.
#[derive(Debug, Clone, Copy, PartialEq, Eq, Hash)]
pub struct BorrowHandle(usize);

impl View for BorrowHandle {
    type V = usize;

    closed spec fn view(&self) -> usize {
        self.0
    }
}

/// The set of claims that are active on one buffer, and the counter that
/// mints their handles.
#[derive(Debug)]
pub struct BorrowChecker {
    borrows: HashMap<usize, Region>,
    next_handle: usize,
}

impl BorrowChecker {
    /// The active claims, by the number of their handle.
    pub closed spec fn active(&self) -> Map<usize, Region> {
        self.borrows@
    }

    /// The number that the next handle will carry.
    pub closed spec fn next_id(&self) -> nat {
        self.next_handle as nat
    }

    /// Whether `h` was handed out by this checker at some point.
    pub open spec fn issued(&self, h: BorrowHandle) -> bool {
        h@ < self.next_id()
    }

    /// The active claims are pairwise disjoint, and each belongs to a handle
    /// that has been issued.
    pub open spec fn wf(&self) -> bool {
        &&& pairwise_disjoint(self.active())
        &&& forall|k: usize| #[trigger] self.active().contains_key(k) ==> k < self.next_id()
    }

    /// A checker with no active claims.
    pub fn new() -> (c: BorrowChecker)
        ensures
            c.wf(),
            c.active() == Map::<usize, Region>::empty(),
            c.next_id() == 0,
    {
        BorrowChecker { borrows: HashMap::new(), next_handle: 0 }
    }

    fn new_handle(&mut self) -> (h: BorrowHandle)
        requires
            old(self).next_id() < usize::MAX,
        ensures
            h@ == old(self).next_id(),
            final(self).next_id() == old(self).next_id() + 1,
            final(self).active() == old(self).active(),
    {
        let h = BorrowHandle(self.next_handle);
        self.next_handle = self.next_handle + 1;
        h
    }

    /// Claims `r`. When `r` overlaps an active claim nothing changes and no
    /// handle is returned; otherwise `r` becomes active under a fresh handle.
    pub fn borrow(&mut self, r: Region) -> (res: Option<BorrowHandle>)
        requires
            old(self).wf(),
            old(self).next_id() < usize::MAX,
        ensures
            final(self).wf(),
            res is None <==> conflicts(old(self).active(), r),
            res is None ==> final(self).active() == old(self).active() && final(self).next_id()
                == old(self).next_id(),
            res matches Some(h) ==> {
                &&& !old(self).issued(h)
                &&& h@ == old(self).next_id()
                &&& final(self).active() == old(self).active().insert(h@, r)
                &&& final(self).next_id() == old(self).next_id() + 1
            },
    {
        if self.is_borrowed(r) {
            return None;
        }
        let h = self.new_handle();
        self.borrows.insert(h.0, r);
        proof {
            let m = self.active();
            assert forall|k1: usize, k2: usize|
                #![trigger m[k1], m[k2]]
                m.contains_key(k1) && m.contains_key(k2) && k1 != k2 implies !m[k1].spec_overlaps(m[k2]) by {
                if k1 == h@ {
                    assert(old(self).active().contains_key(k2));
                    assert(!old(self).active()[k2].spec_overlaps(r));
                } else if k2 == h@ {
                    assert(old(self).active().contains_key(k1));
                }
            }
        }
        Some(h)
    }

    /// Releases the claim of `h`, which must be active. A handle that is not
    /// active (released already, or never issued by this checker) stops the
    /// program rather than being ignored.
    pub fn unborrow(&mut self, h: BorrowHandle)
        requires
            old(self).wf(),
            old(self).active().contains_key(h@),
        ensures
            final(self).wf(),
            final(self).active() == old(self).active().remove(h@),
            final(self).next_id() == old(self).next_id(),
    {
        self.borrows.remove(&h.0).expect("handle exists in mutable borrows");
    }

    fn is_borrowed(&self, r: Region) -> (b: bool)
        ensures
            b == conflicts(self.active(), r),
    {
        let ghost vals = spec_values_iter(&self.borrows).remaining().unref();
        let ghost mut seen: int = 0;
        let mut found = false;
        for b in it: self.borrows.values()
            invariant
                it.seq().unref() == vals,
                seen == it.index(),
                found == exists|i: int| 0 <= i < seen && (#[trigger] vals[i]).spec_overlaps(r),
        {
            found = found || b.overlaps(r);
            proof {
                seen = seen + 1;
            }
        }
        proof {
            assert(seen == vals.len());
            assert(vals.to_set() == self.borrows@.values());
            if found {
                let i = choose|i: int| 0 <= i < seen && (#[trigger] vals[i]).spec_overlaps(r);
                assert(vals.to_set().contains(vals[i]));
                let k = choose|k: usize| #[trigger] self.borrows@.contains_key(k) && self.borrows@[k] == vals[i];
                assert(self.active().contains_key(k));
            } else {
                assert forall|k: usize| #[trigger] self.active().contains_key(k) implies !self.active()[k].spec_overlaps(r) by {
                    assert(self.borrows@.values().contains(self.borrows@[k]));
                    let i = vals.index_of(self.borrows@[k]);
                }
            }
        }
        found
    }
}

/// Whatever sequence of `new`, `borrow` and `unborrow` produced a checker (each
/// of them keeps `wf`), its active claims are pairwise disjoint.
pub proof fn lemma_active_claims_disjoint(c: BorrowChecker)
    requires
        c.wf(),
    ensures
        pairwise_disjoint(c.active()),
        forall|k1: usize, k2: usize|
            c.active().contains_key(k1) && c.active().contains_key(k2) && k1 != k2 ==> !(
            #[trigger] c.active()[k1]).spec_overlaps(#[trigger] c.active()[k2]),
{
}

/// A handle that this checker never issued is not active, so `unborrow`
/// refuses it.
pub proof fn lemma_unissued_handle_not_active(c: BorrowChecker, h: BorrowHandle)
    requires
        c.wf(),
        !c.issued(h),
    ensures
        !c.active().contains_key(h@),
{
}

/// After `unborrow(h)` the handle is no longer active, so releasing it a
/// second time is refused.
pub proof fn lemma_released_handle_not_active(before: BorrowChecker, after: BorrowChecker, h: BorrowHandle)
    requires
        after.active() == before.active().remove(h@),
    ensures
        !after.active().contains_key(h@),
{
}

/// Handles are never reused. Every operation keeps the issued handles issued
/// (`next_id` never decreases), and `borrow` returns only a handle that was
/// not issued before; so a handle issued by an earlier state of a checker
/// differs from any handle that a later state hands out.
pub proof fn lemma_handles_never_reused(
    earlier: BorrowChecker,
    later: BorrowChecker,
    old_h: BorrowHandle,
    new_h: BorrowHandle,
)
    requires
        earlier.issued(old_h),
        earlier.next_id() <= later.next_id(),
        !later.issued(new_h),
    ensures
        old_h != new_h,
{
}

} // verus!
