//! Gossip deduplication: the set of VLADs whose locally-initiated
//! resolution is still in flight.
//!
//! Membership is taken when an announcement is first accepted and given
//! back when the matching acknowledgement arrives.  Without it, a
//! re-broadcast announcement would trigger duplicate concurrent
//! resolutions and duplicate acknowledgements.

use crate::vlad::Vlad;
use vstd::prelude::*;

verus! {

spec fn set_of(s: Seq<Vlad>) -> Set<Seq<u8>>
    decreases s.len(),
{
    if s.len() == 0 {
        Set::empty()
    } else {
        set_of(s.drop_last()).insert(s.last()@)
    }
}

proof fn lemma_set_found(s: Seq<Vlad>, i: int, k: Seq<u8>)
    requires
        0 <= i < s.len(),
        s[i]@ == k,
    ensures
        set_of(s).contains(k),
    decreases s.len(),
{
    if i < s.len() - 1 {
        lemma_set_found(s.drop_last(), i, k);
    }
}

proof fn lemma_set_absent(s: Seq<Vlad>, k: Seq<u8>)
    requires
        forall|j: int| 0 <= j < s.len() ==> s[j]@ != k,
    ensures
        !set_of(s).contains(k),
    decreases s.len(),
{
    if s.len() > 0 {
        lemma_set_absent(s.drop_last(), k);
    }
}

/// The set of VLADs with a resolution in flight.
pub struct DedupTracker {
    vlads: Vec<Vlad>,
}

impl View for DedupTracker {
    type V = Set<Seq<u8>>;

    closed spec fn view(&self) -> Set<Seq<u8>> {
        set_of(self.vlads@)
    }
}

impl DedupTracker {
    pub fn new() -> (r: DedupTracker)
        ensures
            r@ == Set::<Seq<u8>>::empty(),
    {
        DedupTracker { vlads: Vec::new() }
    }

    fn find(&self, vlad: &Vlad) -> (r: Option<usize>)
        ensures
            r matches Some(i) ==> i < self.vlads@.len() && self.vlads@[i as int]@ == vlad@,
            r is None ==> forall|j: int| 0 <= j < self.vlads@.len() ==> self.vlads@[j]@ != vlad@,
    {
        let mut i: usize = 0;
        let n = self.vlads.len();
        while i < n
            invariant
                i <= n,
                n == self.vlads@.len(),
                forall|j: int| 0 <= j < i ==> self.vlads@[j]@ != vlad@,
            decreases n - i,
        {
            if self.vlads[i].same_as(vlad) {
                return Some(i);
            }
            i = i + 1;
        }
        None
    }

    pub fn is_pending(&self, vlad: &Vlad) -> (r: bool)
        ensures
            r == self@.contains(vlad@),
    {
        match self.find(vlad) {
            Some(i) => {
                proof {
                    lemma_set_found(self.vlads@, i as int, vlad@);
                }
                true
            },
            None => {
                proof {
                    lemma_set_absent(self.vlads@, vlad@);
                }
                false
            },
        }
    }

    /// The admission test: records the VLAD and answers `true` only where
    /// it was not already present.
    pub fn accept(&mut self, vlad: &Vlad) -> (r: bool)
        ensures
            r == !old(self)@.contains(vlad@),
            final(self)@ == old(self)@.insert(vlad@),
    {
        match self.find(vlad) {
            Some(i) => {
                proof {
                    lemma_set_found(self.vlads@, i as int, vlad@);
                    assert(set_of(self.vlads@).insert(vlad@) =~= set_of(self.vlads@));
                }
                false
            },
            None => {
                proof {
                    lemma_set_absent(self.vlads@, vlad@);
                }
                let ghost before = self.vlads@;
                self.vlads.push(vlad.duplicate());
                proof {
                    assert(self.vlads@.drop_last() =~= before);
                    assert(set_of(self.vlads@) =~= set_of(before).insert(vlad@));
                }
                true
            },
        }
    }

    /// Releases membership on acknowledgement receipt, permitting future
    /// re-announcement to be processed.
    pub fn release(&mut self, vlad: &Vlad)
        ensures
            final(self)@ == old(self)@.remove(vlad@),
    {
        let ghost orig = self.vlads@;
        let mut kept: Vec<Vlad> = Vec::new();
        let mut i: usize = 0;
        let n = self.vlads.len();
        while i < n
            invariant
                i <= n,
                n == self.vlads@.len(),
                self.vlads@ == orig,
                set_of(kept@) == set_of(orig.take(i as int)).remove(vlad@),
            decreases n - i,
        {
            proof {
                assert(orig.take(i + 1).drop_last() =~= orig.take(i as int));
                assert(orig.take(i + 1).last() == orig[i as int]);
            }
            let e = &self.vlads[i];
            if e.same_as(vlad) {
                proof {
                    assert(set_of(orig.take(i + 1)).remove(vlad@) =~= set_of(
                        orig.take(i as int),
                    ).remove(vlad@));
                }
            } else {
                let ghost before = kept@;
                kept.push(e.duplicate());
                proof {
                    assert(kept@.drop_last() =~= before);
                    assert(kept@.last()@ == orig[i as int]@);
                    assert(set_of(kept@) =~= set_of(orig.take(i + 1)).remove(vlad@));
                }
            }
            i = i + 1;
        }
        proof {
            assert(orig.take(n as int) =~= orig);
        }
        self.vlads = kept;
    }
}

} // verus!
