//! The peer registry: the authoritative map from VLAD to its last-known
//! resolved log.
//!
//! An entry holding `None` is tracked but not yet resolved.  Entries are
//! added when the user or the engine decides to track a VLAD and removed
//! only by explicit request; a failed resolution never drops one.

use crate::plog::{PlogView, ResolvedPlog};
use crate::vlad::Vlad;
use crate::Error;
use vstd::pervasive::VecAdditionalExecFns;
use vstd::prelude::*;

verus! {

pub open spec fn opt_plog_view(o: Option<ResolvedPlog>) -> Option<PlogView> {
    match o {
        Some(r) => Some(r@),
        None => None,
    }
}

/// The registry a list of pairs describes; a later pair for the same VLAD
/// wins, though a well-formed registry never holds two.
spec fn reg_map_of(s: Seq<(Vlad, Option<ResolvedPlog>)>) -> Map<Seq<u8>, Option<PlogView>>
    decreases s.len(),
{
    if s.len() == 0 {
        Map::empty()
    } else {
        reg_map_of(s.drop_last()).insert(s.last().0@, opt_plog_view(s.last().1))
    }
}

spec fn keys_unique(s: Seq<(Vlad, Option<ResolvedPlog>)>) -> bool {
    forall|i: int, j: int| 0 <= i < j < s.len() ==> s[i].0@ != s[j].0@
}

proof fn lemma_reg_found(s: Seq<(Vlad, Option<ResolvedPlog>)>, i: int, k: Seq<u8>)
    requires
        keys_unique(s),
        0 <= i < s.len(),
        s[i].0@ == k,
    ensures
        reg_map_of(s).contains_key(k),
        reg_map_of(s)[k] == opt_plog_view(s[i].1),
    decreases s.len(),
{
    if i < s.len() - 1 {
        assert(keys_unique(s.drop_last()));
        lemma_reg_found(s.drop_last(), i, k);
    }
}

proof fn lemma_reg_absent(s: Seq<(Vlad, Option<ResolvedPlog>)>, k: Seq<u8>)
    requires
        forall|j: int| 0 <= j < s.len() ==> s[j].0@ != k,
    ensures
        !reg_map_of(s).contains_key(k),
    decreases s.len(),
{
    if s.len() > 0 {
        lemma_reg_absent(s.drop_last(), k);
    }
}

proof fn lemma_reg_contains_exists(s: Seq<(Vlad, Option<ResolvedPlog>)>, k: Seq<u8>)
    requires
        reg_map_of(s).contains_key(k),
    ensures
        exists|j: int| 0 <= j < s.len() && s[j].0@ == k,
    decreases s.len(),
{
    if s.len() > 0 {
        if s.last().0@ == k {
            assert(s[s.len() - 1].0@ == k);
        } else {
            lemma_reg_contains_exists(s.drop_last(), k);
        }
    }
}

proof fn lemma_reg_update(
    s: Seq<(Vlad, Option<ResolvedPlog>)>,
    i: int,
    p: (Vlad, Option<ResolvedPlog>),
)
    requires
        keys_unique(s),
        0 <= i < s.len(),
        p.0@ == s[i].0@,
    ensures
        reg_map_of(s.update(i, p)) == reg_map_of(s).insert(p.0@, opt_plog_view(p.1)),
        keys_unique(s.update(i, p)),
    decreases s.len(),
{
    let k = p.0@;
    let u = s.update(i, p);
    assert(keys_unique(u));
    if i == s.len() - 1 {
        assert(u.drop_last() =~= s.drop_last());
        assert(u.last() == p);
        assert(reg_map_of(u) =~= reg_map_of(s).insert(k, opt_plog_view(p.1)));
    } else {
        assert(keys_unique(s.drop_last()));
        lemma_reg_update(s.drop_last(), i, p);
        assert(u.drop_last() =~= s.drop_last().update(i, p));
        assert(u.last() == s.last());
        assert(s.last().0@ != k);
        assert(reg_map_of(u) =~= reg_map_of(s).insert(k, opt_plog_view(p.1)));
    }
}

proof fn lemma_reg_remove_at(s: Seq<(Vlad, Option<ResolvedPlog>)>, i: int)
    requires
        keys_unique(s),
        0 <= i < s.len(),
    ensures
        reg_map_of(s.remove(i)) == reg_map_of(s).remove(s[i].0@),
        keys_unique(s.remove(i)),
    decreases s.len(),
{
    let k = s[i].0@;
    let u = s.remove(i);
    assert(keys_unique(u));
    if i == s.len() - 1 {
        assert(u =~= s.drop_last());
        assert(forall|j: int| 0 <= j < s.len() - 1 ==> s[j].0@ != k);
        lemma_reg_absent(s.drop_last(), k);
        assert(reg_map_of(s.drop_last()).remove(k) =~= reg_map_of(s.drop_last()));
        assert(reg_map_of(s).remove(k) =~= reg_map_of(s.drop_last()));
    } else {
        assert(keys_unique(s.drop_last()));
        lemma_reg_remove_at(s.drop_last(), i);
        assert(u.drop_last() =~= s.drop_last().remove(i));
        assert(u.last() == s.last());
        assert(s.last().0@ != k);
        assert(reg_map_of(u) =~= reg_map_of(s).remove(k));
    }
}

/// The VLADs of the first `i` entries that are still unresolved, in order.
spec fn unresolved_prefix(s: Seq<(Vlad, Option<ResolvedPlog>)>, i: int) -> Seq<Seq<u8>>
    decreases i,
{
    if i <= 0 {
        Seq::empty()
    } else {
        let r = unresolved_prefix(s, i - 1);
        if s[i - 1].1 is None {
            r.push(s[i - 1].0@)
        } else {
            r
        }
    }
}

/// Some entry among the first `i` carries `k` and is unresolved.
spec fn unresolved_at(s: Seq<(Vlad, Option<ResolvedPlog>)>, i: int, k: Seq<u8>) -> bool {
    exists|j: int| 0 <= j < i && s[j].0@ == k && s[j].1 is None
}

/// `k` stands somewhere in the unresolved prefix of length `i`.
spec fn in_prefix(s: Seq<(Vlad, Option<ResolvedPlog>)>, i: int, k: Seq<u8>) -> bool {
    exists|m: int|
        0 <= m < unresolved_prefix(s, i).len() && unresolved_prefix(s, i)[m] == k
}

/// Some VLAD in the list has these bytes.
pub open spec fn contains_vlad(vs: Seq<Vlad>, k: Seq<u8>) -> bool {
    exists|m: int| 0 <= m < vs.len() && vs[m]@ == k
}

proof fn lemma_up_sound(s: Seq<(Vlad, Option<ResolvedPlog>)>, i: int)
    requires
        i <= s.len(),
    ensures
        forall|m: int|
            #![trigger unresolved_prefix(s, i)[m]]
            0 <= m < unresolved_prefix(s, i).len() ==> unresolved_at(
                s,
                i,
                unresolved_prefix(s, i)[m],
            ),
    decreases i,
{
    if i > 0 {
        lemma_up_sound(s, i - 1);
        let up = unresolved_prefix(s, i);
        let prev = unresolved_prefix(s, i - 1);
        assert forall|m: int| 0 <= m < up.len() implies unresolved_at(s, i, up[m]) by {
            if m < prev.len() {
                assert(up[m] == prev[m]);
                assert(unresolved_at(s, i - 1, prev[m]));
                let j = choose|j: int| 0 <= j < i - 1 && s[j].0@ == prev[m] && s[j].1 is None;
                assert(0 <= j < i && s[j].0@ == up[m] && s[j].1 is None);
            } else {
                assert(s[i - 1].1 is None && up[m] == s[i - 1].0@);
                assert(0 <= i - 1 < i && s[i - 1].0@ == up[m] && s[i - 1].1 is None);
            }
        }
    }
}

proof fn lemma_up_complete(s: Seq<(Vlad, Option<ResolvedPlog>)>, i: int, j: int)
    requires
        0 <= j < i <= s.len(),
        s[j].1 is None,
    ensures
        in_prefix(s, i, s[j].0@),
    decreases i,
{
    let up = unresolved_prefix(s, i);
    if j == i - 1 {
        assert(0 <= up.len() - 1 < up.len() && up[up.len() - 1] == s[j].0@);
    } else {
        lemma_up_complete(s, i - 1, j);
        let prev = unresolved_prefix(s, i - 1);
        let m = choose|m: int| 0 <= m < prev.len() && prev[m] == s[j].0@;
        assert(0 <= m < up.len() && up[m] == s[j].0@);
    }
}

proof fn lemma_up_unique(s: Seq<(Vlad, Option<ResolvedPlog>)>, i: int)
    requires
        i <= s.len(),
        keys_unique(s),
    ensures
        forall|m1: int, m2: int|
            0 <= m1 < m2 < unresolved_prefix(s, i).len() ==> unresolved_prefix(s, i)[m1]
                != unresolved_prefix(s, i)[m2],
    decreases i,
{
    if i > 0 {
        lemma_up_unique(s, i - 1);
        lemma_up_sound(s, i - 1);
        let up = unresolved_prefix(s, i);
        let prev = unresolved_prefix(s, i - 1);
        assert forall|m1: int, m2: int| 0 <= m1 < m2 < up.len() implies up[m1] != up[m2] by {
            if m2 < prev.len() {
                assert(up[m1] == prev[m1] && up[m2] == prev[m2]);
            } else if s[i - 1].1 is None && m2 == prev.len() {
                assert(up[m1] == prev[m1]);
                let j = choose|j: int| 0 <= j < i - 1 && s[j].0@ == prev[m1] && s[j].1 is None;
                assert(s[j].0@ != s[i - 1].0@);
                assert(up[m2] == s[i - 1].0@);
            }
        }
    }
}

/// Mapping from VLAD to its last-known resolved log, or `None` where a
/// tracked VLAD is not resolved yet.
pub struct PeerRegistry {
    entries: Vec<(Vlad, Option<ResolvedPlog>)>,
}

impl View for PeerRegistry {
    type V = Map<Seq<u8>, Option<PlogView>>;

    closed spec fn view(&self) -> Map<Seq<u8>, Option<PlogView>> {
        reg_map_of(self.entries@)
    }
}

impl PeerRegistry {
    /// Well-formed: no VLAD appears twice.  Every operation preserves this.
    pub closed spec fn wf(&self) -> bool {
        keys_unique(self.entries@)
    }

    pub fn new() -> (r: PeerRegistry)
        ensures
            r.wf(),
            r@ == Map::<Seq<u8>, Option<PlogView>>::empty(),
    {
        PeerRegistry { entries: Vec::new() }
    }

    /// The index holding a VLAD, if any.
    fn find(&self, vlad: &Vlad) -> (r: Option<usize>)
        ensures
            r matches Some(i) ==> i < self.entries@.len() && self.entries@[i as int].0@ == vlad@,
            r is None ==> forall|j: int| 0 <= j < self.entries@.len() ==> self.entries@[j].0@
                != vlad@,
    {
        let mut i: usize = 0;
        let n = self.entries.len();
        while i < n
            invariant
                i <= n,
                n == self.entries@.len(),
                forall|j: int| 0 <= j < i ==> self.entries@[j].0@ != vlad@,
            decreases n - i,
        {
            if self.entries[i].0.same_as(vlad) {
                return Some(i);
            }
            i = i + 1;
        }
        None
    }

    pub fn is_tracked(&self, vlad: &Vlad) -> (r: bool)
        requires
            self.wf(),
        ensures
            r == self@.contains_key(vlad@),
    {
        match self.find(vlad) {
            Some(i) => {
                proof {
                    lemma_reg_found(self.entries@, i as int, vlad@);
                }
                true
            },
            None => {
                proof {
                    lemma_reg_absent(self.entries@, vlad@);
                }
                false
            },
        }
    }

    /// Starts tracking a VLAD, unresolved.  Tracking one already present is
    /// rejected and changes nothing.
    pub fn track(&mut self, vlad: Vlad) -> (r: Result<(), Error>)
        requires
            old(self).wf(),
        ensures
            final(self).wf(),
            old(self)@.contains_key(vlad@) ==> r == Err::<(), Error>(Error::AlreadyTracked)
                && *final(self) == *old(self),
            !old(self)@.contains_key(vlad@) ==> r is Ok && final(self)@ == old(self)@.insert(
                vlad@,
                None::<PlogView>,
            ),
    {
        match self.find(&vlad) {
            Some(i) => {
                proof {
                    lemma_reg_found(self.entries@, i as int, vlad@);
                }
                Err(Error::AlreadyTracked)
            },
            None => {
                proof {
                    lemma_reg_absent(self.entries@, vlad@);
                }
                let ghost before = self.entries@;
                self.entries.push((vlad, None));
                proof {
                    assert(self.entries@.drop_last() =~= before);
                }
                Ok(())
            },
        }
    }

    /// Writes a resolution result in by key: the entry for the VLAD is set,
    /// whether or not it was tracked before.
    pub fn store_resolved(&mut self, vlad: Vlad, plog: ResolvedPlog)
        requires
            old(self).wf(),
        ensures
            final(self).wf(),
            final(self)@ == old(self)@.insert(vlad@, Some(plog@)),
    {
        match self.find(&vlad) {
            Some(i) => {
                proof {
                    lemma_reg_update(self.entries@, i as int, (vlad, Some(plog)));
                }
                self.entries.set(i, (vlad, Some(plog)));
            },
            None => {
                proof {
                    lemma_reg_absent(self.entries@, vlad@);
                }
                let ghost before = self.entries@;
                self.entries.push((vlad, Some(plog)));
                proof {
                    assert(self.entries@.drop_last() =~= before);
                }
            },
        }
    }

    /// Stops tracking a VLAD.  User-initiated only; resolution failures
    /// never reach here.
    pub fn untrack(&mut self, vlad: &Vlad)
        requires
            old(self).wf(),
        ensures
            final(self).wf(),
            final(self)@ == old(self)@.remove(vlad@),
    {
        match self.find(vlad) {
            Some(i) => {
                proof {
                    lemma_reg_remove_at(self.entries@, i as int);
                }
                self.entries.remove(i);
            },
            None => {
                proof {
                    lemma_reg_absent(self.entries@, vlad@);
                    assert(reg_map_of(self.entries@).remove(vlad@) =~= reg_map_of(
                        self.entries@,
                    ));
                }
            },
        }
    }

    /// The entry for a VLAD, for observers: `None` where it is not
    /// tracked; `Some(None)` where it is tracked but unresolved.
    pub fn get(&self, vlad: &Vlad) -> (r: Option<&Option<ResolvedPlog>>)
        requires
            self.wf(),
        ensures
            r matches Some(e) ==> self@.contains_key(vlad@) && opt_plog_view(*e)
                == self@[vlad@],
            r is None ==> !self@.contains_key(vlad@),
    {
        match self.find(vlad) {
            Some(i) => {
                proof {
                    lemma_reg_found(self.entries@, i as int, vlad@);
                }
                Some(&self.entries[i].1)
            },
            None => {
                proof {
                    lemma_reg_absent(self.entries@, vlad@);
                }
                None
            },
        }
    }

    pub fn count(&self) -> (r: usize)
        ensures
            r == self.spec_count(),
    {
        self.entries.len()
    }

    /// How many VLADs the registry tracks.
    pub closed spec fn spec_count(&self) -> nat {
        self.entries@.len()
    }

    /// The tracked VLADs still unresolved: what a reconciliation sweep
    /// visits.  Each appears once, and none that is resolved appears.
    #[verifier::rlimit(50)]
    pub fn unresolved_vlads(&self) -> (r: Vec<Vlad>)
        requires
            self.wf(),
        ensures
            forall|m: int|
                0 <= m < r@.len() ==> self@.contains_key(#[trigger] r@[m]@) && self@[r@[m]@]
                    is None,
            forall|k: Seq<u8>|
                self@.contains_key(k) && self@[k] is None ==> #[trigger] contains_vlad(r@, k),
            forall|m1: int, m2: int| 0 <= m1 < m2 < r@.len() ==> r@[m1]@ != r@[m2]@,
    {
        let mut out: Vec<Vlad> = Vec::new();
        let mut i: usize = 0;
        let n = self.entries.len();
        while i < n
            invariant
                i <= n,
                n == self.entries@.len(),
                self.wf(),
                out@.len() == unresolved_prefix(self.entries@, i as int).len(),
                forall|m: int|
                    0 <= m < out@.len() ==> #[trigger] out@[m]@ == unresolved_prefix(
                        self.entries@,
                        i as int,
                    )[m],
            decreases n - i,
        {
            let ghost up = unresolved_prefix(self.entries@, i as int);
            let e = &self.entries[i];
            if e.1.is_none() {
                out.push(e.0.duplicate());
                proof {
                    assert(unresolved_prefix(self.entries@, i + 1) == up.push(
                        self.entries@[i as int].0@,
                    ));
                }
            } else {
                proof {
                    assert(unresolved_prefix(self.entries@, i + 1) == up);
                }
            }
            i = i + 1;
        }
        proof {
            let s = self.entries@;
            let up = unresolved_prefix(s, n as int);
            lemma_up_sound(s, n as int);
            lemma_up_unique(s, n as int);
            assert forall|m: int|
                0 <= m < out@.len() implies self@.contains_key(#[trigger] out@[m]@)
                && self@[out@[m]@] is None by {
                assert(out@[m]@ == up[m]);
                assert(unresolved_at(s, n as int, up[m]));
                let j = choose|j: int| 0 <= j < n && s[j].0@ == up[m] && s[j].1 is None;
                lemma_reg_found(s, j, out@[m]@);
            }
            assert forall|k: Seq<u8>|
                self@.contains_key(k) && self@[k] is None implies #[trigger] contains_vlad(
                out@,
                k,
            ) by {
                lemma_reg_contains_exists(s, k);
                let j = choose|j: int| 0 <= j < s.len() && s[j].0@ == k;
                lemma_reg_found(s, j, k);
                lemma_up_complete(s, n as int, j);
                let m = choose|m: int| 0 <= m < up.len() && up[m] == s[j].0@;
                assert(0 <= m < out@.len() && out@[m]@ == k);
            }
        }
        out
    }
}

} // verus!
