//! Provenance logs ("Plogs"): ordered, append-only sequences of signed
//! entries, addressed by a VLAD.
//!
//! The engine treats an entry as opaque bytes; producing and verifying
//! signatures is its collaborators' work.  What the engine owns is the
//! storage format: a log serializes to length-prefixed bytes, and decoding
//! what a log encoded to yields the log back.

use crate::vlad::{vlad_wf, Vlad};
use crate::Error;
use vstd::bytes::{
    lemma_auto_spec_u32_to_from_le_bytes, spec_u32_from_le_bytes, spec_u32_to_le_bytes,
    u32_from_le_bytes, u32_to_le_bytes,
};
use vstd::prelude::*;
use vstd::slice::{slice_subrange, slice_to_vec};

verus! {

/// The mathematical content of a Plog: its VLAD and its entries, in order.
pub struct PlogView {
    pub vlad: Seq<u8>,
    pub entries: Seq<Seq<u8>>,
}

/// A well-formed log has a well-formed VLAD and lengths its storage format
/// can carry in a four-byte prefix.
pub open spec fn plog_view_wf(v: PlogView) -> bool {
    &&& vlad_wf(v.vlad)
    &&& v.vlad.len() <= u32::MAX
    &&& v.entries.len() <= u32::MAX
    &&& forall|i: int| 0 <= i < v.entries.len() ==> #[trigger] v.entries[i].len() <= u32::MAX
}

/// A four-byte little-endian length, then the bytes themselves.
pub open spec fn len_prefixed(b: Seq<u8>) -> Seq<u8> {
    spec_u32_to_le_bytes(b.len() as u32) + b
}

/// Entries in order, each length-prefixed.
pub open spec fn entries_bytes(es: Seq<Seq<u8>>) -> Seq<u8>
    decreases es.len(),
{
    if es.len() == 0 {
        Seq::empty()
    } else {
        len_prefixed(es[0]) + entries_bytes(es.drop_first())
    }
}

/// The storage format of a log: its VLAD, the entry count, the entries.
pub open spec fn plog_bytes(v: PlogView) -> Seq<u8> {
    len_prefixed(v.vlad) + spec_u32_to_le_bytes(v.entries.len() as u32) + entries_bytes(v.entries)
}

/// Reads one length-prefixed chunk off the front, or nothing where the
/// bytes are too short.
pub open spec fn take_chunk(b: Seq<u8>) -> Option<(Seq<u8>, Seq<u8>)> {
    if b.len() < 4 {
        None
    } else {
        let n = spec_u32_from_le_bytes(b.take(4)) as int;
        if b.len() - 4 < n {
            None
        } else {
            Some((b.subrange(4, 4 + n), b.skip(4 + n)))
        }
    }
}

/// Reads `n` chunks off the front, yielding them and the rest.
pub open spec fn parse_entries(b: Seq<u8>, n: nat) -> Option<(Seq<Seq<u8>>, Seq<u8>)>
    decreases n,
{
    if n == 0 {
        Some((Seq::empty(), b))
    } else {
        match take_chunk(b) {
            None => None,
            Some((c, rest)) => match parse_entries(rest, (n - 1) as nat) {
                None => None,
                Some((es, rest2)) => Some((seq![c] + es, rest2)),
            },
        }
    }
}

/// The log a byte string is the storage format of, or `None` where it is
/// the format of no log: a VLAD chunk, a count, that many entries, and
/// nothing after them.
pub open spec fn plog_of_bytes(b: Seq<u8>) -> Option<PlogView> {
    match take_chunk(b) {
        None => None,
        Some((vl, rest)) => if !vlad_wf(vl) || vl.len() > u32::MAX {
            None
        } else if rest.len() < 4 {
            None
        } else {
            let n = spec_u32_from_le_bytes(rest.take(4));
            match parse_entries(rest.skip(4), n as nat) {
                None => None,
                Some((es, rest2)) => if rest2.len() == 0 {
                    Some(PlogView { vlad: vl, entries: es })
                } else {
                    None
                },
            }
        },
    }
}

proof fn lemma_take_chunk_of_prefixed(b: Seq<u8>, rest: Seq<u8>)
    requires
        b.len() <= u32::MAX,
    ensures
        take_chunk(len_prefixed(b) + rest) == Some((b, rest)),
{
    lemma_auto_spec_u32_to_from_le_bytes();
    let whole = len_prefixed(b) + rest;
    assert(whole.take(4) =~= spec_u32_to_le_bytes(b.len() as u32));
    assert(whole.subrange(4, 4 + b.len() as int) =~= b);
    assert(whole.skip(4 + b.len() as int) =~= rest);
}

proof fn lemma_parse_entries_of_bytes(es: Seq<Seq<u8>>, rest: Seq<u8>)
    requires
        forall|i: int| 0 <= i < es.len() ==> #[trigger] es[i].len() <= u32::MAX,
    ensures
        parse_entries(entries_bytes(es) + rest, es.len()) == Some((es, rest)),
    decreases es.len(),
{
    if es.len() == 0 {
        assert(entries_bytes(es) + rest =~= rest);
        assert(parse_entries(rest, 0) == Some((Seq::<Seq<u8>>::empty(), rest)));
        assert(es =~= Seq::<Seq<u8>>::empty());
    } else {
        let tail = es.drop_first();
        let whole = entries_bytes(es) + rest;
        assert(whole =~= len_prefixed(es[0]) + (entries_bytes(tail) + rest));
        lemma_take_chunk_of_prefixed(es[0], entries_bytes(tail) + rest);
        lemma_parse_entries_of_bytes(tail, rest);
        assert(seq![es[0]] + tail =~= es);
    }
}

/// Round trip: decoding what a well-formed log encodes to yields the log.
pub proof fn lemma_plog_codec_round_trip(v: PlogView)
    requires
        plog_view_wf(v),
    ensures
        plog_of_bytes(plog_bytes(v)) == Some(v),
{
    lemma_auto_spec_u32_to_from_le_bytes();
    let count = spec_u32_to_le_bytes(v.entries.len() as u32);
    let whole = plog_bytes(v);
    assert(whole =~= len_prefixed(v.vlad) + (count + entries_bytes(v.entries)));
    lemma_take_chunk_of_prefixed(v.vlad, count + entries_bytes(v.entries));
    let rest = count + entries_bytes(v.entries);
    assert(rest.take(4) =~= count);
    assert(rest.skip(4) =~= entries_bytes(v.entries) + Seq::<u8>::empty());
    lemma_parse_entries_of_bytes(v.entries, Seq::<u8>::empty());
}

/// An append-only provenance log.  The VLAD is fixed at construction and
/// survives every append.
pub struct Plog {
    vlad: Vlad,
    entries: Vec<Vec<u8>>,
}

impl View for Plog {
    type V = PlogView;

    closed spec fn view(&self) -> PlogView {
        PlogView { vlad: self.vlad@, entries: self.entries.deep_view() }
    }
}

impl Plog {
    pub open spec fn wf(&self) -> bool {
        plog_view_wf(self@)
    }

    /// Builds a log from a VLAD and entry payloads; rejects parts whose
    /// lengths the storage format cannot carry.
    pub fn assemble(vlad: Vlad, entries: Vec<Vec<u8>>) -> (r: Option<Plog>)
        requires
            vlad.wf(),
        ensures
            r matches Some(p) ==> p@.vlad == vlad@ && p@.entries == entries.deep_view() && p.wf(),
    {
        if vlad.as_bytes().len() > u32::MAX as usize {
            return None;
        }
        if entries.len() > u32::MAX as usize {
            return None;
        }
        let mut i: usize = 0;
        while i < entries.len()
            invariant
                i <= entries.len(),
                forall|j: int| 0 <= j < i ==> #[trigger] entries.deep_view()[j].len() <= u32::MAX,
            decreases entries.len() - i,
        {
            if entries[i].len() > u32::MAX as usize {
                return None;
            }
            proof {
                assert(entries.deep_view()[i as int] == entries[i as int]@);
            }
            i = i + 1;
        }
        Some(Plog { vlad, entries })
    }

    /// The VLAD this log answers to.
    pub fn vlad(&self) -> (r: &Vlad)
        ensures
            r@ == self@.vlad,
    {
        &self.vlad
    }

    pub fn entry_count(&self) -> (r: usize)
        ensures
            r == self@.entries.len(),
    {
        self.entries.len()
    }

    /// Appends one entry.  The VLAD never changes across appends.
    pub fn append(&mut self, entry: Vec<u8>) -> (r: Result<(), Error>)
        requires
            old(self).wf(),
        ensures
            final(self).wf(),
            r is Ok ==> final(self)@.vlad == old(self)@.vlad && final(self)@.entries == old(
                self,
            )@.entries.push(entry@),
            r is Err ==> *final(self) == *old(self),
    {
        if entry.len() > u32::MAX as usize || self.entries.len() >= u32::MAX as usize {
            return Err(Error::StorageFailure("entry does not fit the storage format"));
        }
        self.entries.push(entry);
        proof {
            assert(self.entries.deep_view() =~~= old(self).entries.deep_view().push(entry@));
        }
        Ok(())
    }

    /// Serializes the log to its storage format.
    pub fn encode(&self) -> (r: Vec<u8>)
        requires
            self.wf(),
        ensures
            r@ == plog_bytes(self@),
    {
        let mut out: Vec<u8> = Vec::new();
        append_chunk(&mut out, self.vlad.as_bytes());
        append_count(&mut out, self.entries.len() as u32);
        let ghost base = out@;
        let mut i: usize = 0;
        while i < self.entries.len()
            invariant
                i <= self.entries.len(),
                self.wf(),
                base == len_prefixed(self@.vlad) + spec_u32_to_le_bytes(
                    self@.entries.len() as u32,
                ),
                out@ == base + entries_bytes(self@.entries.take(i as int)),
            decreases self.entries.len() - i,
        {
            proof {
                assert(self@.entries[i as int].len() <= u32::MAX);
                assert(self.entries[i as int]@ == self@.entries[i as int]);
            }
            append_chunk(&mut out, &self.entries[i]);
            proof {
                lemma_entries_bytes_snoc(self@.entries.take(i as int), self@.entries[i as int]);
                assert(self@.entries.take(i + 1).drop_last() =~= self@.entries.take(i as int));
                assert(self@.entries.take(i + 1) =~= self@.entries.take(i as int).push(
                    self@.entries[i as int],
                ));
                assert(out@ =~= base + entries_bytes(self@.entries.take(i + 1)));
            }
            i = i + 1;
        }
        proof {
            assert(self@.entries.take(self.entries.len() as int) =~= self@.entries);
            assert(out@ =~= plog_bytes(self@));
        }
        out
    }

    /// Deserializes a log from its storage format; bytes that no log
    /// encodes to are rejected.
    pub fn decode(bytes: &[u8]) -> (r: Option<Plog>)
        ensures
            r matches Some(p) ==> plog_of_bytes(bytes@) == Some(p@) && p.wf(),
            r is None ==> plog_of_bytes(bytes@) is None,
    {
        let n = bytes.len();
        let mut pos: usize = 0;
        proof {
            assert(bytes@.skip(0) =~= bytes@);
        }
        let vlad_bytes = match read_chunk(bytes, &mut pos) {
            Some(c) => c,
            None => {
                return None;
            },
        };
        let vlad = match Vlad::from_bytes(vlad_bytes) {
            Some(v) => v,
            None => {
                return None;
            },
        };
        proof {
            lemma_auto_spec_u32_to_from_le_bytes();
        }
        let ghost rest = bytes@.skip(pos as int);
        if n - pos < 4 {
            proof {
                assert(rest.len() < 4);
            }
            return None;
        }
        let count = u32_from_le_bytes(slice_subrange(bytes, pos, pos + 4));
        proof {
            assert(bytes@.subrange(pos as int, pos + 4) =~= rest.take(4));
        }
        let ghost after_count = bytes@.skip(pos + 4);
        proof {
            assert(after_count =~= rest.skip(4));
        }
        pos = pos + 4;
        // What decoding the whole byte string means, once the VLAD and the
        // count are off the front.
        let ghost goal = plog_of_bytes(bytes@);
        proof {
            assert(goal == (match parse_entries(after_count, count as nat) {
                None => None::<PlogView>,
                Some((es, rest2)) => if rest2.len() == 0 {
                    Some(PlogView { vlad: vlad@, entries: es })
                } else {
                    None
                },
            }));
        }
        let mut entries: Vec<Vec<u8>> = Vec::new();
        let mut i: u32 = 0;
        proof {
            assert(entries.deep_view() + Seq::<Seq<u8>>::empty() =~= entries.deep_view());
        }
        while i < count
            invariant
                i <= count,
                pos <= n,
                n == bytes@.len(),
                entries@.len() == i,
                forall|j: int|
                    0 <= j < entries@.len() ==> #[trigger] entries.deep_view()[j].len()
                        <= u32::MAX,
                prepend_entries(
                    entries.deep_view(),
                    parse_entries(bytes@.skip(pos as int), (count - i) as nat),
                ) == parse_entries(after_count, count as nat),
                goal == plog_of_bytes(bytes@),
                goal == (match parse_entries(after_count, count as nat) {
                    None => None::<PlogView>,
                    Some((es, rest2)) => if rest2.len() == 0 {
                        Some(PlogView { vlad: vlad@, entries: es })
                    } else {
                        None
                    },
                }),
            decreases count - i,
        {
            let ghost before = entries.deep_view();
            let c = match read_chunk(bytes, &mut pos) {
                Some(c) => c,
                None => {
                    proof {
                        assert(parse_entries(bytes@.skip(pos as int), (count - i) as nat)
                            is None);
                        assert(prepend_entries(
                            entries.deep_view(),
                            parse_entries(bytes@.skip(pos as int), (count - i) as nat),
                        ) is None);
                        assert(parse_entries(after_count, count as nat) is None);
                        assert(plog_of_bytes(bytes@) is None);
                    }
                    return None;
                },
            };
            entries.push(c);
            proof {
                assert(entries.deep_view() =~~= before.push(c@));
                lemma_prepend_entries_shift(
                    before,
                    c@,
                    parse_entries(bytes@.skip(pos as int), (count - i - 1) as nat),
                );
            }
            i = i + 1;
        }
        proof {
            assert(parse_entries(bytes@.skip(pos as int), 0) == Some(
                (Seq::<Seq<u8>>::empty(), bytes@.skip(pos as int)),
            ));
            assert(entries.deep_view() + Seq::<Seq<u8>>::empty() =~= entries.deep_view());
            assert(parse_entries(after_count, count as nat) == Some(
                (entries.deep_view(), bytes@.skip(pos as int)),
            ));
        }
        if pos != n {
            proof {
                assert(bytes@.skip(pos as int).len() != 0);
            }
            return None;
        }
        proof {
            assert(bytes@.skip(n as int).len() == 0);
        }
        let p = Plog { vlad, entries };
        proof {
            assert(p@.entries == entries.deep_view());
            assert(goal == Some(p@));
            assert(p.wf());
        }
        Some(p)
    }
}

/// `opt` continued after `es` chunks already read.
spec fn prepend_entries(es: Seq<Seq<u8>>, opt: Option<(Seq<Seq<u8>>, Seq<u8>)>) -> Option<
    (Seq<Seq<u8>>, Seq<u8>),
> {
    match opt {
        Some((tail, rest)) => Some((es + tail, rest)),
        None => None,
    }
}

proof fn lemma_prepend_entries_shift(
    es: Seq<Seq<u8>>,
    c: Seq<u8>,
    opt: Option<(Seq<Seq<u8>>, Seq<u8>)>,
)
    ensures
        prepend_entries(es, prepend_entries(seq![c], opt)) == prepend_entries(es.push(c), opt),
{
    match opt {
        Some((tail, rest)) => {
            assert(es + (seq![c] + tail) =~= es.push(c) + tail);
        },
        None => {},
    }
}

proof fn lemma_entries_bytes_snoc(es: Seq<Seq<u8>>, e: Seq<u8>)
    ensures
        entries_bytes(es.push(e)) == entries_bytes(es) + len_prefixed(e),
    decreases es.len(),
{
    let p = es.push(e);
    if es.len() == 0 {
        assert(p[0] == e);
        assert(p.drop_first() =~= Seq::<Seq<u8>>::empty());
        assert(entries_bytes(p.drop_first()) == Seq::<u8>::empty());
        assert(entries_bytes(p) == len_prefixed(e) + Seq::<u8>::empty());
        assert(len_prefixed(e) + Seq::<u8>::empty() =~= Seq::<u8>::empty() + len_prefixed(e));
    } else {
        lemma_entries_bytes_snoc(es.drop_first(), e);
        assert(p.drop_first() =~= es.drop_first().push(e));
        assert(p[0] == es[0]);
        assert(entries_bytes(p) == len_prefixed(es[0]) + (entries_bytes(es.drop_first())
            + len_prefixed(e)));
        assert(len_prefixed(es[0]) + (entries_bytes(es.drop_first()) + len_prefixed(e)) =~= (
        len_prefixed(es[0]) + entries_bytes(es.drop_first())) + len_prefixed(e));
    }
}

/// Appends one length-prefixed chunk.
fn append_chunk(out: &mut Vec<u8>, b: &Vec<u8>)
    requires
        b@.len() <= u32::MAX,
    ensures
        final(out)@ == old(out)@ + len_prefixed(b@),
{
    let lenb = u32_to_le_bytes(b.len() as u32);
    let ghost mid = old(out)@ + spec_u32_to_le_bytes(b@.len() as u32);
    extend_bytes(out, &lenb);
    extend_bytes(out, b);
    proof {
        assert(out@ =~= old(out)@ + len_prefixed(b@));
    }
}

/// Appends a four-byte little-endian count.
fn append_count(out: &mut Vec<u8>, n: u32)
    ensures
        final(out)@ == old(out)@ + spec_u32_to_le_bytes(n),
{
    let lenb = u32_to_le_bytes(n);
    extend_bytes(out, &lenb);
}

fn extend_bytes(out: &mut Vec<u8>, b: &Vec<u8>)
    ensures
        final(out)@ == old(out)@ + b@,
{
    let mut i: usize = 0;
    while i < b.len()
        invariant
            i <= b.len(),
            out@ == old(out)@ + b@.take(i as int),
        decreases b.len() - i,
    {
        out.push(b[i]);
        proof {
            assert(old(out)@ + b@.take(i + 1) =~= (old(out)@ + b@.take(i as int)).push(
                b@[i as int],
            ));
        }
        i = i + 1;
    }
    proof {
        assert(b@.take(b.len() as int) =~= b@);
        assert(out@ =~= old(out)@ + b@);
    }
}

/// Reads one length-prefixed chunk at `pos`, advancing it.
fn read_chunk(bytes: &[u8], pos: &mut usize) -> (r: Option<Vec<u8>>)
    requires
        *old(pos) <= bytes@.len(),
    ensures
        r matches Some(c) ==> *final(pos) <= bytes@.len() && c@.len() <= u32::MAX && take_chunk(
            bytes@.skip(*old(pos) as int),
        ) == Some((c@, bytes@.skip(*final(pos) as int))),
        r is None ==> *final(pos) == *old(pos) && take_chunk(bytes@.skip(*old(pos) as int))
            is None,
{
    let n = bytes.len();
    let start = *pos;
    let ghost tail = bytes@.skip(start as int);
    if n - start < 4 {
        return None;
    }
    let len32 = u32_from_le_bytes(slice_subrange(bytes, start, start + 4));
    proof {
        assert(bytes@.subrange(start as int, start + 4) =~= tail.take(4));
    }
    let len = len32 as usize;
    if n - start - 4 < len {
        return None;
    }
    let c = slice_to_vec(slice_subrange(bytes, start + 4, start + 4 + len));
    *pos = start + 4 + len;
    proof {
        assert(c@ =~= tail.subrange(4, 4 + len as int));
        assert(bytes@.skip((start + 4 + len) as int) =~= tail.skip(4 + len as int));
    }
    Some(c)
}

/// A fully fetched and locally materialized remote log.
pub struct ResolvedPlog {
    log: Plog,
}

impl View for ResolvedPlog {
    type V = PlogView;

    closed spec fn view(&self) -> PlogView {
        self.log@
    }
}

impl ResolvedPlog {
    pub fn new(log: Plog) -> (r: ResolvedPlog)
        ensures
            r@ == log@,
    {
        ResolvedPlog { log }
    }

    /// The VLAD this resolved log answers to.
    pub fn vlad(&self) -> (r: &Vlad)
        ensures
            r@ == self@.vlad,
    {
        self.log.vlad()
    }

    pub fn entry_count(&self) -> (r: usize)
        ensures
            r == self@.entries.len(),
    {
        self.log.entry_count()
    }
}

} // verus!
