//! VLADs: stable, content-independent peer identifiers.
//!
//! A VLAD is an opaque byte string; two VLADs are the same exactly when their
//! bytes are.  Its display form, which also names gossip topics, is the
//! unpadded base64 text of the bytes.

use crate::b64::{b64_decode, b64_decode_of, b64_encode, b64_of};
use vstd::prelude::*;

verus! {

/// A well-formed VLAD is non-empty and small enough that its textual form
/// can be built without overflowing a length computation.
pub open spec fn vlad_wf(b: Seq<u8>) -> bool {
    1 <= b.len() && b.len() < usize::MAX as int / 4
}

/// The VLAD whose display form a text is, or `None` where the text displays
/// no well-formed VLAD.
pub open spec fn vlad_of_text(s: Seq<char>) -> Option<Seq<u8>> {
    match b64_decode_of(s) {
        Some(b) => if vlad_wf(b) {
            Some(b)
        } else {
            None
        },
        None => None,
    }
}

/// The display form of a VLAD's bytes.
pub open spec fn vlad_text_of(b: Seq<u8>) -> Seq<char> {
    b64_of(b)
}

/// A stable identifier for a peer's log, independent of any particular key
/// or physical address.
pub struct Vlad {
    bytes: Vec<u8>,
}

impl View for Vlad {
    type V = Seq<u8>;

    closed spec fn view(&self) -> Seq<u8> {
        self.bytes@
    }
}

impl Vlad {
    pub open spec fn wf(&self) -> bool {
        vlad_wf(self@)
    }

    /// Wraps raw bytes as a VLAD; rejects byte strings no well-formed VLAD
    /// has.
    pub fn from_bytes(bytes: Vec<u8>) -> (r: Option<Vlad>)
        ensures
            vlad_wf(bytes@) ==> (r matches Some(v) && v@ == bytes@ && v.wf()),
            !vlad_wf(bytes@) ==> r is None,
    {
        if bytes.len() >= 1 && bytes.len() < usize::MAX / 4 {
            Some(Vlad { bytes })
        } else {
            None
        }
    }

    /// Parses the display form of a VLAD, as gossip topics carry it.
    pub fn parse_text(s: &str) -> (r: Option<Vlad>)
        ensures
            r matches Some(v) ==> vlad_of_text(s@) == Some(v@) && v.wf(),
            r is None ==> vlad_of_text(s@) is None,
    {
        match b64_decode(s) {
            Some(bytes) => Vlad::from_bytes(bytes),
            None => None,
        }
    }

    /// The display form; parsing it yields this VLAD back.
    pub fn to_text(&self) -> (r: String)
        requires
            self.wf(),
        ensures
            r@ == vlad_text_of(self@),
            vlad_of_text(r@) == Some(self@),
    {
        b64_encode(self.bytes.as_slice())
    }

    /// The raw bytes, as DHT record keys carry them.
    pub fn as_bytes(&self) -> (r: &Vec<u8>)
        ensures
            r@ == self@,
    {
        &self.bytes
    }

    /// Byte-for-byte equality, the identity of VLADs.
    pub fn same_as(&self, other: &Vlad) -> (r: bool)
        ensures
            r == (self@ == other@),
    {
        let r = self.bytes == other.bytes;
        proof {
            if r {
                assert(self@ =~= other@);
            }
        }
        r
    }

    pub fn duplicate(&self) -> (r: Vlad)
        ensures
            r@ == self@,
    {
        let bytes = self.bytes.clone();
        proof {
            assert(bytes@ =~= self.bytes@);
        }
        Vlad { bytes }
    }
}

} // verus!
