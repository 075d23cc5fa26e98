//! Dial progress and the set of connected peers.
//!
//! The tracker is a four-state machine: `NotConnected` moves to
//! `Connecting` on a well-formed dial request, then to `Connected` when the
//! dialed peer's connection is reported, and to `Error` on malformed input
//! or a failed dial; from `Error` a new dial attempt restarts the sequence.
//! An address without a peer-id component is rejected before any network
//! call.  The set of connected peers is kept separately: peers come on
//! `NewConnection` and go on `ConnectionClosed`.

use vstd::prelude::*;
use vstd::string::StringExecFns;

verus! {

spec fn peers_set_of(s: Seq<String>) -> Set<Seq<char>>
    decreases s.len(),
{
    if s.len() == 0 {
        Set::empty()
    } else {
        peers_set_of(s.drop_last()).insert(s.last()@)
    }
}

proof fn lemma_peers_found(s: Seq<String>, i: int, k: Seq<char>)
    requires
        0 <= i < s.len(),
        s[i]@ == k,
    ensures
        peers_set_of(s).contains(k),
    decreases s.len(),
{
    if i < s.len() - 1 {
        lemma_peers_found(s.drop_last(), i, k);
    }
}

proof fn lemma_peers_absent(s: Seq<String>, k: Seq<char>)
    requires
        forall|j: int| 0 <= j < s.len() ==> s[j]@ != k,
    ensures
        !peers_set_of(s).contains(k),
    decreases s.len(),
{
    if s.len() > 0 {
        lemma_peers_absent(s.drop_last(), k);
    }
}

proof fn lemma_peers_contains_exists(s: Seq<String>, k: Seq<char>)
    requires
        peers_set_of(s).contains(k),
    ensures
        exists|j: int| 0 <= j < s.len() && s[j]@ == k,
    decreases s.len(),
{
    if s.len() > 0 {
        if s.last()@ == k {
            assert(s[s.len() - 1]@ == k);
        } else {
            lemma_peers_contains_exists(s.drop_last(), k);
        }
    }
}

/// Some peer id in the list has this text.
pub open spec fn listed_peer(vs: Seq<String>, k: Seq<char>) -> bool {
    exists|m: int| 0 <= m < vs.len() && vs[m]@ == k
}

/// The remote peers currently connected.
pub struct ConnectedPeers {
    peers: Vec<String>,
}

impl View for ConnectedPeers {
    type V = Set<Seq<char>>;

    closed spec fn view(&self) -> Set<Seq<char>> {
        peers_set_of(self.peers@)
    }
}

impl ConnectedPeers {
    pub fn new() -> (r: ConnectedPeers)
        ensures
            r@ == Set::<Seq<char>>::empty(),
    {
        ConnectedPeers { peers: Vec::new() }
    }

    fn find(&self, peer: &String) -> (r: Option<usize>)
        ensures
            r matches Some(i) ==> i < self.peers@.len() && self.peers@[i as int]@ == peer@,
            r is None ==> forall|j: int| 0 <= j < self.peers@.len() ==> self.peers@[j]@ != peer@,
    {
        let mut i: usize = 0;
        let n = self.peers.len();
        while i < n
            invariant
                i <= n,
                n == self.peers@.len(),
                forall|j: int| 0 <= j < i ==> self.peers@[j]@ != peer@,
            decreases n - i,
        {
            if self.peers[i] == *peer {
                return Some(i);
            }
            i = i + 1;
        }
        None
    }

    pub fn is_connected(&self, peer: &String) -> (r: bool)
        ensures
            r == self@.contains(peer@),
    {
        match self.find(peer) {
            Some(i) => {
                proof {
                    lemma_peers_found(self.peers@, i as int, peer@);
                }
                true
            },
            None => {
                proof {
                    lemma_peers_absent(self.peers@, peer@);
                }
                false
            },
        }
    }

    /// Records a peer as connected.
    pub fn insert(&mut self, peer: &String)
        ensures
            final(self)@ == old(self)@.insert(peer@),
    {
        match self.find(peer) {
            Some(i) => {
                proof {
                    lemma_peers_found(self.peers@, i as int, peer@);
                    assert(peers_set_of(self.peers@).insert(peer@) =~= peers_set_of(
                        self.peers@,
                    ));
                }
            },
            None => {
                let ghost before = self.peers@;
                self.peers.push(peer.clone());
                proof {
                    assert(self.peers@.drop_last() =~= before);
                }
            },
        }
    }

    /// The connected peers, for display: exactly the members of the set.
    pub fn list(&self) -> (r: Vec<String>)
        ensures
            forall|m: int| 0 <= m < r@.len() ==> self@.contains(#[trigger] r@[m]@),
            forall|k: Seq<char>| self@.contains(k) ==> #[trigger] listed_peer(r@, k),
    {
        let r = self.peers.clone();
        proof {
            assert forall|m: int| 0 <= m < r@.len() implies self@.contains(
                #[trigger] r@[m]@,
            ) by {
                assert(r@[m] == self.peers@[m]);
                lemma_peers_found(self.peers@, m, r@[m]@);
            }
            assert forall|k: Seq<char>| self@.contains(k) implies #[trigger] listed_peer(
                r@,
                k,
            ) by {
                lemma_peers_contains_exists(self.peers@, k);
                let j = choose|j: int| 0 <= j < self.peers@.len() && self.peers@[j]@ == k;
                assert(0 <= j < r@.len() && r@[j]@ == k);
            }
        }
        r
    }

    /// Removes a peer.  Removing one never seen is harmless and leaves it
    /// absent.
    pub fn remove(&mut self, peer: &String)
        ensures
            final(self)@ == old(self)@.remove(peer@),
    {
        let ghost orig = self.peers@;
        let mut kept: Vec<String> = Vec::new();
        let mut i: usize = 0;
        let n = self.peers.len();
        while i < n
            invariant
                i <= n,
                n == self.peers@.len(),
                self.peers@ == orig,
                peers_set_of(kept@) == peers_set_of(orig.take(i as int)).remove(peer@),
            decreases n - i,
        {
            proof {
                assert(orig.take(i + 1).drop_last() =~= orig.take(i as int));
                assert(orig.take(i + 1).last() == orig[i as int]);
            }
            let e = &self.peers[i];
            if *e == *peer {
                proof {
                    assert(peers_set_of(orig.take(i + 1)).remove(peer@) =~= peers_set_of(
                        orig.take(i as int),
                    ).remove(peer@));
                }
            } else {
                let ghost before = kept@;
                kept.push(e.clone());
                proof {
                    assert(kept@.drop_last() =~= before);
                    assert(peers_set_of(kept@) =~= peers_set_of(orig.take(i + 1)).remove(
                        peer@,
                    ));
                }
            }
            i = i + 1;
        }
        proof {
            assert(orig.take(n as int) =~= orig);
        }
        self.peers = kept;
    }
}

/// Per-dial state surfaced to the caller.
#[derive(Debug, PartialEq, Eq)]
pub enum ConnectionStatus {
    NotConnected,
    Connecting(String),
    Connected(String),
    Error(String),
}

/// The mathematical content of a `ConnectionStatus`.
pub enum StatusView {
    NotConnected,
    Connecting(Seq<char>),
    Connected(Seq<char>),
    Error(Seq<char>),
}

pub open spec fn status_view_of(s: ConnectionStatus) -> StatusView {
    match s {
        ConnectionStatus::NotConnected => StatusView::NotConnected,
        ConnectionStatus::Connecting(m) => StatusView::Connecting(m@),
        ConnectionStatus::Connected(p) => StatusView::Connected(p@),
        ConnectionStatus::Error(m) => StatusView::Error(m@),
    }
}

/// What a dial-address text holds: `None` where it is no multiaddress,
/// `Some(None)` where it is one without a peer-id component, and the
/// peer-id's display form otherwise.
pub uninterp spec fn multiaddr_peer_of(s: Seq<char>) -> Option<Option<Seq<char>>>;

/// The outcome of examining a dial address.
pub enum MultiaddrPeer {
    Invalid,
    MissingPeerId,
    Peer(String),
}

/// Relies on multiaddr's `Multiaddr` parsing (`str::parse`) and its
/// `Protocol::P2p` component, both functions of the text alone; the
/// peer-id display form comes from libp2p-identity's `PeerId`.
#[verifier::external_body]
fn parse_dial_addr(s: &str) -> (r: MultiaddrPeer)
    ensures
        r is Invalid ==> multiaddr_peer_of(s@) is None,
        r is MissingPeerId ==> multiaddr_peer_of(s@) == Some(None::<Seq<char>>),
        r matches MultiaddrPeer::Peer(p) ==> multiaddr_peer_of(s@) == Some(Some(p@)),
{
    match s.parse::<multiaddr::Multiaddr>() {
        Err(_) => MultiaddrPeer::Invalid,
        Ok(addr) => match addr.iter().find_map(|p| match p {
            multiaddr::Protocol::P2p(id) => Some(id.to_string()),
            _ => None,
        }) {
            Some(id) => MultiaddrPeer::Peer(id),
            None => MultiaddrPeer::MissingPeerId,
        },
    }
}

/// An instruction to the network collaborator: dial this address.
pub struct DialRequest {
    pub addr: String,
}

/// The dial state machine.
pub struct ConnectionTracker {
    status: ConnectionStatus,
    dialed: Option<String>,
}

impl ConnectionTracker {
    pub closed spec fn status_view(&self) -> StatusView {
        status_view_of(self.status)
    }

    pub closed spec fn dialed_view(&self) -> Option<Seq<char>> {
        match self.dialed {
            Some(p) => Some(p@),
            None => None,
        }
    }

    pub fn new() -> (r: ConnectionTracker)
        ensures
            r.status_view() is NotConnected,
            r.dialed_view() is None,
    {
        ConnectionTracker { status: ConnectionStatus::NotConnected, dialed: None }
    }

    /// The current status, for display.
    pub fn status(&self) -> (r: &ConnectionStatus)
        ensures
            status_view_of(*r) == self.status_view(),
    {
        &self.status
    }

    /// A user-initiated dial request.  An address that is no multiaddress,
    /// or one without a peer-id component, is rejected before any network
    /// call: no dial instruction comes back.
    pub fn dial_request(&mut self, addr: &str) -> (r: Option<DialRequest>)
        ensures
            multiaddr_peer_of(addr@) is None ==> r is None
                && final(self).status_view() == StatusView::Error("Invalid Multiaddr"@)
                && final(self).dialed_view() == old(self).dialed_view(),
            multiaddr_peer_of(addr@) == Some(None::<Seq<char>>) ==> r is None
                && final(self).status_view() == StatusView::Error(
                "Multiaddr must contain a peer ID"@)
                && final(self).dialed_view() == old(self).dialed_view(),
            multiaddr_peer_of(addr@) matches Some(Some(pid)) ==> (r matches Some(d)
                && d.addr@ == addr@
                && final(self).status_view() == StatusView::Connecting(
                "Attempting to connect..."@)
                && final(self).dialed_view() == Some(pid)),
    {
        match parse_dial_addr(addr) {
            MultiaddrPeer::Invalid => {
                self.status = ConnectionStatus::Error(String::from_str("Invalid Multiaddr"));
                None
            },
            MultiaddrPeer::MissingPeerId => {
                self.status = ConnectionStatus::Error(
                    String::from_str("Multiaddr must contain a peer ID"),
                );
                None
            },
            MultiaddrPeer::Peer(pid) => {
                self.status = ConnectionStatus::Connecting(
                    String::from_str("Attempting to connect..."),
                );
                self.dialed = Some(pid);
                Some(DialRequest { addr: String::from_str(addr) })
            },
        }
    }

    /// The dial call's own return.  Success only updates the message: the
    /// connection is confirmed by a later `NewConnection` event, not here.
    pub fn dial_result(&mut self, outcome: Result<(), String>, addr: &str)
        ensures
            outcome is Ok ==> final(self).status_view() == StatusView::Connecting(
                "Dialing peer at "@ + addr@,
            ),
            outcome matches Err(e) ==> final(self).status_view() == StatusView::Error(
                "Failed to dial: "@ + e@,
            ),
            final(self).dialed_view() == old(self).dialed_view(),
    {
        match outcome {
            Ok(_) => {
                let m = String::from_str("Dialing peer at ").concat(addr);
                self.status = ConnectionStatus::Connecting(m);
            },
            Err(e) => {
                let m = String::from_str("Failed to dial: ").concat(e.as_str());
                self.status = ConnectionStatus::Error(m);
            },
        }
    }

    /// A connection report.  Only the peer that was dialed completes the
    /// sequence; other peers' connections leave the tracker alone.
    pub fn on_new_connection(&mut self, peer: &String)
        ensures
            old(self).dialed_view() == Some(peer@) ==> final(self).status_view()
                == StatusView::Connected(peer@) && final(self).dialed_view()
                is None,
            old(self).dialed_view() != Some(peer@) ==> *final(self) == *old(self),
    {
        let matched = match &self.dialed {
            Some(d) => *d == *peer,
            None => false,
        };
        if matched {
            self.status = ConnectionStatus::Connected(peer.clone());
            self.dialed = None;
        }
    }
}

} // verus!
