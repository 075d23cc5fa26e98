//! The event dispatch loop: the single ordered consumer of network events.
//!
//! Each event updates the connection state, the peer registry or the
//! gossip dedup set, and may hand back commands: work for concurrently
//! scheduled collaborators (publishing records, publishing an
//! acknowledgement, running a resolution task).  The engine itself never
//! blocks; it decides and returns.

use crate::connect::{ConnectedPeers, ConnectionStatus, ConnectionTracker, DialRequest,
    StatusView};
use crate::dedup::DedupTracker;
use crate::lifecycle::{LogLifecycle, PhaseView, StartDecision};
use crate::plog::{Plog, PlogView, ResolvedPlog};
use crate::registry::PeerRegistry;
use crate::resolve::{HeadRef, ResolutionTask, StageView};
use crate::storage::WalletStorage;
use crate::vlad::{vlad_of_text, vlad_text_of, Vlad};
use crate::Error;
use crate::VLAD_STORAGE_KEY;
use vstd::prelude::*;
use vstd::string::StringExecFns;

verus! {

/// An event delivered by the network collaborator, in arrival order.
pub enum PeerEvent {
    /// The local node listens on this address.
    ListenAddr { address: String },
    /// A connection to a remote peer was established.
    NewConnection { peer: String },
    /// A connection closed, with its cause for diagnostics.
    ConnectionClosed { peer: String, cause: String },
    /// A gossip message: the topic may be a VLAD's text, the data its
    /// log's head bytes.
    Message { topic: String, data: Vec<u8> },
    /// A remote peer stored a record; time to reconcile.
    PutRecordRequest { source: String },
    /// An acknowledgement of an announcement this engine processed.
    Ack { topic: String },
    /// Anything else; ignored.
    Other,
}

/// The mathematical content of an event.
pub enum EventView {
    ListenAddr { address: Seq<char> },
    NewConnection { peer: Seq<char> },
    ConnectionClosed { peer: Seq<char>, cause: Seq<char> },
    Message { topic: Seq<char>, data: Seq<u8> },
    PutRecordRequest { source: Seq<char> },
    Ack { topic: Seq<char> },
    Other,
}

impl View for PeerEvent {
    type V = EventView;

    open spec fn view(&self) -> EventView {
        match self {
            PeerEvent::ListenAddr { address } => EventView::ListenAddr { address: address@ },
            PeerEvent::NewConnection { peer } => EventView::NewConnection { peer: peer@ },
            PeerEvent::ConnectionClosed { peer, cause } => EventView::ConnectionClosed {
                peer: peer@,
                cause: cause@,
            },
            PeerEvent::Message { topic, data } => EventView::Message {
                topic: topic@,
                data: data@,
            },
            PeerEvent::PutRecordRequest { source } => EventView::PutRecordRequest {
                source: source@,
            },
            PeerEvent::Ack { topic } => EventView::Ack { topic: topic@ },
            PeerEvent::Other => EventView::Other,
        }
    }
}

/// Work the engine hands to its collaborators.
pub enum Command {
    /// Re-publish the local log's DHT records, so a newly connected peer
    /// sees fresh data.
    PublishDhtRecords,
    /// Subscribe to a gossip topic.
    Subscribe { topic: String },
    /// Run this resolution concurrently; its outcome comes back through
    /// `apply_resolution`.
    Spawn(ResolutionTask),
    /// Publish an acknowledgement on this topic.
    PublishAck { topic: String },
}

/// The mathematical content of a command.
pub enum CommandView {
    PublishDhtRecords,
    Subscribe { topic: Seq<char> },
    Spawn { vlad: Seq<u8>, stage: StageView },
    PublishAck { topic: Seq<char> },
}

pub open spec fn command_view(c: Command) -> CommandView {
    match c {
        Command::PublishDhtRecords => CommandView::PublishDhtRecords,
        Command::Subscribe { topic } => CommandView::Subscribe { topic: topic@ },
        Command::Spawn(t) => CommandView::Spawn { vlad: t.vlad_view(), stage: t.stage_view() },
        Command::PublishAck { topic } => CommandView::PublishAck { topic: topic@ },
    }
}

pub open spec fn cmds_view(s: Seq<Command>) -> Seq<CommandView> {
    s.map(|i: int, c: Command| command_view(c))
}

/// The topic an acknowledgement for a VLAD's announcement goes on.
pub open spec fn ack_topic_of(vb: Seq<u8>) -> Seq<char> {
    "ack/"@ + vlad_text_of(vb)
}

/// The engine's observable state.
#[verifier::ext_equal]
pub struct EngineView {
    /// VLAD to last-known resolved log; `None` is tracked, unresolved.
    pub registry: Map<Seq<u8>, Option<PlogView>>,
    /// VLADs with a locally-initiated resolution in flight.
    pub dedup: Set<Seq<u8>>,
    /// Remote peers currently connected.
    pub connected: Set<Seq<char>>,
    /// The local listen address, once reported.
    pub listen_addr: Option<Seq<char>>,
    /// Dial progress.
    pub status: StatusView,
    /// The peer-id dialed and not yet confirmed.
    pub dialed: Option<Seq<char>>,
}

/// Whether a gossip message for `v` is accepted in state `s`: its topic
/// displays `v`, its head bytes are non-empty, and no resolution for `v`
/// is already in flight.
pub open spec fn message_accepted(s: EngineView, e: EventView, v: Seq<u8>) -> bool {
    &&& e matches EventView::Message { topic, data } && vlad_of_text(topic) == Some(v)
        && data.len() > 0
    &&& !s.dedup.contains(v)
}

/// How one event rewrites the engine's state.  Commands are described at
/// `handle_event`; reconciliation is the one event whose commands this
/// state does not determine alone.
pub open spec fn step_state(s: EngineView, e: EventView) -> EngineView {
    match e {
        EventView::ListenAddr { address } => EngineView { listen_addr: Some(address), ..s },
        EventView::NewConnection { peer } => EngineView {
            connected: s.connected.insert(peer),
            status: if s.dialed == Some(peer) {
                StatusView::Connected(peer)
            } else {
                s.status
            },
            dialed: if s.dialed == Some(peer) {
                None
            } else {
                s.dialed
            },
            ..s
        },
        EventView::ConnectionClosed { peer, cause } => EngineView {
            connected: s.connected.remove(peer),
            ..s
        },
        EventView::Message { topic, data } => match vlad_of_text(topic) {
            Some(v) => if !s.dedup.contains(v) && data.len() > 0 {
                EngineView { dedup: s.dedup.insert(v), ..s }
            } else {
                s
            },
            None => s,
        },
        EventView::PutRecordRequest { source } => s,
        EventView::Ack { topic } => match vlad_of_text(topic) {
            Some(v) => EngineView { dedup: s.dedup.remove(v), ..s },
            None => s,
        },
        EventView::Other => s,
    }
}

/// The peer synchronization engine: the local log's lifecycle, the peer
/// registry, the gossip dedup set and the connection state, driven by one
/// ordered stream of events.
pub struct Engine {
    lifecycle: LogLifecycle,
    registry: PeerRegistry,
    dedup: DedupTracker,
    connected: ConnectedPeers,
    tracker: ConnectionTracker,
    listen_addr: Option<String>,
}

impl View for Engine {
    type V = EngineView;

    closed spec fn view(&self) -> EngineView {
        EngineView {
            registry: self.registry@,
            dedup: self.dedup@,
            connected: self.connected@,
            listen_addr: match self.listen_addr {
                Some(a) => Some(a@),
                None => None,
            },
            status: self.tracker.status_view(),
            dialed: self.tracker.dialed_view(),
        }
    }
}

impl Engine {
    pub closed spec fn wf(&self) -> bool {
        self.registry.wf() && self.lifecycle.wf()
    }

    pub closed spec fn lifecycle_phase(&self) -> PhaseView {
        self.lifecycle.phase_view()
    }

    pub closed spec fn local_log(&self) -> Option<PlogView> {
        self.lifecycle.log_view()
    }

    pub fn new() -> (r: Engine)
        ensures
            r.wf(),
            r.lifecycle_phase() is Fresh,
            r.local_log() is None,
            r@.registry == Map::<Seq<u8>, Option<PlogView>>::empty(),
            r@.dedup == Set::<Seq<u8>>::empty(),
            r@.connected == Set::<Seq<char>>::empty(),
            r@.listen_addr is None,
            r@.status is NotConnected,
            r@.dialed is None,
    {
        Engine {
            lifecycle: LogLifecycle::new(),
            registry: PeerRegistry::new(),
            dedup: DedupTracker::new(),
            connected: ConnectedPeers::new(),
            tracker: ConnectionTracker::new(),
            listen_addr: None,
        }
    }
}

/// A command spawns an unresolved tracked VLAD's record lookup.
pub open spec fn fetch_spawn_of(reg: Map<Seq<u8>, Option<PlogView>>, c: CommandView) -> bool {
    c matches CommandView::Spawn { vlad, stage } && stage is FetchRecord && reg.contains_key(
        vlad,
    ) && reg[vlad] is None
}

pub open spec fn spawn_fetch_for(c: CommandView, k: Seq<u8>) -> bool {
    c matches CommandView::Spawn { vlad, stage } && vlad == k && stage is FetchRecord
}

/// Some command in the list spawns `k`'s record lookup.
pub open spec fn some_fetch_for(cs: Seq<CommandView>, k: Seq<u8>) -> bool {
    exists|i: int| 0 <= i < cs.len() && spawn_fetch_for(cs[i], k)
}

impl Engine {
    /// Processes one event, in arrival order, and answers the work to
    /// schedule.  The state moves exactly by `step_state`; the commands
    /// are listed per event below.  Reconciliation (`PutRecordRequest`)
    /// spawns one record lookup for each tracked, unresolved VLAD, each
    /// exactly once, and nothing else; every other event's commands are
    /// fixed by the state alone.
    pub fn handle_event(&mut self, event: PeerEvent) -> (cmds: Vec<Command>)
        requires
            old(self).wf(),
        ensures
            final(self).wf(),
            final(self)@ == step_state(old(self)@, event@),
            final(self).lifecycle_phase() == old(self).lifecycle_phase(),
            final(self).local_log() == old(self).local_log(),
            event@ matches EventView::NewConnection { peer } ==> cmds_view(cmds@) == seq![
                CommandView::PublishDhtRecords,
            ],
            event@ matches EventView::Message { topic, data } ==> (match vlad_of_text(topic) {
                Some(v) => if message_accepted(old(self)@, event@, v) {
                    cmds_view(cmds@) == seq![
                        CommandView::Spawn { vlad: v, stage: StageView::ResolveHead(data) },
                        CommandView::PublishAck { topic: ack_topic_of(v) },
                    ]
                } else {
                    cmds@.len() == 0
                },
                None => cmds@.len() == 0,
            }),
            event@ matches EventView::PutRecordRequest { source } ==> ({
                &&& forall|i: int|
                    0 <= i < cmds@.len() ==> fetch_spawn_of(
                        old(self)@.registry,
                        #[trigger] cmds_view(cmds@)[i],
                    )
                &&& forall|k: Seq<u8>|
                    old(self)@.registry.contains_key(k) && old(self)@.registry[k] is None
                        ==> #[trigger] some_fetch_for(cmds_view(cmds@), k)
                &&& forall|i: int, j: int, k: Seq<u8>|
                    0 <= i < j < cmds@.len() && #[trigger] spawn_fetch_for(
                        cmds_view(cmds@)[i],
                        k,
                    ) ==> !#[trigger] spawn_fetch_for(cmds_view(cmds@)[j], k)
            }),
            event@ matches EventView::ListenAddr { address } ==> cmds@.len() == 0,
            event@ matches EventView::ConnectionClosed { peer, cause } ==> cmds@.len() == 0,
            event@ matches EventView::Ack { topic } ==> cmds@.len() == 0,
            event@ is Other ==> cmds@.len() == 0,
    {
        let mut cmds: Vec<Command> = Vec::new();
        match event {
            PeerEvent::ListenAddr { address } => {
                self.listen_addr = Some(address);
            },
            PeerEvent::NewConnection { peer } => {
                self.connected.insert(&peer);
                self.tracker.on_new_connection(&peer);
                cmds.push(Command::PublishDhtRecords);
                proof {
                    assert(cmds_view(cmds@) =~= seq![CommandView::PublishDhtRecords]);
                }
            },
            PeerEvent::ConnectionClosed { peer, cause } => {
                self.connected.remove(&peer);
            },
            PeerEvent::Message { topic, data } => {
                match Vlad::parse_text(topic.as_str()) {
                    Some(vlad) => {
                        let ghost v = vlad@;
                        match HeadRef::from_bytes(data) {
                            Some(head) => {
                                if self.accept_announcement(&vlad) {
                                    let ack = ack_topic(&vlad);
                                    let ghost d = head@;
                                    cmds.push(
                                        Command::Spawn(ResolutionTask::from_head(vlad, head)),
                                    );
                                    cmds.push(Command::PublishAck { topic: ack });
                                    proof {
                                        assert(cmds_view(cmds@) =~= seq![
                                            CommandView::Spawn {
                                                vlad: v,
                                                stage: StageView::ResolveHead(d),
                                            },
                                            CommandView::PublishAck {
                                                topic: ack_topic_of(v),
                                            },
                                        ]);
                                    }
                                } else {
                                    proof {
                                        assert(old(self)@.dedup.insert(v) =~= old(self)@.dedup);
                                    }
                                }
                            },
                            None => {},
                        }
                    },
                    None => {},
                }
            },
            PeerEvent::PutRecordRequest { source } => {
                cmds = self.reconcile_commands();
            },
            PeerEvent::Ack { topic } => {
                match Vlad::parse_text(topic.as_str()) {
                    Some(vlad) => {
                        self.dedup.release(&vlad);
                    },
                    None => {},
                }
            },
            PeerEvent::Other => {},
        }
        proof {
            assert(self@ =~= step_state(old(self)@, event@));
        }
        cmds
    }

    /// The admission test for an announcement; records the VLAD so that a
    /// duplicate is suppressed until its acknowledgement releases it.
    fn accept_announcement(&mut self, vlad: &Vlad) -> (r: bool)
        ensures
            r == !old(self)@.dedup.contains(vlad@),
            final(self).dedup@ == old(self).dedup@.insert(vlad@),
            final(self).registry == old(self).registry,
            final(self).connected == old(self).connected,
            final(self).tracker == old(self).tracker,
            final(self).listen_addr == old(self).listen_addr,
            final(self).lifecycle == old(self).lifecycle,
    {
        self.dedup.accept(vlad)
    }

    /// One record lookup for each tracked, unresolved VLAD: the
    /// reconciliation sweep over a snapshot of the registry.
    fn reconcile_commands(&self) -> (cmds: Vec<Command>)
        requires
            self.wf(),
        ensures
            forall|i: int|
                0 <= i < cmds@.len() ==> fetch_spawn_of(
                    self@.registry,
                    #[trigger] cmds_view(cmds@)[i],
                ),
            forall|k: Seq<u8>|
                self@.registry.contains_key(k) && self@.registry[k] is None
                    ==> #[trigger] some_fetch_for(cmds_view(cmds@), k),
            forall|i: int, j: int, k: Seq<u8>|
                0 <= i < j < cmds@.len() && #[trigger] spawn_fetch_for(cmds_view(cmds@)[i], k)
                    ==> !#[trigger] spawn_fetch_for(cmds_view(cmds@)[j], k),
    {
        let vlads = self.registry.unresolved_vlads();
        let mut cmds: Vec<Command> = Vec::new();
        let mut i: usize = 0;
        while i < vlads.len()
            invariant
                i <= vlads@.len(),
                cmds@.len() == i,
                forall|m: int|
                    0 <= m < i ==> #[trigger] cmds_view(cmds@)[m] == (CommandView::Spawn {
                        vlad: vlads@[m]@,
                        stage: StageView::FetchRecord,
                    }),
            decreases vlads@.len() - i,
        {
            let ghost before = cmds@;
            let task = ResolutionTask::from_vlad(vlads[i].duplicate());
            cmds.push(Command::Spawn(task));
            proof {
                assert forall|m: int| 0 <= m < i + 1 implies #[trigger] cmds_view(cmds@)[m]
                    == (CommandView::Spawn {
                    vlad: vlads@[m]@,
                    stage: StageView::FetchRecord,
                }) by {
                    assert(cmds_view(cmds@)[m] == command_view(cmds@[m]));
                    if m < i {
                        assert(cmds@[m] == before[m]);
                        assert(cmds_view(before)[m] == command_view(before[m]));
                    } else {
                        assert(cmds@[m] == Command::Spawn(task));
                        assert(task.stage_view() == StageView::FetchRecord);
                    }
                }
            }
            i = i + 1;
        }
        proof {
            let reg = self@.registry;
            let cv = cmds_view(cmds@);
            assert(cv.len() == vlads@.len());
            assert forall|m: int| 0 <= m < cv.len() implies fetch_spawn_of(
                reg,
                #[trigger] cv[m],
            ) by {
                assert(reg.contains_key(vlads@[m]@) && reg[vlads@[m]@] is None);
            }
            assert forall|k: Seq<u8>|
                reg.contains_key(k) && reg[k] is None implies #[trigger] some_fetch_for(
                cv,
                k,
            ) by {
                assert(crate::registry::contains_vlad(vlads@, k));
                let m = choose|m: int| 0 <= m < vlads@.len() && vlads@[m]@ == k;
                assert(spawn_fetch_for(cv[m], k));
            }
            assert forall|i2: int, j2: int, k: Seq<u8>|
                0 <= i2 < j2 < cv.len() && #[trigger] spawn_fetch_for(cv[i2], k) implies !
                #[trigger] spawn_fetch_for(cv[j2], k) by {
                assert(vlads@[i2]@ != vlads@[j2]@);
            }
        }
        cmds
    }
}

impl Engine {
    /// The load-or-generate decision for the local log, run once at
    /// startup.
    pub fn initialize<S: WalletStorage>(&mut self, storage: &S) -> (r: StartDecision)
        requires
            old(self).wf(),
            old(self).lifecycle_phase() is Fresh,
        ensures
            final(self).wf(),
            final(self)@ == old(self)@,
            r == StartDecision::Loaded ==> final(self).lifecycle_phase() is Ready && (final(self).local_log() matches Some(v) && storage.contents().contains_key(VLAD_STORAGE_KEY@)
                && crate::plog::plog_of_bytes(storage.contents()[VLAD_STORAGE_KEY@]) == Some(
                v,
            )),
            r == StartDecision::NeedsGenerate ==> final(self).lifecycle_phase()
                is AwaitingGenerate && final(self).local_log() is None,
            !storage.contents().contains_key(VLAD_STORAGE_KEY@) ==> r
                == StartDecision::NeedsGenerate,
    {
        self.lifecycle.start(storage)
    }

    /// Takes a generated log into use, persisting its exact bytes.
    pub fn provide_generated<S: WalletStorage>(
        &mut self,
        storage: &mut S,
        generated: Plog,
    ) -> (r: Result<(), Error>)
        requires
            old(self).wf(),
            old(self).lifecycle_phase() is AwaitingGenerate,
            generated.wf(),
        ensures
            final(self).wf(),
            final(self)@ == old(self)@,
            final(self).lifecycle_phase() is Ready,
            final(self).local_log() == Some(generated@),
            r is Ok ==> final(storage).contents() == old(storage).contents().insert(
                VLAD_STORAGE_KEY@,
                crate::plog::plog_bytes(generated@),
            ),
            r is Err ==> final(storage).contents() == old(storage).contents(),
    {
        self.lifecycle.provide_generated(storage, generated)
    }

    /// Generation failed: the engine proceeds with no log.
    pub fn generation_failed(&mut self)
        requires
            old(self).wf(),
            old(self).lifecycle_phase() is AwaitingGenerate,
        ensures
            final(self).wf(),
            final(self)@ == old(self)@,
            final(self).lifecycle_phase() is Ready,
            final(self).local_log() is None,
    {
        self.lifecycle.generation_failed()
    }

    /// The local log, for observers; `NoLog` where none is available.
    pub fn local_plog(&self) -> (r: Result<&Plog, Error>)
        ensures
            self.local_log() matches Some(v) ==> (r matches Ok(p) && p@ == v),
            self.local_log() is None ==> r == Err::<&Plog, Error>(Error::NoLog),
    {
        self.lifecycle.local_plog()
    }

    /// The local VLAD's display text, for observers.
    pub fn local_vlad_text(&self) -> (r: Result<String, Error>)
        requires
            self.wf(),
        ensures
            self.local_log() matches Some(v) ==> (r matches Ok(t) && t@ == vlad_text_of(
                v.vlad,
            )),
            self.local_log() is None ==> r == Err::<String, Error>(Error::NoLog),
    {
        self.lifecycle.vlad_text()
    }

    /// Persists the current local log again, unchanged.
    pub fn persist_log<S: WalletStorage>(&self, storage: &mut S) -> (r: Result<(), Error>)
        requires
            self.wf(),
        ensures
            self.local_log() is None ==> r == Err::<(), Error>(Error::NoLog),
            r is Err ==> final(storage).contents() == old(storage).contents(),
            self.local_log() matches Some(v) ==> (r is Ok ==> final(storage).contents() == old(storage).contents().insert(VLAD_STORAGE_KEY@, crate::plog::plog_bytes(v))),
    {
        self.lifecycle.persist(storage)
    }

    /// A user request to track a peer by its VLAD's text.  An empty or
    /// unparseable input is rejected; one already tracked is reported as
    /// such and changes nothing; otherwise the VLAD is tracked unresolved,
    /// its topic is subscribed to and its resolution is spawned.
    pub fn track_peer(&mut self, input: &str) -> (r: Result<Vec<Command>, Error>)
        requires
            old(self).wf(),
        ensures
            final(self).wf(),
            final(self).lifecycle_phase() == old(self).lifecycle_phase(),
            final(self).local_log() == old(self).local_log(),
            input@.len() == 0 ==> r == Err::<Vec<Command>, Error>(Error::EmptyVlad) && final(self)@ == old(self)@,
            input@.len() != 0 && vlad_of_text(input@) is None ==> r == Err::<
                Vec<Command>,
                Error,
            >(Error::InvalidVlad) && final(self)@ == old(self)@,
            vlad_of_text(input@) matches Some(vb) ==> (input@.len() != 0
                ==> if old(self)@.registry.contains_key(vb) {
                r == Err::<Vec<Command>, Error>(Error::AlreadyTracked) && final(self)@ == old(self)@
            } else {
                r matches Ok(cmds) && final(self)@ == (EngineView {
                    registry: old(self)@.registry.insert(vb, None::<PlogView>),
                    ..old(self)@
                }) && cmds_view(cmds@) == seq![
                    CommandView::Subscribe { topic: vlad_text_of(vb) },
                    CommandView::Spawn { vlad: vb, stage: StageView::FetchRecord },
                ]
            }),
    {
        if input.is_empty() {
            return Err(Error::EmptyVlad);
        }
        match Vlad::parse_text(input) {
            None => Err(Error::InvalidVlad),
            Some(vlad) => {
                let topic = vlad.to_text();
                let ghost vb = vlad@;
                match self.registry.track(vlad.duplicate()) {
                    Err(e) => Err(e),
                    Ok(_) => {
                        let mut cmds: Vec<Command> = Vec::new();
                        cmds.push(Command::Subscribe { topic });
                        cmds.push(Command::Spawn(ResolutionTask::from_vlad(vlad)));
                        proof {
                            assert(cmds_view(cmds@) =~= seq![
                                CommandView::Subscribe { topic: vlad_text_of(vb) },
                                CommandView::Spawn { vlad: vb, stage: StageView::FetchRecord },
                            ]);
                            assert(self@ =~= (EngineView {
                                registry: old(self)@.registry.insert(vb, None::<PlogView>),
                                ..old(self)@
                            }));
                        }
                        Ok(cmds)
                    },
                }
            },
        }
    }

    /// A user request to stop tracking a VLAD.  Unconditional; resolution
    /// failures never reach here.
    pub fn untrack_peer(&mut self, vlad: &Vlad)
        requires
            old(self).wf(),
        ensures
            final(self).wf(),
            final(self).lifecycle_phase() == old(self).lifecycle_phase(),
            final(self).local_log() == old(self).local_log(),
            final(self)@ == (EngineView {
                registry: old(self)@.registry.remove(vlad@),
                ..old(self)@
            }),
    {
        self.registry.untrack(vlad);
        proof {
            assert(self@ =~= (EngineView {
                registry: old(self)@.registry.remove(vlad@),
                ..old(self)@
            }));
        }
    }

    /// Writes a finished resolution into the registry, by key: entries
    /// added or removed meanwhile are not clobbered.
    pub fn apply_resolution(&mut self, vlad: Vlad, plog: ResolvedPlog)
        requires
            old(self).wf(),
        ensures
            final(self).wf(),
            final(self).lifecycle_phase() == old(self).lifecycle_phase(),
            final(self).local_log() == old(self).local_log(),
            final(self)@ == (EngineView {
                registry: old(self)@.registry.insert(vlad@, Some(plog@)),
                ..old(self)@
            }),
    {
        let ghost vb = vlad@;
        let ghost pv = plog@;
        self.registry.store_resolved(vlad, plog);
        proof {
            assert(self@ =~= (EngineView {
                registry: old(self)@.registry.insert(vb, Some(pv)),
                ..old(self)@
            }));
        }
    }

    pub fn is_tracked(&self, vlad: &Vlad) -> (r: bool)
        requires
            self.wf(),
        ensures
            r == self@.registry.contains_key(vlad@),
    {
        self.registry.is_tracked(vlad)
    }

    pub fn is_pending(&self, vlad: &Vlad) -> (r: bool)
        ensures
            r == self@.dedup.contains(vlad@),
    {
        self.dedup.is_pending(vlad)
    }

    pub fn is_connected(&self, peer: &String) -> (r: bool)
        ensures
            r == self@.connected.contains(peer@),
    {
        self.connected.is_connected(peer)
    }

    /// The registry entry for a VLAD, for observers: `None` where it is
    /// not tracked; `Some(None)` where it is tracked but unresolved.
    pub fn peer_entry(&self, vlad: &Vlad) -> (r: Option<&Option<ResolvedPlog>>)
        requires
            self.wf(),
        ensures
            r matches Some(e) ==> self@.registry.contains_key(vlad@)
                && crate::registry::opt_plog_view(*e) == self@.registry[vlad@],
            r is None ==> !self@.registry.contains_key(vlad@),
    {
        self.registry.get(vlad)
    }

    /// The connected peers, for display: exactly the members of the set.
    pub fn connected_peers(&self) -> (r: Vec<String>)
        ensures
            forall|m: int| 0 <= m < r@.len() ==> self@.connected.contains(#[trigger] r@[m]@),
            forall|k: Seq<char>|
                self@.connected.contains(k) ==> #[trigger] crate::connect::listed_peer(r@, k),
    {
        self.connected.list()
    }

    pub fn tracked_count(&self) -> (r: usize)
        ensures
            r == self.registry_count(),
    {
        self.registry.count()
    }

    pub closed spec fn registry_count(&self) -> nat {
        self.registry.spec_count()
    }

    /// The local listen address, once a `ListenAddr` event reported one.
    pub fn listen_address(&self) -> (r: Option<&String>)
        ensures
            r matches Some(a) ==> self@.listen_addr == Some(a@),
            r is None ==> self@.listen_addr is None,
    {
        match &self.listen_addr {
            Some(a) => Some(a),
            None => None,
        }
    }

    /// A user-initiated dial.  Malformed addresses are rejected before
    /// any network call; a well-formed one yields the dial instruction.
    pub fn dial(&mut self, addr: &str) -> (r: Option<DialRequest>)
        requires
            old(self).wf(),
        ensures
            final(self).wf(),
            final(self).lifecycle_phase() == old(self).lifecycle_phase(),
            final(self).local_log() == old(self).local_log(),
            final(self)@.registry == old(self)@.registry,
            final(self)@.dedup == old(self)@.dedup,
            final(self)@.connected == old(self)@.connected,
            final(self)@.listen_addr == old(self)@.listen_addr,
            crate::connect::multiaddr_peer_of(addr@) is None ==> r is None && final(self)@.status
                == StatusView::Error("Invalid Multiaddr"@) && final(self)@.dialed == old(self)@.dialed,
            crate::connect::multiaddr_peer_of(addr@) == Some(None::<Seq<char>>) ==> r is None
                && final(self)@.status == StatusView::Error("Multiaddr must contain a peer ID"@)
                && final(self)@.dialed == old(self)@.dialed,
            crate::connect::multiaddr_peer_of(addr@) matches Some(Some(pid)) ==> (r matches Some(
                d,
            ) && d.addr@ == addr@ && final(self)@.status == StatusView::Connecting(
                "Attempting to connect..."@,
            ) && final(self)@.dialed == Some(pid)),
    {
        self.tracker.dial_request(addr)
    }

    /// The dial call's own return, handed back by the network
    /// collaborator.
    pub fn dial_finished(&mut self, outcome: Result<(), String>, addr: &str)
        requires
            old(self).wf(),
        ensures
            final(self).wf(),
            final(self).lifecycle_phase() == old(self).lifecycle_phase(),
            final(self).local_log() == old(self).local_log(),
            final(self)@.registry == old(self)@.registry,
            final(self)@.dedup == old(self)@.dedup,
            final(self)@.connected == old(self)@.connected,
            final(self)@.listen_addr == old(self)@.listen_addr,
            final(self)@.dialed == old(self)@.dialed,
            outcome is Ok ==> final(self)@.status == StatusView::Connecting(
                "Dialing peer at "@ + addr@,
            ),
            outcome matches Err(e) ==> final(self)@.status == StatusView::Error(
                "Failed to dial: "@ + e@,
            ),
    {
        self.tracker.dial_result(outcome, addr)
    }

    /// The dial status, for display.
    pub fn connection_status(&self) -> (r: &ConnectionStatus)
        ensures
            crate::connect::status_view_of(*r) == self@.status,
    {
        self.tracker.status()
    }
}

/// The state after a whole trace of events, processed in order.
pub open spec fn run_events(s: EngineView, events: Seq<EventView>) -> EngineView
    decreases events.len(),
{
    if events.len() == 0 {
        s
    } else {
        run_events(step_state(s, events[0]), events.drop_first())
    }
}

/// How many announcements for `v` a trace gets accepted.  Each acceptance
/// is exactly one resolution spawn and one acknowledgement publish, by
/// `handle_event`'s contract.
pub open spec fn acceptances_for(s: EngineView, events: Seq<EventView>, v: Seq<u8>) -> nat
    decreases events.len(),
{
    if events.len() == 0 {
        0
    } else {
        (if message_accepted(s, events[0], v) {
            1nat
        } else {
            0nat
        }) + acceptances_for(step_state(s, events[0]), events.drop_first(), v)
    }
}

/// An acknowledgement event that releases `v` from the dedup set.
pub open spec fn releases_vlad(e: EventView, v: Seq<u8>) -> bool {
    e matches EventView::Ack { topic } && vlad_of_text(topic) == Some(v)
}

/// Duplicate suppression: over any trace of events in which no
/// acknowledgement for `v` arrives, announcements for `v` are accepted at
/// most once — so resolution and acknowledgement publishing for `v`
/// happen at most once, however often the announcement is re-delivered.
pub proof fn lemma_duplicate_announcements_accepted_once(
    s: EngineView,
    events: Seq<EventView>,
    v: Seq<u8>,
)
    requires
        forall|i: int| 0 <= i < events.len() ==> !releases_vlad(#[trigger] events[i], v),
    ensures
        s.dedup.contains(v) ==> acceptances_for(s, events, v) == 0,
        acceptances_for(s, events, v) <= 1,
    decreases events.len(),
{
    if events.len() > 0 {
        let e = events[0];
        let s2 = step_state(s, e);
        let rest = events.drop_first();
        assert forall|i: int| 0 <= i < rest.len() implies !releases_vlad(
            #[trigger] rest[i],
            v,
        ) by {
            assert(rest[i] == events[i + 1]);
        }
        assert(!releases_vlad(e, v));
        if s.dedup.contains(v) {
            assert(s2.dedup.contains(v)) by {
                match e {
                    EventView::Message { topic, data } => {},
                    EventView::Ack { topic } => {
                        assert(vlad_of_text(topic) != Some(v));
                    },
                    _ => {},
                }
            }
            lemma_duplicate_announcements_accepted_once(s2, rest, v);
        } else {
            if message_accepted(s, e, v) {
                assert(s2.dedup.contains(v));
                lemma_duplicate_announcements_accepted_once(s2, rest, v);
            } else {
                assert(!s2.dedup.contains(v)) by {
                    match e {
                        EventView::Message { topic, data } => {
                            if vlad_of_text(topic) == Some(v) {
                                assert(!s.dedup.contains(v));
                            }
                        },
                        _ => {},
                    }
                }
                lemma_duplicate_announcements_accepted_once(s2, rest, v);
            }
        }
    }
}

/// Connection lifecycle: a connection followed by its close leaves the
/// peer absent from the connected set, and a close delivered without a
/// prior connection is harmless and also leaves it absent.
pub proof fn lemma_connection_close_leaves_absent(s: EngineView, p: Seq<char>, c: Seq<char>)
    ensures
        !run_events(
            s,
            seq![
                EventView::NewConnection { peer: p },
                EventView::ConnectionClosed { peer: p, cause: c },
            ],
        ).connected.contains(p),
        !step_state(s, EventView::ConnectionClosed { peer: p, cause: c }).connected.contains(p),
{
    let closed = EventView::ConnectionClosed { peer: p, cause: c };
    let tr = seq![EventView::NewConnection { peer: p }, closed];
    let tr1 = seq![closed];
    let s1 = step_state(s, tr[0]);
    let s2 = step_state(s1, closed);
    assert(tr.drop_first() =~= tr1);
    assert(tr[0] == EventView::NewConnection { peer: p });
    assert(run_events(s, tr) == run_events(s1, tr1));
    assert(tr1.drop_first() =~= Seq::<EventView>::empty());
    assert(tr1[0] == closed);
    assert(run_events(s1, tr1) == run_events(s2, Seq::<EventView>::empty()));
    assert(run_events(s2, Seq::<EventView>::empty()) == s2);
}

/// Tracking a VLAD twice leaves the registry with exactly one entry for
/// it: the first successful track makes the VLAD present, so by
/// `track_peer`'s contract the second request answers `AlreadyTracked`
/// and changes nothing.
pub proof fn lemma_track_twice_single_entry(m: Map<Seq<u8>, Option<PlogView>>, v: Seq<u8>)
    ensures
        m.insert(v, None::<PlogView>).contains_key(v),
        m.insert(v, None::<PlogView>).insert(v, None::<PlogView>) == m.insert(
            v,
            None::<PlogView>,
        ),
{
    assert(m.insert(v, None::<PlogView>).insert(v, None::<PlogView>) =~= m.insert(
        v,
        None::<PlogView>,
    ));
}

/// The topic an acknowledgement for this VLAD goes on.
pub fn ack_topic(vlad: &Vlad) -> (r: String)
    requires
        vlad.wf(),
    ensures
        r@ == ack_topic_of(vlad@),
{
    let text = vlad.to_text();
    String::from_str("ack/").concat(text.as_str())
}

} // verus!
