//! Identity and log lifecycle: load the local Plog from storage, or have
//! one generated.
//!
//! Startup runs exactly one load-or-generate sequence, never both: the
//! phases only move forward.  A stored log that fails to decode is not
//! fatal; startup falls through to generation.  A generation failure is
//! reported and the peer proceeds with no log; operations that need one
//! answer `NoLog`.

use crate::plog::{plog_bytes, plog_of_bytes, Plog, PlogView};
use crate::storage::WalletStorage;
use crate::Error;
use crate::VLAD_STORAGE_KEY;
use vstd::prelude::*;

verus! {

/// Round trip through storage: once a well-formed log's bytes are
/// persisted under the well-known key, the stored value decodes to an
/// equal log — same VLAD, same entries, so in particular an equal entry
/// count.  With `start`'s contract this says a restart loads the log
/// back.
pub proof fn lemma_persisted_log_round_trip(c: Map<Seq<char>, Seq<u8>>, v: PlogView)
    requires
        crate::plog::plog_view_wf(v),
    ensures
        c.insert(VLAD_STORAGE_KEY@, plog_bytes(v)).contains_key(VLAD_STORAGE_KEY@),
        plog_of_bytes(c.insert(VLAD_STORAGE_KEY@, plog_bytes(v))[VLAD_STORAGE_KEY@]) == Some(v),
{
    crate::plog::lemma_plog_codec_round_trip(v);
}

/// What startup decided.
#[derive(Debug, PartialEq, Eq)]
pub enum StartDecision {
    /// A stored log was decoded and is in use; nothing is generated.
    Loaded,
    /// No usable stored log; a generated one must be provided.
    NeedsGenerate,
}

enum Phase {
    Fresh,
    AwaitingGenerate,
    Ready,
}

/// The phase the lifecycle is in, for contracts.
pub enum PhaseView {
    Fresh,
    AwaitingGenerate,
    Ready,
}

/// The local peer's log lifecycle.
pub struct LogLifecycle {
    phase: Phase,
    log: Option<Plog>,
}

impl LogLifecycle {
    pub closed spec fn phase_view(&self) -> PhaseView {
        match self.phase {
            Phase::Fresh => PhaseView::Fresh,
            Phase::AwaitingGenerate => PhaseView::AwaitingGenerate,
            Phase::Ready => PhaseView::Ready,
        }
    }

    pub closed spec fn log_view(&self) -> Option<PlogView> {
        match self.log {
            Some(p) => Some(p@),
            None => None,
        }
    }

    pub closed spec fn wf(&self) -> bool {
        &&& (self.log matches Some(p) ==> p.wf())
        &&& (self.phase_view() is Ready || self.log is None)
    }

    pub fn new() -> (r: LogLifecycle)
        ensures
            r.wf(),
            r.phase_view() is Fresh,
            r.log_view() is None,
    {
        LogLifecycle { phase: Phase::Fresh, log: None }
    }

    /// The load-or-generate decision, made once per startup.  A log is in
    /// use afterwards only if the storage collaborator returned bytes that
    /// decode as one; empty storage always falls to generation.
    pub fn start<S: WalletStorage>(&mut self, storage: &S) -> (r: StartDecision)
        requires
            old(self).wf(),
            old(self).phase_view() is Fresh,
        ensures
            final(self).wf(),
            r == StartDecision::Loaded ==> final(self).phase_view() is Ready && (final(self).log_view() matches Some(v) && storage.contents().contains_key(VLAD_STORAGE_KEY@)
                && plog_of_bytes(storage.contents()[VLAD_STORAGE_KEY@]) == Some(v)),
            r == StartDecision::NeedsGenerate ==> final(self).phase_view() is AwaitingGenerate
                && final(self).log_view() is None,
            !storage.contents().contains_key(VLAD_STORAGE_KEY@) ==> r
                == StartDecision::NeedsGenerate,
    {
        if storage.contains(VLAD_STORAGE_KEY) {
            match storage.load(VLAD_STORAGE_KEY) {
                Ok(bytes) => match Plog::decode(bytes.as_slice()) {
                    Some(p) => {
                        self.log = Some(p);
                        self.phase = Phase::Ready;
                        StartDecision::Loaded
                    },
                    None => {
                        self.phase = Phase::AwaitingGenerate;
                        StartDecision::NeedsGenerate
                    },
                },
                Err(_) => {
                    self.phase = Phase::AwaitingGenerate;
                    StartDecision::NeedsGenerate
                },
            }
        } else {
            self.phase = Phase::AwaitingGenerate;
            StartDecision::NeedsGenerate
        }
    }

    /// Takes the generated log into use and persists its exact serialized
    /// bytes at the well-known key.  A failed save is reported but the log
    /// stays in use, as generation is not repeated.
    pub fn provide_generated<S: WalletStorage>(&mut self, storage: &mut S, generated: Plog) -> (r:
        Result<(), Error>)
        requires
            old(self).wf(),
            old(self).phase_view() is AwaitingGenerate,
            generated.wf(),
        ensures
            final(self).wf(),
            final(self).phase_view() is Ready,
            final(self).log_view() == Some(generated@),
            r is Ok ==> final(storage).contents() == old(storage).contents().insert(
                VLAD_STORAGE_KEY@,
                plog_bytes(generated@),
            ),
            r is Err ==> final(storage).contents() == old(storage).contents() && r == Err::<
                (),
                Error,
            >(Error::StorageFailure("could not persist the generated log")),
    {
        let bytes = generated.encode();
        let saved = storage.save(VLAD_STORAGE_KEY, bytes.as_slice());
        self.log = Some(generated);
        self.phase = Phase::Ready;
        match saved {
            Ok(_) => Ok(()),
            Err(_) => Err(Error::StorageFailure("could not persist the generated log")),
        }
    }

    /// Generation failed: the peer proceeds with no log.
    pub fn generation_failed(&mut self)
        requires
            old(self).wf(),
            old(self).phase_view() is AwaitingGenerate,
        ensures
            final(self).wf(),
            final(self).phase_view() is Ready,
            final(self).log_view() is None,
    {
        self.phase = Phase::Ready;
    }

    /// The local log, for observers; `NoLog` where none is available.
    pub fn local_plog(&self) -> (r: Result<&Plog, Error>)
        ensures
            self.log_view() matches Some(v) ==> (r matches Ok(p) && p@ == v),
            self.log_view() is None ==> r == Err::<&Plog, Error>(Error::NoLog),
    {
        match &self.log {
            Some(p) => Ok(p),
            None => Err(Error::NoLog),
        }
    }

    /// The local VLAD's display text, for observers.
    pub fn vlad_text(&self) -> (r: Result<String, Error>)
        requires
            self.wf(),
        ensures
            self.log_view() matches Some(v) ==> (r matches Ok(t) && t@
                == crate::vlad::vlad_text_of(v.vlad)),
            self.log_view() is None ==> r == Err::<String, Error>(Error::NoLog),
    {
        match &self.log {
            Some(p) => Ok(p.vlad().to_text()),
            None => Err(Error::NoLog),
        }
    }

    /// Persists the current log again, unchanged.
    pub fn persist<S: WalletStorage>(&self, storage: &mut S) -> (r: Result<(), Error>)
        requires
            self.wf(),
        ensures
            self.log_view() is None ==> r == Err::<(), Error>(Error::NoLog),
            r is Err ==> final(storage).contents() == old(storage).contents(),
            self.log_view() matches Some(v) ==> (r is Ok ==> final(storage).contents()
                == old(storage).contents().insert(VLAD_STORAGE_KEY@, plog_bytes(v))),
    {
        match &self.log {
            Some(p) => {
                let bytes = p.encode();
                match storage.save(VLAD_STORAGE_KEY, bytes.as_slice()) {
                    Ok(_) => Ok(()),
                    Err(_) => Err(Error::StorageFailure("could not persist the log")),
                }
            },
            None => Err(Error::NoLog),
        }
    }
}

} // verus!
