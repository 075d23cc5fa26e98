//! The resolution engine: turning a VLAD or a head reference into a
//! resolved log, with bounded retries.
//!
//! Network calls are suspensions the engine cannot make itself; a task
//! tells its driver which call to make next, and the driver hands the
//! outcome back.  Transient failures are retried with exponential backoff;
//! malformed head bytes are rejected at once; exhausting a stage's budget
//! is terminal and, by contract, leaves any registry entry untouched.

use crate::backoff::{pow2, Backoff, RESOLVE_ATTEMPT_LIMIT};
use crate::plog::ResolvedPlog;
use crate::vlad::Vlad;
use crate::Error;
use vstd::prelude::*;

verus! {

/// A content identifier pointing at the current tip of a log, as DHT
/// records carry it: opaque, non-empty bytes.
pub struct HeadRef {
    bytes: Vec<u8>,
}

impl View for HeadRef {
    type V = Seq<u8>;

    closed spec fn view(&self) -> Seq<u8> {
        self.bytes@
    }
}

impl HeadRef {
    /// Wraps head bytes; empty bytes are corrupted and rejected.
    pub fn from_bytes(bytes: Vec<u8>) -> (r: Option<HeadRef>)
        ensures
            bytes@.len() > 0 ==> (r matches Some(h) && h@ == bytes@),
            bytes@.len() == 0 ==> r is None,
    {
        if bytes.len() > 0 {
            Some(HeadRef { bytes })
        } else {
            None
        }
    }

    pub fn as_bytes(&self) -> (r: &Vec<u8>)
        ensures
            r@ == self@,
    {
        &self.bytes
    }
}

/// Where a resolution stands.
pub enum StageView {
    /// Looking the VLAD's record up on the DHT.
    FetchRecord,
    /// Resolving the head reference into a full log.
    ResolveHead(Seq<u8>),
    /// The log came back.
    Done,
    /// Terminal failure; the registry entry stays as it was.
    Failed,
}

enum Stage {
    FetchRecord,
    ResolveHead(HeadRef),
    Done,
    Failed,
}

/// The network call a task asks its driver to make.
pub enum NetRequest {
    /// Look up the DHT record stored under the VLAD's bytes.
    GetRecord { key: Vec<u8> },
    /// Resolve a head reference into a full log.
    ResolvePlog { head: Vec<u8> },
}

/// What a task answers after each outcome.
pub enum TaskStep {
    /// Make the next call now.
    Proceed,
    /// Make the same call again after this many seconds.
    Retry { delay_secs: u64 },
    /// The log is resolved; write it into the registry.
    Resolved(ResolvedPlog),
    /// Terminal; nothing is written.
    Failed(Error),
}

/// One VLAD's resolution, driven call by call.  Each stage has its own
/// retry budget.
pub struct ResolutionTask {
    vlad: Vlad,
    stage: Stage,
    backoff: Backoff,
}

impl ResolutionTask {
    pub closed spec fn vlad_view(&self) -> Seq<u8> {
        self.vlad@
    }

    pub closed spec fn stage_view(&self) -> StageView {
        match self.stage {
            Stage::FetchRecord => StageView::FetchRecord,
            Stage::ResolveHead(h) => StageView::ResolveHead(h@),
            Stage::Done => StageView::Done,
            Stage::Failed => StageView::Failed,
        }
    }

    /// Failures of the current stage answered with a retry, so far.
    pub closed spec fn stage_attempts(&self) -> u32 {
        self.backoff.attempts()
    }

    /// Seconds of backoff handed out for the current stage.
    pub closed spec fn stage_waited(&self) -> u64 {
        self.backoff.waited()
    }

    pub closed spec fn wf(&self) -> bool {
        self.backoff.wf() && self.backoff.limit() == RESOLVE_ATTEMPT_LIMIT
    }

    /// Resolution from a VLAD alone: first the record lookup, then the
    /// head resolution.
    pub fn from_vlad(vlad: Vlad) -> (r: ResolutionTask)
        ensures
            r.wf(),
            r.vlad_view() == vlad@,
            r.stage_view() is FetchRecord,
            r.stage_attempts() == 0,
    {
        ResolutionTask {
            vlad,
            stage: Stage::FetchRecord,
            backoff: Backoff::new(RESOLVE_ATTEMPT_LIMIT),
        }
    }

    /// Resolution from head bytes announced on gossip: the lookup is
    /// already done.
    pub fn from_head(vlad: Vlad, head: HeadRef) -> (r: ResolutionTask)
        ensures
            r.wf(),
            r.vlad_view() == vlad@,
            r.stage_view() == StageView::ResolveHead(head@),
            r.stage_attempts() == 0,
    {
        ResolutionTask {
            vlad,
            stage: Stage::ResolveHead(head),
            backoff: Backoff::new(RESOLVE_ATTEMPT_LIMIT),
        }
    }

    pub fn vlad(&self) -> (r: &Vlad)
        ensures
            r@ == self.vlad_view(),
    {
        &self.vlad
    }

    /// The call to make now, or nothing where the task is over.
    pub fn current_request(&self) -> (r: Option<NetRequest>)
        ensures
            self.stage_view() is FetchRecord ==> (r matches Some(NetRequest::GetRecord { key })
                && key@ == self.vlad_view()),
            self.stage_view() matches StageView::ResolveHead(h) ==> (r matches Some(
                NetRequest::ResolvePlog { head },
            ) && head@ == h),
            self.stage_view() is Done || self.stage_view() is Failed ==> r is None,
    {
        match &self.stage {
            Stage::FetchRecord => Some(
                NetRequest::GetRecord { key: self.vlad.as_bytes().clone() },
            ),
            Stage::ResolveHead(h) => Some(
                NetRequest::ResolvePlog { head: h.as_bytes().clone() },
            ),
            Stage::Done => None,
            Stage::Failed => None,
        }
    }

    /// The record lookup's outcome: record bytes, or `None` for a
    /// transient failure.  Bytes that are no head reference are rejected
    /// at once, with no retry; a transient failure is retried with
    /// exponential backoff until the stage's budget is spent.
    pub fn on_record(&mut self, outcome: Option<Vec<u8>>) -> (r: TaskStep)
        requires
            old(self).wf(),
            old(self).stage_view() is FetchRecord,
        ensures
            final(self).wf(),
            final(self).vlad_view() == old(self).vlad_view(),
            outcome matches Some(bytes) ==> ((bytes@.len() > 0 ==> r is Proceed
                && final(self).stage_view() == StageView::ResolveHead(bytes@)
                && final(self).stage_attempts() == 0) && (bytes@.len() == 0 ==> r
                == TaskStep::Failed(Error::InvalidHead) && final(self).stage_view() is Failed)),
            outcome is None && old(self).stage_attempts() + 1 < RESOLVE_ATTEMPT_LIMIT ==> (r
                matches TaskStep::Retry { delay_secs } && delay_secs == pow2(
                (old(self).stage_attempts() + 1) as nat,
            ) && final(self).stage_view() is FetchRecord && final(self).stage_attempts() == old(self).stage_attempts() + 1),
            outcome is None && old(self).stage_attempts() + 1 >= RESOLVE_ATTEMPT_LIMIT ==> r
                == TaskStep::Failed(Error::RetriesExhausted) && final(self).stage_view()
                is Failed,
    {
        match outcome {
            Some(bytes) => match HeadRef::from_bytes(bytes) {
                Some(head) => {
                    self.stage = Stage::ResolveHead(head);
                    self.backoff = Backoff::new(RESOLVE_ATTEMPT_LIMIT);
                    TaskStep::Proceed
                },
                None => {
                    self.stage = Stage::Failed;
                    TaskStep::Failed(Error::InvalidHead)
                },
            },
            None => match self.backoff.on_failure() {
                Some(delay_secs) => TaskStep::Retry { delay_secs },
                None => {
                    self.stage = Stage::Failed;
                    TaskStep::Failed(Error::RetriesExhausted)
                },
            },
        }
    }

    /// The head resolution's outcome: the resolved log, or `None` for a
    /// transient failure, retried as above.
    pub fn on_resolved(&mut self, outcome: Option<ResolvedPlog>) -> (r: TaskStep)
        requires
            old(self).wf(),
            old(self).stage_view() is ResolveHead,
        ensures
            final(self).wf(),
            final(self).vlad_view() == old(self).vlad_view(),
            outcome matches Some(plog) ==> (r matches TaskStep::Resolved(p) && p@ == plog@
                && final(self).stage_view() is Done),
            outcome is None && old(self).stage_attempts() + 1 < RESOLVE_ATTEMPT_LIMIT ==> (r
                matches TaskStep::Retry { delay_secs } && delay_secs == pow2(
                (old(self).stage_attempts() + 1) as nat,
            ) && final(self).stage_view() == old(self).stage_view() && final(self).stage_attempts() == old(self).stage_attempts() + 1),
            outcome is None && old(self).stage_attempts() + 1 >= RESOLVE_ATTEMPT_LIMIT ==> r
                == TaskStep::Failed(Error::RetriesExhausted) && final(self).stage_view()
                is Failed,
    {
        match outcome {
            Some(plog) => {
                self.stage = Stage::Done;
                TaskStep::Resolved(plog)
            },
            None => match self.backoff.on_failure() {
                Some(delay_secs) => TaskStep::Retry { delay_secs },
                None => {
                    self.stage = Stage::Failed;
                    TaskStep::Failed(Error::RetriesExhausted)
                },
            },
        }
    }
}

} // verus!
