//! Peer synchronization engine for append-only provenance logs ("Plogs")
//! addressed by stable identifiers ("VLADs").
//!
//! The engine loads or creates a local log, reacts to an ordered stream of
//! network events, resolves remote logs with bounded retries, deduplicates
//! inbound gossip through an acknowledgement protocol, and maintains a
//! registry of known peers and their resolved logs.  All network and disk
//! operations are performed by outside collaborators; the engine itself is
//! a verified state machine that tells those collaborators what to do.

use vstd::prelude::*;

pub mod b64;
pub mod backoff;
pub mod connect;
pub mod dedup;
pub mod engine;
pub mod lifecycle;
pub mod plog;
pub mod registry;
pub mod resolve;
pub mod storage;
pub mod vlad;

verus! {

/// The well-known storage key under which the serialized local Plog is kept.
pub const VLAD_STORAGE_KEY: &'static str = "VLAD_STORAGE_KEY";

/// Errors reported by the engine.  Every failure is local to the operation
/// that produced it; none is fatal to the engine.
#[derive(Debug, PartialEq, Eq)]
pub enum Error {
    /// The storage collaborator could not complete an operation.
    StorageFailure(&'static str),
    /// A VLAD was requested from an empty input string.
    EmptyVlad,
    /// An input string did not parse as a VLAD.
    InvalidVlad,
    /// Head reference bytes did not parse as a content identifier.
    InvalidHead,
    /// A VLAD is already present in the peer registry.
    AlreadyTracked,
    /// No local Plog is available yet.
    NoLog,
    /// A value read back from string storage was not valid base64.
    InvalidEncoding,
    /// The retry budget of a resolution stage was exhausted.
    RetriesExhausted,
}

impl Error {
    /// A user-facing description of the failure.
    pub fn message(&self) -> (r: &'static str)
        ensures
            self matches Error::StorageFailure(m) ==> r == m,
            self is EmptyVlad ==> r@ == "VLAD cannot be empty"@,
            self is InvalidVlad ==> r@ == "VLAD invalid"@,
            self is InvalidHead ==> r@ == "Invalid head reference bytes"@,
            self is AlreadyTracked ==> r@ == "Peer with this VLAD already exists"@,
            self is NoLog ==> r@ == "No Plog available"@,
            self is InvalidEncoding ==> r@ == "Stored value is not valid base64"@,
            self is RetriesExhausted ==> r@ == "Gave up after repeated failures"@,
    {
        match self {
            Error::StorageFailure(m) => m,
            Error::EmptyVlad => "VLAD cannot be empty",
            Error::InvalidVlad => "VLAD invalid",
            Error::InvalidHead => "Invalid head reference bytes",
            Error::AlreadyTracked => "Peer with this VLAD already exists",
            Error::NoLog => "No Plog available",
            Error::InvalidEncoding => "Stored value is not valid base64",
            Error::RetriesExhausted => "Gave up after repeated failures",
        }
    }
}

} // verus!
