//! Failure kinds of a synchronization job.

use vstd::prelude::*;

verus! {

/// What went wrong while a job ran: local filesystem access, archive
/// packing or unpacking, the transport session, or a malformed remote
/// descriptor or listing.
#[derive(Clone, Copy, PartialEq, Eq, Structural, Debug)]
pub enum SyncErrorKind {
    Io,
    Archive,
    Transport,
    Protocol,
}

/// A job failure: its kind and a short human-readable reason.
#[derive(Clone, Debug)]
pub struct SyncError {
    pub kind: SyncErrorKind,
    pub reason: String,
}

impl SyncError {
    pub fn io(reason: String) -> (e: SyncError)
        ensures
            e.kind == SyncErrorKind::Io,
            e.reason@ == reason@,
    {
        SyncError { kind: SyncErrorKind::Io, reason }
    }

    pub fn archive(reason: String) -> (e: SyncError)
        ensures
            e.kind == SyncErrorKind::Archive,
            e.reason@ == reason@,
    {
        SyncError { kind: SyncErrorKind::Archive, reason }
    }

    pub fn transport(reason: String) -> (e: SyncError)
        ensures
            e.kind == SyncErrorKind::Transport,
            e.reason@ == reason@,
    {
        SyncError { kind: SyncErrorKind::Transport, reason }
    }

    pub fn protocol(reason: String) -> (e: SyncError)
        ensures
            e.kind == SyncErrorKind::Protocol,
            e.reason@ == reason@,
    {
        SyncError { kind: SyncErrorKind::Protocol, reason }
    }

    /// A fixed label for the error's kind, for status display.
    pub fn kind_label(&self) -> (label: &'static str)
        ensures
            self.kind == SyncErrorKind::Io ==> label@ == "IOError"@,
            self.kind == SyncErrorKind::Archive ==> label@ == "ArchiveError"@,
            self.kind == SyncErrorKind::Transport ==> label@ == "TransportError"@,
            self.kind == SyncErrorKind::Protocol ==> label@ == "ProtocolError"@,
    {
        match self.kind {
            SyncErrorKind::Io => "IOError",
            SyncErrorKind::Archive => "ArchiveError",
            SyncErrorKind::Transport => "TransportError",
            SyncErrorKind::Protocol => "ProtocolError",
        }
    }
}

} // verus!
