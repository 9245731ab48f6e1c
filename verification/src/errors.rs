//! The error model: one kind per failure class, and an optional phase label
//! added at the orchestration boundary.
use vstd::prelude::*;

verus! {

/// The failure classes a run can surface.
#[derive(Debug)]
pub enum ErrorKind {
    /// The export file could not be opened or read.
    Io,
    /// The network transport failed before a response arrived.
    Transport,
    /// A response arrived but its body did not parse.
    MalformedResponse,
    /// The service answered, reporting failure or a non-success status.
    ServiceFailure,
    /// A required CSV header is absent; carries the header's name.
    MissingHeader(String),
    /// The export's header row could not be read.
    NoHeaders,
    /// A CSV record of the export could not be parsed.
    MalformedExport,
    /// The selected export sub-format is not supported.
    UnsupportedFormat,
}

/// The phase of the run in which an error arose.
#[derive(Debug)]
pub enum Phase {
    ListingRules,
    DeletingRules,
    ParsingAliases,
    CreatingAliases,
}

/// An error, optionally labelled with the phase that produced it.
#[derive(Debug)]
pub struct RunError {
    pub phase: Option<Phase>,
    pub kind: ErrorKind,
}

impl RunError {
    /// A fresh, unlabelled error of the given kind.
    pub fn new(kind: ErrorKind) -> (r: RunError)
        ensures
            r.kind == kind,
            r.phase is None,
    {
        RunError { phase: None, kind }
    }

    /// Labels the error with the phase it arose in, keeping its kind.
    pub fn in_phase(self, phase: Phase) -> (r: RunError)
        ensures
            r.kind == self.kind,
            r.phase == Some(phase),
    {
        RunError { phase: Some(phase), kind: self.kind }
    }
}

} // verus!
