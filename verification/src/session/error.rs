use vstd::prelude::*;

use crate::text::{push_str, string_of};

verus! {

/// Errors crossing the engine/UI boundary. Messages intentionally contain no
/// cursor positions, window titles, or URLs.
#[derive(Debug, Clone, PartialEq, Eq)]
pub enum EngineError {
    Sampler(String),
    DisplayEnumeration(String),
    ForegroundDegradation(String),
    RecoveryWrite(String),
    Export(String),
    Internal(String),
}

/// The prefix that the message of each kind of error starts with.
pub open spec fn engine_error_prefix(e: EngineError) -> Seq<char> {
    match e {
        EngineError::Sampler(_) => "cursor sampler failed: "@,
        EngineError::DisplayEnumeration(_) => "display enumeration failed: "@,
        EngineError::ForegroundDegradation(_) => "foreground application metadata is temporarily unavailable: "@,
        EngineError::RecoveryWrite(_) => "recovery checkpoint failed: "@,
        EngineError::Export(_) => "export failed: "@,
        EngineError::Internal(_) => "recording engine failed: "@,
    }
}

/// The detail that each error carries.
pub open spec fn engine_error_detail(e: EngineError) -> Seq<char> {
    match e {
        EngineError::Sampler(d) => d@,
        EngineError::DisplayEnumeration(d) => d@,
        EngineError::ForegroundDegradation(d) => d@,
        EngineError::RecoveryWrite(d) => d@,
        EngineError::Export(d) => d@,
        EngineError::Internal(d) => d@,
    }
}

impl EngineError {
    /// Whether this error forces the recording to stop.
    pub fn requires_recording_stop(&self) -> (r: bool)
        ensures
            r == (self is Sampler || self is Internal),
    {
        match self {
            EngineError::Sampler(_) | EngineError::Internal(_) => true,
            _ => false,
        }
    }

    /// The user-facing text of the error: a fixed prefix for its kind, then its detail.
    pub fn message(&self) -> (m: String)
        ensures
            m@ == engine_error_prefix(*self) + engine_error_detail(*self),
    {
        let mut out: Vec<char> = Vec::new();
        match self {
            EngineError::Sampler(d) => {
                push_str(&mut out, "cursor sampler failed: ");
                push_str(&mut out, d.as_str());
            },
            EngineError::DisplayEnumeration(d) => {
                push_str(&mut out, "display enumeration failed: ");
                push_str(&mut out, d.as_str());
            },
            EngineError::ForegroundDegradation(d) => {
                push_str(&mut out, "foreground application metadata is temporarily unavailable: ");
                push_str(&mut out, d.as_str());
            },
            EngineError::RecoveryWrite(d) => {
                push_str(&mut out, "recovery checkpoint failed: ");
                push_str(&mut out, d.as_str());
            },
            EngineError::Export(d) => {
                push_str(&mut out, "export failed: ");
                push_str(&mut out, d.as_str());
            },
            EngineError::Internal(d) => {
                push_str(&mut out, "recording engine failed: ");
                push_str(&mut out, d.as_str());
            },
        }
        assert(out@ =~= engine_error_prefix(*self) + engine_error_detail(*self));
        string_of(out.as_slice())
    }
}

} // verus!
