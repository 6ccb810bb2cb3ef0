//! Stable wire codes of session failures.
use vstd::prelude::*;

verus! {

/// Why a session request was refused.
#[derive(Clone, Copy, Debug, PartialEq, Eq, Structural)]
pub enum SessionError {
    /// The runtime instance changed since the session was opened.
    InstanceChanged,
    /// The scope is held by another session.
    ScopeInUse,
    /// No further scope can be opened.
    ScopeCapacity,
    /// The scope is not known.
    ScopeUnknown,
}

/// Wire code of a session failure.
pub open spec fn spec_session_code(error: SessionError) -> &'static str {
    match error {
        SessionError::InstanceChanged => "instance_changed",
        SessionError::ScopeInUse => "scope_in_use",
        SessionError::ScopeCapacity => "busy",
        SessionError::ScopeUnknown => "scope_unknown",
    }
}

/// Wire code of a session failure: a full scope table answers `busy`.
pub fn session_code(error: SessionError) -> (code: &'static str)
    ensures
        code@ == spec_session_code(error)@,
{
    match error {
        SessionError::InstanceChanged => "instance_changed",
        SessionError::ScopeInUse => "scope_in_use",
        SessionError::ScopeCapacity => "busy",
        SessionError::ScopeUnknown => "scope_unknown",
    }
}

} // verus!
