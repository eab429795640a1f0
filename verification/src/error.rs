//! Error kinds of the agent core and where each may arise.

use vstd::prelude::*;

verus! {

/// Every failure the core can report.
///
/// `ConfigInvalid` is fatal at load time; `ProbeInitFailed` is fatal only when
/// fault tolerance is off; the remaining kinds are per-pass conditions that
/// never outlive the pass that produced them.
#[derive(Clone, Copy, Debug, PartialEq, Eq, Structural)]
pub enum AgentError {
    /// A malformed or out-of-range configuration value.
    ConfigInvalid,
    /// Kernel-probe compilation or attachment failed during construction.
    ProbeInitFailed,
    /// A text-file input could not be read this pass.
    InputUnavailable,
    /// A text-file input had an unexpected shape this pass.
    ParseMalformed,
    /// A registry write of the wrong kind for the statistic; the write is
    /// rejected, never coerced.
    TypeMismatch,
}

impl AgentError {
    pub open spec fn spec_describe(self) -> Seq<char> {
        match self {
            AgentError::ConfigInvalid => "invalid configuration value"@,
            AgentError::ProbeInitFailed => "kernel probe initialization failed"@,
            AgentError::InputUnavailable => "input unavailable"@,
            AgentError::ParseMalformed => "malformed input"@,
            AgentError::TypeMismatch => "metric kind mismatch"@,
        }
    }

    /// A short human-readable name, for the surrounding process to log.
    pub fn describe(&self) -> (r: &'static str)
        ensures
            r@ == self.spec_describe(),
    {
        match self {
            AgentError::ConfigInvalid => "invalid configuration value",
            AgentError::ProbeInitFailed => "kernel probe initialization failed",
            AgentError::InputUnavailable => "input unavailable",
            AgentError::ParseMalformed => "malformed input",
            AgentError::TypeMismatch => "metric kind mismatch",
        }
    }
}

} // verus!
