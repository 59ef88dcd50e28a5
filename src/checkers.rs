//! The checker capability: what a probe of a host needs, and how its answer
//! becomes a pass or a descriptive failure.
pub mod dummy;
pub mod tcp;

use vstd::prelude::*;

verus! {

/// The network work that one check of a host needs, performed by the caller.
#[derive(Clone, Copy, Debug, PartialEq, Eq, Structural)]
pub enum Probe {
    /// No network work: the check decides without a probe.
    Nothing,
    /// Open a TCP connection to the host on this port, then close it.
    Connect(u16),
}

/// Why a probe could not reach its target.
#[derive(Clone, Copy, Debug, PartialEq, Eq, Structural)]
pub enum ProbeError {
    /// The host name did not resolve to an address.
    Unresolved,
    /// The host actively refused the connection.
    Refused,
    /// The probe did not complete within its deadline.
    TimedOut,
    /// Any other I/O failure.
    Other,
}

/// The human-readable reason a failed probe is reported with.
pub open spec fn reason_text(e: ProbeError) -> Seq<char> {
    match e {
        ProbeError::Unresolved => "address resolution failed"@,
        ProbeError::Refused => "connection refused"@,
        ProbeError::TimedOut => "timed out"@,
        ProbeError::Other => "i/o error"@,
    }
}

/// The reason text of a probe error.
pub fn reason(e: ProbeError) -> (r: String)
    ensures
        r@ == reason_text(e),
{
    match e {
        ProbeError::Unresolved => String::from_str("address resolution failed"),
        ProbeError::Refused => String::from_str("connection refused"),
        ProbeError::TimedOut => String::from_str("timed out"),
        ProbeError::Other => String::from_str("i/o error"),
    }
}

/// Different probe errors are reported with different reasons.
pub proof fn lemma_reasons_distinct(a: ProbeError, b: ProbeError)
    requires
        a != b,
    ensures
        reason_text(a) != reason_text(b),
{
    reveal_strlit("address resolution failed");
    reveal_strlit("connection refused");
    reveal_strlit("timed out");
    reveal_strlit("i/o error");
    assert(reason_text(a).len() != reason_text(b).len() || reason_text(a)[0] != reason_text(b)[0]);
}

/// The view of a check result: `Ok` or the failure reason's characters.
pub open spec fn result_view(r: Result<(), String>) -> Result<(), Seq<char>> {
    match r {
        Ok(()) => Ok(()),
        Err(s) => Err(s@),
    }
}

/// A probe strategy. A check runs in two steps: `probe` names the network work
/// that checking a host needs, the caller performs it under its deadline, and
/// `check` turns the probe's answer into a pass or a failure reason.
pub trait Checker {
    /// The network work a check of any host needs.
    spec fn spec_probe(&self) -> Probe;

    /// The result a check of `host` gives once its probe answered `answer`.
    spec fn spec_check(&self, host: Seq<char>, answer: Result<(), ProbeError>) -> Result<(), Seq<char>>;

    fn probe(&self) -> (r: Probe)
        ensures
            r == self.spec_probe(),
    ;

    /// Perform the configured check against `host`, given the answer of its
    /// probe: `Ok` or `Err` with a description of the failure.
    fn check(&self, host: &str, answer: Result<(), ProbeError>) -> (r: Result<(), String>)
        ensures
            result_view(r) == self.spec_check(host@, answer),
    ;
}

} // verus!
