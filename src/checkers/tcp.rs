//! A checker that tests reachability by opening a TCP connection to a port.
use crate::checkers::{reason, reason_text, Probe, ProbeError};
use vstd::prelude::*;

verus! {

/// Connects to the host on `port`; passes when the connection is established.
#[derive(Clone, Copy, Debug, PartialEq, Eq, Structural)]
pub struct Checker {
    pub port: u16,
}

impl crate::checkers::Checker for Checker {
    open spec fn spec_probe(&self) -> Probe {
        Probe::Connect(self.port)
    }

    open spec fn spec_check(&self, host: Seq<char>, answer: Result<(), ProbeError>) -> Result<(), Seq<char>> {
        match answer {
            Ok(()) => Ok(()),
            Err(e) => Err(reason_text(e)),
        }
    }

    fn probe(&self) -> (r: Probe) {
        Probe::Connect(self.port)
    }

    fn check(&self, _host: &str, answer: Result<(), ProbeError>) -> (r: Result<(), String>) {
        match answer {
            Ok(()) => Ok(()),
            Err(e) => Err(reason(e)),
        }
    }
}

} // verus!
