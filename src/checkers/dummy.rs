//! A checker that always passes, for placeholders and for exercising the
//! engine and report without a network.
use crate::checkers::{Probe, ProbeError};
use vstd::prelude::*;

verus! {

/// Always succeeds; needs no probe.
#[derive(Clone, Copy, Debug, PartialEq, Eq, Structural)]
pub struct Checker {}

impl crate::checkers::Checker for Checker {
    open spec fn spec_probe(&self) -> Probe {
        Probe::Nothing
    }

    open spec fn spec_check(&self, host: Seq<char>, answer: Result<(), ProbeError>) -> Result<(), Seq<char>> {
        Ok(())
    }

    fn probe(&self) -> (r: Probe) {
        Probe::Nothing
    }

    fn check(&self, _host: &str, _answer: Result<(), ProbeError>) -> (r: Result<(), String>) {
        Ok(())
    }
}

} // verus!
