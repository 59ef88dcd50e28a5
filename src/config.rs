//! The declarative configuration: a realm of services, each with checks to
//! run against its hosts.
use crate::checkers::{dummy, tcp, Probe, ProbeError};
use vstd::prelude::*;

verus! {

/// Top level service holder.
pub struct Realm {
    pub services: Vec<Service>,
}

/// A service to monitor: each of its checks runs against each of its hosts.
/// Names need not be unique; checks and hosts may be empty.
pub struct Service {
    pub name: String,
    pub description: Option<String>,
    pub tags: Option<Vec<String>>,
    pub checks: Vec<Check>,
    pub hosts: Vec<String>,
}

/// A named check to perform against each host in a service.
pub struct Check {
    pub name: String,
    pub checker: Checker,
}

/// The type and configuration of a specific check.
#[derive(Clone, Copy, Debug, PartialEq, Eq, Structural)]
pub enum Checker {
    Dummy(dummy::Checker),
    TCP(tcp::Checker),
}

impl crate::checkers::Checker for Checker {
    open spec fn spec_probe(&self) -> Probe {
        match self {
            Checker::Dummy(c) => c.spec_probe(),
            Checker::TCP(c) => c.spec_probe(),
        }
    }

    open spec fn spec_check(&self, host: Seq<char>, answer: Result<(), ProbeError>) -> Result<(), Seq<char>> {
        match self {
            Checker::Dummy(c) => c.spec_check(host, answer),
            Checker::TCP(c) => c.spec_check(host, answer),
        }
    }

    fn probe(&self) -> (r: Probe) {
        match self {
            Checker::Dummy(c) => c.probe(),
            Checker::TCP(c) => c.probe(),
        }
    }

    fn check(&self, host: &str, answer: Result<(), ProbeError>) -> (r: Result<(), String>) {
        match self {
            Checker::Dummy(c) => c.check(host, answer),
            Checker::TCP(c) => c.check(host, answer),
        }
    }
}

} // verus!
