//! The execution engine's pure parts: expansion of a realm into work items,
//! the outcome of one item, and the engine's setup parameters.
use crate::config::{Check, Checker, Realm, Service};
use vstd::prelude::*;

verus! {

/// The result of running one work item.
pub enum Outcome {
    Success,
    Failure(String),
}

/// The reason given to an item whose checker failed internally.
pub open spec fn internal_error_text() -> Seq<char> {
    "internal checker error"@
}

impl Outcome {
    /// A copy of this outcome.
    pub fn duplicate(&self) -> (r: Outcome)
        ensures
            r == *self,
    {
        match self {
            Outcome::Success => Outcome::Success,
            Outcome::Failure(s) => Outcome::Failure(s.clone()),
        }
    }

    /// The outcome of a check's result.
    pub fn from_check(r: Result<(), String>) -> (o: Outcome)
        ensures
            o == outcome_of(r),
    {
        match r {
            Ok(()) => Outcome::Success,
            Err(s) => Outcome::Failure(s),
        }
    }

    /// The outcome of an item whose checker failed internally rather than
    /// returning a result.
    pub fn internal_error() -> (o: Outcome)
        ensures
            o matches Outcome::Failure(s) && s@ == internal_error_text(),
    {
        Outcome::Failure(String::from_str("internal checker error"))
    }

    pub open spec fn is_failure(&self) -> bool {
        self is Failure
    }

    pub fn failed(&self) -> (r: bool)
        ensures
            r == self.is_failure(),
    {
        match self {
            Outcome::Success => false,
            Outcome::Failure(_) => true,
        }
    }
}

pub open spec fn outcome_of(r: Result<(), String>) -> Outcome {
    match r {
        Ok(()) => Outcome::Success,
        Err(s) => Outcome::Failure(s),
    }
}

/// The materialized (service, check, host) triple with its checker: the atomic
/// unit of execution.
pub struct WorkItem {
    pub service: String,
    pub check: String,
    pub host: String,
    pub checker: Checker,
}

/// What a work item stands for.
pub struct ItemModel {
    pub service: Seq<char>,
    pub check: Seq<char>,
    pub host: Seq<char>,
    pub checker: Checker,
}

impl View for WorkItem {
    type V = ItemModel;

    open spec fn view(&self) -> ItemModel {
        ItemModel { service: self.service@, check: self.check@, host: self.host@, checker: self.checker }
    }
}

/// The items of one check of `s`, one per host, in host order.
pub open spec fn host_items(s: Service, c: Check, hosts: Seq<String>) -> Seq<ItemModel> {
    hosts.map_values(|h: String| ItemModel { service: s.name@, check: c.name@, host: h@, checker: c.checker })
}

/// The items of `checks`, a sequence of the checks of `s`, in check order.
pub open spec fn check_items(s: Service, checks: Seq<Check>) -> Seq<ItemModel>
    decreases checks.len(),
{
    if checks.len() == 0 {
        Seq::empty()
    } else {
        check_items(s, checks.drop_last()) + host_items(s, checks.last(), s.hosts@)
    }
}

/// The expansion of `services`: for each service in order, for each of its
/// checks in order, for each of its hosts in order, one item.
pub open spec fn realm_items(services: Seq<Service>) -> Seq<ItemModel>
    decreases services.len(),
{
    if services.len() == 0 {
        Seq::empty()
    } else {
        realm_items(services.drop_last()) + check_items(services.last(), services.last().checks@)
    }
}

/// The number of work items of `services`: checks times hosts, summed.
pub open spec fn total_work(services: Seq<Service>) -> nat
    decreases services.len(),
{
    if services.len() == 0 {
        0
    } else {
        total_work(services.drop_last()) + services.last().checks@.len() * services.last().hosts@.len()
    }
}

proof fn lemma_check_items_len(s: Service, checks: Seq<Check>)
    ensures
        check_items(s, checks).len() == checks.len() * s.hosts@.len(),
    decreases checks.len(),
{
    if checks.len() > 0 {
        lemma_check_items_len(s, checks.drop_last());
        assert(checks.len() * s.hosts@.len() == (checks.len() - 1) * s.hosts@.len() + s.hosts@.len())
            by (nonlinear_arith);
    }
}

/// The expansion of a realm has exactly one item per (service, check, host)
/// triple: checks times hosts, summed over the services.
pub proof fn lemma_expansion_count(services: Seq<Service>)
    ensures
        realm_items(services).len() == total_work(services),
    decreases services.len(),
{
    if services.len() > 0 {
        lemma_expansion_count(services.drop_last());
        lemma_check_items_len(services.last(), services.last().checks@);
    }
}

/// The work items of `realm`, in expansion order, duplicates kept.
pub fn expand(realm: &Realm) -> (r: Vec<WorkItem>)
    ensures
        r@.len() == realm_items(realm.services@).len(),
        forall|n: int| 0 <= n < r@.len() ==> #[trigger] r@[n]@ == realm_items(realm.services@)[n],
{
    let mut items: Vec<WorkItem> = Vec::new();
    let ghost svcs = realm.services@;
    let mut i: usize = 0;
    while i < realm.services.len()
        invariant
            svcs == realm.services@,
            0 <= i <= svcs.len(),
            items@.map_values(|w: WorkItem| w@) == realm_items(svcs.take(i as int)),
        decreases svcs.len() - i,
    {
        let s = &realm.services[i];
        let ghost before = items@.map_values(|w: WorkItem| w@);
        let mut j: usize = 0;
        while j < s.checks.len()
            invariant
                svcs == realm.services@,
                0 <= i < svcs.len(),
                *s == svcs[i as int],
                0 <= j <= s.checks@.len(),
                before == realm_items(svcs.take(i as int)),
                items@.map_values(|w: WorkItem| w@) == before + check_items(*s, s.checks@.take(j as int)),
            decreases s.checks@.len() - j,
        {
            let c = &s.checks[j];
            let ghost mid = items@.map_values(|w: WorkItem| w@);
            let mut k: usize = 0;
            while k < s.hosts.len()
                invariant
                    0 <= j < s.checks@.len(),
                    *c == s.checks@[j as int],
                    0 <= k <= s.hosts@.len(),
                    mid == before + check_items(*s, s.checks@.take(j as int)),
                    items@.map_values(|w: WorkItem| w@) == mid + host_items(*s, *c, s.hosts@.take(k as int)),
                decreases s.hosts@.len() - k,
            {
                let w = WorkItem {
                    service: s.name.clone(),
                    check: c.name.clone(),
                    host: s.hosts[k].clone(),
                    checker: c.checker,
                };
                let ghost prev = items@;
                items.push(w);
                proof {
                    assert(s.hosts@.take(k + 1) =~= s.hosts@.take(k as int).push(s.hosts@[k as int]));
                    assert(items@ =~= prev.push(w));
                    assert(items@.map_values(|w: WorkItem| w@) =~= prev.map_values(|w: WorkItem| w@).push(w@));
                    assert(host_items(*s, *c, s.hosts@.take(k + 1)) =~= host_items(*s, *c, s.hosts@.take(k as int)).push(w@));
                }
                k = k + 1;
            }
            proof {
                assert(s.hosts@.take(k as int) =~= s.hosts@);
                assert(s.checks@.take(j + 1).drop_last() =~= s.checks@.take(j as int));
                assert(s.checks@.take(j + 1).last() == *c);
            }
            j = j + 1;
        }
        proof {
            assert(s.checks@.take(j as int) =~= s.checks@);
            assert(svcs.take(i + 1).drop_last() =~= svcs.take(i as int));
            assert(svcs.take(i + 1).last() == *s);
        }
        i = i + 1;
    }
    proof {
        assert(svcs.take(i as int) =~= svcs);
        assert forall|n: int| 0 <= n < items@.len() implies #[trigger] items@[n]@ == realm_items(svcs)[n] by {
            assert(items@.map_values(|w: WorkItem| w@)[n] == items@[n]@);
        }
    }
    items
}

} // verus!
