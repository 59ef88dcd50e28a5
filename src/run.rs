//! One execution pass over a realm. The engine expands the realm, hands out
//! items under the concurrency bound, turns each probe's answer into the
//! item's outcome, and builds the report once every outcome is in. The caller
//! performs the probes and reports their answers back.
use crate::checkers::{Checker as _, Probe, ProbeError};
use crate::config::{Realm, Service};
use crate::dispatch::{DispatchError, DispatchState, Dispatcher, Settings};
use crate::engine::{
    expand, internal_error_text, lemma_expansion_count, realm_items, total_work, Outcome, WorkItem,
};
use crate::report::{aggregate, is_report_of, Report};
use vstd::prelude::*;

verus! {

/// The outcome that a check's result stands for.
pub open spec fn settled(r: Result<(), Seq<char>>, o: Outcome) -> bool {
    match r {
        Ok(()) => o is Success,
        Err(s) => o matches Outcome::Failure(t) && t@ == s,
    }
}

/// The outcome in a filled slot.
pub open spec fn slot_outcome(o: Option<Outcome>) -> Outcome {
    match o {
        Some(x) => x,
        None => Outcome::Success,
    }
}

/// The outcome of `item` once its probe answered `answer`.
pub fn settle(item: &WorkItem, answer: Result<(), ProbeError>) -> (o: Outcome)
    ensures
        settled(item.checker.spec_check(item.host@, answer), o),
{
    let r = item.checker.check(item.host.as_str(), answer);
    match r {
        Ok(()) => Outcome::Success,
        Err(s) => Outcome::Failure(s),
    }
}

/// An execution pass in progress.
pub struct Engine {
    items: Vec<WorkItem>,
    dispatcher: Dispatcher,
    services: Ghost<Seq<Service>>,
}

impl Engine {
    pub closed spec fn spec_services(&self) -> Seq<Service> {
        self.services@
    }

    pub closed spec fn spec_items(&self) -> Seq<WorkItem> {
        self.items@
    }

    pub closed spec fn state(&self) -> DispatchState {
        self.dispatcher@
    }

    /// The items are the realm's expansion, one dispatch slot each.
    pub closed spec fn wf(&self) -> bool {
        &&& self.dispatcher.ready()
        &&& self.dispatcher@.total == self.items@.len()
        &&& self.items@.len() == realm_items(self.services@).len()
        &&& forall|n: int| 0 <= n < self.items@.len() ==> #[trigger] self.items@[n]@ == realm_items(self.services@)[n]
    }

    /// A pass over `realm` under `settings`, with no item started.
    pub fn new(realm: &Realm, settings: &Settings) -> (r: Engine)
        ensures
            r.wf(),
            r.spec_services() == realm.services@,
            r.state().total == realm_items(realm.services@).len(),
            r.state().limit == settings.spec_concurrency(),
            r.state().next == 0,
            r.state().running.is_empty(),
    {
        let items = expand(realm);
        let dispatcher = Dispatcher::new(settings, items.len());
        Engine { items, dispatcher, services: Ghost(realm.services@) }
    }

    /// The number of work items of the pass.
    pub fn len(&self) -> (r: usize)
        requires
            self.wf(),
        ensures
            r == self.state().total,
    {
        self.items.len()
    }

    /// Work item `index`.
    pub fn item(&self, index: usize) -> (r: &WorkItem)
        requires
            self.wf(),
            index < self.state().total,
        ensures
            r@ == realm_items(self.spec_services())[index as int],
    {
        &self.items[index]
    }

    /// Starts the next item where the bound allows one more in flight, and
    /// names it with the probe it needs.
    pub fn start_next(&mut self) -> (r: Option<(usize, Probe)>)
        requires
            old(self).wf(),
        ensures
            final(self).wf(),
            final(self).spec_services() == old(self).spec_services(),
            final(self).state().limit == old(self).state().limit,
            final(self).state().running.len() <= final(self).state().limit,
            (old(self).state().running.len() < old(self).state().limit && old(self).state().next
                < old(self).state().total) ==> {
                &&& r is Some && r->Some_0.0 == old(self).state().next
                &&& r->Some_0.1 == realm_items(old(self).spec_services())[old(self).state().next as int].checker.spec_probe()
                &&& final(self).state().running == old(self).state().running.insert(old(self).state().next as int)
            },
            !(old(self).state().running.len() < old(self).state().limit && old(self).state().next
                < old(self).state().total) ==> r is None && final(self).state() == old(self).state(),
    {
        match self.dispatcher.start_next() {
            Some(i) => {
                proof {
                    assert(self.items@[i as int]@ == realm_items(self.services@)[i as int]);
                }
                let p = self.items[i].checker.probe();
                Some((i, p))
            },
            None => None,
        }
    }

    /// Records the answer of the probe of item `index`, which must be in
    /// flight, as that item's outcome.
    pub fn record(&mut self, index: usize, answer: Result<(), ProbeError>) -> (r: Result<(), DispatchError>)
        requires
            old(self).wf(),
        ensures
            final(self).wf(),
            final(self).spec_services() == old(self).spec_services(),
            final(self).state().next == old(self).state().next,
            old(self).state().running.contains(index as int) ==> {
                &&& r is Ok
                &&& final(self).state().running == old(self).state().running.remove(index as int)
                &&& final(self).state().slots[index as int] matches Some(o) && settled(
                    realm_items(old(self).spec_services())[index as int].checker.spec_check(
                        realm_items(old(self).spec_services())[index as int].host,
                        answer,
                    ),
                    o,
                )
                &&& forall|n: int| 0 <= n < old(self).state().total && n != index ==> #[trigger] final(self).state().slots[n] == old(self).state().slots[n]
            },
            !old(self).state().running.contains(index as int) ==> r is Err && final(self).state() == old(self).state(),
    {
        if index >= self.items.len() {
            return self.dispatcher.complete(index, Outcome::Success);
        }
        proof {
            assert(self.items@[index as int]@ == realm_items(self.services@)[index as int]);
        }
        let o = settle(&self.items[index], answer);
        self.dispatcher.complete(index, o)
    }

    /// Records an internal failure of the checker of item `index`, which must
    /// be in flight, as that item's outcome.
    pub fn record_internal_error(&mut self, index: usize) -> (r: Result<(), DispatchError>)
        requires
            old(self).wf(),
        ensures
            final(self).wf(),
            final(self).spec_services() == old(self).spec_services(),
            final(self).state().next == old(self).state().next,
            old(self).state().running.contains(index as int) ==> {
                &&& r is Ok
                &&& final(self).state().running == old(self).state().running.remove(index as int)
                &&& final(self).state().slots[index as int] matches Some(Outcome::Failure(s)) && s@
                    == internal_error_text()
                &&& forall|n: int| 0 <= n < old(self).state().total && n != index ==> #[trigger] final(self).state().slots[n] == old(self).state().slots[n]
            },
            !old(self).state().running.contains(index as int) ==> r is Err && final(self).state() == old(self).state(),
    {
        self.dispatcher.complete(index, Outcome::internal_error())
    }

    /// Whether every item has been started and every outcome recorded.
    pub fn is_done(&self) -> (r: bool)
        requires
            self.wf(),
        ensures
            r == self.dispatcher_done(),
    {
        self.dispatcher.is_done()
    }

    pub closed spec fn dispatcher_done(&self) -> bool {
        self.dispatcher.spec_done()
    }

    /// Abandons the pass: the outcomes recorded so far, one slot per item in
    /// expansion order, `None` where the item had not completed.
    pub fn abandon(self) -> (r: Vec<Option<Outcome>>)
        requires
            self.wf(),
        ensures
            r@ == self.state().slots,
            r@.len() == realm_items(self.spec_services()).len(),
    {
        self.dispatcher.into_slots()
    }

    /// The report of the pass, once every outcome is in; `realm` is the realm
    /// the pass was made over.
    pub fn report(self, realm: &Realm) -> (r: Option<Report>)
        requires
            self.wf(),
            realm.services@ == self.spec_services(),
        ensures
            r is Some <==> self.dispatcher_done(),
            r matches Some(rep) ==> is_report_of(
                rep,
                realm.services@,
                self.state().slots.map_values(|o: Option<Outcome>| slot_outcome(o)),
            ),
            r matches Some(rep) ==> rep.summary.total == total_work(realm.services@),
    {
        proof {
            lemma_expansion_count(realm.services@);
        }
        let ghost slots = self.dispatcher@.slots;
        match self.dispatcher.into_outcomes() {
            Some(outs) => {
                proof {
                    assert forall|i: int| 0 <= i < outs@.len() implies #[trigger] outs@[i] == slots.map_values(
                        |o: Option<Outcome>| slot_outcome(o),
                    )[i] by {
                        assert(slots[i] == Some(outs@[i]));
                    }
                    assert(outs@ =~= slots.map_values(|o: Option<Outcome>| slot_outcome(o)));
                }
                Some(aggregate(realm, &outs))
            },
            None => None,
        }
    }
}

} // verus!
