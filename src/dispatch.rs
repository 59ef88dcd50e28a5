//! Bounded-concurrency dispatch of work items. The dispatcher decides which
//! item starts next and collects each outcome into the item's own slot; the
//! caller runs the probes and reports completions back.
use crate::engine::Outcome;
use vstd::prelude::*;

verus! {

/// The per-check deadline used where the caller configures none.
pub const DEFAULT_TIMEOUT_MS: u64 = 3000;

/// An engine setup error, detected before any dispatch.
#[derive(Clone, Copy, Debug, PartialEq, Eq, Structural)]
pub enum SetupError {
    /// The concurrency bound must allow at least one check in flight.
    ZeroConcurrency,
}

/// The execution parameters of one pass: the most checks in flight at once,
/// and each check's deadline in milliseconds.
pub struct Settings {
    concurrency: usize,
    timeout_ms: u64,
}

impl Settings {
    #[verifier::type_invariant]
    spec fn bound_positive(&self) -> bool {
        self.concurrency > 0
    }

    pub closed spec fn spec_concurrency(&self) -> nat {
        self.concurrency as nat
    }

    pub closed spec fn spec_timeout_ms(&self) -> nat {
        self.timeout_ms as nat
    }

    /// Settings with the given bound and deadline; a zero bound is refused.
    pub fn new(concurrency: usize, timeout_ms: u64) -> (r: Result<Settings, SetupError>)
        ensures
            concurrency == 0 <==> r == Err::<Settings, SetupError>(SetupError::ZeroConcurrency),
            r matches Ok(s) ==> s.spec_concurrency() == concurrency && s.spec_timeout_ms() == timeout_ms,
    {
        if concurrency == 0 {
            Err(SetupError::ZeroConcurrency)
        } else {
            Ok(Settings { concurrency, timeout_ms })
        }
    }

    /// Conservative defaults for a machine running `parallelism` threads at
    /// once: twice that many checks in flight (at least one), and the default
    /// deadline.
    pub fn for_parallelism(parallelism: usize) -> (r: Settings)
        ensures
            r.spec_concurrency() == (if parallelism == 0 {
                1
            } else if parallelism > usize::MAX / 2 {
                usize::MAX as int
            } else {
                2 * parallelism
            }),
            r.spec_timeout_ms() == DEFAULT_TIMEOUT_MS,
    {
        let concurrency: usize = if parallelism == 0 {
            1
        } else if parallelism > usize::MAX / 2 {
            usize::MAX
        } else {
            2 * parallelism
        };
        Settings { concurrency, timeout_ms: DEFAULT_TIMEOUT_MS }
    }

    pub fn concurrency(&self) -> (r: usize)
        ensures
            r == self.spec_concurrency(),
    {
        self.concurrency
    }

    pub fn timeout_ms(&self) -> (r: u64)
        ensures
            r == self.spec_timeout_ms(),
    {
        self.timeout_ms
    }
}

/// Why a completion was refused.
#[derive(Clone, Copy, Debug, PartialEq, Eq, Structural)]
pub enum DispatchError {
    /// The item was never handed out.
    NotStarted,
    /// The item's outcome was already recorded.
    AlreadyCompleted,
}

/// The state of a dispatch: the bound, how many items there are, how many have
/// been handed out, the items in flight, and one result slot per item.
pub struct DispatchState {
    pub limit: nat,
    pub total: nat,
    pub next: nat,
    pub running: Set<int>,
    pub slots: Seq<Option<Outcome>>,
}

/// Hands out item indices in order, never more than `limit` in flight, and
/// records each item's outcome exactly once.
pub struct Dispatcher {
    limit: usize,
    next: usize,
    in_flight: usize,
    slots: Vec<Option<Outcome>>,
    running: Ghost<Set<int>>,
}

impl View for Dispatcher {
    type V = DispatchState;

    closed spec fn view(&self) -> DispatchState {
        DispatchState {
            limit: self.limit as nat,
            total: self.slots@.len(),
            next: self.next as nat,
            running: self.running@,
            slots: self.slots@,
        }
    }
}

impl Dispatcher {
    /// The items in flight are exactly those handed out whose outcome is not
    /// recorded yet, and there are never more of them than the bound.
    pub open spec fn wf(&self) -> bool {
        let v = self@;
        &&& v.limit > 0
        &&& v.slots.len() == v.total
        &&& v.next <= v.total
        &&& v.running.finite()
        &&& v.running.len() <= v.limit
        &&& forall|i: int| #[trigger] v.running.contains(i) <==> (0 <= i < v.next && v.slots[i] is None)
        &&& forall|i: int| v.next <= i < v.total ==> #[trigger] v.slots[i] is None
    }

    pub closed spec fn inv(&self) -> bool {
        self.in_flight == self.running@.len()
    }

    /// Well-formed, with the count of items in flight kept in step.
    pub open spec fn ready(&self) -> bool {
        self.wf() && self.inv()
    }

    /// A dispatch of `total` items under the bound of `settings`, with no
    /// item started.
    pub fn new(settings: &Settings, total: usize) -> (r: Dispatcher)
        ensures
            r.ready(),
            r.wf(),
            r@.limit == settings.spec_concurrency(),
            r@.total == total,
            r@.next == 0,
            r@.running == Set::<int>::empty(),
            forall|i: int| 0 <= i < total ==> #[trigger] r@.slots[i] is None,
    {
        let mut slots: Vec<Option<Outcome>> = Vec::new();
        let mut i: usize = 0;
        while i < total
            invariant
                0 <= i <= total,
                slots@.len() == i,
                forall|k: int| 0 <= k < i ==> #[trigger] slots@[k] is None,
            decreases total - i,
        {
            slots.push(None);
            i = i + 1;
        }
        let r = Dispatcher {
            limit: settings.concurrency(),
            next: 0,
            in_flight: 0,
            slots,
            running: Ghost(Set::empty()),
        };
        proof {
            use_type_invariant(settings);
        }
        r
    }

    /// Whether every item has been handed out and every outcome recorded.
    pub open spec fn spec_done(&self) -> bool {
        self@.next == self@.total && self@.running.len() == 0
    }

    pub fn in_flight(&self) -> (r: usize)
        requires
            self.ready(),
        ensures
            r == self@.running.len(),
    {
        self.in_flight
    }

    pub fn is_done(&self) -> (r: bool)
        requires
            self.ready(),
        ensures
            r == self.spec_done(),
    {
        self.next == self.slots.len() && self.in_flight == 0
    }

    /// Hands out the next item where the bound allows one more in flight.
    pub fn start_next(&mut self) -> (r: Option<usize>)
        requires
            old(self).ready(),
        ensures
            final(self).ready(),
            final(self).wf(),
            final(self)@.limit == old(self)@.limit,
            final(self)@.total == old(self)@.total,
            final(self)@.slots == old(self)@.slots,
            (old(self)@.running.len() < old(self)@.limit && old(self)@.next < old(self)@.total) ==> {
                &&& r is Some && r->Some_0 == old(self)@.next
                &&& !old(self)@.running.contains(old(self)@.next as int)
                &&& final(self)@.next == old(self)@.next + 1
                &&& final(self)@.running == old(self)@.running.insert(old(self)@.next as int)
            },
            !(old(self)@.running.len() < old(self)@.limit && old(self)@.next < old(self)@.total) ==> {
                &&& r is None
                &&& final(self)@ == old(self)@
            },
    {
        if self.in_flight < self.limit && self.next < self.slots.len() {
            let idx = self.next;
            proof {
                self.running@ = self.running@.insert(idx as int);
            }
            self.next = self.next + 1;
            self.in_flight = self.in_flight + 1;
            Some(idx)
        } else {
            None
        }
    }

    /// Records the outcome of item `index`, which must be in flight.
    pub fn complete(&mut self, index: usize, outcome: Outcome) -> (r: Result<(), DispatchError>)
        requires
            old(self).ready(),
        ensures
            final(self).ready(),
            final(self).wf(),
            final(self)@.limit == old(self)@.limit,
            final(self)@.total == old(self)@.total,
            final(self)@.next == old(self)@.next,
            old(self)@.running.contains(index as int) ==> {
                &&& r is Ok
                &&& final(self)@.running == old(self)@.running.remove(index as int)
                &&& final(self)@.slots == old(self)@.slots.update(index as int, Some(outcome))
            },
            !old(self)@.running.contains(index as int) ==> final(self)@ == old(self)@,
            index >= old(self)@.next ==> r == Err::<(), DispatchError>(DispatchError::NotStarted),
            (index < old(self)@.next && !old(self)@.running.contains(index as int)) ==> r == Err::<(), DispatchError>(DispatchError::AlreadyCompleted),
    {
        if index >= self.next {
            return Err(DispatchError::NotStarted);
        }
        if self.slots[index].is_some() {
            return Err(DispatchError::AlreadyCompleted);
        }
        proof {
            self.running@ = self.running@.remove(index as int);
        }
        self.slots[index] = Some(outcome);
        self.in_flight = self.in_flight - 1;
        Ok(())
    }

    /// The outcome of each item, in item order, once all are recorded.
    pub fn into_outcomes(self) -> (r: Option<Vec<Outcome>>)
        requires
            self.ready(),
        ensures
            r is Some <==> self.spec_done(),
            r matches Some(v) ==> {
                &&& v@.len() == self@.total
                &&& forall|i: int| 0 <= i < v@.len() ==> self@.slots[i] == Some(#[trigger] v@[i])
            },
    {
        if !(self.next == self.slots.len() && self.in_flight == 0) {
            return None;
        }
        let mut out: Vec<Outcome> = Vec::new();
        let mut i: usize = 0;
        while i < self.slots.len()
            invariant
                self.ready(),
                self.spec_done(),
                0 <= i <= self.slots@.len(),
                out@.len() == i,
                forall|k: int| 0 <= k < i ==> self@.slots[k] == Some(#[trigger] out@[k]),
            decreases self.slots@.len() - i,
        {
            proof {
                if self.slots@[i as int] is None {
                    assert(self@.running.contains(i as int));
                }
            }
            match &self.slots[i] {
                Some(o) => out.push(o.duplicate()),
                None => {},
            }
            i = i + 1;
        }
        Some(out)
    }

    /// The recorded outcomes so far, one slot per item: what a pass that is
    /// abandoned early still returns.
    pub fn into_slots(self) -> (r: Vec<Option<Outcome>>)
        requires
            self.ready(),
        ensures
            r@ == self@.slots,
    {
        self.slots
    }
}

} // verus!
