//! Admission control of the fetch stage, as decisions from state and
//! event to next state and action.
use vstd::prelude::*;

verus! {

/// A pool of permits that bounds how many fetches are in flight.
pub struct AdmissionGate {
    capacity: usize,
    in_flight: usize,
}

impl AdmissionGate {
    pub closed spec fn capacity(&self) -> nat {
        self.capacity as nat
    }

    pub closed spec fn in_flight(&self) -> nat {
        self.in_flight as nat
    }

    pub closed spec fn wf(&self) -> bool {
        self.in_flight <= self.capacity
    }

    /// A gate of `capacity` permits, none taken.
    pub fn new(capacity: usize) -> (r: AdmissionGate)
        ensures
            r.wf(),
            r.capacity() == capacity,
            r.in_flight() == 0,
    {
        AdmissionGate { capacity, in_flight: 0 }
    }

    /// Takes a permit if one is free.
    pub fn try_acquire(&mut self) -> (r: bool)
        requires
            old(self).wf(),
        ensures
            final(self).wf(),
            r == (old(self).in_flight() < old(self).capacity()),
            final(self).capacity() == old(self).capacity(),
            final(self).in_flight() == old(self).in_flight() + if r { 1nat } else { 0nat },
    {
        if self.in_flight < self.capacity {
            self.in_flight = self.in_flight + 1;
            true
        } else {
            false
        }
    }

    /// Returns a permit.
    pub fn release(&mut self)
        requires
            old(self).wf(),
            old(self).in_flight() > 0,
        ensures
            final(self).wf(),
            final(self).capacity() == old(self).capacity(),
            final(self).in_flight() == old(self).in_flight() - 1,
    {
        self.in_flight = self.in_flight - 1;
    }

    pub fn permits_taken(&self) -> (r: usize)
        ensures
            r == self.in_flight(),
    {
        self.in_flight
    }

    pub fn permit_count(&self) -> (r: usize)
        ensures
            r == self.capacity(),
    {
        self.capacity
    }
}

/// A gate never lends more permits than it has: at no time are more
/// fetches admitted than its capacity.
pub proof fn lemma_gate_bounds_concurrency(gate: AdmissionGate)
    requires
        gate.wf(),
    ensures
        gate.in_flight() <= gate.capacity(),
{
}

/// What the fetch stage does next.
#[derive(Clone, Copy, Debug, PartialEq, Eq, Structural)]
pub enum FetchAction {
    /// Start fetching the descriptor at this position, holding a permit.
    Start(usize),
    /// Wait for a fetch in flight to finish.
    Wait,
    /// Every descriptor has been fetched or has failed: the stage is done.
    Finished,
}

/// The fetch stage over `total` descriptors: how many have been started,
/// and how many of those hold a permit now.
pub struct FetchScheduler {
    total: usize,
    next: usize,
    completed: usize,
    gate: AdmissionGate,
}

impl FetchScheduler {
    pub closed spec fn total(&self) -> nat {
        self.total as nat
    }

    /// How many descriptors have been started.
    pub closed spec fn started(&self) -> nat {
        self.next as nat
    }

    /// How many started fetches have finished, by success or failure.
    pub closed spec fn completed(&self) -> nat {
        self.completed as nat
    }

    pub closed spec fn capacity(&self) -> nat {
        self.gate.capacity()
    }

    pub closed spec fn in_flight(&self) -> nat {
        self.gate.in_flight()
    }

    pub closed spec fn wf(&self) -> bool {
        &&& self.gate.wf()
        &&& self.next <= self.total
        &&& self.completed + self.gate.in_flight() == self.next
    }

    /// The stage for `total` descriptors with at most `capacity` fetches at
    /// once.
    pub fn new(total: usize, capacity: usize) -> (r: FetchScheduler)
        ensures
            r.wf(),
            r.total() == total,
            r.capacity() == capacity,
            r.started() == 0,
            r.completed() == 0,
            r.in_flight() == 0,
    {
        FetchScheduler { total, next: 0, completed: 0, gate: AdmissionGate::new(capacity) }
    }

    /// The next action: start the next descriptor while one remains and a
    /// permit is free; finish once all have started and none is in flight;
    /// else wait.
    pub fn next_action(&mut self) -> (r: FetchAction)
        requires
            old(self).wf(),
        ensures
            final(self).wf(),
            final(self).total() == old(self).total(),
            final(self).capacity() == old(self).capacity(),
            final(self).completed() == old(self).completed(),
            if old(self).started() < old(self).total() && old(self).in_flight() < old(self).capacity() {
                &&& r == FetchAction::Start(old(self).started() as usize)
                &&& final(self).started() == old(self).started() + 1
                &&& final(self).in_flight() == old(self).in_flight() + 1
            } else {
                &&& r == if old(self).started() == old(self).total() && old(self).in_flight() == 0 {
                    FetchAction::Finished
                } else {
                    FetchAction::Wait
                }
                &&& final(self).started() == old(self).started()
                &&& final(self).in_flight() == old(self).in_flight()
            },
    {
        if self.next < self.total && self.gate.try_acquire() {
            let i = self.next;
            self.next = self.next + 1;
            FetchAction::Start(i)
        } else if self.next == self.total && self.gate.permits_taken() == 0 {
            FetchAction::Finished
        } else {
            FetchAction::Wait
        }
    }

    /// A started fetch has ended, by success or failure: its permit returns.
    pub fn on_complete(&mut self)
        requires
            old(self).wf(),
            old(self).in_flight() > 0,
        ensures
            final(self).wf(),
            final(self).total() == old(self).total(),
            final(self).capacity() == old(self).capacity(),
            final(self).started() == old(self).started(),
            final(self).completed() == old(self).completed() + 1,
            final(self).in_flight() == old(self).in_flight() - 1,
    {
        self.gate.release();
        self.completed = self.completed + 1;
    }

    pub fn fetches_in_flight(&self) -> (r: usize)
        ensures
            r == self.in_flight(),
    {
        self.gate.permits_taken()
    }
}

/// The stage never runs more fetches at once than its capacity, and each
/// fetch in flight is one started and not yet completed.
pub proof fn lemma_fetch_concurrency_bounded(s: FetchScheduler)
    requires
        s.wf(),
    ensures
        s.in_flight() <= s.capacity(),
        s.in_flight() == s.started() - s.completed(),
        s.started() <= s.total(),
{
}

/// With a positive capacity the stage waits only while some fetch is in
/// flight, so a completion is always coming when it waits.
pub proof fn lemma_wait_only_while_in_flight(s: FetchScheduler)
    requires
        s.wf(),
        s.capacity() > 0,
        !(s.started() < s.total() && s.in_flight() < s.capacity()),
        !(s.started() == s.total() && s.in_flight() == 0),
    ensures
        s.in_flight() > 0,
{
}

} // verus!
