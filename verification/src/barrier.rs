//! The start rendezvous: every worker and the coordinator arrive before
//! anyone goes on.

use vstd::prelude::*;

verus! {

/// Mathematical model of a [`StartBarrier`].
pub struct BarrierView {
    /// Number of parties that must arrive: the workers and the coordinator.
    pub parties: nat,
    /// Number of parties that have arrived.
    pub arrived: nat,
}

impl BarrierView {
    pub open spec fn wf(self) -> bool {
        self.arrived <= self.parties
    }

    /// The barrier for `workers` workers and one coordinator, before anyone
    /// has arrived.
    pub open spec fn start(workers: nat) -> BarrierView {
        BarrierView { parties: workers + 1, arrived: 0 }
    }

    /// Every party has arrived; all may go on.
    pub open spec fn released(self) -> bool {
        self.arrived >= self.parties
    }

    /// The barrier after one more arrival. Arrivals beyond the last party
    /// are not counted.
    pub open spec fn arrive(self) -> BarrierView {
        if self.released() {
            self
        } else {
            BarrierView { parties: self.parties, arrived: self.arrived + 1 }
        }
    }

    /// The barrier after `count` arrivals.
    pub open spec fn arrive_times(self, count: nat) -> BarrierView
        decreases count,
    {
        if count == 0 {
            self
        } else {
            self.arrive_times((count - 1) as nat).arrive()
        }
    }
}

/// Counts arrivals at the start rendezvous. The thread that makes the last
/// arrival learns that the barrier is released; the others wait until
/// `is_released` holds.
pub struct StartBarrier {
    parties: usize,
    arrived: usize,
}

impl View for StartBarrier {
    type V = BarrierView;

    closed spec fn view(&self) -> BarrierView {
        BarrierView { parties: self.parties as nat, arrived: self.arrived as nat }
    }
}

impl StartBarrier {
    /// Holds of every barrier at all times.
    #[verifier::type_invariant]
    pub open spec fn inv(self) -> bool {
        self@.wf()
    }

    /// The barrier for `workers` workers and the coordinator. `None` when
    /// the number of parties does not fit the machine word.
    pub fn new(workers: usize) -> (r: Option<StartBarrier>)
        ensures
            r is Some <==> workers < usize::MAX,
            r matches Some(b) ==> b@ == BarrierView::start(workers as nat),
    {
        match workers.checked_add(1) {
            Some(parties) => Some(StartBarrier { parties, arrived: 0 }),
            None => None,
        }
    }

    /// Number of parties that must arrive.
    pub fn parties(&self) -> (n: usize)
        ensures
            n == self@.parties,
    {
        self.parties
    }

    /// Number of parties that have arrived.
    pub fn arrived(&self) -> (n: usize)
        ensures
            n == self@.arrived,
    {
        self.arrived
    }

    /// Whether every party has arrived.
    pub fn is_released(&self) -> (r: bool)
        ensures
            r == self@.released(),
    {
        self.arrived >= self.parties
    }

    /// Counts one arrival and says whether the barrier is now released.
    pub fn arrive(&mut self) -> (released: bool)
        ensures
            final(self)@ == old(self)@.arrive(),
            released == final(self)@.released(),
    {
        proof {
            use_type_invariant(&*self);
        }
        if self.arrived < self.parties {
            self.arrived = self.arrived + 1;
        }
        self.arrived >= self.parties
    }
}

/// No one passes the barrier early: after `count` arrivals at a fresh barrier
/// for `workers` workers, the barrier is released if and only if all
/// `workers + 1` parties have arrived.
pub proof fn lemma_released_iff_all_arrived(workers: nat, count: nat)
    ensures
        BarrierView::start(workers).arrive_times(count).wf(),
        BarrierView::start(workers).arrive_times(count).parties == workers + 1,
        BarrierView::start(workers).arrive_times(count).arrived == if count <= workers {
            count
        } else {
            workers + 1
        },
        BarrierView::start(workers).arrive_times(count).released() <==> count >= workers + 1,
    decreases count,
{
    if count > 0 {
        lemma_released_iff_all_arrived(workers, (count - 1) as nat);
    }
}

} // verus!
