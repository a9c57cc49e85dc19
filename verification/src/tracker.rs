//! The count of workers that are still active.

use vstd::prelude::*;

verus! {

/// Mathematical model of a [`TerminationTracker`].
pub struct TrackerView {
    /// Number of workers the run started with.
    pub workers: nat,
    /// Number of workers that have not reported done.
    pub active: nat,
}

impl TrackerView {
    /// The active count stays within `[0, workers]`.
    pub open spec fn wf(self) -> bool {
        self.active <= self.workers
    }

    /// The tracker of a run that starts with `workers` workers.
    pub open spec fn start(workers: nat) -> TrackerView {
        TrackerView { workers, active: workers }
    }

    /// No worker is active any more: the coordination loop stops.
    pub open spec fn finished(self) -> bool {
        self.active == 0
    }

    /// The tracker after one done report: one fewer active worker, and no
    /// change once the count is zero.
    pub open spec fn worker_done(self) -> TrackerView {
        if self.active == 0 {
            self
        } else {
            TrackerView { workers: self.workers, active: (self.active - 1) as nat }
        }
    }

    /// The tracker after `count` done reports.
    pub open spec fn worker_done_times(self, count: nat) -> TrackerView
        decreases count,
    {
        if count == 0 {
            self
        } else {
            self.worker_done_times((count - 1) as nat).worker_done()
        }
    }
}

/// Counts down from the number of workers to zero, one per done report.
/// The count never goes up, and zero is final.
pub struct TerminationTracker {
    workers: usize,
    active: usize,
}

impl View for TerminationTracker {
    type V = TrackerView;

    closed spec fn view(&self) -> TrackerView {
        TrackerView { workers: self.workers as nat, active: self.active as nat }
    }
}

impl TerminationTracker {
    /// Holds of every tracker at all times.
    #[verifier::type_invariant]
    pub open spec fn inv(self) -> bool {
        self@.wf()
    }

    /// A tracker with all `workers` workers active. With zero workers it is
    /// finished from the start.
    pub fn new(workers: usize) -> (t: TerminationTracker)
        ensures
            t@ == TrackerView::start(workers as nat),
    {
        TerminationTracker { workers, active: workers }
    }

    /// Number of workers the run started with.
    pub fn workers(&self) -> (n: usize)
        ensures
            n == self@.workers,
    {
        self.workers
    }

    /// Number of workers that have not reported done.
    pub fn active_count(&self) -> (n: usize)
        ensures
            n == self@.active,
    {
        self.active
    }

    /// Whether the active count has reached zero.
    pub fn is_finished(&self) -> (r: bool)
        ensures
            r == self@.finished(),
    {
        self.active == 0
    }

    /// Counts one done report and says whether the count is now zero.
    pub fn worker_done(&mut self) -> (finished: bool)
        ensures
            final(self)@ == old(self)@.worker_done(),
            finished == final(self)@.finished(),
    {
        proof {
            use_type_invariant(&*self);
        }
        if self.active > 0 {
            self.active = self.active - 1;
        }
        self.active == 0
    }
}

/// The count goes down by one per done report and never up, and it reaches
/// zero exactly with the report of the last worker: after `count` reports a
/// tracker for `workers` workers is finished if and only if
/// `count >= workers`. A tracker for no workers is finished from the start.
pub proof fn lemma_finished_iff_all_reported(workers: nat, count: nat)
    ensures
        ({
            let t = TrackerView::start(workers).worker_done_times(count);
            &&& t.wf()
            &&& t.workers == workers
            &&& t.active == if count <= workers {
                workers - count
            } else {
                0
            }
            &&& t.finished() <==> count >= workers
        }),
    decreases count,
{
    if count > 0 {
        lemma_finished_iff_all_reported(workers, (count - 1) as nat);
    }
}

} // verus!
