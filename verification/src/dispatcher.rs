//! The coordinator: sole owner of the command source and of the active count.
//!
//! The dispatcher handles one signal at a time. It never looks inside a
//! command; it routes and counts.

use crate::signal::Signal;
use crate::source::{SourceView, WorkSource};
use crate::tracker::{TerminationTracker, TrackerView};
use vstd::prelude::*;

verus! {

/// What the coordination loop does after a signal has been handled.
#[derive(Debug, PartialEq, Eq)]
pub enum Dispatch {
    /// Deliver `command` to worker `worker`, and to no one else.
    Reply { worker: usize, command: Option<String> },
    /// Nothing to send; wait for the next signal.
    Continue,
    /// No worker is active: leave the loop.
    Stop,
}

/// Mathematical model of a [`Dispatch`].
pub enum DispatchView {
    Reply { worker: usize, command: Option<Seq<char>> },
    Continue,
    Stop,
}

impl View for Dispatch {
    type V = DispatchView;

    open spec fn view(&self) -> DispatchView {
        match self {
            Dispatch::Reply { worker, command } => DispatchView::Reply {
                worker: *worker,
                command: command.deep_view(),
            },
            Dispatch::Continue => DispatchView::Continue,
            Dispatch::Stop => DispatchView::Stop,
        }
    }
}

/// Why a signal was refused.
#[derive(Clone, Copy, Debug, PartialEq, Eq, Structural)]
pub enum DispatchError {
    /// The signal names a worker index outside `[0, workers)`.
    UnknownWorker(usize),
}

/// Model of what `handle` returns.
pub open spec fn outcome_view(r: Result<Dispatch, DispatchError>) -> Result<
    DispatchView,
    DispatchError,
> {
    match r {
        Ok(d) => Ok(d@),
        Err(e) => Err(e),
    }
}

/// Mathematical model of a [`Dispatcher`].
pub struct DispatcherView {
    pub source: SourceView,
    pub tracker: TrackerView,
}

impl DispatcherView {
    pub open spec fn wf(self) -> bool {
        self.source.wf() && self.tracker.wf()
    }

    /// The dispatcher of a run over `commands` with `workers` workers.
    pub open spec fn start(commands: Seq<Seq<char>>, workers: nat) -> DispatcherView {
        DispatcherView {
            source: SourceView { commands, position: 0 },
            tracker: TrackerView::start(workers),
        }
    }

    /// The coordination loop has ended, or never had to begin.
    pub open spec fn finished(self) -> bool {
        self.tracker.finished()
    }

    /// The state after `signal`, and what the loop is told to do.
    ///
    /// A finished dispatcher answers `Stop` to everything and changes
    /// nothing. Otherwise a signal from an index that is no worker's is
    /// refused. A request takes the next command from the source and is
    /// answered to the requester. A done report lowers the active count, and
    /// the answer is `Stop` exactly when the count has reached zero.
    pub open spec fn handle(self, signal: Signal) -> (
        DispatcherView,
        Result<DispatchView, DispatchError>,
    ) {
        if self.finished() {
            (self, Ok(DispatchView::Stop))
        } else if signal.sender() >= self.tracker.workers {
            (self, Err(DispatchError::UnknownWorker(signal.sender())))
        } else {
            match signal {
                Signal::RequestNext(worker) => (
                    DispatcherView { source: self.source.advance(), tracker: self.tracker },
                    Ok(DispatchView::Reply { worker, command: self.source.peek() }),
                ),
                Signal::WorkerDone(_) => {
                    let tracker = self.tracker.worker_done();
                    (
                        DispatcherView { source: self.source, tracker },
                        Ok(
                            if tracker.finished() {
                                DispatchView::Stop
                            } else {
                                DispatchView::Continue
                            },
                        ),
                    )
                },
            }
        }
    }
}

/// Serves worker requests from the command source and counts the workers
/// that are still active.
pub struct Dispatcher {
    source: WorkSource,
    tracker: TerminationTracker,
}

impl View for Dispatcher {
    type V = DispatcherView;

    closed spec fn view(&self) -> DispatcherView {
        DispatcherView { source: self.source@, tracker: self.tracker@ }
    }
}

impl Dispatcher {
    /// A dispatcher for `workers` workers over `source`. With zero workers it
    /// is finished at once and the source is never touched.
    pub fn new(source: WorkSource, workers: usize) -> (d: Dispatcher)
        ensures
            d@.source == source@,
            d@.tracker == TrackerView::start(workers as nat),
            d@.wf(),
    {
        proof {
            use_type_invariant(&source);
        }
        Dispatcher { source, tracker: TerminationTracker::new(workers) }
    }

    /// Whether the coordination loop is over: no worker is active.
    pub fn is_finished(&self) -> (r: bool)
        ensures
            r == self@.finished(),
    {
        self.tracker.is_finished()
    }

    /// Number of workers that have not reported done.
    pub fn active_count(&self) -> (n: usize)
        ensures
            n == self@.tracker.active,
    {
        self.tracker.active_count()
    }

    /// Number of workers the run started with.
    pub fn workers(&self) -> (n: usize)
        ensures
            n == self@.tracker.workers,
    {
        self.tracker.workers()
    }

    /// Number of commands handed out so far.
    pub fn delivered(&self) -> (n: usize)
        ensures
            n == self@.source.position,
    {
        self.source.position()
    }

    /// Handles one signal and says what the loop does next.
    pub fn handle(&mut self, signal: Signal) -> (r: Result<Dispatch, DispatchError>)
        ensures
            (final(self)@, outcome_view(r)) == old(self)@.handle(signal),
            final(self)@.wf(),
    {
        proof {
            use_type_invariant(&self.source);
            use_type_invariant(&self.tracker);
        }
        if self.tracker.is_finished() {
            return Ok(Dispatch::Stop);
        }
        let worker = signal.worker();
        if worker >= self.tracker.workers() {
            return Err(DispatchError::UnknownWorker(worker));
        }
        match signal {
            Signal::RequestNext(_) => {
                let command = self.source.next();
                Ok(Dispatch::Reply { worker, command })
            },
            Signal::WorkerDone(_) => {
                if self.tracker.worker_done() {
                    Ok(Dispatch::Stop)
                } else {
                    Ok(Dispatch::Continue)
                }
            },
        }
    }
}

} // verus!
