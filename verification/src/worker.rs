//! The request-and-execute cycle of one worker, as a state machine.
//!
//! The machine decides; its driver performs. The driver sends the signals,
//! waits for the reply, runs the process executor, and feeds what happened
//! back in as the next event.

use crate::signal::Signal;
use vstd::prelude::*;

verus! {

/// Name of the environment variable that tells an executed command which
/// worker slot runs it. Its value is the worker's index in decimal.
pub const WORKER_INDEX_VAR: &'static str = "WORKER_INDEX";

/// Where a worker stands in its cycle.
#[derive(Clone, Copy, Debug, PartialEq, Eq, Structural)]
pub enum WorkerState {
    /// A request is out and the worker waits for the reply.
    Requesting,
    /// The worker runs a command and waits for the executor to come back.
    Executing,
    /// The worker has reported done. Nothing follows.
    Done,
}

/// What the driver reports back to the machine.
#[derive(Debug, PartialEq, Eq)]
pub enum WorkerEvent {
    /// The dispatcher answered the request: a command, or no more work.
    Reply(Option<String>),
    /// The executor started the command and the command has ended.
    Exited,
    /// The executor could not start the command.
    LaunchFailed,
    /// The reply conduit closed before an answer came.
    Disconnected,
}

/// Mathematical model of a [`WorkerEvent`].
pub enum WorkerEventView {
    Reply(Option<Seq<char>>),
    Exited,
    LaunchFailed,
    Disconnected,
}

impl View for WorkerEvent {
    type V = WorkerEventView;

    open spec fn view(&self) -> WorkerEventView {
        match self {
            WorkerEvent::Reply(reply) => WorkerEventView::Reply(reply.deep_view()),
            WorkerEvent::Exited => WorkerEventView::Exited,
            WorkerEvent::LaunchFailed => WorkerEventView::LaunchFailed,
            WorkerEvent::Disconnected => WorkerEventView::Disconnected,
        }
    }
}

/// What the machine asks its driver to do next.
#[derive(Debug, PartialEq, Eq)]
pub enum WorkerAction {
    /// Send the signal to the dispatcher and wait for the reply.
    Ask(Signal),
    /// Run `command` with the worker-index variable set to `index`.
    Execute { command: String, index: usize },
    /// Send the signal to the dispatcher and stop.
    Finish(Signal),
}

/// Mathematical model of a [`WorkerAction`].
pub enum WorkerActionView {
    Ask(Signal),
    Execute { command: Seq<char>, index: usize },
    Finish(Signal),
}

impl View for WorkerAction {
    type V = WorkerActionView;

    open spec fn view(&self) -> WorkerActionView {
        match self {
            WorkerAction::Ask(signal) => WorkerActionView::Ask(*signal),
            WorkerAction::Execute { command, index } => WorkerActionView::Execute {
                command: command@,
                index: *index,
            },
            WorkerAction::Finish(signal) => WorkerActionView::Finish(*signal),
        }
    }
}

/// Mathematical model of a [`Worker`].
pub struct WorkerView {
    pub index: usize,
    pub state: WorkerState,
}

impl WorkerView {
    /// A fresh worker: its first request is about to go out.
    pub open spec fn start(index: usize) -> WorkerView {
        WorkerView { index, state: WorkerState::Requesting }
    }

    /// The request that a worker sends whenever it is idle.
    pub open spec fn request(self) -> WorkerActionView {
        WorkerActionView::Ask(Signal::RequestNext(self.index))
    }

    /// The report with which a worker leaves.
    pub open spec fn farewell(self) -> WorkerActionView {
        WorkerActionView::Finish(Signal::WorkerDone(self.index))
    }

    /// The same worker in another state.
    pub open spec fn moved_to(self, state: WorkerState) -> WorkerView {
        WorkerView { index: self.index, state }
    }

    /// The transition relation. `None` means that the event is not one the
    /// worker waits for in its state; these are all the transitions there are.
    pub open spec fn step(self, event: WorkerEventView) -> Option<(WorkerView, WorkerActionView)> {
        match (self.state, event) {
            (WorkerState::Requesting, WorkerEventView::Reply(Some(command))) => Some(
                (
                    self.moved_to(WorkerState::Executing),
                    WorkerActionView::Execute { command, index: self.index },
                ),
            ),
            (WorkerState::Requesting, WorkerEventView::Reply(None)) => Some(
                (self.moved_to(WorkerState::Done), self.farewell()),
            ),
            (WorkerState::Requesting, WorkerEventView::Disconnected) => Some(
                (self.moved_to(WorkerState::Done), self.farewell()),
            ),
            (WorkerState::Executing, WorkerEventView::Exited) => Some(
                (self.moved_to(WorkerState::Requesting), self.request()),
            ),
            (WorkerState::Executing, WorkerEventView::LaunchFailed) => Some(
                (self.moved_to(WorkerState::Done), self.farewell()),
            ),
            _ => None,
        }
    }
}

/// One worker slot: a fixed index and the state of its cycle.
#[derive(Debug)]
pub struct Worker {
    index: usize,
    state: WorkerState,
}

impl View for Worker {
    type V = WorkerView;

    closed spec fn view(&self) -> WorkerView {
        WorkerView { index: self.index, state: self.state }
    }
}

impl Worker {
    /// Creates the worker for slot `index` together with its first action,
    /// the request for a command.
    pub fn new(index: usize) -> (r: (Worker, WorkerAction))
        ensures
            r.0@ == WorkerView::start(index),
            r.1@ == r.0@.request(),
    {
        (
            Worker { index, state: WorkerState::Requesting },
            WorkerAction::Ask(Signal::RequestNext(index)),
        )
    }

    /// The slot this worker occupies. It never changes.
    pub fn index(&self) -> (i: usize)
        ensures
            i == self@.index,
    {
        self.index
    }

    /// Where the worker stands in its cycle.
    pub fn state(&self) -> (s: WorkerState)
        ensures
            s == self@.state,
    {
        self.state
    }

    /// Whether the worker has reported done.
    pub fn is_done(&self) -> (r: bool)
        ensures
            r == (self@.state == WorkerState::Done),
    {
        match self.state {
            WorkerState::Done => true,
            _ => false,
        }
    }

    /// Takes the event the driver reports and answers with the next action.
    ///
    /// A command in the reply is executed under this worker's own index. No
    /// more work, a launch failure and a closed reply conduit each end the
    /// worker with a done report. An event the worker does not wait for in
    /// its state changes nothing and gives `None`.
    pub fn step(&mut self, event: WorkerEvent) -> (r: Option<WorkerAction>)
        ensures
            match old(self)@.step(event@) {
                Some((next, action)) => {
                    &&& final(self)@ == next
                    &&& r matches Some(a)
                    &&& a@ == action
                },
                None => final(self)@ == old(self)@ && r is None,
            },
    {
        match self.state {
            WorkerState::Requesting => match event {
                WorkerEvent::Reply(Some(command)) => {
                    self.state = WorkerState::Executing;
                    Some(WorkerAction::Execute { command, index: self.index })
                },
                WorkerEvent::Reply(None) | WorkerEvent::Disconnected => {
                    self.state = WorkerState::Done;
                    Some(WorkerAction::Finish(Signal::WorkerDone(self.index)))
                },
                _ => None,
            },
            WorkerState::Executing => match event {
                WorkerEvent::Exited => {
                    self.state = WorkerState::Requesting;
                    Some(WorkerAction::Ask(Signal::RequestNext(self.index)))
                },
                WorkerEvent::LaunchFailed => {
                    self.state = WorkerState::Done;
                    Some(WorkerAction::Finish(Signal::WorkerDone(self.index)))
                },
                _ => None,
            },
            WorkerState::Done => None,
        }
    }
}

} // verus!
