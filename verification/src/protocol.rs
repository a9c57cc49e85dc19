//! The whole run as a transition system: one dispatcher, its workers, and
//! what travels between them.
//!
//! Every worker has at most one thing under way at a time: a signal to the
//! dispatcher, a reply from it, or a command under execution. A step of the
//! system is one party taking one such thing and acting on it, exactly as
//! its own state machine prescribes. Steps of different workers interleave
//! in any order.

use crate::dispatcher::{DispatchView, DispatcherView};
use crate::signal::Signal;
use crate::worker::{WorkerActionView, WorkerEventView, WorkerView};
use vstd::prelude::*;

verus! {

/// A command on its way to execution, with the place it has in the source.
pub struct Assignment {
    pub position: nat,
    pub command: Seq<char>,
}

/// What is under way for one worker.
pub enum Link {
    /// A signal the worker sent that the dispatcher has yet to handle.
    Sent(Signal),
    /// A reply the dispatcher sent that the worker has yet to take.
    Replied(Option<Assignment>),
    /// A command the worker handed to the process executor.
    Running(Assignment),
    /// Nothing, for good: the dispatcher has counted the worker's done report.
    Closed,
}

impl Link {
    /// The link of a worker once it has taken `action`, where `position` is
    /// the source position of the command in the reply that led to it.
    pub open spec fn after(action: WorkerActionView, position: nat) -> Link {
        match action {
            WorkerActionView::Ask(signal) => Link::Sent(signal),
            WorkerActionView::Finish(signal) => Link::Sent(signal),
            WorkerActionView::Execute { command, .. } => Link::Running(
                Assignment { position, command },
            ),
        }
    }
}

/// One invocation of the process executor.
pub struct Launch {
    /// The worker that made the invocation.
    pub worker: nat,
    /// The source position of the command.
    pub position: nat,
    /// The command line.
    pub command: Seq<char>,
    /// The worker index handed to the command in its environment.
    pub index: usize,
}

/// The state of a run, with a record of what has happened in it.
pub struct System {
    pub dispatcher: DispatcherView,
    pub workers: Seq<WorkerView>,
    pub links: Seq<Link>,
    /// For each source position handed out so far, the worker that got it.
    pub recipients: Seq<nat>,
    /// The executor invocations so far, in the order they were made.
    pub launches: Seq<Launch>,
    /// For each worker, whether a launch of its failed.
    pub failed: Seq<bool>,
}

/// One step of a run.
pub enum Step {
    /// The dispatcher handles the signal of this worker.
    Dispatch(nat),
    /// This worker takes its reply.
    Receive(nat),
    /// The executor comes back to this worker: the command was started and
    /// has ended (`true`), or could not be started (`false`).
    Complete(nat, bool),
}

impl System {
    /// The run at the moment the start barrier opens: nothing handed out,
    /// every worker's first request under way.
    pub open spec fn start(commands: Seq<Seq<char>>, workers: usize) -> System {
        System {
            dispatcher: DispatcherView::start(commands, workers as nat),
            workers: Seq::new(workers as nat, |i: int| WorkerView::start(i as usize)),
            links: Seq::new(
                workers as nat,
                |i: int| Link::after(WorkerView::start(i as usize).request(), 0),
            ),
            recipients: Seq::empty(),
            launches: Seq::empty(),
            failed: Seq::new(workers as nat, |i: int| false),
        }
    }

    /// Whether `step` can happen now.
    pub open spec fn enabled(self, step: Step) -> bool {
        match step {
            Step::Dispatch(i) => i < self.links.len() && self.links[i as int] is Sent
                && !self.dispatcher.finished(),
            Step::Receive(i) => i < self.links.len() && self.links[i as int] is Replied,
            Step::Complete(i, _) => i < self.links.len() && self.links[i as int] is Running,
        }
    }

    /// The dispatcher handles the signal that worker `i` sent.
    pub open spec fn dispatch(self, i: nat) -> System {
        let signal = self.links[i as int]->Sent_0;
        let (dispatcher, outcome) = self.dispatcher.handle(signal);
        match outcome {
            Ok(DispatchView::Reply { worker, command }) => {
                let position = self.dispatcher.source.position;
                match command {
                    Some(command) => System {
                        dispatcher,
                        links: self.links.update(
                            worker as int,
                            Link::Replied(Some(Assignment { position, command })),
                        ),
                        recipients: self.recipients.push(worker as nat),
                        ..self
                    },
                    None => System {
                        dispatcher,
                        links: self.links.update(worker as int, Link::Replied(None)),
                        ..self
                    },
                }
            },
            Ok(_) => System { dispatcher, links: self.links.update(i as int, Link::Closed), ..self },
            Err(_) => self,
        }
    }

    /// Worker `i` takes the reply that is under way to it.
    pub open spec fn receive(self, i: nat) -> System {
        let reply = self.links[i as int]->Replied_0;
        let event = WorkerEventView::Reply(
            match reply {
                Some(assignment) => Some(assignment.command),
                None => None,
            },
        );
        let position = match reply {
            Some(assignment) => assignment.position,
            None => 0,
        };
        match self.workers[i as int].step(event) {
            Some((worker, action)) => System {
                workers: self.workers.update(i as int, worker),
                links: self.links.update(i as int, Link::after(action, position)),
                launches: match action {
                    WorkerActionView::Execute { command, index } => self.launches.push(
                        Launch { worker: i, position, command, index },
                    ),
                    _ => self.launches,
                },
                ..self
            },
            None => self,
        }
    }

    /// The executor comes back to worker `i`.
    pub open spec fn complete(self, i: nat, launched: bool) -> System {
        let event = if launched {
            WorkerEventView::Exited
        } else {
            WorkerEventView::LaunchFailed
        };
        match self.workers[i as int].step(event) {
            Some((worker, action)) => System {
                workers: self.workers.update(i as int, worker),
                links: self.links.update(i as int, Link::after(action, 0)),
                failed: self.failed.update(i as int, self.failed[i as int] || !launched),
                ..self
            },
            None => self,
        }
    }

    /// The state after `step`.
    pub open spec fn next(self, step: Step) -> System {
        match step {
            Step::Dispatch(i) => self.dispatch(i),
            Step::Receive(i) => self.receive(i),
            Step::Complete(i, launched) => self.complete(i, launched),
        }
    }

    /// The state after `steps`, taken in order.
    pub open spec fn run(self, steps: Seq<Step>) -> System
        decreases steps.len(),
    {
        if steps.len() == 0 {
            self
        } else {
            self.run(steps.drop_last()).next(steps.last())
        }
    }

    /// Whether each of `steps` can happen when its turn comes.
    pub open spec fn admits(self, steps: Seq<Step>) -> bool
        decreases steps.len(),
    {
        steps.len() == 0 || (self.admits(steps.drop_last()) && self.run(steps.drop_last()).enabled(
            steps.last(),
        ))
    }

    /// The coordination loop has ended.
    pub open spec fn finished(self) -> bool {
        self.dispatcher.finished()
    }
}

} // verus!
