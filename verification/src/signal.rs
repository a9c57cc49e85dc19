//! Messages that workers send to the dispatcher.

use vstd::prelude::*;

verus! {

/// What a worker tells the dispatcher. Each message carries the index of the
/// worker that sent it.
#[derive(Clone, Copy, Debug, PartialEq, Eq, Structural)]
pub enum Signal {
    /// The worker is idle and asks for the next command.
    RequestNext(usize),
    /// The worker has left its loop and will send nothing more.
    WorkerDone(usize),
}

impl Signal {
    /// Index of the worker that sent the message.
    pub open spec fn sender(self) -> usize {
        match self {
            Signal::RequestNext(i) => i,
            Signal::WorkerDone(i) => i,
        }
    }

    /// Index of the worker that sent the message.
    pub fn worker(&self) -> (i: usize)
        ensures
            i == self.sender(),
    {
        match self {
            Signal::RequestNext(i) => *i,
            Signal::WorkerDone(i) => *i,
        }
    }
}

} // verus!
