//! What every run guarantees, whatever the order in which its parties move.
//!
//! Each statement is about `System::start(commands, workers).run(steps)` for
//! an arbitrary list of steps that the system admits: any number of workers,
//! any number of commands, any interleaving, any launch outcomes.

use crate::dispatcher::DispatchView;
use crate::protocol::{Link, Step, System};
use crate::safety::{
    lemma_run_keeps_inv, lemma_step_keeps_inv, lemma_total_bound, lemma_total_uniform, Measure,
};
use crate::signal::Signal;
use crate::worker::WorkerState;
use vstd::prelude::*;

verus! {

/// No command is handed out twice and none is run twice.
///
/// The replies that carry a command are one per source position, in source
/// order, each to one worker of the pool. Every launch is of a command that
/// was handed to the worker that launches it, with the text the source has
/// at that position, and no two launches are of the same position.
pub proof fn theorem_no_command_twice(commands: Seq<Seq<char>>, workers: usize, steps: Seq<Step>)
    requires
        System::start(commands, workers).admits(steps),
    ensures
        ({
            let s = System::start(commands, workers).run(steps);
            &&& s.dispatcher.source.commands == commands
            &&& s.recipients.len() == s.dispatcher.source.position
            &&& s.recipients.len() <= commands.len()
            &&& s.launches.len() <= s.recipients.len()
            &&& forall|k: int|
                0 <= k < s.recipients.len() ==> (#[trigger] s.recipients[k]) < workers
            &&& forall|j: int|
                #![trigger s.launches[j]]
                0 <= j < s.launches.len() ==> {
                    &&& s.launches[j].position < s.recipients.len()
                    &&& s.launches[j].worker == s.recipients[s.launches[j].position as int]
                    &&& s.launches[j].command == commands[s.launches[j].position as int]
                }
            &&& forall|j: int, k: int|
                0 <= j < k < s.launches.len() ==> (#[trigger] s.launches[j]).position != (
                #[trigger] s.launches[k]).position
        }),
{
    lemma_run_keeps_inv(commands, workers, steps);
    let s = System::start(commands, workers).run(steps);
    assert forall|j: int| #![trigger s.launches[j]] 0 <= j < s.launches.len() implies {
        &&& s.launches[j].position < s.recipients.len()
        &&& s.launches[j].worker == s.recipients[s.launches[j].position as int]
        &&& s.launches[j].command == commands[s.launches[j].position as int]
    } by {
        assert(s.launch_fits(j));
    }
}

/// The coordination loop is over exactly when the done report of every
/// worker has been counted. With no workers it is over before it begins.
pub proof fn theorem_finished_iff_all_closed(
    commands: Seq<Seq<char>>,
    workers: usize,
    steps: Seq<Step>,
)
    requires
        System::start(commands, workers).admits(steps),
    ensures
        ({
            let s = System::start(commands, workers).run(steps);
            &&& s.links.len() == workers
            &&& s.finished() <==> forall|i: int|
                0 <= i < workers ==> (#[trigger] s.links[i]) is Closed
        }),
{
    lemma_run_keeps_inv(commands, workers, steps);
    let s = System::start(commands, workers).run(steps);
    if s.finished() {
        lemma_total_bound(Measure::Closed, s.links, 1);
        assert forall|i: int| 0 <= i < workers implies (#[trigger] s.links[i]) is Closed by {
            assert(Measure::Closed.weight(s.links[i]) == 1);
        }
    }
    if forall|i: int| 0 <= i < workers ==> (#[trigger] s.links[i]) is Closed {
        lemma_total_uniform(Measure::Closed, s.links, 1);
    }
}

/// If any worker gets through without a failed launch, every command is
/// run exactly once.
///
/// When the loop is over and there is a worker none of whose launches
/// failed, each of the `commands.len()` source positions has been handed
/// out and launched, and there are as many launches as commands.
pub proof fn theorem_every_command_once(commands: Seq<Seq<char>>, workers: usize, steps: Seq<Step>)
    requires
        System::start(commands, workers).admits(steps),
        System::start(commands, workers).run(steps).finished(),
        exists|i: int|
            0 <= i < workers && !#[trigger] System::start(commands, workers).run(steps).failed[i],
    ensures
        ({
            let s = System::start(commands, workers).run(steps);
            &&& s.recipients.len() == commands.len()
            &&& s.launches.len() == commands.len()
            &&& forall|k: int| 0 <= k < commands.len() ==> #[trigger] s.launched(k)
        }),
{
    theorem_survivors_take_the_rest(commands, workers, steps);
}

/// A failed launch costs one worker and no command.
///
/// A worker whose launch failed is done for good: its done report is under
/// way or counted, and nothing else will come from it. When the loop is over,
/// every command that was handed out has been launched, and every command
/// of the source has been handed out unless a launch failed in each worker.
pub proof fn theorem_survivors_take_the_rest(
    commands: Seq<Seq<char>>,
    workers: usize,
    steps: Seq<Step>,
)
    requires
        System::start(commands, workers).admits(steps),
    ensures
        ({
            let s = System::start(commands, workers).run(steps);
            &&& s.failed.len() == workers
            &&& s.workers.len() == workers
            &&& s.links.len() == workers
            &&& forall|i: int|
                0 <= i < workers && #[trigger] s.failed[i] ==> {
                    &&& s.workers[i].state == WorkerState::Done
                    &&& s.links[i] == Link::Sent(Signal::WorkerDone(i as usize)) || s.links[i]
                        == Link::Closed
                }
            &&& s.finished() ==> {
                &&& s.launches.len() == s.recipients.len()
                &&& forall|k: int| 0 <= k < s.recipients.len() ==> #[trigger] s.launched(k)
                &&& s.recipients.len() == commands.len() || forall|i: int|
                    0 <= i < workers ==> #[trigger] s.failed[i]
            }
        }),
{
    lemma_run_keeps_inv(commands, workers, steps);
    theorem_finished_iff_all_closed(commands, workers, steps);
    let s = System::start(commands, workers).run(steps);
    assert forall|i: int| 0 <= i < workers && #[trigger] s.failed[i] implies {
        &&& s.workers[i].state == WorkerState::Done
        &&& s.links[i] == Link::Sent(Signal::WorkerDone(i as usize)) || s.links[i] == Link::Closed
    } by {
        assert(s.link_fits(i));
    }
    if s.finished() {
        assert forall|i: int| 0 <= i < s.links.len() implies Measure::Assigned.weight(
            #[trigger] s.links[i],
        ) == 0 by {}
        lemma_total_uniform(Measure::Assigned, s.links, 0);
        assert forall|k: int| 0 <= k < s.recipients.len() implies #[trigger] s.launched(k) by {
            assert(s.accounted(k));
            assert(s.links[s.recipients[k] as int] is Closed);
        }
        if s.recipients.len() != commands.len() {
            assert forall|i: int| 0 <= i < workers implies #[trigger] s.failed[i] by {
                assert(s.link_fits(i));
            }
        }
    }
}

/// An empty source runs nothing: no reply carries a command, so every
/// request is answered with no more work, and the executor is never called.
pub proof fn theorem_empty_source_runs_nothing(
    commands: Seq<Seq<char>>,
    workers: usize,
    steps: Seq<Step>,
)
    requires
        System::start(commands, workers).admits(steps),
        commands.len() == 0,
    ensures
        ({
            let s = System::start(commands, workers).run(steps);
            &&& s.recipients.len() == 0
            &&& s.launches.len() == 0
            &&& forall|i: int|
                0 <= i < s.links.len() ==> (#[trigger] s.links[i]) is Replied ==> s.links[i]
                    == Link::Replied(None)
            &&& forall|i: int|
                0 <= i < s.links.len() ==> !((#[trigger] s.links[i]) is Running)
        }),
{
    lemma_run_keeps_inv(commands, workers, steps);
    let s = System::start(commands, workers).run(steps);
    assert forall|i: int| 0 <= i < s.links.len() implies ((#[trigger] s.links[i]) is Replied
        ==> s.links[i] == Link::Replied(None)) && !(s.links[i] is Running) by {
        assert(s.link_fits(i));
    }
}

/// A single worker runs the commands in source order: its `j`-th launch is
/// of the `j`-th command.
pub proof fn theorem_single_worker_keeps_order(
    commands: Seq<Seq<char>>,
    workers: usize,
    steps: Seq<Step>,
)
    requires
        System::start(commands, workers).admits(steps),
        workers == 1,
    ensures
        ({
            let s = System::start(commands, workers).run(steps);
            &&& s.launches.len() <= commands.len()
            &&& forall|j: int|
                #![trigger s.launches[j]]
                0 <= j < s.launches.len() ==> s.launches[j].position == j
                    && s.launches[j].command == commands[j]
        }),
{
    lemma_run_keeps_inv(commands, workers, steps);
    let s = System::start(commands, workers).run(steps);
    assert forall|j: int| #![trigger s.launches[j]] 0 <= j < s.launches.len() implies s.launches[j].position
        == j && s.launches[j].command == commands[j] by {
        assert(s.launch_fits(j));
    }
}

/// The index a command finds in its environment is that of the worker that
/// runs it.
pub proof fn theorem_injected_index_is_own(
    commands: Seq<Seq<char>>,
    workers: usize,
    steps: Seq<Step>,
)
    requires
        System::start(commands, workers).admits(steps),
    ensures
        ({
            let s = System::start(commands, workers).run(steps);
            forall|j: int|
                #![trigger s.launches[j]]
                0 <= j < s.launches.len() ==> s.launches[j].index == s.launches[j].worker
                    && s.launches[j].worker < workers
        }),
{
    lemma_run_keeps_inv(commands, workers, steps);
    let s = System::start(commands, workers).run(steps);
    assert forall|j: int| #![trigger s.launches[j]] 0 <= j < s.launches.len() implies s.launches[j].index
        == s.launches[j].worker && s.launches[j].worker < workers by {
        assert(s.launch_fits(j));
    }
}

/// A run cannot hang and cannot go on for ever.
///
/// No run has more than three steps per command and three per worker. As
/// long as the loop is not over some step can happen, so a run stops only
/// when the loop is over.
pub proof fn theorem_run_ends(commands: Seq<Seq<char>>, workers: usize, steps: Seq<Step>)
    requires
        System::start(commands, workers).admits(steps),
    ensures
        steps.len() <= 3 * commands.len() + 3 * workers,
        !System::start(commands, workers).run(steps).finished() ==> exists|step: Step|
            #[trigger] System::start(commands, workers).run(steps).enabled(step),
        workers == 0 ==> System::start(commands, workers).run(steps).finished(),
{
    lemma_run_keeps_inv(commands, workers, steps);
    theorem_finished_iff_all_closed(commands, workers, steps);
    let s = System::start(commands, workers).run(steps);
    if !s.finished() {
        let i = choose|i: int| 0 <= i < workers && !((#[trigger] s.links[i]) is Closed);
        match s.links[i] {
            Link::Sent(_) => {
                assert(s.enabled(Step::Dispatch(i as nat)));
            },
            Link::Replied(_) => {
                assert(s.enabled(Step::Receive(i as nat)));
            },
            Link::Running(_) => {
                assert(s.enabled(Step::Complete(i as nat, true)));
            },
            Link::Closed => {},
        }
    }
}

/// Every run can be brought to its end: whatever has happened so far, there
/// are further steps after which the loop is over.
pub proof fn theorem_run_can_finish(commands: Seq<Seq<char>>, workers: usize, steps: Seq<Step>) -> (rest:
    Seq<Step>)
    requires
        System::start(commands, workers).admits(steps),
    ensures
        System::start(commands, workers).admits(steps + rest),
        System::start(commands, workers).run(steps + rest).finished(),
    decreases System::start(commands, workers).run(steps).effort(),
{
    let s = System::start(commands, workers).run(steps);
    if s.finished() {
        assert(steps + Seq::<Step>::empty() =~= steps);
        Seq::empty()
    } else {
        theorem_run_ends(commands, workers, steps);
        let step = choose|step: Step| s.enabled(step);
        let longer = steps.push(step);
        assert(longer.drop_last() =~= steps);
        lemma_run_keeps_inv(commands, workers, steps);
        lemma_step_keeps_inv(s, step, commands, workers);
        let rest = theorem_run_can_finish(commands, workers, longer);
        assert(steps + (seq![step] + rest) =~= longer + rest);
        seq![step] + rest
    }
}

/// The dispatcher serves every signal that reaches it, and every reply goes
/// to the worker that asked: a request of worker `i` is answered to `i` with
/// the next command of the source, and a done report is only counted.
pub proof fn theorem_reply_goes_to_requester(
    commands: Seq<Seq<char>>,
    workers: usize,
    steps: Seq<Step>,
    i: nat,
)
    requires
        System::start(commands, workers).admits(steps),
        System::start(commands, workers).run(steps).enabled(Step::Dispatch(i)),
    ensures
        ({
            let s = System::start(commands, workers).run(steps);
            let signal = s.links[i as int]->Sent_0;
            match s.dispatcher.handle(signal).1 {
                Ok(DispatchView::Reply { worker, command }) => {
                    &&& signal == Signal::RequestNext(i as usize)
                    &&& worker == i
                    &&& command == s.dispatcher.source.peek()
                },
                Ok(_) => signal == Signal::WorkerDone(i as usize),
                Err(_) => false,
            }
        }),
{
    lemma_run_keeps_inv(commands, workers, steps);
    let s = System::start(commands, workers).run(steps);
    assert(s.link_fits(i as int));
}

} // verus!
