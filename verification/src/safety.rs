//! What holds in every state that a run can reach, and why each step keeps
//! it so.

use crate::protocol::{Assignment, Link, Step, System};
use crate::signal::Signal;
use crate::worker::WorkerState;
use vstd::prelude::*;

verus! {

/// The three sums that are taken over the links of a run.
pub enum Measure {
    /// One for every closed link.
    Closed,
    /// One for every reply under way that carries a command.
    Assigned,
    /// For every link, the greatest number of steps its worker can still
    /// take without being handed another command.
    Effort,
}

impl Measure {
    /// What one link counts for.
    pub open spec fn weight(self, link: Link) -> nat {
        match self {
            Measure::Closed => if link is Closed {
                1
            } else {
                0
            },
            Measure::Assigned => if link matches Link::Replied(Some(_)) {
                1
            } else {
                0
            },
            Measure::Effort => match link {
                Link::Replied(Some(_)) => 5,
                Link::Running(_) => 4,
                Link::Sent(Signal::RequestNext(_)) => 3,
                Link::Replied(None) => 2,
                Link::Sent(Signal::WorkerDone(_)) => 1,
                Link::Closed => 0,
            },
        }
    }

    /// The sum over all of `links`.
    pub open spec fn total(self, links: Seq<Link>) -> nat
        decreases links.len(),
    {
        if links.len() == 0 {
            0
        } else {
            self.total(links.drop_last()) + self.weight(links.last())
        }
    }
}

/// Replacing one link changes a sum by the difference of the two weights.
pub proof fn lemma_total_update(measure: Measure, links: Seq<Link>, i: int, link: Link)
    requires
        0 <= i < links.len(),
    ensures
        measure.total(links.update(i, link)) + measure.weight(links[i]) == measure.total(links)
            + measure.weight(link),
    decreases links.len(),
{
    let updated = links.update(i, link);
    if i == links.len() - 1 {
        assert(updated.drop_last() =~= links.drop_last());
    } else {
        assert(updated.drop_last() =~= links.drop_last().update(i, link));
        lemma_total_update(measure, links.drop_last(), i, link);
    }
}

/// A sum in which every link counts for at most `bound` is at most `bound`
/// per link, and every link counts for exactly `bound` when the sum is
/// `bound` per link.
pub proof fn lemma_total_bound(measure: Measure, links: Seq<Link>, bound: nat)
    requires
        forall|l: Link| #[trigger] measure.weight(l) <= bound,
    ensures
        measure.total(links) <= bound * links.len(),
        measure.total(links) == bound * links.len() ==> forall|i: int|
            0 <= i < links.len() ==> measure.weight(#[trigger] links[i]) == bound,
    decreases links.len(),
{
    if links.len() > 0 {
        lemma_total_bound(measure, links.drop_last(), bound);
        assert(bound * links.len() == bound * links.drop_last().len() + bound)
            by (nonlinear_arith)
            requires
                links.drop_last().len() == links.len() - 1,
        ;
        if measure.total(links) == bound * links.len() {
            assert forall|i: int| 0 <= i < links.len() implies measure.weight(
                #[trigger] links[i],
            ) == bound by {
                if i < links.len() - 1 {
                    assert(links[i] == links.drop_last()[i]);
                }
            }
        }
    } else {
        assert(bound * links.len() == 0) by (nonlinear_arith)
            requires
                links.len() == 0,
        ;
    }
}

/// A sum over links that all count for the same is that weight per link.
pub proof fn lemma_total_uniform(measure: Measure, links: Seq<Link>, each: nat)
    requires
        forall|i: int| 0 <= i < links.len() ==> measure.weight(#[trigger] links[i]) == each,
    ensures
        measure.total(links) == each * links.len(),
    decreases links.len(),
{
    if links.len() > 0 {
        assert forall|i: int| 0 <= i < links.drop_last().len() implies measure.weight(
            #[trigger] links.drop_last()[i],
        ) == each by {
            assert(links.drop_last()[i] == links[i]);
        }
        lemma_total_uniform(measure, links.drop_last(), each);
        assert(each * links.len() == each * links.drop_last().len() + each) by (nonlinear_arith)
            requires
                links.drop_last().len() == links.len() - 1,
        ;
    } else {
        assert(each * links.len() == 0) by (nonlinear_arith)
            requires
                links.len() == 0,
        ;
    }
}

impl System {
    /// The command at `assignment.position` was handed to worker `i`, and
    /// the assignment carries that command's text.
    pub open spec fn assigned_to(self, i: int, assignment: Assignment) -> bool {
        &&& assignment.position < self.dispatcher.source.position
        &&& assignment.command == self.dispatcher.source.commands[assignment.position as int]
        &&& self.recipients[assignment.position as int] == i
    }

    /// Worker `i` left for a reason: a launch of its failed, or the source
    /// has run dry.
    pub open spec fn may_leave(self, i: int) -> bool {
        self.failed[i] || self.dispatcher.source.exhausted()
    }

    /// Worker `i`, its state and what is under way for it agree.
    pub open spec fn link_fits(self, i: int) -> bool {
        let worker = self.workers[i];
        &&& worker.index == i
        &&& self.failed[i] ==> worker.state == WorkerState::Done
        &&& match self.links[i] {
            Link::Sent(Signal::RequestNext(j)) => j == i && worker.state
                == WorkerState::Requesting,
            Link::Sent(Signal::WorkerDone(j)) => j == i && worker.state == WorkerState::Done
                && self.may_leave(i),
            Link::Replied(Some(assignment)) => worker.state == WorkerState::Requesting
                && self.assigned_to(i, assignment),
            Link::Replied(None) => worker.state == WorkerState::Requesting
                && self.dispatcher.source.exhausted(),
            Link::Running(assignment) => worker.state == WorkerState::Executing
                && self.assigned_to(i, assignment),
            Link::Closed => worker.state == WorkerState::Done && self.may_leave(i),
        }
    }

    /// The reply that hands the command at `position` to its recipient.
    pub open spec fn handover(self, position: int) -> Link {
        Link::Replied(
            Some(
                Assignment {
                    position: position as nat,
                    command: self.dispatcher.source.commands[position],
                },
            ),
        )
    }

    /// Launch `j` is of a command that was handed to the worker that made
    /// it, under that worker's own index, and the reply that handed it over
    /// is no longer under way.
    pub open spec fn launch_fits(self, j: int) -> bool {
        let launch = self.launches[j];
        &&& launch.worker < self.links.len()
        &&& launch.position < self.dispatcher.source.position
        &&& self.recipients[launch.position as int] == launch.worker
        &&& launch.command == self.dispatcher.source.commands[launch.position as int]
        &&& launch.index == launch.worker
        &&& self.links[launch.worker as int] != self.handover(launch.position as int)
    }

    /// The command at `position` has been handed to the executor.
    pub open spec fn launched(self, position: int) -> bool {
        exists|j: int| 0 <= j < self.launches.len() && (#[trigger] self.launches[j]).position == position
    }

    /// The command at `position` has been launched or is under way to the
    /// worker it was handed to.
    pub open spec fn accounted(self, position: int) -> bool {
        self.launched(position) || self.links[self.recipients[position] as int] == self.handover(
            position,
        )
    }

    /// What holds in every state of a run over `commands` with `workers`
    /// workers.
    pub open spec fn inv(self, commands: Seq<Seq<char>>, workers: usize) -> bool {
        &&& self.dispatcher.wf()
        &&& self.dispatcher.source.commands == commands
        &&& self.dispatcher.tracker.workers == workers
        &&& self.workers.len() == workers
        &&& self.links.len() == workers
        &&& self.failed.len() == workers
        &&& self.recipients.len() == self.dispatcher.source.position
        &&& self.dispatcher.tracker.active + Measure::Closed.total(self.links) == workers
        &&& self.launches.len() + Measure::Assigned.total(self.links)
            == self.dispatcher.source.position
        &&& forall|i: int| 0 <= i < workers ==> #[trigger] self.link_fits(i)
        &&& forall|k: int| 0 <= k < self.recipients.len() ==> (#[trigger] self.recipients[k]) < workers
        &&& forall|j: int| 0 <= j < self.launches.len() ==> #[trigger] self.launch_fits(j)
        &&& forall|j: int, k: int|
            0 <= j < k < self.launches.len() ==> (#[trigger] self.launches[j]).position != (
            #[trigger] self.launches[k]).position
        &&& forall|k: int| 0 <= k < self.dispatcher.source.position ==> #[trigger] self.accounted(k)
        &&& workers == 1 ==> forall|j: int|
            0 <= j < self.launches.len() ==> (#[trigger] self.launches[j]).position == j
    }
}

/// The start state of a run satisfies the invariant.
pub proof fn lemma_start_inv(commands: Seq<Seq<char>>, workers: usize)
    ensures
        System::start(commands, workers).inv(commands, workers),
        Measure::Effort.total(System::start(commands, workers).links) == 3 * workers,
{
    let s = System::start(commands, workers);
    assert forall|i: int| 0 <= i < s.links.len() implies Measure::Closed.weight(
        #[trigger] s.links[i],
    ) == 0 by {}
    lemma_total_uniform(Measure::Closed, s.links, 0);
    assert forall|i: int| 0 <= i < s.links.len() implies Measure::Assigned.weight(
        #[trigger] s.links[i],
    ) == 0 by {}
    lemma_total_uniform(Measure::Assigned, s.links, 0);
    assert forall|i: int| 0 <= i < s.links.len() implies Measure::Effort.weight(
        #[trigger] s.links[i],
    ) == 3 by {}
    lemma_total_uniform(Measure::Effort, s.links, 3);
    assert forall|i: int| 0 <= i < workers implies #[trigger] s.link_fits(i) by {}
}

impl System {
    /// An upper bound on the number of steps that the run can still take:
    /// three for every command not yet handed out, and what each worker can
    /// do with what it has.
    pub open spec fn effort(self) -> nat {
        3 * (self.dispatcher.source.commands.len() - self.dispatcher.source.position) as nat
            + Measure::Effort.total(self.links)
    }
}

/// Handling a signal keeps the invariant and uses up effort.
pub proof fn lemma_dispatch_keeps_inv(s: System, i: nat, commands: Seq<Seq<char>>, workers: usize)
    requires
        s.inv(commands, workers),
        s.enabled(Step::Dispatch(i)),
    ensures
        s.dispatch(i).inv(commands, workers),
        s.dispatch(i).effort() < s.effort(),
        s.dispatch(i).launches == s.launches,
{
    let t = s.dispatch(i);
    let signal = s.links[i as int]->Sent_0;
    let position = s.dispatcher.source.position;
    assert(s.link_fits(i as int));
    assert(signal.sender() == i);
    lemma_total_update(Measure::Closed, s.links, i as int, t.links[i as int]);
    lemma_total_update(Measure::Assigned, s.links, i as int, t.links[i as int]);
    lemma_total_update(Measure::Effort, s.links, i as int, t.links[i as int]);
    assert(t.links =~= s.links.update(i as int, t.links[i as int]));
    assert forall|w: int| 0 <= w < workers implies #[trigger] t.link_fits(w) by {
        assert(s.link_fits(w));
    }
    assert forall|j: int| 0 <= j < t.launches.len() implies #[trigger] t.launch_fits(j) by {
        assert(s.launch_fits(j));
    }
    assert forall|k: int| 0 <= k < t.dispatcher.source.position implies #[trigger] t.accounted(
        k,
    ) by {
        if k < position {
            assert(s.accounted(k));
            if s.launched(k) {
                let j = choose|j: int|
                    0 <= j < s.launches.len() && (#[trigger] s.launches[j]).position == k;
                assert(t.launches[j].position == k);
            }
        }
    }
}

/// Taking a reply keeps the invariant and uses up effort. A reply that
/// carries a command leads to exactly one launch, of that command; a reply
/// that carries none leads to no launch.
pub proof fn lemma_receive_keeps_inv(s: System, i: nat, commands: Seq<Seq<char>>, workers: usize)
    requires
        s.inv(commands, workers),
        s.enabled(Step::Receive(i)),
    ensures
        s.receive(i).inv(commands, workers),
        s.receive(i).effort() < s.effort(),
        s.receive(i).dispatcher == s.dispatcher,
        s.receive(i).recipients == s.recipients,
{
    let t = s.receive(i);
    assert(s.link_fits(i as int));
    lemma_total_update(Measure::Closed, s.links, i as int, t.links[i as int]);
    lemma_total_update(Measure::Assigned, s.links, i as int, t.links[i as int]);
    lemma_total_update(Measure::Effort, s.links, i as int, t.links[i as int]);
    assert(t.links =~= s.links.update(i as int, t.links[i as int]));
    assert forall|w: int| 0 <= w < workers implies #[trigger] t.link_fits(w) by {
        assert(s.link_fits(w));
    }
    match s.links[i as int]->Replied_0 {
        Some(assignment) => {
            let fresh = s.launches.len() as int;
            assert(s.links[i as int] == s.handover(assignment.position as int));
            assert forall|j: int| 0 <= j < fresh implies (#[trigger] s.launches[j]).position
                != assignment.position by {
                assert(s.launch_fits(j));
            }
            assert forall|j: int| 0 <= j < t.launches.len() implies #[trigger] t.launch_fits(
                j,
            ) by {
                if j < fresh {
                    assert(s.launch_fits(j));
                }
            }
            assert forall|k: int| 0 <= k < t.dispatcher.source.position implies #[trigger] t.accounted(
                k,
            ) by {
                assert(s.accounted(k));
                if s.launched(k) {
                    let j = choose|j: int|
                        0 <= j < s.launches.len() && (#[trigger] s.launches[j]).position == k;
                    assert(t.launches[j].position == k);
                } else if s.recipients[k] == i {
                    assert(t.launches[fresh].position == k);
                }
            }
            if workers == 1 {
                assert(s.links =~= seq![s.links[0]]);
                assert(s.links.drop_last() =~= Seq::<Link>::empty());
                assert(Measure::Assigned.total(s.links) == 1) by {
                    reveal_with_fuel(Measure::total, 2);
                }
                if assignment.position < fresh {
                    assert(s.launches[assignment.position as int].position
                        == assignment.position);
                }
            }
        },
        None => {
            assert(t.launches == s.launches);
            assert forall|j: int| 0 <= j < t.launches.len() implies #[trigger] t.launch_fits(
                j,
            ) by {
                assert(s.launch_fits(j));
            }
            assert forall|k: int| 0 <= k < t.dispatcher.source.position implies #[trigger] t.accounted(
                k,
            ) by {
                assert(s.accounted(k));
                if s.launched(k) {
                    let j = choose|j: int|
                        0 <= j < s.launches.len() && (#[trigger] s.launches[j]).position == k;
                    assert(t.launches[j].position == k);
                }
            }
        },
    }
}

/// The return of the executor keeps the invariant and uses up effort.
pub proof fn lemma_complete_keeps_inv(
    s: System,
    i: nat,
    launched: bool,
    commands: Seq<Seq<char>>,
    workers: usize,
)
    requires
        s.inv(commands, workers),
        s.enabled(Step::Complete(i, launched)),
    ensures
        s.complete(i, launched).inv(commands, workers),
        s.complete(i, launched).effort() < s.effort(),
        s.complete(i, launched).dispatcher == s.dispatcher,
        s.complete(i, launched).recipients == s.recipients,
        s.complete(i, launched).launches == s.launches,
{
    let t = s.complete(i, launched);
    assert(s.link_fits(i as int));
    lemma_total_update(Measure::Closed, s.links, i as int, t.links[i as int]);
    lemma_total_update(Measure::Assigned, s.links, i as int, t.links[i as int]);
    lemma_total_update(Measure::Effort, s.links, i as int, t.links[i as int]);
    assert(t.links =~= s.links.update(i as int, t.links[i as int]));
    assert forall|w: int| 0 <= w < workers implies #[trigger] t.link_fits(w) by {
        assert(s.link_fits(w));
    }
    assert forall|j: int| 0 <= j < t.launches.len() implies #[trigger] t.launch_fits(j) by {
        assert(s.launch_fits(j));
    }
    assert forall|k: int| 0 <= k < t.dispatcher.source.position implies #[trigger] t.accounted(
        k,
    ) by {
        assert(s.accounted(k));
        if s.launched(k) {
            let j = choose|j: int|
                0 <= j < s.launches.len() && (#[trigger] s.launches[j]).position == k;
            assert(t.launches[j].position == k);
        }
    }
}

/// Every step that can happen keeps the invariant and uses up effort.
pub proof fn lemma_step_keeps_inv(s: System, step: Step, commands: Seq<Seq<char>>, workers: usize)
    requires
        s.inv(commands, workers),
        s.enabled(step),
    ensures
        s.next(step).inv(commands, workers),
        s.next(step).effort() < s.effort(),
{
    match step {
        Step::Dispatch(i) => lemma_dispatch_keeps_inv(s, i, commands, workers),
        Step::Receive(i) => lemma_receive_keeps_inv(s, i, commands, workers),
        Step::Complete(i, launched) => lemma_complete_keeps_inv(s, i, launched, commands, workers),
    }
}

/// Every state of a run satisfies the invariant, and the run is no longer
/// than the effort that the start state allows.
pub proof fn lemma_run_keeps_inv(commands: Seq<Seq<char>>, workers: usize, steps: Seq<Step>)
    requires
        System::start(commands, workers).admits(steps),
    ensures
        System::start(commands, workers).run(steps).inv(commands, workers),
        steps.len() + System::start(commands, workers).run(steps).effort() <= 3 * commands.len()
            + 3 * workers,
    decreases steps.len(),
{
    lemma_start_inv(commands, workers);
    if steps.len() > 0 {
        lemma_run_keeps_inv(commands, workers, steps.drop_last());
        lemma_step_keeps_inv(
            System::start(commands, workers).run(steps.drop_last()),
            steps.last(),
            commands,
            workers,
        );
    }
}

} // verus!
