use cmdpool::dispatcher::{Dispatch, Dispatcher};
use cmdpool::signal::Signal;
use cmdpool::source::WorkSource;
use cmdpool::worker::{Worker, WorkerAction, WorkerEvent};

/// What a whole run did, as seen from outside.
struct Record {
    /// (worker that launched, command, index handed to the command)
    launches: Vec<(usize, String, usize)>,
    /// (worker that was answered, command in the answer)
    replies: Vec<(usize, Option<String>)>,
    /// workers whose done report was counted, in order
    done: Vec<usize>,
    /// number of steps taken
    steps: usize,
    /// commands left in the source when the loop ended
    left: usize,
}

/// What is under way for one worker.
enum Pending {
    Signal(Signal),
    Reply(Option<String>),
    Running(String),
    Nothing,
}

fn pending_after(action: Option<WorkerAction>, i: usize, record: &mut Record) -> Pending {
    match action {
        Some(WorkerAction::Ask(signal)) => {
            assert_eq!(signal, Signal::RequestNext(i));
            Pending::Signal(signal)
        }
        Some(WorkerAction::Finish(signal)) => {
            assert_eq!(signal, Signal::WorkerDone(i));
            Pending::Signal(signal)
        }
        Some(WorkerAction::Execute { command, index }) => {
            record.launches.push((i, command.clone(), index));
            Pending::Running(command)
        }
        None => panic!("the worker refused an event it was waiting for"),
    }
}

/// Drives one dispatcher and `workers` workers to the end, one step at a
/// time: the dispatcher handles a signal, a worker takes its reply, or the
/// executor comes back to a worker. Among the workers that have something
/// under way, the next to move is picked by `schedule`, cycled; `fails` says
/// which commands cannot be launched.
fn drive(commands: &[&str], workers: usize, schedule: &[usize], fails: &[&str]) -> Record {
    let source = WorkSource::new(commands.iter().map(|s| s.to_string()).collect());
    let mut dispatcher = Dispatcher::new(source, workers);
    let mut record =
        Record { launches: Vec::new(), replies: Vec::new(), done: Vec::new(), steps: 0, left: 0 };
    let mut pool: Vec<Worker> = Vec::new();
    let mut pending: Vec<Pending> = Vec::new();
    for i in 0..workers {
        let (worker, action) = Worker::new(i);
        pool.push(worker);
        pending.push(pending_after(Some(action), i, &mut record));
    }
    let mut turn = 0;
    while !dispatcher.is_finished() {
        let ready: Vec<usize> =
            (0..workers).filter(|i| !matches!(pending[*i], Pending::Nothing)).collect();
        assert!(!ready.is_empty(), "the run hangs");
        let pick = if schedule.is_empty() { 0 } else { schedule[turn % schedule.len()] };
        let i = ready[pick % ready.len()];
        turn += 1;
        record.steps += 1;
        let was = std::mem::replace(&mut pending[i], Pending::Nothing);
        pending[i] = match was {
            Pending::Signal(signal) => match dispatcher.handle(signal).unwrap() {
                Dispatch::Reply { worker, command } => {
                    assert_eq!(signal, Signal::RequestNext(i));
                    assert_eq!(worker, i);
                    record.replies.push((worker, command.clone()));
                    Pending::Reply(command)
                }
                answer => {
                    assert_eq!(signal, Signal::WorkerDone(i));
                    assert!(pool[i].is_done());
                    record.done.push(i);
                    if record.done.len() == workers {
                        assert_eq!(answer, Dispatch::Stop);
                    } else {
                        assert_eq!(answer, Dispatch::Continue);
                    }
                    Pending::Nothing
                }
            },
            Pending::Reply(reply) => {
                let action = pool[i].step(WorkerEvent::Reply(reply));
                pending_after(action, i, &mut record)
            }
            Pending::Running(command) => {
                let event = if fails.contains(&command.as_str()) {
                    WorkerEvent::LaunchFailed
                } else {
                    WorkerEvent::Exited
                };
                let action = pool[i].step(event);
                pending_after(action, i, &mut record)
            }
            Pending::Nothing => unreachable!(),
        };
    }
    assert!(pending.iter().all(|p| matches!(p, Pending::Nothing)));
    assert_eq!(dispatcher.active_count(), 0);
    record.left = commands.len() - dispatcher.delivered();
    record
}

fn launched_commands(record: &Record) -> Vec<String> {
    record.launches.iter().map(|l| l.1.clone()).collect()
}

fn sorted(mut items: Vec<String>) -> Vec<String> {
    items.sort();
    items
}

fn some_replies(record: &Record) -> Vec<String> {
    record.replies.iter().filter_map(|r| r.1.clone()).collect()
}

const SCHEDULES: [&[usize]; 6] =
    [&[0], &[1], &[0, 1], &[2, 0, 1, 1], &[3, 1, 4, 1, 5, 9, 2, 6], &[7, 0, 0, 3, 2]];

#[test]
fn three_commands_two_workers() {
    for schedule in SCHEDULES {
        let record = drive(&["echo a", "echo b", "echo c"], 2, schedule, &[]);
        assert_eq!(
            sorted(launched_commands(&record)),
            vec!["echo a".to_string(), "echo b".to_string(), "echo c".to_string()]
        );
        assert_eq!(record.launches.len(), 3);
        assert_eq!(some_replies(&record).len(), 3);
        assert_eq!(sorted(record.done.clone().iter().map(|i| i.to_string()).collect()), vec!["0", "1"]);
        assert_eq!(record.left, 0);
        for (worker, _, index) in &record.launches {
            assert!(*worker < 2);
            assert_eq!(worker, index);
        }
    }
}

#[test]
fn empty_source_three_workers() {
    for schedule in SCHEDULES {
        let record = drive(&[], 3, schedule, &[]);
        assert!(record.launches.is_empty());
        assert_eq!(record.replies.len(), 3);
        assert!(record.replies.iter().all(|r| r.1.is_none()));
        let mut answered: Vec<usize> = record.replies.iter().map(|r| r.0).collect();
        answered.sort();
        assert_eq!(answered, vec![0, 1, 2]);
        let mut done = record.done.clone();
        done.sort();
        assert_eq!(done, vec![0, 1, 2]);
        assert_eq!(record.steps, 9);
    }
}

#[test]
fn replies_with_a_command_are_one_per_position() {
    let commands = ["c0", "c1", "c2", "c3", "c4", "c5", "c6"];
    for workers in 1..=9 {
        for schedule in SCHEDULES {
            let record = drive(&commands, workers, schedule, &[]);
            let expected: Vec<String> = commands.iter().map(|s| s.to_string()).collect();
            assert_eq!(some_replies(&record), expected);
            assert_eq!(sorted(launched_commands(&record)), expected);
            assert_eq!(record.replies.iter().filter(|r| r.1.is_none()).count(), workers);
            assert_eq!(record.done.len(), workers);
        }
    }
}

#[test]
fn equal_commands_are_each_run() {
    let record = drive(&["same", "same", "same"], 2, &[1, 0, 0], &[]);
    assert_eq!(launched_commands(&record), vec!["same"; 3]);
    assert_eq!(some_replies(&record).len(), 3);
}

#[test]
fn single_worker_runs_in_source_order() {
    let commands = ["first", "second", "third", "fourth"];
    for schedule in SCHEDULES {
        let record = drive(&commands, 1, schedule, &[]);
        assert_eq!(launched_commands(&record), commands);
        assert!(record.launches.iter().all(|l| l.0 == 0 && l.2 == 0));
        assert_eq!(record.done, vec![0]);
    }
}

#[test]
fn failed_launch_stops_one_worker_only() {
    let commands = ["ok1", "bad", "ok2", "ok3", "ok4"];
    for schedule in SCHEDULES {
        let record = drive(&commands, 3, schedule, &["bad"]);
        let expected: Vec<String> = sorted(commands.iter().map(|s| s.to_string()).collect());
        assert_eq!(sorted(launched_commands(&record)), expected);
        assert_eq!(record.left, 0);
        let culprit = record.launches.iter().find(|l| l.1 == "bad").unwrap().0;
        let after: Vec<&(usize, String, usize)> = record
            .launches
            .iter()
            .skip_while(|l| l.1 != "bad")
            .skip(1)
            .collect();
        assert!(after.iter().all(|l| l.0 != culprit));
        assert_eq!(record.done.len(), 3);
        assert_eq!(record.done.iter().filter(|i| **i == culprit).count(), 1);
    }
}

#[test]
fn failed_command_is_not_retried() {
    let record = drive(&["bad", "ok"], 2, &[0, 1], &["bad"]);
    assert_eq!(launched_commands(&record).iter().filter(|c| *c == "bad").count(), 1);
    assert_eq!(launched_commands(&record).iter().filter(|c| *c == "ok").count(), 1);
}

#[test]
fn commands_stay_behind_only_when_every_worker_failed() {
    let record = drive(&["bad", "bad", "never", "never"], 2, &[0, 1], &["bad"]);
    assert_eq!(launched_commands(&record), vec!["bad", "bad"]);
    assert_eq!(record.left, 2);
    assert_eq!(record.done.len(), 2);

    let record = drive(&["bad", "next"], 1, &[0], &["bad"]);
    assert_eq!(launched_commands(&record), vec!["bad"]);
    assert_eq!(some_replies(&record).len(), 1);
    assert_eq!(record.left, 1);
}

#[test]
fn injected_index_is_the_running_workers_own() {
    let commands = ["a", "b", "c", "d", "e", "f", "g", "h"];
    for workers in 1..=5 {
        for schedule in SCHEDULES {
            let record = drive(&commands, workers, schedule, &["d"]);
            for (worker, command, index) in &record.launches {
                assert_eq!(worker, index, "command {}", command);
                assert!(*index < workers);
            }
            for (worker, command) in &record.replies {
                if let Some(command) = command {
                    let launch = record.launches.iter().find(|l| &l.1 == command).unwrap();
                    assert_eq!(launch.0, *worker);
                }
            }
        }
    }
}

#[test]
fn run_ends_within_three_steps_per_command_and_worker() {
    let commands = ["a", "b", "c", "d", "e"];
    for workers in 0..=6 {
        for schedule in SCHEDULES {
            let record = drive(&commands, workers, schedule, &["b", "e"]);
            assert!(record.steps <= 3 * commands.len() + 3 * workers);
            assert_eq!(record.done.len(), workers);
        }
    }
    let record = drive(&commands, 2, &[0, 1], &[]);
    assert_eq!(record.steps, 3 * 5 + 3 * 2);
}

#[test]
fn no_workers_no_work() {
    let record = drive(&["a", "b"], 0, &[], &[]);
    assert_eq!(record.steps, 0);
    assert!(record.launches.is_empty());
    assert!(record.replies.is_empty());
    assert_eq!(record.left, 2);
}

#[test]
fn more_workers_than_commands() {
    let record = drive(&["only"], 4, &[0, 1, 2, 3], &[]);
    assert_eq!(launched_commands(&record), vec!["only"]);
    assert_eq!(record.replies.iter().filter(|r| r.1.is_none()).count(), 4);
    assert_eq!(record.done.len(), 4);
}
