use cmdpool::dispatcher::{Dispatch, DispatchError, Dispatcher};
use cmdpool::signal::Signal;
use cmdpool::source::WorkSource;

fn dispatcher(items: &[&str], workers: usize) -> Dispatcher {
    Dispatcher::new(WorkSource::new(items.iter().map(|s| s.to_string()).collect()), workers)
}

fn reply(worker: usize, command: Option<&str>) -> Result<Dispatch, DispatchError> {
    Ok(Dispatch::Reply { worker, command: command.map(|s| s.to_string()) })
}

#[test]
fn new_dispatcher_has_all_workers_active() {
    let d = dispatcher(&["a", "b"], 3);
    assert_eq!(d.workers(), 3);
    assert_eq!(d.active_count(), 3);
    assert_eq!(d.delivered(), 0);
    assert!(!d.is_finished());
}

#[test]
fn request_is_answered_to_the_requester() {
    let mut d = dispatcher(&["a", "b", "c"], 4);
    assert_eq!(d.handle(Signal::RequestNext(2)), reply(2, Some("a")));
    assert_eq!(d.handle(Signal::RequestNext(0)), reply(0, Some("b")));
    assert_eq!(d.handle(Signal::RequestNext(2)), reply(2, Some("c")));
    assert_eq!(d.delivered(), 3);
    assert_eq!(d.active_count(), 4);
}

#[test]
fn exhausted_source_answers_no_more_work() {
    let mut d = dispatcher(&["a"], 2);
    assert_eq!(d.handle(Signal::RequestNext(1)), reply(1, Some("a")));
    assert_eq!(d.handle(Signal::RequestNext(0)), reply(0, None));
    assert_eq!(d.handle(Signal::RequestNext(1)), reply(1, None));
    assert_eq!(d.delivered(), 1);
}

#[test]
fn done_reports_count_down_and_the_last_one_stops() {
    let mut d = dispatcher(&[], 3);
    assert_eq!(d.handle(Signal::WorkerDone(0)), Ok(Dispatch::Continue));
    assert_eq!(d.active_count(), 2);
    assert_eq!(d.handle(Signal::WorkerDone(2)), Ok(Dispatch::Continue));
    assert_eq!(d.active_count(), 1);
    assert!(!d.is_finished());
    assert_eq!(d.handle(Signal::WorkerDone(1)), Ok(Dispatch::Stop));
    assert_eq!(d.active_count(), 0);
    assert!(d.is_finished());
}

#[test]
fn done_report_does_not_touch_the_source() {
    let mut d = dispatcher(&["a", "b"], 2);
    assert_eq!(d.handle(Signal::WorkerDone(0)), Ok(Dispatch::Continue));
    assert_eq!(d.delivered(), 0);
    assert_eq!(d.handle(Signal::RequestNext(1)), reply(1, Some("a")));
    assert_eq!(d.handle(Signal::RequestNext(1)), reply(1, Some("b")));
}

#[test]
fn signal_from_unknown_worker_is_refused() {
    let mut d = dispatcher(&["a"], 2);
    assert_eq!(d.handle(Signal::RequestNext(2)), Err(DispatchError::UnknownWorker(2)));
    assert_eq!(d.handle(Signal::WorkerDone(17)), Err(DispatchError::UnknownWorker(17)));
    assert_eq!(d.delivered(), 0);
    assert_eq!(d.active_count(), 2);
    assert_eq!(d.handle(Signal::RequestNext(1)), reply(1, Some("a")));
}

#[test]
fn finished_dispatcher_only_says_stop() {
    let mut d = dispatcher(&["a", "b"], 1);
    assert_eq!(d.handle(Signal::WorkerDone(0)), Ok(Dispatch::Stop));
    assert_eq!(d.handle(Signal::RequestNext(0)), Ok(Dispatch::Stop));
    assert_eq!(d.handle(Signal::WorkerDone(0)), Ok(Dispatch::Stop));
    assert_eq!(d.handle(Signal::RequestNext(5)), Ok(Dispatch::Stop));
    assert_eq!(d.delivered(), 0);
    assert_eq!(d.active_count(), 0);
}

#[test]
fn zero_workers_finish_at_once_and_consume_nothing() {
    let mut d = dispatcher(&["a", "b", "c"], 0);
    assert!(d.is_finished());
    assert_eq!(d.active_count(), 0);
    assert_eq!(d.handle(Signal::RequestNext(0)), Ok(Dispatch::Stop));
    assert_eq!(d.delivered(), 0);
}
