use safeword::{Action, Cause, Event, Race, Safeword, Shutdown};
use std::io::{Error, ErrorKind};

fn io_error(msg: &str) -> Error {
    Error::new(ErrorKind::Other, msg.to_string())
}

fn racing<T, E>(config: Safeword) -> Race<T, E> {
    let mut race = Race::new(config);
    assert_eq!(race.action(), Action::CreateRuntime);
    race.step(Event::RuntimeReady);
    assert_eq!(race.action(), Action::Race);
    race
}

#[test]
fn new_has_no_signals() {
    assert!(Safeword::new().signals().is_empty());
}

#[test]
fn default_watches_interrupt_and_terminate() {
    let config = Safeword::default();
    assert_eq!(config.signals(), &[2, 15]);
    assert_eq!(
        config.signals(),
        &[tokio_signal::unix::SIGINT, tokio_signal::unix::SIGTERM]
    );
}

#[test]
fn signal_appends_in_order() {
    let config = Safeword::new().signal(10).signal(1).signal(10);
    assert_eq!(config.signals(), &[10, 1, 10]);
    assert_eq!(Safeword::default().signal(1).into_signals(), vec![2, 15, 1]);
}

#[test]
fn watched_drops_duplicates() {
    let race: Race<(), ()> = Race::new(Safeword::new().signal(10).signal(1).signal(10).signal(1));
    assert_eq!(race.watched(), vec![10, 1]);
    let empty: Race<(), ()> = Race::new(Safeword::new());
    assert!(empty.watched().is_empty());
}

#[test]
fn interrupt_stops_a_default_run() {
    let mut race: Race<u32, String> = racing(Safeword::default());
    race.step(Event::SignalReceived(tokio_signal::unix::SIGINT));
    assert_eq!(race.action(), Action::Finish);
    assert!(matches!(race.outcome(), Some(Ok(()))));
}

#[test]
fn workload_success_is_reported() {
    let mut race: Race<u32, String> = racing(Safeword::new());
    race.step(Event::WorkloadFinished(42));
    assert_eq!(race.action(), Action::Finish);
    assert!(matches!(race.outcome(), Some(Err(Shutdown::FutureFinished(42)))));
}

#[test]
fn workload_failure_is_reported() {
    let mut race: Race<u32, String> = racing(Safeword::new());
    race.step(Event::WorkloadFailed("io error".to_string()));
    match race.outcome() {
        Some(Err(Shutdown::FutureErr(e))) => assert_eq!(e, "io error"),
        _ => panic!("expected the workload's error"),
    }
}

#[test]
fn runtime_failure_starts_nothing() {
    let mut race: Race<u32, String> = Race::new(Safeword::default());
    race.step(Event::RuntimeFailed(io_error("no threads")));
    assert_eq!(race.action(), Action::Finish);
    race.step(Event::RuntimeReady);
    race.step(Event::WorkloadFinished(7));
    assert_eq!(race.action(), Action::Finish);
    match race.outcome() {
        Some(Err(Shutdown::NoRuntime(e))) => assert_eq!(e.to_string(), "no threads"),
        _ => panic!("expected a runtime failure"),
    }
}

#[test]
fn watcher_failure_is_reported() {
    let mut race: Race<u32, String> = racing(Safeword::default());
    race.step(Event::WatchFailed(io_error("cannot register")));
    match race.outcome() {
        Some(Err(Shutdown::SignalError(e))) => assert_eq!(e.to_string(), "cannot register"),
        _ => panic!("expected a watcher failure"),
    }
}

#[test]
fn unconfigured_signal_is_ignored() {
    let mut race: Race<u32, String> = racing(Safeword::new().signal(10));
    race.step(Event::SignalReceived(12));
    assert_eq!(race.action(), Action::Race);
    race.step(Event::SignalReceived(10));
    assert!(matches!(race.outcome(), Some(Ok(()))));
}

#[test]
fn no_signals_never_stop_a_run() {
    let mut race: Race<u32, String> = racing(Safeword::new());
    race.step(Event::SignalReceived(2));
    race.step(Event::SignalReceived(15));
    assert_eq!(race.action(), Action::Race);
    assert!(race.outcome().is_none());
}

#[test]
fn duplicates_behave_as_one() {
    let mut twice: Race<u32, String> = racing(Safeword::new().signal(2).signal(2));
    let mut once: Race<u32, String> = racing(Safeword::new().signal(2));
    twice.step(Event::SignalReceived(2));
    once.step(Event::SignalReceived(2));
    assert!(matches!(twice.outcome(), Some(Ok(()))));
    assert!(matches!(once.outcome(), Some(Ok(()))));
}

#[test]
fn first_result_wins() {
    let mut race: Race<u32, String> = racing(Safeword::default());
    race.step(Event::SignalReceived(15));
    race.step(Event::WorkloadFinished(1));
    race.step(Event::WatchFailed(io_error("late")));
    assert!(matches!(race.outcome(), Some(Ok(()))));
}

#[test]
fn events_before_the_runtime_are_ignored() {
    let mut race: Race<u32, String> = Race::new(Safeword::default());
    race.step(Event::SignalReceived(2));
    race.step(Event::WorkloadFinished(3));
    assert_eq!(race.action(), Action::CreateRuntime);
    assert!(race.outcome().is_none());
}

#[test]
fn cause_of_each_shutdown() {
    let finished: Shutdown<u32, String> = Shutdown::FutureFinished(1);
    assert!(finished.cause().is_none());
    let failed: Shutdown<u32, String> = Shutdown::FutureErr("bad".to_string());
    assert!(matches!(failed.cause(), Some(Cause::Workload(e)) if e == "bad"));
    let no_runtime: Shutdown<u32, String> = Shutdown::NoRuntime(io_error("rt"));
    assert!(matches!(no_runtime.cause(), Some(Cause::Io(e)) if e.to_string() == "rt"));
    let watch: Shutdown<u32, String> = Shutdown::SignalError(io_error("sig"));
    assert!(matches!(watch.cause(), Some(Cause::Io(e)) if e.to_string() == "sig"));
}
