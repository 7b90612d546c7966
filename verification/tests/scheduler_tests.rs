use rust_ingestion::observation::{FetchError, Observation, Source};
use rust_ingestion::scheduler::{
    FetchOutcome, SchedulerEvent, SchedulerPhase, SourceScheduler,
};

#[test]
fn tick_starts_exactly_one_fetch_when_idle() {
    let mut s = SourceScheduler::new(Source::ChainHeight, 600_000);
    let a = s.step(SchedulerEvent::Tick);
    assert!(a.start_fetch);
    assert_eq!(a.ingest, None);
    assert!(!a.stop);
    assert_eq!(s.phase, SchedulerPhase::Fetching);
}

#[test]
fn tick_is_skipped_while_a_fetch_is_outstanding() {
    let mut s = SourceScheduler::new(Source::ChainHeight, 600_000);
    assert!(s.step(SchedulerEvent::Tick).start_fetch);
    // the next tick fires before the fetch completed: skipped
    let skipped = s.step(SchedulerEvent::Tick);
    assert!(!skipped.start_fetch);
    assert_eq!(skipped.ingest, None);
    // once the fetch completes, the following tick fetches again
    s.step(SchedulerEvent::FetchCompleted(FetchOutcome::Fetched(10), 1));
    assert!(s.step(SchedulerEvent::Tick).start_fetch);
}

#[test]
fn success_ingests_the_observation_exactly_once() {
    let mut s = SourceScheduler::new(Source::PriceIndex, 60_000);
    s.step(SchedulerEvent::Tick);
    let a = s.step(SchedulerEvent::FetchCompleted(FetchOutcome::Fetched(6500050), 42));
    assert_eq!(
        a.ingest,
        Some(Observation::new(Source::PriceIndex, 6500050, 42))
    );
    assert!(!a.start_fetch);
    assert!(!a.stop);
    assert_eq!(s.phase, SchedulerPhase::Cooldown);
}

#[test]
fn failure_ingests_nothing_and_next_tick_proceeds_normally() {
    let mut s = SourceScheduler::new(Source::ChainHeight, 600_000);
    s.step(SchedulerEvent::Tick);
    let a = s.step(SchedulerEvent::FetchCompleted(
        FetchOutcome::Failed(FetchError::DecodeError),
        5,
    ));
    assert_eq!(a.ingest, None);
    assert!(!a.stop);
    // the interval is unchanged and the next tick fetches again
    assert_eq!(s.interval_ms, 600_000);
    assert!(s.step(SchedulerEvent::Tick).start_fetch);
}

#[test]
fn network_failure_is_terminal_for_that_tick_only() {
    let mut s = SourceScheduler::new(Source::PriceIndex, 60_000);
    s.step(SchedulerEvent::Tick);
    let a = s.step(SchedulerEvent::FetchCompleted(
        FetchOutcome::Failed(FetchError::NetworkError),
        5,
    ));
    assert_eq!(a.ingest, None);
    assert!(s.step(SchedulerEvent::Tick).start_fetch);
}

#[test]
fn shutdown_while_idle_stops_at_once() {
    let mut s = SourceScheduler::new(Source::ChainHeight, 600_000);
    let a = s.step(SchedulerEvent::Shutdown);
    assert!(a.stop);
    assert_eq!(s.phase, SchedulerPhase::Stopped);
    // a stray tick after shutdown starts nothing
    assert!(!s.step(SchedulerEvent::Tick).start_fetch);
}

#[test]
fn shutdown_mid_fetch_waits_for_the_fetch_to_complete() {
    let mut s = SourceScheduler::new(Source::ChainHeight, 600_000);
    s.step(SchedulerEvent::Tick);
    let a = s.step(SchedulerEvent::Shutdown);
    assert!(!a.stop);
    assert_eq!(s.phase, SchedulerPhase::Draining);
    let b = s.step(SchedulerEvent::FetchCompleted(FetchOutcome::Fetched(7), 3));
    assert_eq!(b.ingest, Some(Observation::new(Source::ChainHeight, 7, 3)));
    assert!(b.stop);
    assert_eq!(s.phase, SchedulerPhase::Stopped);
}
