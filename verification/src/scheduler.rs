//! The source scheduler: one per feed, driven by its own fixed interval,
//! never talking to the other. Each tick starts at most one fetch; a tick
//! arriving while a fetch is still outstanding is skipped, and the interval
//! is never shortened or lengthened, also right after a failure. A shutdown
//! request stops the scheduler once its current fetch, if any, completes.
use vstd::prelude::*;
use crate::hub::{after_publish, Hub};
use crate::frame::frame_text;
use crate::observation::{FetchError, Observation, Source};

verus! {

#[derive(Clone, Copy, PartialEq, Eq, Structural, Debug)]
pub enum SchedulerPhase {
    /// Waiting for the first tick.
    Idle,
    /// A fetch is outstanding.
    Fetching,
    /// The last attempt finished; waiting out the configured interval.
    Cooldown,
    /// Shutdown was requested mid-fetch; stop when the fetch completes.
    Draining,
    /// Shut down; no further fetch is ever started.
    Stopped,
}

/// How one fetch attempt ended.
#[derive(Clone, Copy, PartialEq, Eq, Structural, Debug)]
pub enum FetchOutcome {
    Fetched(u64),
    Failed(FetchError),
}

/// What the runtime reports to the scheduler.
#[derive(Clone, Copy, PartialEq, Eq, Structural, Debug)]
pub enum SchedulerEvent {
    /// The source's interval timer fired.
    Tick,
    /// The outstanding fetch finished, with its outcome and the time of
    /// completion (the observation's timestamp on success).
    FetchCompleted(FetchOutcome, u64),
    /// External shutdown was requested.
    Shutdown,
}

/// What the runtime must do next: start one fetch, hand one observation to
/// the sinks, stop the loop — or nothing.
#[derive(Clone, Copy, PartialEq, Eq, Debug)]
pub struct SchedulerAction {
    pub start_fetch: bool,
    pub ingest: Option<Observation>,
    pub stop: bool,
}

pub open spec fn no_action() -> SchedulerAction {
    SchedulerAction { start_fetch: false, ingest: None, stop: false }
}

/// One source's scheduler. `interval_ms` is the configured polling interval;
/// the scheduler never changes it.
#[derive(Clone, Copy, PartialEq, Eq, Structural, Debug)]
pub struct SourceScheduler {
    pub source: Source,
    pub interval_ms: u64,
    pub phase: SchedulerPhase,
}

impl SourceScheduler {
    /// Whether a fetch is outstanding, so that a tick must be skipped.
    pub open spec fn outstanding(self) -> bool {
        self.phase == SchedulerPhase::Fetching || self.phase == SchedulerPhase::Draining
    }

    /// A fresh scheduler, idle until its first tick.
    pub fn new(source: Source, interval_ms: u64) -> (r: SourceScheduler)
        requires
            1 <= interval_ms,
        ensures
            r == (SourceScheduler { source, interval_ms, phase: SchedulerPhase::Idle }),
    {
        SourceScheduler { source, interval_ms, phase: SchedulerPhase::Idle }
    }

    /// Feeds one event to the scheduler; the new state and the action are
    /// exactly those of `spec_step`.
    pub fn step(&mut self, event: SchedulerEvent) -> (action: SchedulerAction)
        ensures
            *final(self) == spec_step(*old(self), event).0,
            action == spec_step(*old(self), event).1,
    {
        match event {
            SchedulerEvent::Tick => {
                if matches!(self.phase, SchedulerPhase::Stopped) {
                    SchedulerAction { start_fetch: false, ingest: None, stop: false }
                } else if matches!(self.phase, SchedulerPhase::Fetching)
                    || matches!(self.phase, SchedulerPhase::Draining) {
                    SchedulerAction { start_fetch: false, ingest: None, stop: false }
                } else {
                    self.phase = SchedulerPhase::Fetching;
                    SchedulerAction { start_fetch: true, ingest: None, stop: false }
                }
            },
            SchedulerEvent::FetchCompleted(outcome, at) => {
                if matches!(self.phase, SchedulerPhase::Fetching) {
                    self.phase = SchedulerPhase::Cooldown;
                    match outcome {
                        FetchOutcome::Fetched(v) => SchedulerAction {
                            start_fetch: false,
                            ingest: Some(
                                Observation { source: self.source, value: v, observed_at: at },
                            ),
                            stop: false,
                        },
                        FetchOutcome::Failed(_) => SchedulerAction {
                            start_fetch: false,
                            ingest: None,
                            stop: false,
                        },
                    }
                } else if matches!(self.phase, SchedulerPhase::Draining) {
                    self.phase = SchedulerPhase::Stopped;
                    match outcome {
                        FetchOutcome::Fetched(v) => SchedulerAction {
                            start_fetch: false,
                            ingest: Some(
                                Observation { source: self.source, value: v, observed_at: at },
                            ),
                            stop: true,
                        },
                        FetchOutcome::Failed(_) => SchedulerAction {
                            start_fetch: false,
                            ingest: None,
                            stop: true,
                        },
                    }
                } else {
                    SchedulerAction { start_fetch: false, ingest: None, stop: false }
                }
            },
            SchedulerEvent::Shutdown => {
                if matches!(self.phase, SchedulerPhase::Fetching) {
                    self.phase = SchedulerPhase::Draining;
                    SchedulerAction { start_fetch: false, ingest: None, stop: false }
                } else if matches!(self.phase, SchedulerPhase::Draining) || matches!(
                    self.phase,
                    SchedulerPhase::Stopped,
                ) {
                    SchedulerAction { start_fetch: false, ingest: None, stop: false }
                } else {
                    self.phase = SchedulerPhase::Stopped;
                    SchedulerAction { start_fetch: false, ingest: None, stop: true }
                }
            },
        }
    }
}

/// The whole state machine in one place: the scheduler's next state and the
/// action it demands, for every state and event.
pub open spec fn spec_step(s: SourceScheduler, e: SchedulerEvent) -> (SourceScheduler,
    SchedulerAction,
) {
    match e {
        SchedulerEvent::Tick => {
            if s.phase == SchedulerPhase::Stopped {
                (s, no_action())
            } else if s.outstanding() {
                // the previous attempt has not completed: skip this tick
                (s, no_action())
            } else {
                (
                    SourceScheduler { phase: SchedulerPhase::Fetching, ..s },
                    SchedulerAction { start_fetch: true, ingest: None, stop: false },
                )
            }
        },
        SchedulerEvent::FetchCompleted(outcome, at) => {
            if !s.outstanding() {
                (s, no_action())
            } else {
                let stopping = s.phase == SchedulerPhase::Draining;
                let next = SourceScheduler {
                    phase: if stopping {
                        SchedulerPhase::Stopped
                    } else {
                        SchedulerPhase::Cooldown
                    },
                    ..s
                };
                match outcome {
                    FetchOutcome::Fetched(v) => (
                        next,
                        SchedulerAction {
                            start_fetch: false,
                            ingest: Some(
                                Observation { source: s.source, value: v, observed_at: at },
                            ),
                            stop: stopping,
                        },
                    ),
                    FetchOutcome::Failed(_) => (
                        next,
                        SchedulerAction { start_fetch: false, ingest: None, stop: stopping },
                    ),
                }
            }
        },
        SchedulerEvent::Shutdown => {
            if s.phase == SchedulerPhase::Fetching {
                (SourceScheduler { phase: SchedulerPhase::Draining, ..s }, no_action())
            } else if s.phase == SchedulerPhase::Draining || s.phase == SchedulerPhase::Stopped {
                (s, no_action())
            } else {
                (
                    SourceScheduler { phase: SchedulerPhase::Stopped, ..s },
                    SchedulerAction { start_fetch: false, ingest: None, stop: true },
                )
            }
        },
    }
}

/// How many of the events start a fetch.
pub open spec fn num_fetch_starts(s: SourceScheduler, events: Seq<SchedulerEvent>) -> nat
    decreases events.len(),
{
    if events.len() == 0 {
        0
    } else {
        (if spec_step(s, events[0]).1.start_fetch {
            1nat
        } else {
            0nat
        }) + num_fetch_starts(spec_step(s, events[0]).0, events.drop_first())
    }
}

/// How many ticks arrive while a fetch is outstanding (and are skipped).
pub open spec fn num_skipped_ticks(s: SourceScheduler, events: Seq<SchedulerEvent>) -> nat
    decreases events.len(),
{
    if events.len() == 0 {
        0
    } else {
        (if events[0] == SchedulerEvent::Tick && s.outstanding() {
            1nat
        } else {
            0nat
        }) + num_skipped_ticks(spec_step(s, events[0]).0, events.drop_first())
    }
}

/// How many ticks arrive after the scheduler has stopped.
pub open spec fn num_stopped_ticks(s: SourceScheduler, events: Seq<SchedulerEvent>) -> nat
    decreases events.len(),
{
    if events.len() == 0 {
        0
    } else {
        (if events[0] == SchedulerEvent::Tick && s.phase == SchedulerPhase::Stopped {
            1nat
        } else {
            0nat
        }) + num_stopped_ticks(spec_step(s, events[0]).0, events.drop_first())
    }
}

/// How many of the events are ticks.
pub open spec fn num_ticks(events: Seq<SchedulerEvent>) -> nat
    decreases events.len(),
{
    if events.len() == 0 {
        0
    } else {
        (if events[0] == SchedulerEvent::Tick {
            1nat
        } else {
            0nat
        }) + num_ticks(events.drop_first())
    }
}

/// The observations handed to the sinks, in order, over a sequence of events.
pub open spec fn ingested(s: SourceScheduler, events: Seq<SchedulerEvent>) -> Seq<Observation>
    decreases events.len(),
{
    if events.len() == 0 {
        Seq::empty()
    } else {
        (match spec_step(s, events[0]).1.ingest {
            Some(obs) => seq![obs],
            None => Seq::empty(),
        }) + ingested(spec_step(s, events[0]).0, events.drop_first())
    }
}

/// The observations successfully fetched, in order: one per
/// `FetchCompleted` event that ends an outstanding fetch with a value.
pub open spec fn successful_fetches(s: SourceScheduler, events: Seq<SchedulerEvent>) -> Seq<
    Observation,
>
    decreases events.len(),
{
    if events.len() == 0 {
        Seq::empty()
    } else {
        (match events[0] {
            SchedulerEvent::FetchCompleted(FetchOutcome::Fetched(v), at) => if s.outstanding() {
                seq![Observation { source: s.source, value: v, observed_at: at }]
            } else {
                Seq::empty()
            },
            _ => Seq::empty(),
        }) + successful_fetches(spec_step(s, events[0]).0, events.drop_first())
    }
}

/// One fetch attempt per tick: an event starts a fetch exactly when it is a
/// tick that arrives with no fetch outstanding and the scheduler not
/// stopped — never two, never on another event — and no event ever changes
/// the configured interval.
pub proof fn lemma_tick_starts_one_fetch(s: SourceScheduler, e: SchedulerEvent)
    ensures
        spec_step(s, e).1.start_fetch <==> (e == SchedulerEvent::Tick && !s.outstanding()
            && s.phase != SchedulerPhase::Stopped),
        spec_step(s, e).0.interval_ms == s.interval_ms,
        spec_step(s, e).0.source == s.source,
{
}

/// Over any sequence of events, every tick is accounted for exactly once:
/// it started a fetch, was skipped because a fetch was outstanding, or
/// arrived after shutdown.
pub proof fn lemma_fetch_accounting(s: SourceScheduler, events: Seq<SchedulerEvent>)
    ensures
        num_fetch_starts(s, events) + num_skipped_ticks(s, events) + num_stopped_ticks(s, events)
            == num_ticks(events),
    decreases events.len(),
{
    if events.len() > 0 {
        lemma_fetch_accounting(spec_step(s, events[0]).0, events.drop_first());
        lemma_tick_starts_one_fetch(s, events[0]);
    }
}

/// For every sequence of fetch outcomes, in any order and mixed with any
/// ticks: the observations handed to the sinks are exactly the successful
/// fetches, in order — each persisted-and-published exactly once, none
/// dropped, none repeated.
pub proof fn lemma_ingest_exactly_successes(s: SourceScheduler, events: Seq<SchedulerEvent>)
    ensures
        ingested(s, events) == successful_fetches(s, events),
    decreases events.len(),
{
    if events.len() > 0 {
        lemma_ingest_exactly_successes(spec_step(s, events[0]).0, events.drop_first());
        assert(ingested(s, events) =~= successful_fetches(s, events));
    }
}

/// Fans one observation out to both sinks: the hub receives it for every
/// open subscriber, and exactly one persistence request — the observation
/// itself — is handed back, whatever the state of the hub. Neither sink is
/// gated on the other: the request is produced even if no subscriber is
/// connected, and the hub is updated before any store append is attempted.
pub fn fan_out(hub: &mut Hub, obs: &Observation) -> (persist: Observation)
    requires
        old(hub).wf(),
    ensures
        persist == *obs,
        final(hub).wf(),
        final(hub).capacity == old(hub).capacity,
        final(hub).next_id == old(hub).next_id,
        final(hub).subs() == old(hub).subs().map_values(
            |m: crate::hub::SubscriberModel| after_publish(
                m,
                frame_text(*obs),
                old(hub).capacity as nat,
            ),
        ),
{
    hub.publish(obs);
    *obs
}

} // verus!
