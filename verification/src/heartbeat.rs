//! Pings that find out whether the other end of the tunnel is still there.

use std::time::Duration;
use vstd::prelude::*;

verus! {

/// Seconds between pings unless configured otherwise.
pub const DEFAULT_HEARTBEAT_INTERVAL_SECS: u64 = 30;

/// Consecutive pings that may go unanswered unless configured otherwise.
pub const DEFAULT_HEARTBEAT_MAX_MISSED: u32 = 3;

/// The length of a duration in nanoseconds, what `Duration::as_nanos` returns.
pub uninterp spec fn nanos_of(duration: Duration) -> nat;

/// `Duration::from_secs` makes a duration of whole seconds.
pub assume_specification[ Duration::from_secs ](secs: u64) -> (duration: Duration)
    ensures
        nanos_of(duration) == secs * 1_000_000_000,
;

/// `Duration::is_zero` tells whether a duration spans no time.
pub assume_specification[ Duration::is_zero ](duration: &Duration) -> (zero: bool)
    ensures
        zero <==> nanos_of(*duration) == 0,
;

/// How often to ping, and how many pings may go unanswered.
#[derive(Clone, Copy, Debug)]
pub struct HeartbeatConfig {
    /// The time between pings; none stands for no pings.
    pub interval: Duration,
    pub max_missed: u32,
}

impl Default for HeartbeatConfig {
    fn default() -> (config: HeartbeatConfig)
        ensures
            nanos_of(config.interval) == DEFAULT_HEARTBEAT_INTERVAL_SECS * 1_000_000_000,
            config.max_missed == DEFAULT_HEARTBEAT_MAX_MISSED,
            nanos_of(config.interval) == 30_000_000_000,
            config.max_missed == 3,
    {
        HeartbeatConfig {
            interval: Duration::from_secs(DEFAULT_HEARTBEAT_INTERVAL_SECS),
            max_missed: DEFAULT_HEARTBEAT_MAX_MISSED,
        }
    }
}

/// What to do when the interval has passed.
#[derive(Debug, Clone, Copy, PartialEq, Eq, Structural)]
pub enum HeartbeatAction {
    /// Send a ping.
    Ping,
    /// Leave the tunnel: the other end does not answer.
    Close,
}

/// The pings of one tunnel.
#[derive(Debug)]
pub struct Heartbeat {
    pub config: HeartbeatConfig,
    /// Pings since the last pong.
    pub missed: u32,
}

/// The action when the interval has passed after `missed` unanswered pings.
pub open spec fn tick_action(max_missed: u32, missed: u32) -> HeartbeatAction {
    if missed + 1 > max_missed {
        HeartbeatAction::Close
    } else {
        HeartbeatAction::Ping
    }
}

impl Heartbeat {
    /// No ping has been sent yet.
    pub fn new(config: HeartbeatConfig) -> (heartbeat: Heartbeat)
        ensures
            heartbeat.config == config,
            heartbeat.missed == 0,
    {
        Heartbeat { config, missed: 0 }
    }

    /// Whether there are pings at all.
    pub fn enabled(&self) -> (enabled: bool)
        ensures
            enabled <==> nanos_of(self.config.interval) != 0,
    {
        !self.config.interval.is_zero()
    }

    /// The interval has passed.
    pub fn on_tick(&mut self) -> (action: HeartbeatAction)
        requires
            old(self).missed < u32::MAX,
        ensures
            *final(self) == (Heartbeat { missed: (old(self).missed + 1) as u32, ..*old(self) }),
            action == tick_action(old(self).config.max_missed, old(self).missed),
            action is Close <==> old(self).missed >= old(self).config.max_missed,
    {
        self.missed = self.missed + 1;
        if self.missed > self.config.max_missed {
            HeartbeatAction::Close
        } else {
            HeartbeatAction::Ping
        }
    }

    /// The other end has answered.
    pub fn on_pong(&mut self)
        ensures
            *final(self) == (Heartbeat { missed: 0, ..*old(self) }),
    {
        self.missed = 0;
    }
}

/// A tick closes the tunnel if and only if as many pings as may go unanswered have done so before.
pub proof fn law_tick_closes_at_the_limit(max_missed: u32, missed: u32)
    ensures
        tick_action(max_missed, missed) is Close <==> missed >= max_missed,
        tick_action(max_missed, missed) is Ping <==> missed < max_missed,
{
}

/// What happens to a heartbeat: the interval passes, or the other end answers.
pub enum HeartbeatEvent {
    Tick,
    Pong,
}

/// The unanswered pings after a sequence of events.
pub open spec fn missed_after(events: Seq<HeartbeatEvent>) -> nat
    decreases events.len(),
{
    if events.len() == 0 {
        0
    } else {
        match events.last() {
            HeartbeatEvent::Tick => missed_after(events.drop_last()) + 1,
            HeartbeatEvent::Pong => 0,
        }
    }
}

/// A tick after `events` closes the tunnel if and only if `max_missed` ticks in a row, right before
/// it, went without a pong.
pub proof fn law_close_after_max_missed(events: Seq<HeartbeatEvent>, max_missed: u32)
    requires
        missed_after(events) < u32::MAX,
    ensures
        tick_action(max_missed, missed_after(events) as u32) == HeartbeatAction::Close <==> (
        events.len() >= max_missed && forall|i: int|
            events.len() - max_missed <= i < events.len() ==> #[trigger] events[i]
                == HeartbeatEvent::Tick),
{
    lemma_missed_is_trailing_ticks(events);
    let n = missed_after(events);
    if n >= max_missed {
        assert forall|i: int| events.len() - max_missed <= i < events.len() implies
            #[trigger] events[i] == HeartbeatEvent::Tick by {}
    } else if events.len() >= max_missed {
        assert(events[events.len() - n - 1] == HeartbeatEvent::Pong);
    }
}

proof fn lemma_missed_is_trailing_ticks(events: Seq<HeartbeatEvent>)
    ensures
        missed_after(events) <= events.len(),
        forall|i: int|
            events.len() - missed_after(events) <= i < events.len() ==> #[trigger] events[i]
                == HeartbeatEvent::Tick,
        missed_after(events) < events.len() ==> events[events.len() - missed_after(events) - 1]
            == HeartbeatEvent::Pong,
    decreases events.len(),
{
    if events.len() > 0 {
        let front = events.drop_last();
        lemma_missed_is_trailing_ticks(front);
        assert forall|i: int|
            events.len() - missed_after(events) <= i < events.len() implies #[trigger] events[i]
            == HeartbeatEvent::Tick by {
            if i < front.len() {
                assert(front[i] == HeartbeatEvent::Tick);
            }
        }
        if events.last() is Tick && missed_after(events) < events.len() {
            assert(front[front.len() - missed_after(front) - 1] == HeartbeatEvent::Pong);
        }
    }
}

} // verus!
