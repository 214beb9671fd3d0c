//! Types of the game automation: states, timed events and commands.
use crate::clock::{elapsed_millis, elapsed_spec, now_millis};
use crate::text::{from_chars, to_chars};
use vstd::prelude::*;

verus! {

/// The shortest interval, in seconds, that a timed tap may have.
pub const MIN_TAP_INTERVAL_SECONDS: u64 = 5;

/// The longest interval, in seconds, that a timed tap may have (six hours).
pub const MAX_TAP_INTERVAL_SECONDS: u64 = 6 * 60 * 60;

#[derive(Debug, Clone, Copy, PartialEq, Eq, Structural)]
pub enum GameState {
    Idle,
    Running,
    Paused,
}

#[derive(Debug, Clone, Copy, PartialEq, Eq, Structural)]
pub enum TimedEventType {
    Screenshot,
    Tap { x: u32, y: u32 },
    CountdownUpdate,
}

/// An action that repeats at an interval. Durations are in milliseconds;
/// `last_executed` is a reading of the library clock in milliseconds.
#[derive(Debug)]
pub struct TimedEvent {
    pub id: String,
    pub event_type: TimedEventType,
    pub interval: u128,
    pub last_executed: Option<u64>,
    pub enabled: bool,
    pub repeating: bool,
    /// How many times this event has run.
    pub execution_count: u64,
}

impl Clone for TimedEvent {
    fn clone(&self) -> (r: Self)
        ensures
            r == *self,
    {
        TimedEvent {
            id: self.id.clone(),
            event_type: self.event_type,
            interval: self.interval,
            last_executed: self.last_executed,
            enabled: self.enabled,
            repeating: self.repeating,
            execution_count: self.execution_count,
        }
    }
}

/// Two events are equal when all but their last execution time agree.
impl PartialEq for TimedEvent {
    fn eq(&self, other: &Self) -> (r: bool) {
        self.id == other.id && self.event_type == other.event_type && self.interval
            == other.interval && self.enabled == other.enabled && self.repeating == other.repeating
            && self.execution_count == other.execution_count
    }
}

impl vstd::std_specs::cmp::PartialEqSpecImpl for TimedEvent {
    open spec fn obeys_eq_spec() -> bool {
        true
    }

    open spec fn eq_spec(&self, other: &TimedEvent) -> bool {
        self.id@ == other.id@ && self.event_type == other.event_type && self.interval
            == other.interval && self.enabled == other.enabled && self.repeating == other.repeating
            && self.execution_count == other.execution_count
    }
}

/// Milliseconds in `secs` seconds.
pub open spec fn secs_ms(secs: int) -> int {
    secs * 1000
}

/// A fresh, enabled, repeating event that has never run.
pub open spec fn fresh_event(e: TimedEvent, id: Seq<char>, t: TimedEventType, interval: int) -> bool {
    &&& e.id@ == id
    &&& e.event_type == t
    &&& e.interval == interval
    &&& e.last_executed is None
    &&& e.enabled
    &&& e.repeating
    &&& e.execution_count == 0
}

impl TimedEvent {
    /// Whether the event is due at clock time `now`: it is enabled, and it
    /// never ran or its interval has passed since it last ran.
    pub open spec fn ready_at(&self, now: u64) -> bool {
        self.enabled && match self.last_executed {
            None => true,
            Some(t) => elapsed_spec(t, now) >= self.interval,
        }
    }

    /// Milliseconds until the event is due at `now`; `None` while disabled.
    pub open spec fn until_next_at(&self, now: u64) -> Option<u128> {
        if !self.enabled {
            None
        } else {
            match self.last_executed {
                None => Some(0),
                Some(t) => if elapsed_spec(t, now) >= self.interval {
                    Some(0)
                } else {
                    Some((self.interval - elapsed_spec(t, now)) as u128)
                },
            }
        }
    }

    /// When the event is next due, seen at `now`; `None` while disabled.
    pub open spec fn next_execution_at(&self, now: u64) -> Option<u128> {
        if !self.enabled {
            None
        } else {
            match self.last_executed {
                None => Some(now as u128),
                Some(t) => Some((t + self.interval) as u128),
            }
        }
    }

    pub fn new(id: String, event_type: TimedEventType, interval: u128) -> (r: Self)
        ensures
            fresh_event(r, id@, event_type, interval as int),
    {
        Self {
            id,
            event_type,
            interval,
            last_executed: None,
            enabled: true,
            repeating: true,
            execution_count: 0,
        }
    }

    /// A screenshot every `interval_seconds` seconds.
    pub fn new_screenshot(interval_seconds: u64) -> (r: Self)
        ensures
            fresh_event(r, "screenshot"@, TimedEventType::Screenshot, secs_ms(
                interval_seconds as int,
            )),
    {
        Self::new_screenshot_custom(interval_seconds as u128 * 1000)
    }

    pub fn new_screenshot_minutes(interval_minutes: u64) -> (r: Self)
        requires
            interval_minutes * 60 <= u64::MAX,
        ensures
            fresh_event(r, "screenshot"@, TimedEventType::Screenshot, secs_ms(
                interval_minutes * 60,
            )),
    {
        Self::new_screenshot(interval_minutes * 60)
    }

    /// A tap at `(x, y)` every `interval` milliseconds.
    pub fn new_tap(id: String, x: u32, y: u32, interval: u128) -> (r: Self)
        ensures
            fresh_event(r, id@, TimedEventType::Tap { x, y }, interval as int),
    {
        Self::new(id, TimedEventType::Tap { x, y }, interval)
    }

    pub fn new_tap_seconds(id: String, x: u32, y: u32, interval_seconds: u64) -> (r: Self)
        ensures
            fresh_event(r, id@, TimedEventType::Tap { x, y }, secs_ms(interval_seconds as int)),
    {
        Self::new_tap(id, x, y, interval_seconds as u128 * 1000)
    }

    pub fn new_tap_minutes(id: String, x: u32, y: u32, interval_minutes: u64) -> (r: Self)
        requires
            interval_minutes * 60 <= u64::MAX,
        ensures
            fresh_event(r, id@, TimedEventType::Tap { x, y }, secs_ms(interval_minutes * 60)),
    {
        Self::new_tap_seconds(id, x, y, interval_minutes * 60)
    }

    /// A countdown refresh every `interval_seconds` seconds.
    pub fn new_countdown_update(interval_seconds: u64) -> (r: Self)
        ensures
            fresh_event(r, "countdown_update"@, TimedEventType::CountdownUpdate, secs_ms(
                interval_seconds as int,
            )),
    {
        Self::new(
            from_chars(&to_chars("countdown_update")),
            TimedEventType::CountdownUpdate,
            interval_seconds as u128 * 1000,
        )
    }

    pub fn new_countdown_update_minutes(interval_minutes: u64) -> (r: Self)
        requires
            interval_minutes * 60 <= u64::MAX,
        ensures
            fresh_event(r, "countdown_update"@, TimedEventType::CountdownUpdate, secs_ms(
                interval_minutes * 60,
            )),
    {
        Self::new_countdown_update(interval_minutes * 60)
    }

    pub fn new_tap_millis(id: String, x: u32, y: u32, interval_millis: u64) -> (r: Self)
        ensures
            fresh_event(r, id@, TimedEventType::Tap { x, y }, interval_millis as int),
    {
        Self::new_tap(id, x, y, interval_millis as u128)
    }

    pub fn new_tap_hours(id: String, x: u32, y: u32, interval_hours: u64) -> (r: Self)
        requires
            interval_hours * 3600 <= u64::MAX,
        ensures
            fresh_event(r, id@, TimedEventType::Tap { x, y }, secs_ms(interval_hours * 3600)),
    {
        Self::new_tap_seconds(id, x, y, interval_hours * 3600)
    }

    pub fn new_screenshot_millis(interval_millis: u64) -> (r: Self)
        ensures
            fresh_event(r, "screenshot"@, TimedEventType::Screenshot, interval_millis as int),
    {
        Self::new_screenshot_custom(interval_millis as u128)
    }

    pub fn new_screenshot_hours(interval_hours: u64) -> (r: Self)
        requires
            interval_hours * 3600 <= u64::MAX,
        ensures
            fresh_event(r, "screenshot"@, TimedEventType::Screenshot, secs_ms(
                interval_hours * 3600,
            )),
    {
        Self::new_screenshot_custom((interval_hours * 3600) as u128 * 1000)
    }

    /// A screenshot every `interval` milliseconds.
    pub fn new_screenshot_custom(interval: u128) -> (r: Self)
        ensures
            fresh_event(r, "screenshot"@, TimedEventType::Screenshot, interval as int),
    {
        Self::new(from_chars(&to_chars("screenshot")), TimedEventType::Screenshot, interval)
    }

    pub fn is_ready_at(&self, now: u64) -> (r: bool)
        ensures
            r == self.ready_at(now),
    {
        if !self.enabled {
            return false;
        }
        match self.last_executed {
            None => true,
            Some(last) => (elapsed_millis(last, now) as u128) >= self.interval,
        }
    }

    /// Whether the event is due, by the clock.
    pub fn is_ready(&self) -> (r: bool)
        ensures
            exists|now: u64| r == self.ready_at(now),
            !self.enabled ==> !r,
            self.enabled && self.last_executed is None ==> r,
    {
        self.is_ready_at(now_millis())
    }

    pub fn mark_executed_at(&mut self, now: u64)
        requires
            old(self).execution_count < u64::MAX,
        ensures
            final(self).last_executed == Some(now),
            final(self).execution_count == old(self).execution_count + 1,
            final(self).id == old(self).id,
            final(self).event_type == old(self).event_type,
            final(self).interval == old(self).interval,
            final(self).enabled == old(self).enabled,
            final(self).repeating == old(self).repeating,
    {
        self.last_executed = Some(now);
        self.execution_count += 1;
    }

    /// Records a run at the current clock time.
    pub fn mark_executed(&mut self)
        requires
            old(self).execution_count < u64::MAX,
        ensures
            final(self).last_executed is Some,
            final(self).execution_count == old(self).execution_count + 1,
            final(self).id == old(self).id,
            final(self).event_type == old(self).event_type,
            final(self).interval == old(self).interval,
            final(self).enabled == old(self).enabled,
            final(self).repeating == old(self).repeating,
    {
        self.mark_executed_at(now_millis());
    }

    pub fn set_interval_at(&mut self, interval: u128, now: u64)
        ensures
            final(self).interval == interval,
            final(self).last_executed == Some(now),
            final(self).execution_count == old(self).execution_count,
            final(self).id == old(self).id,
            final(self).event_type == old(self).event_type,
            final(self).enabled == old(self).enabled,
            final(self).repeating == old(self).repeating,
    {
        self.interval = interval;
        self.last_executed = Some(now);
    }

    /// Sets a new interval, counted from now.
    pub fn set_interval(&mut self, interval: u128)
        ensures
            final(self).interval == interval,
            final(self).last_executed is Some,
            final(self).execution_count == old(self).execution_count,
            final(self).id == old(self).id,
            final(self).event_type == old(self).event_type,
            final(self).enabled == old(self).enabled,
            final(self).repeating == old(self).repeating,
    {
        self.set_interval_at(interval, now_millis());
    }

    pub fn time_until_next_at(&self, now: u64) -> (r: Option<u128>)
        ensures
            r == self.until_next_at(now),
    {
        if !self.enabled {
            return None;
        }
        match self.last_executed {
            None => Some(0),
            Some(last) => {
                let elapsed = elapsed_millis(last, now) as u128;
                if elapsed >= self.interval {
                    Some(0)
                } else {
                    Some(self.interval - elapsed)
                }
            },
        }
    }

    /// Milliseconds until the event is due, by the clock; `None` while
    /// disabled.
    pub fn time_until_next(&self) -> (r: Option<u128>)
        ensures
            exists|now: u64| r == self.until_next_at(now),
            r is None <==> !self.enabled,
    {
        self.time_until_next_at(now_millis())
    }

    pub fn get_next_execution_time_at(&self, now: u64) -> (r: Option<u128>)
        requires
            self.last_executed matches Some(t) ==> t + self.interval <= u128::MAX,
        ensures
            r == self.next_execution_at(now),
    {
        if !self.enabled {
            return None;
        }
        match self.last_executed {
            None => Some(now as u128),
            Some(last) => Some(last as u128 + self.interval),
        }
    }

    /// When the event is next due (a clock reading in milliseconds); `None`
    /// while disabled.
    pub fn get_next_execution_time(&self) -> (r: Option<u128>)
        requires
            self.last_executed matches Some(t) ==> t + self.interval <= u128::MAX,
        ensures
            exists|now: u64| r == self.next_execution_at(now),
            r is None <==> !self.enabled,
    {
        self.get_next_execution_time_at(now_millis())
    }
}

/// An enabled event is due exactly when no time is left until it is due.
pub proof fn law_ready_iff_nothing_left(e: TimedEvent, now: u64)
    requires
        e.enabled,
    ensures
        e.ready_at(now) <==> e.until_next_at(now) == Some(0u128),
{
}

/// After running at `t`, an event is not due again before its interval has
/// passed, and is due once it has (while enabled).
pub proof fn law_due_after_interval(e: TimedEvent, t: u64, now: u64)
    requires
        e.last_executed == Some(t),
        t <= now,
    ensures
        e.ready_at(now) <==> (e.enabled && (now - t) >= e.interval),
{
}

/// With a clock that has not gone back past the last run, an enabled event
/// that is not overdue is next due at `now` plus the time left.
pub proof fn law_next_run_is_now_plus_wait(e: TimedEvent, now: u64)
    requires
        e.enabled,
        e.last_executed matches Some(t) ==> t <= now && now <= t + e.interval && t + e.interval
            <= u128::MAX,
    ensures
        e.next_execution_at(now) matches Some(x) && e.until_next_at(now) matches Some(w) && x
            == now + w,
{
}

/// Commands the automation accepts.
#[derive(Debug, Clone)]
pub enum AutomationCommand {
    Start,
    Pause,
    Resume,
    Stop,
    TakeScreenshot,
    /// Test the current screenshot for template matches.
    TestImageRecognition,
    /// Rescan the directory for new template files.
    RescanTemplates,
    AddTimedEvent(TimedEvent),
    RemoveTimedEvent(String),
    EnableTimedEvent(String),
    DisableTimedEvent(String),
    /// Run a timed event at once.
    TriggerTimedEvent(String),
    ListTimedEvents,
    /// Forget touch activity so that automation resumes at once.
    ClearTouchActivity,
    /// Record touch activity so that automation pauses.
    RegisterTouchActivity,
    /// Change the interval of a timed tap by `delta_seconds`.
    AdjustTimedEventInterval { id: String, delta_seconds: i64 },
    Shutdown,
}

} // verus!
