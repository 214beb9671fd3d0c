//! Core ADB types: devices, captures and the touch-activity tracker.
use crate::clock::{elapsed_millis, elapsed_spec, now_millis};
use vstd::prelude::*;

verus! {

/// A PNG capture of the device screen.
pub struct ImageCapture {
    pub bytes: Vec<u8>,
    pub duration_ms: u128,
    /// Sequential capture count (per backend instance).
    pub index: u64,
}

/// A device as `adb devices -l` lists it.
#[derive(Debug, Clone, PartialEq)]
pub struct Device {
    pub name: String,
    pub transport_id: Option<String>,
}

/// What a [`Device`] holds, as plain sequences.
pub struct DeviceView {
    pub name: Seq<char>,
    pub transport_id: Option<Seq<char>>,
}

pub open spec fn opt_string_view(o: Option<String>) -> Option<Seq<char>> {
    match o {
        Some(s) => Some(s@),
        None => None,
    }
}

impl View for Device {
    type V = DeviceView;

    open spec fn view(&self) -> DeviceView {
        DeviceView { name: self.name@, transport_id: opt_string_view(self.transport_id) }
    }
}

/// `v`, or `u64::MAX` when `v` does not fit in a `u64`.
pub open spec fn saturate_u64(v: int) -> u64 {
    if v > u64::MAX {
        u64::MAX
    } else {
        v as u64
    }
}

/// Milliseconds in `secs` seconds.
pub open spec fn secs_to_ms(secs: u64) -> u128 {
    (secs as u128 * 1000) as u128
}

/// Tracks when a human last touched the screen. Times are readings of the
/// library clock in milliseconds; `timeout_duration` is in milliseconds.
#[derive(Debug, Clone, Copy)]
pub struct TouchActivityState {
    pub last_touch_time: Option<u64>,
    pub is_monitoring: bool,
    pub timeout_duration: u128,
}

impl TouchActivityState {
    /// A human touch counts as activity while less than the timeout has
    /// passed since it, read at clock time `now`.
    pub open spec fn active_at(&self, now: u64) -> bool {
        match self.last_touch_time {
            Some(t) => (elapsed_spec(t, now) as int) < self.timeout_duration,
            None => false,
        }
    }

    /// The tracker after a touch recorded at `now`: only the touch time
    /// changes.
    pub open spec fn touched_at(self, now: u64) -> Self {
        TouchActivityState { last_touch_time: Some(now), ..self }
    }

    /// A touch was recorded and is no longer active at `now`.
    pub open spec fn expired_at(&self, now: u64) -> bool {
        self.last_touch_time is Some && !self.active_at(now)
    }

    /// Whole seconds left of the timeout at `now`, while active.
    pub open spec fn remaining_at(&self, now: u64) -> Option<u64> {
        match self.last_touch_time {
            Some(t) => if (elapsed_spec(t, now) as int) < self.timeout_duration {
                Some(saturate_u64((self.timeout_duration - elapsed_spec(t, now)) / 1000))
            } else {
                None
            },
            None => None,
        }
    }

    pub fn new(timeout_seconds: u64) -> (r: Self)
        ensures
            r.last_touch_time is None,
            !r.is_monitoring,
            r.timeout_duration == secs_to_ms(timeout_seconds),
    {
        Self {
            last_touch_time: None,
            is_monitoring: false,
            timeout_duration: timeout_seconds as u128 * 1000,
        }
    }

    /// A tracker whose timeout is `timeout_ms` milliseconds.
    pub fn new_with_duration(timeout_ms: u128) -> (r: Self)
        ensures
            r.last_touch_time is None,
            !r.is_monitoring,
            r.timeout_duration == timeout_ms,
    {
        Self { last_touch_time: None, is_monitoring: false, timeout_duration: timeout_ms }
    }

    pub fn is_human_active_at(&self, now: u64) -> (r: bool)
        ensures
            r == self.active_at(now),
    {
        match self.last_touch_time {
            Some(t) => (elapsed_millis(t, now) as u128) < self.timeout_duration,
            None => false,
        }
    }

    /// Whether a human touched the screen within the timeout, by the clock.
    pub fn is_human_active(&self) -> (r: bool)
        ensures
            exists|now: u64| r == self.active_at(now),
            self.last_touch_time is None ==> !r,
    {
        let now = now_millis();
        self.is_human_active_at(now)
    }

    /// Records a touch at clock time `now`.
    pub fn mark_touch_activity_at(&mut self, now: u64)
        ensures
            *final(self) == old(self).touched_at(now),
            final(self).last_touch_time == Some(now),
            final(self).is_monitoring == old(self).is_monitoring,
            final(self).timeout_duration == old(self).timeout_duration,
    {
        self.last_touch_time = Some(now);
    }

    /// Records a touch at the current clock time.
    pub fn mark_touch_activity(&mut self)
        ensures
            final(self).last_touch_time is Some,
            final(self).is_monitoring == old(self).is_monitoring,
            final(self).timeout_duration == old(self).timeout_duration,
    {
        let now = now_millis();
        self.mark_touch_activity_at(now);
    }

    /// Refreshes the activity at clock time `now`: the same as a touch
    /// recorded then.
    pub fn update_activity_at(&mut self, now: u64)
        ensures
            *final(self) == old(self).touched_at(now),
            final(self).last_touch_time == Some(now),
            final(self).is_monitoring == old(self).is_monitoring,
            final(self).timeout_duration == old(self).timeout_duration,
    {
        self.mark_touch_activity_at(now);
    }

    /// Same as [`Self::mark_touch_activity`].
    pub fn update_activity(&mut self)
        ensures
            final(self).last_touch_time is Some,
            final(self).is_monitoring == old(self).is_monitoring,
            final(self).timeout_duration == old(self).timeout_duration,
    {
        let now = now_millis();
        self.update_activity_at(now);
    }

    /// Forgets the last touch.
    pub fn clear_touch_activity(&mut self)
        ensures
            final(self).last_touch_time is None,
            final(self).is_monitoring == old(self).is_monitoring,
            final(self).timeout_duration == old(self).timeout_duration,
    {
        self.last_touch_time = None;
    }

    pub fn has_activity_expired_at(&self, now: u64) -> (r: bool)
        ensures
            r == self.expired_at(now),
    {
        match self.last_touch_time {
            Some(t) => (elapsed_millis(t, now) as u128) >= self.timeout_duration,
            None => false,
        }
    }

    /// Whether a touch was recorded and its timeout has passed, by the clock.
    pub fn has_activity_expired(&self) -> (r: bool)
        ensures
            exists|now: u64| r == self.expired_at(now),
            self.last_touch_time is None ==> !r,
    {
        let now = now_millis();
        self.has_activity_expired_at(now)
    }

    pub fn get_remaining_seconds_at(&self, now: u64) -> (r: Option<u64>)
        ensures
            r == self.remaining_at(now),
    {
        match self.last_touch_time {
            Some(t) => {
                let e = elapsed_millis(t, now) as u128;
                if e < self.timeout_duration {
                    let rem = (self.timeout_duration - e) / 1000;
                    if rem > u64::MAX as u128 {
                        Some(u64::MAX)
                    } else {
                        Some(rem as u64)
                    }
                } else {
                    None
                }
            },
            None => None,
        }
    }

    /// Turns monitoring on; false when it already was on (the caller then
    /// starts no second monitor).
    pub fn start_monitoring(&mut self) -> (started: bool)
        ensures
            started == !old(self).is_monitoring,
            final(self).is_monitoring,
            final(self).last_touch_time == old(self).last_touch_time,
            final(self).timeout_duration == old(self).timeout_duration,
    {
        if self.is_monitoring {
            false
        } else {
            self.is_monitoring = true;
            true
        }
    }

    /// Turns monitoring off.
    pub fn stop_monitoring(&mut self)
        ensures
            !final(self).is_monitoring,
            final(self).last_touch_time == old(self).last_touch_time,
            final(self).timeout_duration == old(self).timeout_duration,
    {
        self.is_monitoring = false;
    }

    /// What the monitor does before polling for a touch at `now`: nothing
    /// more when monitoring is off (returns false); otherwise it forgets an
    /// expired touch and polls.
    pub fn before_poll(&mut self, now: u64) -> (poll: bool)
        ensures
            poll == old(self).is_monitoring,
            final(self).is_monitoring == old(self).is_monitoring,
            final(self).timeout_duration == old(self).timeout_duration,
            final(self).last_touch_time == if poll && old(self).expired_at(now) {
                None
            } else {
                old(self).last_touch_time
            },
    {
        if !self.is_monitoring {
            return false;
        }
        if self.has_activity_expired_at(now) {
            self.clear_touch_activity();
        }
        true
    }

    /// Records the outcome of a poll that ended at `now`: a touch seen
    /// counts as activity from then on.
    pub fn after_poll(&mut self, now: u64, touched: bool)
        ensures
            final(self).last_touch_time == if touched {
                Some(now)
            } else {
                old(self).last_touch_time
            },
            final(self).is_monitoring == old(self).is_monitoring,
            final(self).timeout_duration == old(self).timeout_duration,
    {
        if touched {
            self.mark_touch_activity_at(now);
        }
    }

    /// Whole seconds of the timeout left, while a touch is active, by the
    /// clock.
    pub fn get_remaining_seconds(&self) -> (r: Option<u64>)
        ensures
            exists|now: u64| r == self.remaining_at(now),
            self.last_touch_time is None ==> r is None,
    {
        let now = now_millis();
        self.get_remaining_seconds_at(now)
    }
}

/// Whether touch activity is reported as active exactly when there are
/// seconds remaining, and as expired exactly when a touch was recorded and is
/// no longer active, at every clock time.
pub proof fn law_touch_state_views_agree(s: TouchActivityState, now: u64)
    ensures
        s.active_at(now) <==> s.remaining_at(now) is Some,
        s.expired_at(now) <==> (s.last_touch_time is Some && s.remaining_at(now) is None),
{
}

/// A touch recorded at `t` keeps the tracker active for exactly the timeout:
/// at any later `now`, it is active iff fewer than `timeout_duration`
/// milliseconds have passed.
pub proof fn law_touch_active_for_timeout(s: TouchActivityState, t: u64, now: u64)
    requires
        s.last_touch_time == Some(t),
        t <= now,
    ensures
        s.active_at(now) <==> (now - t) < s.timeout_duration,
{
}

/// Refreshing activity restarts the timeout: after a touch at `t0` and a
/// refresh at a later `t1`, the tracker is the one a single touch at `t1`
/// gives, and it is active at every `now` from `t1` on exactly while fewer
/// than `timeout_duration` milliseconds have passed since `t1`.
pub proof fn law_refresh_restarts_timeout(s: TouchActivityState, t0: u64, t1: u64, now: u64)
    requires
        t0 <= t1,
        t1 <= now,
    ensures
        s.touched_at(t0).touched_at(t1) == s.touched_at(t1),
        s.touched_at(t0).touched_at(t1).active_at(now) <==> (now - t1) < s.timeout_duration,
{
}

/// Whether a tap at `(x, y)` lies on a screen of `screen_x` by `screen_y` pixels.
pub fn tap_in_bounds(x: u32, y: u32, screen_x: u32, screen_y: u32) -> (r: bool)
    ensures
        r == (x <= screen_x && y <= screen_y),
{
    x <= screen_x && y <= screen_y
}

} // verus!
