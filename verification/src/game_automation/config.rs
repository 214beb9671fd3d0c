//! Configuration of the timed events, and the events it yields.
use crate::game_automation::events::TimedEvents;
use crate::game_automation::types::{
    MAX_TAP_INTERVAL_SECONDS, MIN_TAP_INTERVAL_SECONDS, TimedEvent, TimedEventType,
};
use crate::text::{from_chars, to_chars};
use vstd::prelude::*;

verus! {

/// Where the timed events are configured.
pub const TIMED_EVENTS_CONFIG_PATH: &'static str = "conf_timed_events.toml";

/// A configured timed tap.
#[derive(Debug, Clone)]
pub struct TapEventConfig {
    pub id: String,
    pub x: u32,
    pub y: u32,
    pub interval_seconds: u64,
    pub enabled: bool,
}

/// The timed events configuration file.
#[derive(Debug, Clone)]
pub struct TimedEventsConfig {
    pub screenshot_interval_minutes: u64,
    pub countdown_interval_seconds: u64,
    pub taps: Vec<TapEventConfig>,
}

pub open spec fn tap_config_is(
    t: TapEventConfig,
    id: Seq<char>,
    x: u32,
    y: u32,
    interval_seconds: u64,
    enabled: bool,
) -> bool {
    t.id@ == id && t.x == x && t.y == y && t.interval_seconds == interval_seconds && t.enabled
        == enabled
}

fn tap_config(id: &str, x: u32, y: u32, interval_seconds: u64) -> (r: TapEventConfig)
    ensures
        tap_config_is(r, id@, x, y, interval_seconds, true),
{
    TapEventConfig { id: from_chars(&to_chars(id)), x, y, interval_seconds, enabled: true }
}

impl Default for TimedEventsConfig {
    /// Screenshots every ten minutes, the countdown every second, and three
    /// taps.
    fn default() -> (r: Self)
        ensures
            r.screenshot_interval_minutes == 10,
            r.countdown_interval_seconds == 1,
            r.taps@.len() == 3,
            tap_config_is(r.taps@[0], "claim_5d_tap"@, 120, 1250, 60, true),
            tap_config_is(r.taps@[1], "restart_tap"@, 110, 1600, 120, true),
            tap_config_is(r.taps@[2], "claim_1d_tap"@, 350, 628, 15, true),
    {
        let mut taps: Vec<TapEventConfig> = Vec::new();
        taps.push(tap_config("claim_5d_tap", 120, 1250, 60));
        taps.push(tap_config("restart_tap", 110, 1600, 120));
        taps.push(tap_config("claim_1d_tap", 350, 628, 15));
        Self { screenshot_interval_minutes: 10, countdown_interval_seconds: 1, taps }
    }
}

/// A tap interval kept within the bounds the automation allows.
pub open spec fn clamp_interval_spec(v: u64) -> u64 {
    if v < MIN_TAP_INTERVAL_SECONDS {
        MIN_TAP_INTERVAL_SECONDS
    } else if v > MAX_TAP_INTERVAL_SECONDS {
        MAX_TAP_INTERVAL_SECONDS
    } else {
        v
    }
}

pub fn clamp_tap_interval(v: u64) -> (r: u64)
    ensures
        r == clamp_interval_spec(v),
        MIN_TAP_INTERVAL_SECONDS <= r <= MAX_TAP_INTERVAL_SECONDS,
{
    if v < MIN_TAP_INTERVAL_SECONDS {
        MIN_TAP_INTERVAL_SECONDS
    } else if v > MAX_TAP_INTERVAL_SECONDS {
        MAX_TAP_INTERVAL_SECONDS
    } else {
        v
    }
}

/// What a configured event is, apart from its id value.
pub struct EventDesc {
    pub id: Seq<char>,
    pub event_type: TimedEventType,
    pub interval: int,
    pub enabled: bool,
}

/// `e` is a fresh, never-run, repeating event as `d` describes it.
pub open spec fn described_by(e: TimedEvent, d: EventDesc) -> bool {
    &&& e.id@ == d.id
    &&& e.event_type == d.event_type
    &&& e.interval == d.interval
    &&& e.enabled == d.enabled
    &&& e.last_executed is None
    &&& e.repeating
    &&& e.execution_count == 0
}

pub open spec fn tap_desc(t: TapEventConfig) -> EventDesc {
    EventDesc {
        id: t.id@,
        event_type: TimedEventType::Tap { x: t.x, y: t.y },
        interval: clamp_interval_spec(t.interval_seconds) as int * 1000,
        enabled: t.enabled,
    }
}

/// The screenshot and countdown events, then every tap in order, each
/// replacing an earlier event with its id.
pub open spec fn config_descs(c: TimedEventsConfig, n: int) -> Map<Seq<char>, EventDesc>
    decreases n,
{
    if n <= 0 {
        Map::empty().insert(
            "screenshot"@,
            EventDesc {
                id: "screenshot"@,
                event_type: TimedEventType::Screenshot,
                interval: c.screenshot_interval_minutes * 60 * 1000,
                enabled: true,
            },
        ).insert(
            "countdown_update"@,
            EventDesc {
                id: "countdown_update"@,
                event_type: TimedEventType::CountdownUpdate,
                interval: c.countdown_interval_seconds * 1000,
                enabled: true,
            },
        )
    } else {
        config_descs(c, n - 1).insert(c.taps@[n - 1].id@, tap_desc(c.taps@[n - 1]))
    }
}

/// Every event of `t` is described, and only these ids are present.
pub open spec fn events_match(t: Map<Seq<char>, TimedEvent>, d: Map<Seq<char>, EventDesc>) -> bool {
    &&& t.dom() == d.dom()
    &&& forall|k: Seq<char>| #[trigger] t.dom().contains(k) ==> described_by(t[k], d[k])
}

/// The timed events a configuration yields: screenshots at its interval,
/// the countdown at its interval, and each tap with its interval kept
/// within the allowed bounds and its enabled flag.
pub fn build_timed_events(config: TimedEventsConfig) -> (r: TimedEvents)
    requires
        config.screenshot_interval_minutes * 60 <= u64::MAX,
    ensures
        r.wf(),
        events_match(r@, config_descs(config, config.taps@.len() as int)),
{
    let mut timed_events = TimedEvents::new();
    let shot = TimedEvent::new_screenshot_minutes(config.screenshot_interval_minutes);
    timed_events.insert(shot);
    let countdown = TimedEvent::new_countdown_update(config.countdown_interval_seconds);
    timed_events.insert(countdown);
    assert(events_match(timed_events@, config_descs(config, 0))) by {
        assert(timed_events@.dom() =~= config_descs(config, 0).dom());
    }
    let ghost c = config;
    let taps = config.taps;
    let mut i: usize = 0;
    while i < taps.len()
        invariant
            i <= taps.len(),
            taps@ == c.taps@,
            timed_events.wf(),
            events_match(timed_events@, config_descs(c, i as int)),
        decreases taps.len() - i,
    {
        let tap = &taps[i];
        let interval_seconds = clamp_tap_interval(tap.interval_seconds);
        let mut event = TimedEvent::new_tap_seconds(tap.id.clone(), tap.x, tap.y, interval_seconds);
        event.enabled = tap.enabled;
        let ghost before = timed_events@;
        timed_events.insert(event);
        proof {
            let d = config_descs(c, i + 1);
            assert(d == config_descs(c, i as int).insert(taps@[i as int].id@, tap_desc(taps@[i as int])));
            assert(timed_events@.dom() =~= d.dom());
            assert forall|k: Seq<char>| #[trigger] timed_events@.dom().contains(k) implies described_by(
                timed_events@[k],
                d[k],
            ) by {
                if k != tap.id@ {
                    assert(before.dom().contains(k));
                }
            }
        }
        i += 1;
    }
    timed_events
}

/// Every timed tap a configuration yields has an interval within the bounds
/// the automation allows.
pub proof fn law_config_tap_intervals_bounded(c: TimedEventsConfig, n: int, k: Seq<char>)
    requires
        0 <= n <= c.taps@.len(),
        config_descs(c, n).dom().contains(k),
        config_descs(c, n)[k].event_type is Tap,
    ensures
        MIN_TAP_INTERVAL_SECONDS * 1000 <= config_descs(c, n)[k].interval
            <= MAX_TAP_INTERVAL_SECONDS * 1000,
    decreases n,
{
    if n > 0 {
        if k != c.taps@[n - 1].id@ {
            law_config_tap_intervals_bounded(c, n - 1, k);
        }
    }
}

} // verus!
