//! The automation state machine: the decisions it takes on commands, timed
//! events, failures and reconnection. The caller performs the actions it
//! returns and reports their outcome back.
use crate::adb::types::TouchActivityState;
use crate::game_automation::events::TimedEvents;
use crate::game_automation::types::{
    AutomationCommand, GameState, MAX_TAP_INTERVAL_SECONDS, MIN_TAP_INTERVAL_SECONDS,
    TimedEvent, TimedEventType,
};
use crate::text::{contains_str, has_infix, lowercase_of, to_chars, to_lowercase};
use vstd::prelude::*;

verus! {

// ------------------------------------------------------------------
// Disconnect detection
// ------------------------------------------------------------------

/// The ADB protocol fell out of step and the connection must be made anew.
pub open spec fn desync_phrase(l: Seq<char>) -> bool {
    has_infix(l, "protocol desync"@) || has_infix(l, "reconnection needed"@) || has_infix(
        l,
        "connection needs to be re-established"@,
    )
}

/// A `CLSE` error while a command ran (rather than during cleanup).
pub open spec fn operational_clse(l: Seq<char>) -> bool {
    has_infix(l, "clse"@) && (has_infix(l, "failed"@) || has_infix(l, "command"@) || has_infix(
        l,
        "tap"@,
    ) || has_infix(l, "screencap"@) || has_infix(l, "input"@))
}

/// A `CLSE` message with no failure or command in it: cleanup, harmless.
pub open spec fn harmless_clse(l: Seq<char>) -> bool {
    has_infix(l, "clse"@) && !has_infix(l, "failed"@) && !has_infix(l, "command"@)
}

pub open spec fn device_gone_a(l: Seq<char>) -> bool {
    has_infix(l, "device offline"@) || has_infix(l, "device not found"@) || has_infix(
        l,
        "not found"@,
    ) || has_infix(l, "no devices"@) || has_infix(l, "emulators found"@) || has_infix(
        l,
        "connection refused"@,
    ) || has_infix(l, "broken pipe"@)
}

pub open spec fn device_gone_b(l: Seq<char>) -> bool {
    has_infix(l, "connection reset"@) || has_infix(l, "closed"@) || has_infix(
        l,
        "not connected"@,
    ) || has_infix(l, "no write endpoint"@) || (has_infix(l, "timed out"@) && has_infix(
        l,
        "usb"@,
    )) || has_infix(l, "operation timed out"@) || (has_infix(l, "usb"@) && has_infix(
        l,
        "error"@,
    ) && !has_infix(l, "resource busy"@))
}

/// Whether a lower-case error message means the device is gone: protocol
/// desync and `CLSE` errors during commands are; `CLSE` without a failure or
/// command is not; otherwise the usual signs of a lost device, socket or
/// USB endpoint are.
pub open spec fn disconnect_lower(l: Seq<char>) -> bool {
    if desync_phrase(l) {
        true
    } else if operational_clse(l) {
        true
    } else if harmless_clse(l) {
        false
    } else {
        device_gone_a(l) || device_gone_b(l)
    }
}

/// Whether an error message means the device is gone: that of its
/// lower-case form.
pub open spec fn disconnect_error(e: Seq<char>) -> bool {
    disconnect_lower(lowercase_of(e))
}

fn desync_exec(l: &[char]) -> (r: bool)
    ensures
        r == desync_phrase(l@),
{
    contains_str(l, "protocol desync") || contains_str(l, "reconnection needed") || contains_str(
        l,
        "connection needs to be re-established",
    )
}

fn operational_clse_exec(l: &[char]) -> (r: bool)
    ensures
        r == operational_clse(l@),
{
    contains_str(l, "clse") && (contains_str(l, "failed") || contains_str(l, "command")
        || contains_str(l, "tap") || contains_str(l, "screencap") || contains_str(l, "input"))
}

fn harmless_clse_exec(l: &[char]) -> (r: bool)
    ensures
        r == harmless_clse(l@),
{
    contains_str(l, "clse") && !contains_str(l, "failed") && !contains_str(l, "command")
}

fn device_gone_a_exec(l: &[char]) -> (r: bool)
    ensures
        r == device_gone_a(l@),
{
    contains_str(l, "device offline") || contains_str(l, "device not found") || contains_str(
        l,
        "not found",
    ) || contains_str(l, "no devices") || contains_str(l, "emulators found") || contains_str(
        l,
        "connection refused",
    ) || contains_str(l, "broken pipe")
}

fn device_gone_b_exec(l: &[char]) -> (r: bool)
    ensures
        r == device_gone_b(l@),
{
    contains_str(l, "connection reset") || contains_str(l, "closed") || contains_str(
        l,
        "not connected",
    ) || contains_str(l, "no write endpoint") || (contains_str(l, "timed out") && contains_str(
        l,
        "usb",
    )) || contains_str(l, "operation timed out") || (contains_str(l, "usb") && contains_str(
        l,
        "error",
    ) && !contains_str(l, "resource busy"))
}

/// Classifies an error message that is already in lower case.
pub fn is_disconnect_error_lower(l: &[char]) -> (r: bool)
    ensures
        r == disconnect_lower(l@),
{
    if desync_exec(l) {
        true
    } else if operational_clse_exec(l) {
        true
    } else if harmless_clse_exec(l) {
        false
    } else {
        device_gone_a_exec(l) || device_gone_b_exec(l)
    }
}

/// Whether an error message means that the device was disconnected and the
/// connection must be made anew.
pub fn is_disconnect_error(error: &str) -> (r: bool)
    ensures
        r == disconnect_error(error@),
{
    let lower = to_lowercase(error);
    let l = to_chars(lower.as_str());
    is_disconnect_error_lower(&l)
}

/// A lower-case message that reports a protocol desync is always a
/// disconnect, whatever else it says.
pub proof fn law_desync_is_disconnect(l: Seq<char>)
    requires
        has_infix(l, "protocol desync"@) || has_infix(l, "reconnection needed"@),
    ensures
        disconnect_lower(l),
{
}

/// A lower-case message that mentions `clse` but no failure, command, tap,
/// screencap or input is never a disconnect.
pub proof fn law_bare_clse_is_harmless(l: Seq<char>)
    requires
        has_infix(l, "clse"@),
        !desync_phrase(l),
        !has_infix(l, "failed"@),
        !has_infix(l, "command"@),
        !has_infix(l, "tap"@),
        !has_infix(l, "screencap"@),
        !has_infix(l, "input"@),
    ensures
        !disconnect_lower(l),
{
}

// ------------------------------------------------------------------
// Reconnection back-off
// ------------------------------------------------------------------

/// `2^e` for small `e`.
pub open spec fn pow2(e: nat) -> nat
    decreases e,
{
    if e == 0 {
        1
    } else {
        2 * pow2((e - 1) as nat)
    }
}

/// Seconds to wait between reconnection attempts, `elapsed` seconds after
/// the last one: doubling every ten seconds, from 1 up to 16 (never more
/// than 30).
pub open spec fn backoff_spec(elapsed: u64) -> u64 {
    let e: nat = if elapsed / 10 < 4 {
        (elapsed / 10) as nat
    } else {
        4
    };
    if pow2(e) < 30 {
        pow2(e) as u64
    } else {
        30
    }
}

pub fn reconnect_backoff_secs(elapsed_secs: u64) -> (r: u64)
    ensures
        r == backoff_spec(elapsed_secs),
{
    let attempt_count: u64 = if elapsed_secs / 10 < 4 {
        elapsed_secs / 10
    } else {
        4
    };
    let backoff: u64 = if attempt_count == 0 {
        1
    } else if attempt_count == 1 {
        2
    } else if attempt_count == 2 {
        4
    } else if attempt_count == 3 {
        8
    } else {
        16
    };
    proof {
        reveal_with_fuel(pow2, 5);
    }
    if backoff < 30 {
        backoff
    } else {
        30
    }
}

/// The wait between reconnection attempts is at least one and at most
/// sixteen seconds, and never shrinks as time passes.
pub proof fn law_backoff_bounded_monotone(a: u64, b: u64)
    requires
        a <= b,
    ensures
        1 <= backoff_spec(a) <= 16,
        backoff_spec(a) <= backoff_spec(b),
{
    reveal_with_fuel(pow2, 5);
    assert(a / 10 <= b / 10) by (nonlinear_arith)
        requires
            a <= b,
    ;
}

// ------------------------------------------------------------------
// The automation state machine
// ------------------------------------------------------------------

/// What the caller is to do after a decision of the automation.
#[derive(Debug, Clone, Copy, PartialEq, Eq, Structural)]
pub enum AutomationAction {
    /// Show the new automation state.
    StateChanged(GameState),
    /// Publish the list of timed events.
    SendTimedEventsList,
    /// Publish which timed tap comes next.
    SendTapCountdown,
    /// Report that automation cannot start without a device.
    ReportNoClient,
    StopTouchMonitoring,
    ClearTouchActivity,
    RegisterTouchActivity,
    TakeScreenshot,
    TestImageRecognition,
    RescanTemplates,
    Tap { x: u32, y: u32 },
}

/// The automation's state as plain values.
#[verifier::ext_equal]
pub struct CoreView {
    pub state: GameState,
    pub is_running: bool,
    pub should_exit: bool,
    pub device_disconnected: bool,
    pub last_reconnect_attempt: Option<u64>,
    pub has_client: bool,
    pub events: Map<Seq<char>, TimedEvent>,
}

/// The decision-making state of the game automation.
pub struct AutomationCore {
    pub state: GameState,
    pub is_running: bool,
    pub should_exit: bool,
    pub device_disconnected: bool,
    /// Clock reading (milliseconds) of the last reconnection attempt.
    pub last_reconnect_attempt: Option<u64>,
    /// Whether a device connection is held.
    pub has_client: bool,
    pub timed_events: TimedEvents,
}

impl View for AutomationCore {
    type V = CoreView;

    open spec fn view(&self) -> CoreView {
        CoreView {
            state: self.state,
            is_running: self.is_running,
            should_exit: self.should_exit,
            device_disconnected: self.device_disconnected,
            last_reconnect_attempt: self.last_reconnect_attempt,
            has_client: self.has_client,
            events: self.timed_events@,
        }
    }
}

/// Moves to state `s`, announcing it when it differs from the current one.
pub open spec fn change_state_spec(c: CoreView, s: GameState) -> (CoreView, Seq<AutomationAction>) {
    if c.state != s {
        (CoreView { state: s, ..c }, seq![AutomationAction::StateChanged(s)])
    } else {
        (c, seq![])
    }
}

/// `v` saturated to the `u64` range.
pub open spec fn sat_u64(v: int) -> u64 {
    if v > u64::MAX {
        u64::MAX
    } else {
        v as u64
    }
}

/// Whole seconds of an interval given in milliseconds.
pub open spec fn interval_secs(interval: u128) -> u64 {
    sat_u64((interval / 1000) as int)
}

/// `a + b` saturated to the `i64` range.
pub open spec fn sat_add_i64(a: i64, b: i64) -> i64 {
    if a + b > i64::MAX {
        i64::MAX
    } else if a + b < i64::MIN {
        i64::MIN
    } else {
        (a + b) as i64
    }
}

/// The interval, in seconds, a tap gets when `delta` seconds are added to
/// `current` (read as a signed number), kept within the allowed bounds.
pub open spec fn adjusted_secs(current: u64, delta: i64) -> u64 {
    let target = sat_add_i64(current as i64, delta);
    if target < MIN_TAP_INTERVAL_SECONDS as i64 {
        MIN_TAP_INTERVAL_SECONDS
    } else if target > MAX_TAP_INTERVAL_SECONDS as i64 {
        MAX_TAP_INTERVAL_SECONDS
    } else {
        target as u64
    }
}

/// The event `id` recorded as run at `now` (one that has run `u64::MAX`
/// times is left as it is).
pub open spec fn mark_executed_spec(
    events: Map<Seq<char>, TimedEvent>,
    id: Seq<char>,
    now: u64,
) -> Map<Seq<char>, TimedEvent> {
    if events.dom().contains(id) && events[id].execution_count < u64::MAX {
        events.insert(
            id,
            TimedEvent {
                last_executed: Some(now),
                execution_count: (events[id].execution_count + 1) as u64,
                ..events[id]
            },
        )
    } else {
        events
    }
}

/// What running timed event `e` right away asks for.
pub open spec fn trigger_actions(e: TimedEvent, has_client: bool) -> Seq<AutomationAction> {
    match e.event_type {
        TimedEventType::Screenshot => seq![AutomationAction::TakeScreenshot],
        TimedEventType::Tap { x, y } => if has_client {
            seq![AutomationAction::Tap { x, y }]
        } else {
            seq![]
        },
        TimedEventType::CountdownUpdate => seq![],
    }
}

/// The decision on a command: the next state and the actions to perform.
pub open spec fn step(c: CoreView, cmd: AutomationCommand, now: u64) -> (
    CoreView,
    Seq<AutomationAction>,
) {
    let publish = seq![
        AutomationAction::SendTimedEventsList,
        AutomationAction::SendTapCountdown,
    ];
    match cmd {
        AutomationCommand::Start => if !c.is_running {
            if !c.has_client {
                (c, seq![AutomationAction::ReportNoClient])
            } else {
                let (c2, a) = change_state_spec(CoreView { is_running: true, ..c }, GameState::Running);
                (c2, a + publish)
            }
        } else {
            (c, seq![])
        },
        AutomationCommand::Pause => if c.is_running {
            change_state_spec(c, GameState::Paused)
        } else {
            (c, seq![])
        },
        AutomationCommand::Resume => if c.is_running && c.state == GameState::Paused {
            let (c2, a) = change_state_spec(c, GameState::Running);
            (c2, a + publish)
        } else {
            (c, seq![])
        },
        AutomationCommand::Stop => {
            let pre = if c.has_client {
                seq![AutomationAction::StopTouchMonitoring]
            } else {
                seq![]
            };
            let (c2, a) = change_state_spec(CoreView { is_running: false, ..c }, GameState::Idle);
            (c2, pre + a)
        },
        AutomationCommand::ClearTouchActivity => (
            c,
            if c.has_client {
                seq![AutomationAction::ClearTouchActivity]
            } else {
                seq![]
            },
        ),
        AutomationCommand::RegisterTouchActivity => (
            c,
            if c.has_client {
                seq![AutomationAction::RegisterTouchActivity]
            } else {
                seq![]
            },
        ),
        AutomationCommand::TakeScreenshot => (c, seq![AutomationAction::TakeScreenshot]),
        AutomationCommand::TestImageRecognition => (
            c,
            seq![AutomationAction::TestImageRecognition],
        ),
        AutomationCommand::RescanTemplates => (c, seq![AutomationAction::RescanTemplates]),
        AutomationCommand::AddTimedEvent(e) => (
            CoreView { events: c.events.insert(e.id@, e), ..c },
            seq![],
        ),
        AutomationCommand::RemoveTimedEvent(id) => (
            CoreView { events: c.events.remove(id@), ..c },
            seq![],
        ),
        AutomationCommand::EnableTimedEvent(id) => if c.events.dom().contains(id@) {
            (
                CoreView {
                    events: c.events.insert(id@, TimedEvent { enabled: true, ..c.events[id@] }),
                    ..c
                },
                seq![AutomationAction::SendTimedEventsList],
            )
        } else {
            (c, seq![])
        },
        AutomationCommand::DisableTimedEvent(id) => if c.events.dom().contains(id@) {
            (
                CoreView {
                    events: c.events.insert(id@, TimedEvent { enabled: false, ..c.events[id@] }),
                    ..c
                },
                seq![AutomationAction::SendTimedEventsList],
            )
        } else {
            (c, seq![])
        },
        AutomationCommand::AdjustTimedEventInterval { id, delta_seconds } => {
            if c.events.dom().contains(id@) && c.events[id@].event_type is Tap {
                let cur = interval_secs(c.events[id@].interval);
                let target = adjusted_secs(cur, delta_seconds);
                if target != cur {
                    (
                        CoreView {
                            events: c.events.insert(
                                id@,
                                TimedEvent {
                                    interval: (target as int * 1000) as u128,
                                    last_executed: Some(now),
                                    ..c.events[id@]
                                },
                            ),
                            ..c
                        },
                        publish,
                    )
                } else {
                    (c, seq![])
                }
            } else {
                (c, seq![])
            }
        },
        AutomationCommand::TriggerTimedEvent(id) => {
            if c.events.dom().contains(id@) && c.events[id@].enabled {
                (
                    CoreView { events: mark_executed_spec(c.events, id@, now), ..c },
                    trigger_actions(c.events[id@], c.has_client).push(
                        AutomationAction::SendTimedEventsList,
                    ),
                )
            } else {
                (c, seq![])
            }
        },
        AutomationCommand::ListTimedEvents => (c, seq![AutomationAction::SendTimedEventsList]),
        AutomationCommand::Shutdown => change_state_spec(
            CoreView { should_exit: true, is_running: false, ..c },
            GameState::Idle,
        ),
    }
}

fn publish_actions(v: &mut Vec<AutomationAction>)
    ensures
        final(v)@ == old(v)@ + seq![
            AutomationAction::SendTimedEventsList,
            AutomationAction::SendTapCountdown,
        ],
{
    v.push(AutomationAction::SendTimedEventsList);
    v.push(AutomationAction::SendTapCountdown);
    assert(final(v)@ =~= old(v)@ + seq![
        AutomationAction::SendTimedEventsList,
        AutomationAction::SendTapCountdown,
    ]);
}

/// The order in which due events run: screenshots, then countdown
/// updates, then taps.
pub open spec fn run_rank(t: TimedEventType) -> int {
    match t {
        TimedEventType::Screenshot => 0,
        TimedEventType::CountdownUpdate => 1,
        TimedEventType::Tap { .. } => 2,
    }
}

fn run_rank_exec(t: TimedEventType) -> (r: u8)
    ensures
        r == run_rank(t),
{
    match t {
        TimedEventType::Screenshot => 0,
        TimedEventType::CountdownUpdate => 1,
        TimedEventType::Tap { .. } => 2,
    }
}

/// The due events of rank `rank` among `items`, in order, as (id, type).
pub open spec fn due_of_rank(items: Seq<TimedEvent>, now: u64, rank: int) -> Seq<
    (Seq<char>, TimedEventType),
>
    decreases items.len(),
{
    if items.len() == 0 {
        seq![]
    } else {
        let e = items.last();
        let rest = due_of_rank(items.drop_last(), now, rank);
        if e.ready_at(now) && run_rank(e.event_type) == rank {
            rest.push((e.id@, e.event_type))
        } else {
            rest
        }
    }
}

/// The events due at `now`, screenshots first, then countdown updates, then
/// taps, each group in table order.
pub open spec fn due_events_spec(items: Seq<TimedEvent>, now: u64) -> Seq<
    (Seq<char>, TimedEventType),
> {
    due_of_rank(items, now, 0) + due_of_rank(items, now, 1) + due_of_rank(items, now, 2)
}

pub open spec fn id_type_views(v: Seq<(String, TimedEventType)>) -> Seq<
    (Seq<char>, TimedEventType),
> {
    v.map_values(|p: (String, TimedEventType)| (p.0@, p.1))
}

/// Whole seconds until `e` is due at `now` (0 once due; saturated).
pub open spec fn secs_until(e: TimedEvent, now: u64) -> u64 {
    match e.until_next_at(now) {
        Some(ms) => sat_u64((ms / 1000) as int),
        None => 0,
    }
}

/// Among the first `n` events, the enabled tap due soonest, in whole
/// seconds; the first of equals wins.
pub open spec fn next_tap_spec(items: Seq<TimedEvent>, now: u64, n: int) -> Option<
    (Seq<char>, u64),
>
    decreases n,
{
    if n <= 0 {
        None
    } else {
        let cur = next_tap_spec(items, now, n - 1);
        let e = items[n - 1];
        if e.event_type is Tap && e.enabled {
            let s = secs_until(e, now);
            match cur {
                None => Some((e.id@, s)),
                Some((id, m)) => if s < m {
                    Some((e.id@, s))
                } else {
                    cur
                },
            }
        } else {
            cur
        }
    }
}

/// The tap the countdown shows is an enabled tap due no later than any
/// other enabled tap; there is one whenever some tap is enabled.
pub proof fn law_next_tap_is_soonest(items: Seq<TimedEvent>, now: u64, n: int)
    requires
        0 <= n <= items.len(),
    ensures
        next_tap_spec(items, now, n) matches Some((id, s)) ==> (exists|j: int|
            0 <= j < n && items[j].id@ == id && items[j].event_type is Tap && items[j].enabled
                && secs_until(items[j], now) == s),
        next_tap_spec(items, now, n) matches Some((id, s)) ==> (forall|j: int|
            0 <= j < n && items[j].event_type is Tap && items[j].enabled ==> s <= secs_until(
                #[trigger] items[j],
                now,
            )),
        next_tap_spec(items, now, n) is None <==> (forall|j: int|
            0 <= j < n ==> !(#[trigger] items[j].event_type is Tap && items[j].enabled)),
    decreases n,
{
    if n > 0 {
        law_next_tap_is_soonest(items, now, n - 1);
        let e = items[n - 1];
        if e.event_type is Tap && e.enabled {
            assert(next_tap_spec(items, now, n) is Some);
        }
    }
}

/// Shutting down always leaves the automation stopped, idle and marked to
/// exit, with its timed events untouched.
pub proof fn law_shutdown_stops(c: CoreView, now: u64)
    ensures
        step(c, AutomationCommand::Shutdown, now).0.should_exit,
        !step(c, AutomationCommand::Shutdown, now).0.is_running,
        step(c, AutomationCommand::Shutdown, now).0.state == GameState::Idle,
        step(c, AutomationCommand::Shutdown, now).0.events == c.events,
{
}

/// Stopping always leaves the automation not running and idle, whatever
/// state it was in.
pub proof fn law_stop_idles(c: CoreView, now: u64)
    ensures
        !step(c, AutomationCommand::Stop, now).0.is_running,
        step(c, AutomationCommand::Stop, now).0.state == GameState::Idle,
        step(c, AutomationCommand::Stop, now).0.events == c.events,
        !step(c, AutomationCommand::Stop, now).0.should_exit <==> !c.should_exit,
{
}

/// Without a device, starting changes nothing and reports the missing
/// device; with one, a stopped automation starts running.
pub proof fn law_start_needs_client(c: CoreView, now: u64)
    requires
        !c.is_running,
    ensures
        !c.has_client ==> step(c, AutomationCommand::Start, now) == (
            c,
            seq![AutomationAction::ReportNoClient],
        ),
        c.has_client ==> step(c, AutomationCommand::Start, now).0.is_running
            && step(c, AutomationCommand::Start, now).0.state == GameState::Running,
{
}

/// Pausing running automation and resuming it gives back the state it was
/// in.
pub proof fn law_pause_then_resume(c: CoreView, now: u64, later: u64)
    requires
        c.is_running,
        c.state == GameState::Running,
    ensures
        step(c, AutomationCommand::Pause, now).0.state == GameState::Paused,
        step(step(c, AutomationCommand::Pause, now).0, AutomationCommand::Resume, later).0 == c,
{
}

/// Adding a timed event under a new id and removing that id again gives
/// back the automation state it started from.
pub proof fn law_add_then_remove(c: CoreView, e: TimedEvent, id: String, now: u64)
    requires
        id@ == e.id@,
        !c.events.dom().contains(e.id@),
    ensures
        step(
            step(c, AutomationCommand::AddTimedEvent(e), now).0,
            AutomationCommand::RemoveTimedEvent(id),
            now,
        ).0 == c,
{
    assert(c.events.insert(e.id@, e).remove(id@) =~= c.events);
}

/// Adjusting a tap's interval never takes it outside the allowed bounds:
/// the changed interval lies within the minimum and maximum number of
/// seconds, only taps are adjusted, and every other event is left as it
/// was.
pub proof fn law_adjust_keeps_bounds(c: CoreView, id: String, delta: i64, now: u64, other: Seq<char>)
    ensures
        ({
            let c2 = step(
                c,
                AutomationCommand::AdjustTimedEventInterval { id, delta_seconds: delta },
                now,
            ).0;
            &&& c2.events.dom() == c.events.dom()
            &&& (c2.events.dom().contains(id@) && c2.events[id@] != c.events[id@]) ==> (
            MIN_TAP_INTERVAL_SECONDS * 1000 <= c2.events[id@].interval
                <= MAX_TAP_INTERVAL_SECONDS * 1000)
            &&& (other != id@ && c.events.dom().contains(other)) ==> c2.events[other]
                == c.events[other]
            &&& (c.events.dom().contains(id@) && !(c.events[id@].event_type is Tap)) ==> c2 == c
        }),
{
    let c2 = step(c, AutomationCommand::AdjustTimedEventInterval { id, delta_seconds: delta }, now).0;
    assert(c2.events.dom() =~= c.events.dom());
}

/// Triggering an enabled timed event runs it at once: a screenshot event
/// asks for a screenshot, a tap event asks to tap its point when a device is
/// held, a countdown event asks for nothing of its own; the refreshed event
/// list follows, the event is recorded as run at `now`, and nothing else
/// changes. A missing or disabled event is not run at all.
pub proof fn law_trigger_runs_the_event(c: CoreView, id: String, now: u64)
    ensures
        ({
            let (c2, a) = step(c, AutomationCommand::TriggerTimedEvent(id), now);
            let e = c.events[id@];
            if c.events.dom().contains(id@) && e.enabled {
                &&& a.len() >= 1
                &&& a.last() == AutomationAction::SendTimedEventsList
                &&& (e.event_type is Screenshot ==> a == seq![
                    AutomationAction::TakeScreenshot,
                    AutomationAction::SendTimedEventsList,
                ])
                &&& (e.event_type matches TimedEventType::Tap { x, y } ==> a == if c.has_client {
                    seq![AutomationAction::Tap { x, y }, AutomationAction::SendTimedEventsList]
                } else {
                    seq![AutomationAction::SendTimedEventsList]
                })
                &&& (e.event_type is CountdownUpdate ==> a == seq![
                    AutomationAction::SendTimedEventsList,
                ])
                &&& c2.events.dom() == c.events.dom()
                &&& (e.execution_count < u64::MAX ==> c2.events[id@] == TimedEvent {
                    last_executed: Some(now),
                    execution_count: (e.execution_count + 1) as u64,
                    ..e
                })
                &&& (forall|k: Seq<char>| k != id@ ==> #[trigger] c2.events.get(k) == c.events.get(k))
                &&& c2.state == c.state && c2.is_running == c.is_running
                &&& c2.has_client == c.has_client
            } else {
                c2 == c && a == Seq::<AutomationAction>::empty()
            }
        }),
{
    let (c2, a) = step(c, AutomationCommand::TriggerTimedEvent(id), now);
    let e = c.events[id@];
    if c.events.dom().contains(id@) && e.enabled {
        assert(c2.events.dom() =~= c.events.dom());
        match e.event_type {
            TimedEventType::Screenshot => {
                assert(a =~= seq![
                    AutomationAction::TakeScreenshot,
                    AutomationAction::SendTimedEventsList,
                ]);
            },
            TimedEventType::Tap { x, y } => {
                if c.has_client {
                    assert(a =~= seq![AutomationAction::Tap { x, y }, AutomationAction::SendTimedEventsList]);
                } else {
                    assert(a =~= seq![AutomationAction::SendTimedEventsList]);
                }
            },
            TimedEventType::CountdownUpdate => {
                assert(a =~= seq![AutomationAction::SendTimedEventsList]);
            },
        }
    }
}

// ------------------------------------------------------------------
// Human touches
// ------------------------------------------------------------------

/// Whether a round of timed events goes ahead.
#[derive(Debug, Clone, Copy, PartialEq, Eq, Structural)]
pub enum TouchGate {
    /// A human is touching the screen: the round is skipped; the seconds
    /// left of the touch timeout are reported.
    HumanActive { remaining_secs: Option<u64> },
    /// Nobody is touching the screen: the round goes ahead.
    Proceed,
}

/// With a device, a touch still active at `now` holds timed events back.
pub open spec fn touch_gate_spec(has_client: bool, touch: TouchActivityState, now: u64) -> TouchGate {
    if has_client && touch.active_at(now) {
        TouchGate::HumanActive { remaining_secs: touch.remaining_at(now) }
    } else {
        TouchGate::Proceed
    }
}

/// A touch recorded (or refreshed) at `t1` keeps a human counted as active,
/// and so holds timed events back, until the timeout has passed since `t1`.
pub proof fn law_touch_refresh_holds_events(touch: TouchActivityState, t1: u64, now: u64)
    requires
        t1 <= now,
        (now - t1) < touch.timeout_duration,
    ensures
        (TouchActivityState { last_touch_time: Some(t1), ..touch }).active_at(now),
        touch_gate_spec(true, TouchActivityState { last_touch_time: Some(t1), ..touch }, now) is HumanActive,
{
}

/// Without a recorded touch, or once its timeout has passed, timed events
/// go ahead.
pub proof fn law_no_touch_lets_events_run(has_client: bool, touch: TouchActivityState, now: u64)
    requires
        !touch.active_at(now),
    ensures
        touch_gate_spec(has_client, touch, now) == TouchGate::Proceed,
{
}

impl AutomationCore {
    pub open spec fn wf(&self) -> bool {
        self.timed_events.wf()
    }

    /// An idle automation without a device, running the given timed events.
    pub fn new(timed_events: TimedEvents) -> (r: Self)
        requires
            timed_events.wf(),
        ensures
            r.wf(),
            r@ == (CoreView {
                state: GameState::Idle,
                is_running: false,
                should_exit: false,
                device_disconnected: false,
                last_reconnect_attempt: None,
                has_client: false,
                events: timed_events@,
            }),
    {
        AutomationCore {
            state: GameState::Idle,
            is_running: false,
            should_exit: false,
            device_disconnected: false,
            last_reconnect_attempt: None,
            has_client: false,
            timed_events,
        }
    }

    /// Moves to `new_state`; announces the change in `actions`.
    pub fn change_state(&mut self, new_state: GameState, actions: &mut Vec<AutomationAction>)
        ensures
            final(self)@ == change_state_spec(old(self)@, new_state).0,
            final(actions)@ == old(actions)@ + change_state_spec(old(self)@, new_state).1,
            final(self).timed_events == old(self).timed_events,
    {
        if self.state != new_state {
            self.state = new_state;
            actions.push(AutomationAction::StateChanged(new_state));
        } else {
            assert(old(actions)@ + seq![] =~= old(actions)@);
        }
    }

    /// Decides what a command does at clock time `now`: changes the state
    /// and returns the actions the caller is to perform, in order.
    pub fn process_command(&mut self, command: AutomationCommand, now: u64) -> (r: Vec<
        AutomationAction,
    >)
        requires
            old(self).wf(),
        ensures
            final(self).wf(),
            final(self)@ == step(old(self)@, command, now).0,
            r@ == step(old(self)@, command, now).1,
    {
        let mut actions: Vec<AutomationAction> = Vec::new();
        match command {
            AutomationCommand::Start => {
                if !self.is_running {
                    if !self.has_client {
                        actions.push(AutomationAction::ReportNoClient);
                        return actions;
                    }
                    self.is_running = true;
                    self.change_state(GameState::Running, &mut actions);
                    publish_actions(&mut actions);
                }
            },
            AutomationCommand::Pause => {
                if self.is_running {
                    self.change_state(GameState::Paused, &mut actions);
                }
            },
            AutomationCommand::Resume => {
                if self.is_running && self.state == GameState::Paused {
                    self.change_state(GameState::Running, &mut actions);
                    publish_actions(&mut actions);
                }
            },
            AutomationCommand::Stop => {
                self.is_running = false;
                if self.has_client {
                    actions.push(AutomationAction::StopTouchMonitoring);
                }
                self.change_state(GameState::Idle, &mut actions);
            },
            AutomationCommand::ClearTouchActivity => {
                if self.has_client {
                    actions.push(AutomationAction::ClearTouchActivity);
                }
            },
            AutomationCommand::RegisterTouchActivity => {
                if self.has_client {
                    actions.push(AutomationAction::RegisterTouchActivity);
                }
            },
            AutomationCommand::TakeScreenshot => {
                actions.push(AutomationAction::TakeScreenshot);
            },
            AutomationCommand::TestImageRecognition => {
                actions.push(AutomationAction::TestImageRecognition);
            },
            AutomationCommand::RescanTemplates => {
                actions.push(AutomationAction::RescanTemplates);
            },
            AutomationCommand::AddTimedEvent(event) => {
                self.timed_events.insert(event);
            },
            AutomationCommand::RemoveTimedEvent(id) => {
                self.timed_events.remove(id.as_str());
            },
            AutomationCommand::EnableTimedEvent(id) => {
                if self.timed_events.set_enabled(id.as_str(), true) {
                    actions.push(AutomationAction::SendTimedEventsList);
                }
            },
            AutomationCommand::DisableTimedEvent(id) => {
                if self.timed_events.set_enabled(id.as_str(), false) {
                    actions.push(AutomationAction::SendTimedEventsList);
                }
            },
            AutomationCommand::AdjustTimedEventInterval { id, delta_seconds } => {
                let found = match self.timed_events.get(id.as_str()) {
                    Some(e) => match e.event_type {
                        TimedEventType::Tap { .. } => Some(e.interval),
                        _ => None,
                    },
                    None => None,
                };
                match found {
                    Some(interval) => {
                        let ms = interval / 1000;
                        let current_secs: u64 = if ms > u64::MAX as u128 {
                            u64::MAX
                        } else {
                            ms as u64
                        };
                        let current_i64 = current_secs as i64;
                        let wide = current_i64 as i128 + delta_seconds as i128;
                        let target: i64 = if wide > i64::MAX as i128 {
                            i64::MAX
                        } else if wide < i64::MIN as i128 {
                            i64::MIN
                        } else {
                            wide as i64
                        };
                        let clamped: u64 = if target < MIN_TAP_INTERVAL_SECONDS as i64 {
                            MIN_TAP_INTERVAL_SECONDS
                        } else if target > MAX_TAP_INTERVAL_SECONDS as i64 {
                            MAX_TAP_INTERVAL_SECONDS
                        } else {
                            target as u64
                        };
                        if clamped != current_secs {
                            self.timed_events.set_interval_at(
                                id.as_str(),
                                clamped as u128 * 1000,
                                now,
                            );
                            publish_actions(&mut actions);
                        }
                    },
                    None => {},
                }
            },
            AutomationCommand::TriggerTimedEvent(id) => {
                let found = match self.timed_events.get(id.as_str()) {
                    Some(e) => if e.enabled {
                        Some(e.event_type)
                    } else {
                        None
                    },
                    None => None,
                };
                match found {
                    Some(event_type) => {
                        match event_type {
                            TimedEventType::Screenshot => {
                                actions.push(AutomationAction::TakeScreenshot);
                            },
                            TimedEventType::Tap { x, y } => {
                                if self.has_client {
                                    actions.push(AutomationAction::Tap { x, y });
                                }
                            },
                            TimedEventType::CountdownUpdate => {},
                        }
                        self.timed_events.mark_executed_at(id.as_str(), now);
                        actions.push(AutomationAction::SendTimedEventsList);
                    },
                    None => {},
                }
            },
            AutomationCommand::ListTimedEvents => {
                actions.push(AutomationAction::SendTimedEventsList);
            },
            AutomationCommand::Shutdown => {
                self.should_exit = true;
                self.is_running = false;
                self.change_state(GameState::Idle, &mut actions);
            },
        }
        actions
    }

    /// Whether this round of timed events goes ahead at `now`: with a
    /// device, a human touch still active holds it back and reports the
    /// seconds left of the touch timeout.
    pub fn touch_gate(&self, touch: &TouchActivityState, now: u64) -> (r: TouchGate)
        ensures
            r == touch_gate_spec(self.has_client, *touch, now),
    {
        if self.has_client && touch.is_human_active_at(now) {
            TouchGate::HumanActive { remaining_secs: touch.get_remaining_seconds_at(now) }
        } else {
            TouchGate::Proceed
        }
    }

    /// Whether timed events run: while running and not paused.
    pub fn should_process_timed_events(&self) -> (r: bool)
        ensures
            r == (self.is_running && self.state != GameState::Paused),
    {
        self.is_running && self.state != GameState::Paused
    }

    fn push_due_of_rank(
        &self,
        now: u64,
        rank: u8,
        out: &mut Vec<(String, TimedEventType)>,
    )
        requires
            self.wf(),
        ensures
            id_type_views(final(out)@) == id_type_views(old(out)@) + due_of_rank(
                self.timed_events.items(),
                now,
                rank as int,
            ),
    {
        let items = self.timed_events.as_slice();
        let mut i: usize = 0;
        let ghost start = id_type_views(out@);
        assert(items@.take(0) =~= Seq::<TimedEvent>::empty());
        assert(start + Seq::<(Seq<char>, TimedEventType)>::empty() =~= start);
        while i < items.len()
            invariant
                i <= items.len(),
                items@ == self.timed_events.items(),
                id_type_views(out@) == start + due_of_rank(items@.take(i as int), now, rank as int),
            decreases items.len() - i,
        {
            let e = &items[i];
            proof {
                assert(items@.take(i + 1).drop_last() =~= items@.take(i as int));
                assert(items@.take(i + 1).last() == items@[i as int]);
            }
            if e.is_ready_at(now) && run_rank_exec(e.event_type) == rank {
                let ghost before = out@;
                out.push((e.id.clone(), e.event_type));
                proof {
                    assert(id_type_views(out@) =~= id_type_views(before).push((e.id@, e.event_type)));
                }
            }
            i += 1;
        }
        assert(items@.take(items@.len() as int) =~= items@);
    }

    /// The events due at clock time `now`, as (id, type): screenshots first,
    /// then countdown updates, then taps, each group in table order.
    pub fn due_events(&self, now: u64) -> (r: Vec<(String, TimedEventType)>)
        requires
            self.wf(),
        ensures
            id_type_views(r@) == due_events_spec(self.timed_events.items(), now),
    {
        let mut out: Vec<(String, TimedEventType)> = Vec::new();
        assert(id_type_views(out@) =~= Seq::<(Seq<char>, TimedEventType)>::empty());
        self.push_due_of_rank(now, 0, &mut out);
        self.push_due_of_rank(now, 1, &mut out);
        self.push_due_of_rank(now, 2, &mut out);
        assert(Seq::<(Seq<char>, TimedEventType)>::empty() + due_of_rank(
            self.timed_events.items(),
            now,
            0,
        ) =~= due_of_rank(self.timed_events.items(), now, 0));
        out
    }

    /// The enabled tap due soonest at `now` and the whole seconds until it
    /// is due; the first of equals in table order wins.
    pub fn get_next_tap_info(&self, now: u64) -> (r: Option<(String, u64)>)
        requires
            self.wf(),
        ensures
            match r {
                Some((id, s)) => next_tap_spec(
                    self.timed_events.items(),
                    now,
                    self.timed_events.items().len() as int,
                ) == Some((id@, s)),
                None => next_tap_spec(
                    self.timed_events.items(),
                    now,
                    self.timed_events.items().len() as int,
                ) is None,
            },
    {
        let items = self.timed_events.as_slice();
        let mut best: Option<(String, u64)> = None;
        let mut i: usize = 0;
        while i < items.len()
            invariant
                i <= items.len(),
                items@ == self.timed_events.items(),
                match best {
                    Some((id, s)) => next_tap_spec(items@, now, i as int) == Some((id@, s)),
                    None => next_tap_spec(items@, now, i as int) is None,
                },
            decreases items.len() - i,
        {
            let e = &items[i];
            let is_tap = match e.event_type {
                TimedEventType::Tap { .. } => true,
                _ => false,
            };
            if is_tap && e.enabled {
                match e.time_until_next_at(now) {
                    Some(ms) => {
                        let q = ms / 1000;
                        let secs: u64 = if q > u64::MAX as u128 {
                            u64::MAX
                        } else {
                            q as u64
                        };
                        assert(secs == secs_until(*e, now));
                        let take = match &best {
                            None => true,
                            Some((_, m)) => secs < *m,
                        };
                        if take {
                            best = Some((e.id.clone(), secs));
                        }
                    },
                    None => {},
                }
            }
            i += 1;
        }
        best
    }

    /// Runs the decision for timed event `id` of type `event_type` at `now`:
    /// the actions to perform, or an error when a tap has no device. On
    /// success the event is recorded as run.
    pub fn execute_timed_event(
        &mut self,
        event_id: &str,
        event_type: TimedEventType,
        now: u64,
    ) -> (r: Result<Vec<AutomationAction>, String>)
        requires
            old(self).wf(),
        ensures
            final(self).wf(),
            event_type is Tap && !old(self).has_client ==> (r matches Err(e) && e@
                == "ADB client not available"@ && final(self)@ == old(self)@),
            !(event_type is Tap && !old(self).has_client) ==> (r matches Ok(a) && final(self)@
                == (CoreView {
                events: mark_executed_spec(old(self)@.events, event_id@, now),
                ..old(self)@
            }) && a@ == match event_type {
                TimedEventType::Screenshot => if old(self).has_client {
                    seq![AutomationAction::TakeScreenshot]
                } else {
                    seq![]
                },
                TimedEventType::Tap { x, y } => seq![AutomationAction::Tap { x, y }],
                TimedEventType::CountdownUpdate => seq![
                    AutomationAction::SendTimedEventsList,
                    AutomationAction::SendTapCountdown,
                ],
            }),
    {
        let mut actions: Vec<AutomationAction> = Vec::new();
        match event_type {
            TimedEventType::Screenshot => {
                if self.has_client {
                    actions.push(AutomationAction::TakeScreenshot);
                }
            },
            TimedEventType::Tap { x, y } => {
                if self.has_client {
                    actions.push(AutomationAction::Tap { x, y });
                } else {
                    return Err(
                        crate::text::from_chars(&to_chars("ADB client not available")),
                    );
                }
            },
            TimedEventType::CountdownUpdate => {
                publish_actions(&mut actions);
                assert(actions@ =~= seq![
                    AutomationAction::SendTimedEventsList,
                    AutomationAction::SendTapCountdown,
                ]);
            },
        }
        self.timed_events.mark_executed_at(event_id, now);
        assert(self@ =~= CoreView {
            events: mark_executed_spec(old(self)@.events, event_id@, now),
            ..old(self)@
        });
        Ok(actions)
    }

    /// Records a failed device operation: when its error means the device
    /// is gone, the automation marks itself disconnected (with an immediate
    /// reconnection attempt due) and returns true.
    pub fn note_operation_error(&mut self, error: &str) -> (r: bool)
        ensures
            r == disconnect_error(error@),
            r ==> final(self)@ == (CoreView {
                device_disconnected: true,
                last_reconnect_attempt: None,
                ..old(self)@
            }),
            !r ==> final(self)@ == old(self)@,
            final(self).timed_events == old(self).timed_events,
    {
        if is_disconnect_error(error) {
            self.device_disconnected = true;
            self.last_reconnect_attempt = None;
            true
        } else {
            false
        }
    }

    /// Records that a timed event failed with `error`: when the device is
    /// gone, the automation pauses, marks itself disconnected and stops the
    /// round of timed events (returns true).
    pub fn fail_timed_event(&mut self, error: &str, actions: &mut Vec<AutomationAction>) -> (r:
        bool)
        ensures
            r == disconnect_error(error@),
            r ==> final(self)@ == (CoreView {
                device_disconnected: true,
                last_reconnect_attempt: None,
                ..change_state_spec(old(self)@, GameState::Paused).0
            }),
            r ==> final(actions)@ == old(actions)@ + change_state_spec(
                old(self)@,
                GameState::Paused,
            ).1,
            !r ==> final(self)@ == old(self)@ && final(actions)@ == old(actions)@,
            final(self).timed_events == old(self).timed_events,
    {
        if is_disconnect_error(error) {
            self.change_state(GameState::Paused, actions);
            self.device_disconnected = true;
            self.last_reconnect_attempt = None;
            true
        } else {
            false
        }
    }

    /// Whether a reconnection attempt is due at `now`: at once after a
    /// disconnect, then once the back-off since the last attempt has passed.
    pub open spec fn reconnect_due(&self, now: u64) -> bool {
        match self.last_reconnect_attempt {
            None => true,
            Some(t) => {
                let e = sat_u64((crate::clock::elapsed_spec(t, now) / 1000) as int);
                e >= backoff_spec(e)
            },
        }
    }

    /// Decides whether to try reconnecting at `now`; an attempt is recorded
    /// as made at `now`.
    pub fn begin_reconnect_check(&mut self, now: u64) -> (r: bool)
        ensures
            r == old(self).reconnect_due(now),
            r ==> final(self)@ == (CoreView { last_reconnect_attempt: Some(now), ..old(self)@ }),
            !r ==> final(self)@ == old(self)@,
            final(self).timed_events == old(self).timed_events,
    {
        let due = match self.last_reconnect_attempt {
            None => true,
            Some(t) => {
                let e = crate::clock::elapsed_millis(t, now) / 1000;
                e >= reconnect_backoff_secs(e)
            },
        };
        if due {
            self.last_reconnect_attempt = Some(now);
        }
        due
    }

    /// Seconds left until the next reconnection attempt at `now` (0 when it
    /// is due).
    pub fn reconnect_wait_secs(&self, now: u64) -> (r: u64)
        ensures
            match self.last_reconnect_attempt {
                None => r == 0,
                Some(t) => {
                    let e = sat_u64((crate::clock::elapsed_spec(t, now) / 1000) as int);
                    r == if backoff_spec(e) >= e {
                        (backoff_spec(e) - e) as u64
                    } else {
                        0
                    }
                },
            },
    {
        match self.last_reconnect_attempt {
            None => 0,
            Some(t) => {
                let e = crate::clock::elapsed_millis(t, now) / 1000;
                let b = reconnect_backoff_secs(e);
                if b >= e {
                    b - e
                } else {
                    0
                }
            },
        }
    }

    /// Records a successful reconnection: the device is connected again and
    /// automation that was running resumes.
    pub fn on_reconnected(&mut self, actions: &mut Vec<AutomationAction>)
        ensures
            ({
                let c = CoreView {
                    device_disconnected: false,
                    last_reconnect_attempt: None,
                    has_client: true,
                    ..old(self)@
                };
                if c.is_running && c.state == GameState::Paused {
                    final(self)@ == change_state_spec(c, GameState::Running).0 && final(actions)@
                        == old(actions)@ + change_state_spec(c, GameState::Running).1
                } else {
                    final(self)@ == c && final(actions)@ == old(actions)@
                }
            }),
            final(self).timed_events == old(self).timed_events,
    {
        self.device_disconnected = false;
        self.last_reconnect_attempt = None;
        self.has_client = true;
        if self.is_running && self.state == GameState::Paused {
            self.change_state(GameState::Running, actions);
        }
    }

    /// Records that the device connection is held (or dropped).
    pub fn set_has_client(&mut self, has_client: bool)
        ensures
            final(self)@ == (CoreView { has_client, ..old(self)@ }),
            final(self).timed_events == old(self).timed_events,
    {
        self.has_client = has_client;
    }
}

} // verus!
