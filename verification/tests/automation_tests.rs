use android_adb_run::game_automation::config::{
    build_timed_events, clamp_tap_interval, TapEventConfig, TimedEventsConfig,
};
use android_adb_run::game_automation::events::TimedEvents;
use android_adb_run::game_automation::fsm::{
    is_disconnect_error, reconnect_backoff_secs, AutomationAction, AutomationCore,
};
use android_adb_run::game_automation::types::{
    AutomationCommand, GameState, TimedEvent, TimedEventType, MAX_TAP_INTERVAL_SECONDS,
    MIN_TAP_INTERVAL_SECONDS,
};
use android_adb_run::adb::types::TouchActivityState;
use android_adb_run::game_automation::fsm::TouchGate;
use std::collections::HashMap;

// ------------------------------------------------------------------
// Timed events
// ------------------------------------------------------------------

#[test]
fn test_timed_event_interval_tracking() {
    let mut event = TimedEvent::new_tap_seconds("test_tap".to_string(), 100, 100, 2);

    assert!(event.is_ready());
    let time_until = event.time_until_next().unwrap();
    assert_eq!(time_until / 1000, 0, "Should be ready immediately");

    event.mark_executed();

    assert!(!event.is_ready());

    let remaining = event.time_until_next().unwrap();
    let remaining_secs = remaining / 1000;
    assert!(remaining_secs <= 2, "Expected ~2s remaining, got {}s", remaining_secs);
    assert!(remaining_secs > 0, "Expected ~2s remaining, got {}s", remaining_secs);
}

#[test]
fn test_multiple_timed_events() {
    let mut events = HashMap::new();

    events.insert(
        "event1".to_string(),
        TimedEvent::new_tap_seconds("event1".to_string(), 100, 100, 5),
    );
    events.insert(
        "event2".to_string(),
        TimedEvent::new_tap_seconds("event2".to_string(), 200, 200, 10),
    );

    assert!(events.get("event1").unwrap().is_ready());
    assert!(events.get("event2").unwrap().is_ready());

    events.get_mut("event1").unwrap().mark_executed();

    assert!(!events.get("event1").unwrap().is_ready());
    assert!(events.get("event2").unwrap().is_ready());

    let remaining1 = events.get("event1").unwrap().time_until_next().unwrap();
    assert!(remaining1 / 1000 <= 5, "Event1 interval incorrect");

    events.get_mut("event2").unwrap().mark_executed();
    let remaining2 = events.get("event2").unwrap().time_until_next().unwrap();
    assert!(remaining2 / 1000 <= 10, "Event2 interval incorrect");
    assert!(remaining2 > remaining1, "Event2 should have longer interval");
}

#[test]
fn constructors_give_intervals_in_milliseconds() {
    assert_eq!(TimedEvent::new_screenshot(3).interval, 3_000);
    assert_eq!(TimedEvent::new_screenshot_minutes(2).interval, 120_000);
    assert_eq!(TimedEvent::new_screenshot_hours(1).interval, 3_600_000);
    assert_eq!(TimedEvent::new_screenshot_millis(250).interval, 250);
    assert_eq!(TimedEvent::new_tap_minutes("t".to_string(), 1, 2, 3).interval, 180_000);
    assert_eq!(TimedEvent::new_tap_hours("t".to_string(), 1, 2, 2).interval, 7_200_000);
    assert_eq!(TimedEvent::new_tap_millis("t".to_string(), 1, 2, 40).interval, 40);
    assert_eq!(TimedEvent::new_countdown_update(1).interval, 1_000);
    assert_eq!(TimedEvent::new_countdown_update_minutes(1).interval, 60_000);
    let shot = TimedEvent::new_screenshot(1);
    assert_eq!(shot.id, "screenshot");
    assert_eq!(shot.event_type, TimedEventType::Screenshot);
    assert!(shot.enabled && shot.repeating && shot.last_executed.is_none());
    assert_eq!(TimedEvent::new_countdown_update(1).id, "countdown_update");
}

#[test]
fn event_readiness_on_a_given_clock() {
    let mut e = TimedEvent::new_tap("tap".to_string(), 5, 6, 1_000);
    assert!(e.is_ready_at(50));
    assert_eq!(e.time_until_next_at(50), Some(0));
    e.mark_executed_at(100);
    assert_eq!(e.execution_count, 1);
    assert!(!e.is_ready_at(1_099));
    assert_eq!(e.time_until_next_at(600), Some(500));
    assert!(e.is_ready_at(1_100));
    assert_eq!(e.get_next_execution_time_at(600), Some(1_100));
    e.enabled = false;
    assert!(!e.is_ready_at(5_000));
    assert_eq!(e.time_until_next_at(5_000), None);
    assert_eq!(e.get_next_execution_time_at(5_000), None);
}

#[test]
fn set_interval_restarts_the_wait() {
    let mut e = TimedEvent::new_tap("tap".to_string(), 5, 6, 1_000);
    e.set_interval_at(5_000, 2_000);
    assert_eq!(e.interval, 5_000);
    assert_eq!(e.last_executed, Some(2_000));
    assert_eq!(e.time_until_next_at(3_000), Some(4_000));
}

#[test]
fn events_equal_whatever_their_last_run() {
    let a = TimedEvent::new_tap("t".to_string(), 1, 2, 10);
    let mut b = a.clone();
    b.last_executed = Some(7);
    assert!(a == b);
    b.enabled = false;
    assert!(a != b);
}

#[test]
fn timed_events_table() {
    let mut t = TimedEvents::new();
    t.insert(TimedEvent::new_tap("a".to_string(), 1, 1, 10));
    t.insert(TimedEvent::new_tap("b".to_string(), 2, 2, 20));
    t.insert(TimedEvent::new_tap("a".to_string(), 3, 3, 30));
    assert_eq!(t.len(), 2);
    assert_eq!(t.get("a").unwrap().event_type, TimedEventType::Tap { x: 3, y: 3 });
    assert!(t.contains("b"));
    assert!(t.set_enabled("b", false));
    assert!(!t.get("b").unwrap().enabled);
    assert!(t.remove("b"));
    assert!(!t.remove("b"));
    assert!(!t.contains("b"));
    assert_eq!(t.values().len(), 1);
}

// ------------------------------------------------------------------
// Configuration
// ------------------------------------------------------------------

#[test]
fn default_config_builds_five_events() {
    let events = build_timed_events(TimedEventsConfig::default());
    assert_eq!(events.len(), 5);
    assert_eq!(events.get("screenshot").unwrap().interval, 600_000);
    assert_eq!(events.get("countdown_update").unwrap().interval, 1_000);
    let claim = events.get("claim_1d_tap").unwrap();
    assert_eq!(claim.event_type, TimedEventType::Tap { x: 350, y: 628 });
    assert_eq!(claim.interval, 15_000);
}

#[test]
fn configured_tap_intervals_are_clamped() {
    let config = TimedEventsConfig {
        screenshot_interval_minutes: 1,
        countdown_interval_seconds: 2,
        taps: vec![
            TapEventConfig { id: "fast".to_string(), x: 1, y: 2, interval_seconds: 1, enabled: true },
            TapEventConfig {
                id: "slow".to_string(),
                x: 3,
                y: 4,
                interval_seconds: 100_000,
                enabled: false,
            },
        ],
    };
    let events = build_timed_events(config);
    assert_eq!(events.get("fast").unwrap().interval, 5_000);
    assert_eq!(events.get("slow").unwrap().interval, 21_600_000);
    assert!(!events.get("slow").unwrap().enabled);
    assert_eq!(clamp_tap_interval(0), MIN_TAP_INTERVAL_SECONDS);
    assert_eq!(clamp_tap_interval(60), 60);
    assert_eq!(clamp_tap_interval(u64::MAX), MAX_TAP_INTERVAL_SECONDS);
}

// ------------------------------------------------------------------
// Disconnect errors and reconnection
// ------------------------------------------------------------------

#[test]
fn test_is_disconnect_error_clse_protocol_desync() {
    let protocol_desync_errors = [
        "ADB protocol desync (CLSE error) - connection needs to be re-established: Command 'input tap' failed with protocol error: ADB request failed - wrong command CLSE",
        "ADB protocol desync (CLSE error) - connection needs to be re-established: Command 'screencap -p' failed with protocol error",
        "PROTOCOL DESYNC - reconnection needed",
        "❌ Tap failed (PROTOCOL DESYNC - reconnection needed): error at (350,628)",
        "Command 'input tap' failed with CLSE error",
        "screencap -p command failed: CLSE",
    ];
    for error in protocol_desync_errors {
        assert!(is_disconnect_error(error), "Should detect protocol desync as disconnect: {}", error);
    }

    let harmless_clse_errors = ["CLSE", "Received CLSE packet"];
    for error in harmless_clse_errors {
        assert!(!is_disconnect_error(error), "Should NOT detect harmless CLSE as disconnect: {}", error);
    }

    let standard_disconnect_errors = [
        "device offline",
        "device not found",
        "no devices",
        "connection refused",
        "broken pipe",
        "connection reset",
        "no write endpoint",
    ];
    for error in standard_disconnect_errors {
        assert!(is_disconnect_error(error), "Should detect standard disconnect: {}", error);
    }
}

#[test]
fn ordinary_errors_are_not_disconnects() {
    assert!(!is_disconnect_error("Tap failed: coordinates out of range"));
    assert!(is_disconnect_error("DEVICE OFFLINE"));
}

#[test]
fn backoff_doubles_then_caps() {
    assert_eq!(reconnect_backoff_secs(0), 1);
    assert_eq!(reconnect_backoff_secs(9), 1);
    assert_eq!(reconnect_backoff_secs(10), 2);
    assert_eq!(reconnect_backoff_secs(25), 4);
    assert_eq!(reconnect_backoff_secs(35), 8);
    assert_eq!(reconnect_backoff_secs(40), 16);
    assert_eq!(reconnect_backoff_secs(u64::MAX), 16);
}

// ------------------------------------------------------------------
// The automation's decisions
// ------------------------------------------------------------------

fn core_with_tap() -> AutomationCore {
    let mut events = TimedEvents::new();
    events.insert(TimedEvent::new_tap_seconds("claim".to_string(), 10, 20, 60));
    AutomationCore::new(events)
}

#[test]
fn start_without_device_reports_it() {
    let mut core = core_with_tap();
    let actions = core.process_command(AutomationCommand::Start, 0);
    assert_eq!(actions, vec![AutomationAction::ReportNoClient]);
    assert!(!core.is_running);
    assert_eq!(core.state, GameState::Idle);
}

#[test]
fn start_pause_resume_stop() {
    let mut core = core_with_tap();
    core.set_has_client(true);
    assert_eq!(
        core.process_command(AutomationCommand::Start, 0),
        vec![
            AutomationAction::StateChanged(GameState::Running),
            AutomationAction::SendTimedEventsList,
            AutomationAction::SendTapCountdown,
        ]
    );
    assert!(core.should_process_timed_events());
    assert_eq!(
        core.process_command(AutomationCommand::Pause, 1),
        vec![AutomationAction::StateChanged(GameState::Paused)]
    );
    assert!(!core.should_process_timed_events());
    assert_eq!(
        core.process_command(AutomationCommand::Resume, 2),
        vec![
            AutomationAction::StateChanged(GameState::Running),
            AutomationAction::SendTimedEventsList,
            AutomationAction::SendTapCountdown,
        ]
    );
    assert_eq!(
        core.process_command(AutomationCommand::Stop, 3),
        vec![
            AutomationAction::StopTouchMonitoring,
            AutomationAction::StateChanged(GameState::Idle),
        ]
    );
    assert!(!core.is_running);
}

#[test]
fn shutdown_stops_and_exits() {
    let mut core = core_with_tap();
    core.set_has_client(true);
    core.process_command(AutomationCommand::Start, 0);
    core.process_command(AutomationCommand::Shutdown, 1);
    assert!(core.should_exit);
    assert!(!core.is_running);
    assert_eq!(core.state, GameState::Idle);
}

#[test]
fn adding_then_removing_an_event_restores_the_table() {
    let mut core = core_with_tap();
    let before = core.timed_events.len();
    core.process_command(
        AutomationCommand::AddTimedEvent(TimedEvent::new_tap_seconds("x".to_string(), 1, 1, 9)),
        0,
    );
    assert_eq!(core.timed_events.len(), before + 1);
    core.process_command(AutomationCommand::RemoveTimedEvent("x".to_string()), 0);
    assert_eq!(core.timed_events.len(), before);
    assert!(core.timed_events.contains("claim"));
}

#[test]
fn adjusting_a_tap_stays_within_bounds() {
    let mut core = core_with_tap();
    let a = core.process_command(
        AutomationCommand::AdjustTimedEventInterval { id: "claim".to_string(), delta_seconds: -1000 },
        42,
    );
    assert_eq!(
        a,
        vec![AutomationAction::SendTimedEventsList, AutomationAction::SendTapCountdown]
    );
    let e = core.timed_events.get("claim").unwrap();
    assert_eq!(e.interval, MIN_TAP_INTERVAL_SECONDS as u128 * 1000);
    assert_eq!(e.last_executed, Some(42));
    core.process_command(
        AutomationCommand::AdjustTimedEventInterval { id: "claim".to_string(), delta_seconds: i64::MAX },
        50,
    );
    assert_eq!(
        core.timed_events.get("claim").unwrap().interval,
        MAX_TAP_INTERVAL_SECONDS as u128 * 1000
    );
    let none = core.process_command(
        AutomationCommand::AdjustTimedEventInterval { id: "claim".to_string(), delta_seconds: 5 },
        60,
    );
    assert!(none.is_empty());
}

#[test]
fn enable_disable_and_trigger() {
    let mut core = core_with_tap();
    assert_eq!(
        core.process_command(AutomationCommand::DisableTimedEvent("claim".to_string()), 0),
        vec![AutomationAction::SendTimedEventsList]
    );
    assert!(core
        .process_command(AutomationCommand::TriggerTimedEvent("claim".to_string()), 0)
        .is_empty());
    core.process_command(AutomationCommand::EnableTimedEvent("claim".to_string()), 0);
    core.set_has_client(true);
    assert_eq!(
        core.process_command(AutomationCommand::TriggerTimedEvent("claim".to_string()), 7),
        vec![AutomationAction::Tap { x: 10, y: 20 }, AutomationAction::SendTimedEventsList]
    );
    let e = core.timed_events.get("claim").unwrap();
    assert_eq!(e.execution_count, 1);
    assert_eq!(e.last_executed, Some(7));
    assert!(core
        .process_command(AutomationCommand::EnableTimedEvent("missing".to_string()), 0)
        .is_empty());
}

#[test]
fn touch_commands_need_a_device() {
    let mut core = core_with_tap();
    assert!(core.process_command(AutomationCommand::ClearTouchActivity, 0).is_empty());
    core.set_has_client(true);
    assert_eq!(
        core.process_command(AutomationCommand::RegisterTouchActivity, 0),
        vec![AutomationAction::RegisterTouchActivity]
    );
    assert_eq!(
        core.process_command(AutomationCommand::TakeScreenshot, 0),
        vec![AutomationAction::TakeScreenshot]
    );
    assert_eq!(
        core.process_command(AutomationCommand::ListTimedEvents, 0),
        vec![AutomationAction::SendTimedEventsList]
    );
}

#[test]
fn due_events_run_screenshots_first() {
    let mut events = TimedEvents::new();
    events.insert(TimedEvent::new_tap_seconds("tap".to_string(), 1, 2, 60));
    events.insert(TimedEvent::new_countdown_update(1));
    events.insert(TimedEvent::new_screenshot(600));
    let core = AutomationCore::new(events);
    let due = core.due_events(0);
    let ids: Vec<&str> = due.iter().map(|(id, _)| id.as_str()).collect();
    assert_eq!(ids, vec!["screenshot", "countdown_update", "tap"]);
}

#[test]
fn executing_a_tap_without_device_fails() {
    let mut core = core_with_tap();
    let r = core.execute_timed_event("claim", TimedEventType::Tap { x: 10, y: 20 }, 5);
    assert_eq!(r, Err("ADB client not available".to_string()));
    assert_eq!(core.timed_events.get("claim").unwrap().execution_count, 0);
    core.set_has_client(true);
    let ok = core.execute_timed_event("claim", TimedEventType::Tap { x: 10, y: 20 }, 5);
    assert_eq!(ok, Ok(vec![AutomationAction::Tap { x: 10, y: 20 }]));
    assert_eq!(core.timed_events.get("claim").unwrap().last_executed, Some(5));
}

#[test]
fn next_tap_is_the_soonest_enabled_tap() {
    let mut events = TimedEvents::new();
    events.insert(TimedEvent::new_tap_seconds("slow".to_string(), 1, 1, 120));
    events.insert(TimedEvent::new_tap_seconds("fast".to_string(), 2, 2, 30));
    let mut core = AutomationCore::new(events);
    core.set_has_client(true);
    core.execute_timed_event("slow", TimedEventType::Tap { x: 1, y: 1 }, 0).unwrap();
    core.execute_timed_event("fast", TimedEventType::Tap { x: 2, y: 2 }, 0).unwrap();
    assert_eq!(core.get_next_tap_info(10_000), Some(("fast".to_string(), 20)));
    core.process_command(AutomationCommand::DisableTimedEvent("fast".to_string()), 0);
    assert_eq!(core.get_next_tap_info(10_000), Some(("slow".to_string(), 110)));
}

#[test]
fn disconnect_during_timed_event_pauses() {
    let mut core = core_with_tap();
    core.set_has_client(true);
    core.process_command(AutomationCommand::Start, 0);
    let mut actions = Vec::new();
    assert!(core.fail_timed_event("device offline", &mut actions));
    assert_eq!(actions, vec![AutomationAction::StateChanged(GameState::Paused)]);
    assert!(core.device_disconnected);
    let mut other = Vec::new();
    assert!(!core.fail_timed_event("tap out of range", &mut other));
    assert!(other.is_empty());
}

#[test]
fn reconnection_is_retried_with_backoff_and_resumes() {
    let mut core = core_with_tap();
    core.set_has_client(true);
    core.process_command(AutomationCommand::Start, 0);
    assert!(core.note_operation_error("broken pipe"));
    assert!(core.begin_reconnect_check(1_000));
    assert!(!core.begin_reconnect_check(1_500));
    assert_eq!(core.reconnect_wait_secs(1_500), 1);
    assert!(core.begin_reconnect_check(2_000));
    let mut actions = Vec::new();
    core.process_command(AutomationCommand::Pause, 2_100);
    core.on_reconnected(&mut actions);
    assert!(!core.device_disconnected);
    assert_eq!(actions, vec![AutomationAction::StateChanged(GameState::Running)]);
}

#[test]
fn human_touch_holds_timed_events_back() {
    let mut core = core_with_tap();
    let mut touch = TouchActivityState::new_with_duration(100);
    touch.mark_touch_activity_at(1_000);
    assert_eq!(core.touch_gate(&touch, 1_050), TouchGate::Proceed, "No device, no gate");
    core.set_has_client(true);
    assert_eq!(core.touch_gate(&touch, 1_050), TouchGate::HumanActive { remaining_secs: Some(0) });
    touch.mark_touch_activity_at(1_050);
    assert_eq!(core.touch_gate(&touch, 1_125), TouchGate::HumanActive { remaining_secs: Some(0) });
    assert_eq!(core.touch_gate(&touch, 1_150), TouchGate::Proceed);
}

#[test]
fn next_run_is_now_plus_wait() {
    let mut e = TimedEvent::new_tap("t".to_string(), 1, 1, 1_000);
    assert_eq!(e.get_next_execution_time_at(300), Some(300));
    e.mark_executed_at(100);
    assert_eq!(e.get_next_execution_time_at(400), Some(400 + e.time_until_next_at(400).unwrap()));
}
