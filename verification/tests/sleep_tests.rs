use ouro::sleep::{format_duration, parse_sleep_args, SleepMode, SleepState};
use ouro::tools::{ArgValue, ToolArgs};

fn args(items: Vec<(&str, ArgValue)>) -> ToolArgs {
    ToolArgs { entries: items.into_iter().map(|(k, v)| (k.to_string(), v)).collect() }
}

#[test]
fn new_sets_active_true() {
    let state = SleepState::new(SleepMode::Manual, 60, 0);
    assert!(state.active);
    assert!(state.wake_reason.is_none());
}

#[test]
fn remaining_display_timer_mode() {
    let state = SleepState::new(SleepMode::Timer(120), 120, 0);
    let display = state.remaining_display(0);
    assert!(display.contains('m'), "Timer display should contain minutes: got '{display}'");
}

#[test]
fn remaining_display_timer_expired() {
    let state = SleepState::new(SleepMode::Timer(2), 2, 0);
    assert_eq!(state.remaining_display(5_000), "Timer expired");
}

#[test]
fn remaining_display_event_mode() {
    let state = SleepState::new(SleepMode::Event { agent_id: "abc123".to_string() }, 3600, 0);
    assert_eq!(state.remaining_display(0), "Waiting: agent abc123");
}

#[test]
fn remaining_display_manual_mode() {
    let state = SleepState::new(SleepMode::Manual, 3600, 0);
    assert_eq!(state.remaining_display(0), "Manual pause");
}

#[test]
fn is_expired_returns_true_after_max_duration() {
    let state = SleepState::new(SleepMode::Manual, 1, 0);
    assert!(state.is_expired(1_500));
}

#[test]
fn is_expired_returns_false_before_max_duration() {
    let state = SleepState::new(SleepMode::Manual, 3600, 0);
    assert!(!state.is_expired(5));
}

#[test]
fn wake_sets_active_false_and_reason() {
    let mut state = SleepState::new(SleepMode::Manual, 60, 0);
    assert!(state.active);

    state.wake("user_resumed");
    assert!(!state.active);
    assert_eq!(state.wake_reason.as_deref(), Some("user_resumed"));
}

#[test]
fn elapsed_increases_over_time() {
    let state = SleepState::new(SleepMode::Manual, 3600, 100);
    let e1 = state.elapsed_ms(105);
    let e2 = state.elapsed_ms(150);
    assert!(e2 > e1);
}

#[test]
fn parse_sleep_args_valid_timer() {
    let a = args(vec![("mode", ArgValue::AStr("timer".to_string())), ("duration_secs", ArgValue::AUInt(30))]);
    let state = parse_sleep_args(&a, 3600, 0).expect("should parse");
    assert!(state.active);
    assert!(matches!(state.mode, SleepMode::Timer(d) if d == 30));
    assert_eq!(state.max_duration_secs, 30);
}

#[test]
fn parse_sleep_args_valid_event() {
    let a = args(vec![("mode", ArgValue::AStr("event".to_string())), ("agent_id", ArgValue::AStr("sub-001".to_string()))]);
    let state = parse_sleep_args(&a, 3600, 0).expect("should parse");
    assert!(state.active);
    assert!(matches!(&state.mode, SleepMode::Event { agent_id } if agent_id == "sub-001"));
}

#[test]
fn parse_sleep_args_valid_manual() {
    let a = args(vec![("mode", ArgValue::AStr("manual".to_string()))]);
    let state = parse_sleep_args(&a, 3600, 0).expect("should parse");
    assert!(state.active);
    assert!(matches!(state.mode, SleepMode::Manual));
}

#[test]
fn parse_sleep_args_missing_mode_returns_error() {
    let a = args(vec![("duration_secs", ArgValue::AUInt(30))]);
    let result = parse_sleep_args(&a, 3600, 0);
    assert!(result.is_err());
    assert!(result.unwrap_err().contains("missing required 'mode'"));
}

#[test]
fn parse_sleep_args_timer_missing_duration_returns_error() {
    let a = args(vec![("mode", ArgValue::AStr("timer".to_string()))]);
    let result = parse_sleep_args(&a, 3600, 0);
    assert!(result.is_err());
    assert!(result.unwrap_err().contains("duration_secs"));
}

#[test]
fn parse_sleep_args_timer_zero_duration_returns_error() {
    let a = args(vec![("mode", ArgValue::AStr("timer".to_string())), ("duration_secs", ArgValue::AUInt(0))]);
    let result = parse_sleep_args(&a, 3600, 0);
    assert!(result.is_err());
    assert!(result.unwrap_err().contains("greater than 0"));
}

#[test]
fn parse_sleep_args_event_missing_agent_id_returns_error() {
    let a = args(vec![("mode", ArgValue::AStr("event".to_string()))]);
    let result = parse_sleep_args(&a, 3600, 0);
    assert!(result.is_err());
    assert!(result.unwrap_err().contains("agent_id"));
}

#[test]
fn parse_sleep_args_event_empty_agent_id_returns_error() {
    let a = args(vec![("mode", ArgValue::AStr("event".to_string())), ("agent_id", ArgValue::AStr(String::new()))]);
    let result = parse_sleep_args(&a, 3600, 0);
    assert!(result.is_err());
    assert!(result.unwrap_err().contains("must not be empty"));
}

#[test]
fn parse_sleep_args_unknown_mode_returns_error() {
    let a = args(vec![("mode", ArgValue::AStr("hibernate".to_string()))]);
    let result = parse_sleep_args(&a, 3600, 0);
    assert!(result.is_err());
    assert!(result.unwrap_err().contains("unknown mode"));
}

#[test]
fn parse_sleep_args_clamps_to_max_duration() {
    let a = args(vec![("mode", ArgValue::AStr("timer".to_string())), ("duration_secs", ArgValue::AUInt(7200))]);
    let state = parse_sleep_args(&a, 3600, 0).expect("should parse");
    assert_eq!(state.max_duration_secs, 3600);
    assert!(matches!(state.mode, SleepMode::Timer(d) if d == 7200));
}

#[test]
fn format_duration_hours() {
    assert_eq!(format_duration(3661), "1h 1m 1s");
}

#[test]
fn format_duration_minutes() {
    assert_eq!(format_duration(154), "2m 34s");
}

#[test]
fn format_duration_seconds_only() {
    assert_eq!(format_duration(42), "42s");
}

#[test]
fn format_duration_zero() {
    assert_eq!(format_duration(0), "0s");
}
