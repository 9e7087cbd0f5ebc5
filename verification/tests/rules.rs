use llama_watch::config::{
    check_threshold, count_triggered, default_auto_connect, default_enabled, default_include_in_safety,
    default_server_interface, default_timeout, default_udp_port, effective_device_name, effective_server_port,
    ComparisonOperator, GroupLogic, SwitchDeviceConfig,
    SwitchLogic,
};
use llama_watch::hold::{elapsed_seconds, HoldState};
use llama_watch::text::{decimal_string, signed_decimal_string, sort_texts, text_less_eq};

#[test]
fn safe_when_true_keeps_comparison() {
    assert!(check_threshold(true, true));
    assert!(!check_threshold(false, true));
}

#[test]
fn safe_when_false_inverts_comparison() {
    assert!(!check_threshold(true, false));
    assert!(check_threshold(false, false));
}

#[test]
fn any_logic_triggers_on_one_source() {
    assert!(SwitchLogic::Any.evaluate(&[false, true, false]));
    assert!(!SwitchLogic::Any.evaluate(&[false, false]));
}

#[test]
fn all_logic_needs_every_source() {
    assert!(SwitchLogic::All.evaluate(&[true, true]));
    assert!(!SwitchLogic::All.evaluate(&[true, false]));
}

#[test]
fn min_of_logic_counts_sources() {
    let logic = SwitchLogic::MinOf { count: 2 };
    assert!(logic.evaluate(&[true, false, true]));
    assert!(!logic.evaluate(&[true, false, false]));
}

#[test]
fn no_sources_never_trigger() {
    assert!(!SwitchLogic::Any.evaluate(&[]));
    assert!(!SwitchLogic::All.evaluate(&[]));
    assert!(!SwitchLogic::MinOf { count: 0 }.evaluate(&[]));
}

#[test]
fn min_of_zero_triggers_with_sources() {
    assert!(SwitchLogic::MinOf { count: 0 }.evaluate(&[false]));
}

#[test]
fn logic_descriptions() {
    assert_eq!(SwitchLogic::Any.description(), "ANY source triggered");
    assert_eq!(SwitchLogic::All.description(), "ALL sources triggered");
    assert_eq!(SwitchLogic::MinOf { count: 3 }.description(), "at least 3 sources triggered");
}

#[test]
fn group_logic_matches_switch_logic() {
    assert!(GroupLogic::Any.evaluate_unsafe(&[false, true]));
    assert!(!GroupLogic::All.evaluate_unsafe(&[false, true]));
    assert!(GroupLogic::MinOf { count: 1 }.evaluate_unsafe(&[false, true]));
    assert!(!GroupLogic::Any.evaluate_unsafe(&[]));
}

#[test]
fn counts_triggered_states() {
    assert_eq!(count_triggered(&[true, false, true, true]), 3);
    assert_eq!(count_triggered(&[]), 0);
}

#[test]
fn configuration_defaults() {
    assert_eq!(default_timeout(), 300);
    assert!(default_enabled());
    assert!(default_include_in_safety());
    assert_eq!(default_server_interface(), "127.0.0.1");
    assert_eq!(default_udp_port(), 50222);
    assert!(default_auto_connect());
    let d = SwitchDeviceConfig::default();
    assert!(d.enabled && d.auto_connect && d.name.is_none() && d.description.is_none());
    assert!(ComparisonOperator::default() == ComparisonOperator::GreaterThan);
    assert!(SwitchLogic::default() == SwitchLogic::Any);
}

#[test]
fn elapsed_seconds_counts_forward() {
    assert_eq!(elapsed_seconds(100, 40), 60);
    assert_eq!(elapsed_seconds(40, 40), 0);
}

#[test]
fn elapsed_seconds_wraps_backwards() {
    assert_eq!(elapsed_seconds(40, 41), u64::MAX);
}

fn held(current: bool) -> HoldState {
    HoldState { current, pending: None, pending_since: None }
}

#[test]
fn first_reading_takes_effect() {
    let mut h = held(false);
    h.apply_reading(true, 10, 60, true);
    assert!(h.current);
    assert!(h.pending.is_none());
}

#[test]
fn hold_time_delays_change() {
    let mut h = held(true);
    h.apply_reading(false, 100, 60, false);
    assert!(h.current);
    assert_eq!(h.pending, Some(false));
    assert_eq!(h.pending_since, Some(100));
    h.apply_reading(false, 130, 60, false);
    assert!(h.current);
    h.apply_reading(false, 160, 60, false);
    assert!(!h.current);
    assert!(h.pending.is_none() && h.pending_since.is_none());
}

#[test]
fn agreeing_reading_cancels_pending() {
    let mut h = held(true);
    h.apply_reading(false, 100, 60, false);
    h.apply_reading(true, 110, 60, false);
    assert!(h.current);
    assert!(h.pending.is_none());
}

#[test]
fn zero_hold_is_immediate() {
    let mut h = held(true);
    h.apply_reading(false, 100, 0, false);
    assert!(!h.current);
}

#[test]
fn switch_evaluation_without_hold_keeps_pending() {
    let mut h = HoldState { current: false, pending: None, pending_since: None };
    h.apply_switch_evaluation(true, 5, 0);
    assert!(h.current);
    let mut g = HoldState { current: false, pending: None, pending_since: None };
    g.apply_switch_evaluation(true, 5, 30);
    assert!(!g.current);
    assert_eq!(g.pending, Some(true));
}

#[test]
fn read_commits_elapsed_pending_change() {
    let mut h = HoldState { current: true, pending: Some(false), pending_since: Some(0) };
    h.commit_elapsed(59, 60);
    assert!(h.current);
    h.commit_elapsed(60, 60);
    assert!(!h.current);
    assert!(h.pending.is_none());
}

#[test]
fn decimal_rendering() {
    assert_eq!(decimal_string(0), "0");
    assert_eq!(decimal_string(1234567890), "1234567890");
    assert_eq!(signed_decimal_string(-1025), "-1025");
    assert_eq!(signed_decimal_string(i64::MIN), "-9223372036854775808");
}

#[test]
fn text_order_and_sorting() {
    assert!(text_less_eq("abc", "abd"));
    assert!(text_less_eq("ab", "abc"));
    assert!(!text_less_eq("b", "abc"));
    let v = vec!["pear".to_string(), "Apple".to_string(), "apple".to_string(), "fig".to_string()];
    let sorted = sort_texts(&v);
    assert_eq!(sorted, vec!["Apple", "apple", "fig", "pear"]);
}

#[test]
fn server_port_and_device_name_defaults() {
    assert_eq!(effective_server_port(0), 8080);
    assert_eq!(effective_server_port(11111), 11111);
    assert_eq!(effective_device_name(""), "LLAMA Safety Monitor");
    assert_eq!(effective_device_name("Roof"), "Roof");
}
