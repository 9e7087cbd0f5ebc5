use llama_watch::config::{GroupLogic, MonitorGroupConfig};
use llama_watch::monitors::{
    ascom_reply_error, json_query_path, mqtt_client_id, reads_raw_value, MonitorManager, MonitorRecord, MonitorSettings,
};
use llama_watch::safety::{MonitorState, MqttCandidate};
use llama_watch::weather::{
    MeasurementCheck, SafetyThresholdSettings, WeatherDeviceSettings, WeatherMeasurement, WeatherMonitorManager,
};

fn settings(timeout: u64, hold: u64) -> MonitorSettings {
    MonitorSettings { timeout_seconds: timeout, hold_time_seconds: hold, enabled: true, include_in_safety: true }
}

fn record(id: &str, timeout: u64, hold: u64) -> MonitorRecord {
    MonitorRecord::new(id.to_string(), format!("Monitor {}", id), "MQTT".to_string(), settings(timeout, hold))
}

#[test]
fn new_monitor_waits_for_data() {
    let mut r = record("a", 300, 0);
    let s = r.observe(1000);
    assert!(!s.is_safe);
    assert_eq!(s.error.as_deref(), Some("No data received yet"));
    assert_eq!(s.monitor_type, "MQTT");
}

#[test]
fn monitor_without_timeout_reports_waiting() {
    let mut r = record("a", 0, 0);
    let s = r.observe(1000);
    assert_eq!(s.error.as_deref(), Some("Waiting for initial data"));
}

#[test]
fn reading_sets_safety_at_once_first_time() {
    let mut r = record("a", 300, 60);
    r.record_reading(true, 1000);
    let s = r.observe(1010);
    assert!(s.is_safe);
    assert!(s.error.is_none());
    assert_eq!(s.last_update, Some(1000));
}

#[test]
fn stale_data_times_out_with_message() {
    let mut r = record("a", 300, 0);
    r.record_reading(true, 1000);
    let s = r.observe(1301);
    assert!(!s.is_safe);
    assert_eq!(s.error.as_deref(), Some("Timeout: No data received for 301 seconds (timeout: 300s)"));
    let fresh = r.observe(1300);
    assert!(fresh.is_safe);
}

#[test]
fn pending_change_commits_when_read_after_hold() {
    let mut r = record("a", 0, 60);
    r.record_reading(true, 1000);
    r.record_reading(false, 1010);
    let s = r.observe(1020);
    assert!(s.is_safe);
    assert_eq!(s.pending_is_safe, Some(false));
    let s = r.observe(1070);
    assert!(!s.is_safe);
    assert!(s.pending_is_safe.is_none());
}

#[test]
fn processing_error_makes_monitor_unsafe() {
    let mut r = record("a", 0, 0);
    r.record_reading(true, 1000);
    r.record_processing_error("bad payload".to_string(), 1005);
    let s = r.observe(1006);
    assert!(!s.is_safe);
    assert_eq!(s.error.as_deref(), Some("bad payload"));
    assert_eq!(s.last_update, Some(1005));
}

#[test]
fn poll_error_keeps_last_update() {
    let mut r = record("a", 0, 0);
    r.record_reading(true, 1000);
    r.record_poll_error("HTTP error: 500".to_string());
    let s = r.observe(1001);
    assert!(!s.is_safe);
    assert_eq!(s.last_update, Some(1000));
}

#[test]
fn manager_replaces_monitor_with_same_id() {
    let mut m = MonitorManager::new();
    m.add_monitor(record("a", 0, 0));
    m.add_monitor(record("b", 0, 0));
    m.add_monitor(record("a", 300, 0));
    let all = m.get_statuses(10);
    assert_eq!(all.len(), 2);
    assert_eq!(all[0].id, "a");
    assert_eq!(all[0].error.as_deref(), Some("No data received yet"));
    assert!(m.get_status("b", 10).is_some());
    assert!(m.get_status("c", 10).is_none());
}

#[test]
fn restore_keeps_safety_and_clears_pending() {
    let mut m = MonitorManager::new();
    m.add_monitor(record("a", 0, 60));
    let mut old = record("a", 0, 60);
    old.record_reading(true, 500);
    let old_status = old.observe(501);
    assert!(m.restore_state("a", &old_status).is_some());
    assert!(m.restore_state("zz", &old_status).is_none());
    let s = m.get_status("a", 502).unwrap();
    assert!(s.is_safe);
    assert_eq!(s.last_update, Some(500));
    assert!(s.pending_is_safe.is_none());
    m.shutdown();
    assert!(m.get_statuses(503).is_empty());
}

#[test]
fn json_paths_are_rooted() {
    assert_eq!(json_query_path("Volts.1"), "$.Volts.1");
    assert_eq!(json_query_path("$.nested.value"), "$.nested.value");
    assert_eq!(json_query_path(""), "$.");
}

#[test]
fn raw_values_without_path() {
    assert!(reads_raw_value(&None));
    assert!(reads_raw_value(&Some(String::new())));
    assert!(!reads_raw_value(&Some("Temperature".to_string())));
}

#[test]
fn mqtt_client_ids() {
    assert_eq!(mqtt_client_id("solar1"), "llama-watch-solar1");
}

#[test]
fn ascom_reply_errors() {
    assert!(ascom_reply_error(0, "").is_none());
    assert_eq!(ascom_reply_error(1031, "Not connected").as_deref(), Some("ASCOM error 1031: Not connected"));
    assert_eq!(ascom_reply_error(-5, "x").as_deref(), Some("ASCOM error -5: x"));
}

fn state_with(readings: &[(&str, Option<bool>)]) -> MonitorState {
    let mut st = MonitorState::new();
    let mut alpaca = Vec::new();
    for (id, reading) in readings {
        let mut r = record(id, 0, 0);
        if let Some(v) = reading {
            r.record_reading(*v, 100);
        }
        alpaca.push(r);
    }
    st.initialize(Vec::new(), &Vec::new(), alpaca, Vec::new());
    st
}

#[test]
fn no_monitors_is_unsafe() {
    let mut st = MonitorState::new();
    assert!(!st.is_safe(100, &WeatherMonitorManager::new()));
    assert!(!st.is_ready(100));
}

fn weather_device() -> WeatherDeviceSettings {
    WeatherDeviceSettings {
        device_number: 0,
        name: "Roof".to_string(),
        enabled: true,
        source: llama_watch::config::WeatherDataSource::Tempest { serial_number: None },
        thresholds: Some(SafetyThresholdSettings { enabled: true, timeout_seconds: 300, hold_time_seconds: 0 }),
    }
}

#[test]
fn unsafe_weather_makes_the_system_unsafe() {
    let mut st = state_with(&[("a", Some(true)), ("b", Some(true))]);
    let mut weather = WeatherMonitorManager::new();
    weather.initialize(vec![weather_device()]);
    assert!(st.is_safe(100, &weather));
    let wind = vec![MeasurementCheck { kind: WeatherMeasurement::WindSpeed, is_safe: false, timeout_seconds: None }];
    weather.monitors[0].check_safety(Some(90), 100, &wind);
    assert!(!st.is_safe(100, &weather));
    let calm = vec![MeasurementCheck { kind: WeatherMeasurement::WindSpeed, is_safe: true, timeout_seconds: None }];
    weather.monitors[0].check_safety(Some(95), 100, &calm);
    assert!(st.is_safe(100, &weather));
}

#[test]
fn all_safe_monitors_are_safe() {
    let mut st = state_with(&[("a", Some(true)), ("b", Some(true))]);
    assert!(st.is_safe(100, &WeatherMonitorManager::new()));
    assert!(st.is_ready(100));
    assert!(st.get_safety_comments(100).is_none());
}

#[test]
fn one_unsafe_monitor_is_unsafe() {
    let mut st = state_with(&[("a", Some(true)), ("b", Some(false))]);
    assert!(!st.is_safe(100, &WeatherMonitorManager::new()));
    let comments = st.get_safety_comments(100).unwrap();
    assert_eq!(comments.len(), 1);
    assert_eq!(comments[0].monitor_id, "b");
    assert_eq!(comments[0].reason, "Unsafe condition");
}

#[test]
fn waiting_monitor_holds_unsafe_without_history() {
    let mut st = state_with(&[("a", Some(true)), ("b", None)]);
    assert!(!st.is_safe(100, &WeatherMonitorManager::new()));
    assert!(!st.is_ready(100));
}

#[test]
fn waiting_monitor_reports_unsafe_data_at_once() {
    let mut st = state_with(&[("a", Some(false)), ("b", None)]);
    st.last_stable_safe_state = Some(true);
    assert!(!st.is_safe(100, &WeatherMonitorManager::new()));
}

#[test]
fn waiting_monitor_holds_last_stable_verdict() {
    let mut st = state_with(&[("a", Some(true)), ("b", None)]);
    st.last_stable_safe_state = Some(true);
    assert!(st.is_safe(100, &WeatherMonitorManager::new()));
}

fn group(members: &[&str], logic: GroupLogic) -> MonitorGroupConfig {
    MonitorGroupConfig {
        id: "g".to_string(),
        name: "Group".to_string(),
        description: None,
        members: members.iter().map(|m| m.to_string()).collect(),
        logic,
        enabled: true,
    }
}

#[test]
fn group_with_all_logic_tolerates_one_unsafe_member() {
    let mut st = MonitorState::new();
    let mut a = record("a", 0, 0);
    a.record_reading(false, 100);
    let mut b = record("b", 0, 0);
    b.record_reading(true, 100);
    st.initialize(Vec::new(), &Vec::new(), vec![a, b], vec![group(&["a", "b"], GroupLogic::All)]);
    assert!(st.is_safe(100, &WeatherMonitorManager::new()));
    let gs = st.get_group_statuses(100);
    assert_eq!(gs.len(), 1);
    assert!(gs[0].is_safe);
    assert_eq!(gs[0].member_statuses.len(), 2);
    assert!(!gs[0].member_statuses[0].is_safe);
}

#[test]
fn group_with_any_logic_is_unsafe_on_one_member() {
    let mut st = MonitorState::new();
    let mut a = record("a", 0, 0);
    a.record_reading(false, 100);
    let mut b = record("b", 0, 0);
    b.record_reading(true, 100);
    st.initialize(Vec::new(), &Vec::new(), vec![a, b], vec![group(&["a", "b"], GroupLogic::Any)]);
    assert!(!st.is_safe(100, &WeatherMonitorManager::new()));
}

#[test]
fn mqtt_monitor_needs_known_server() {
    let mut st = MonitorState::new();
    let known = MqttCandidate { record: record("m1", 0, 0), server_id: "broker".to_string() };
    let unknown = MqttCandidate { record: record("m2", 0, 0), server_id: "nowhere".to_string() };
    st.initialize(vec![known, unknown], &vec!["broker".to_string()], Vec::new(), Vec::new());
    let all = st.get_all_statuses(10);
    assert_eq!(all.len(), 1);
    assert_eq!(all[0].id, "m1");
}

#[test]
fn reload_keeps_monitor_state() {
    let mut st = state_with(&[("a", Some(true))]);
    st.reload(100, Vec::new(), &Vec::new(), vec![record("a", 0, 0), record("new", 0, 0)], Vec::new());
    assert_eq!(st.last_stable_safe_state, Some(true));
    let a = st.get_status("a", 101).unwrap();
    assert!(a.is_safe);
    assert_eq!(a.last_update, Some(100));
    let n = st.get_status("new", 101).unwrap();
    assert!(n.last_update.is_none());
    assert!(st.is_safe(101, &WeatherMonitorManager::new()));
}
