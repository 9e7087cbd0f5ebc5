use llama_watch::config::WeatherDataSource;
use llama_watch::logging::{
    is_servable_log_name, log_expired, log_file_expired, log_file_name, log_stem_date, monitor_state_label, newest_first, state_change_label, LogState, OverallChange,
};
use llama_watch::monitors::MonitorStatus;
use llama_watch::requests::{
    alpaca_endpoint_url, configured_devices_url, default_discovery_timeout, discovery_targets, weather_device_response,
};
use llama_watch::weather::{SafetyThresholdSettings, WeatherDeviceSettings};
use llama_watch::web::{status_listing, ConfiguredMonitor};

fn status(id: &str, name: &str, is_safe: bool, enabled: bool) -> MonitorStatus {
    MonitorStatus {
        id: id.to_string(),
        name: name.to_string(),
        monitor_type: "MQTT".to_string(),
        is_safe,
        last_update: Some(10),
        error: None,
        enabled,
        hold_time_seconds: 0,
        pending_is_safe: None,
        pending_since: None,
        include_in_safety: true,
    }
}

#[test]
fn change_labels() {
    assert_eq!(state_change_label(true, false), Some("SAFE -> UNSAFE"));
    assert_eq!(state_change_label(false, true), Some("UNSAFE -> SAFE"));
    assert_eq!(state_change_label(true, true), None);
    assert_eq!(monitor_state_label(false, true), "DISABLED");
    assert_eq!(monitor_state_label(true, true), "SAFE");
    assert_eq!(monitor_state_label(true, false), "UNSAFE");
}

#[test]
fn log_names_that_may_be_served() {
    assert!(is_servable_log_name("llama-watch-2024-01-31.log"));
    assert!(!is_servable_log_name("../llama-watch-2024-01-31.log"));
    assert!(!is_servable_log_name("llama-watch-a/b.log"));
    assert!(!is_servable_log_name("llama-watch-a\\b.log"));
    assert!(!is_servable_log_name("llama-watch-..log"));
    assert!(!is_servable_log_name("other.log"));
    assert!(!is_servable_log_name("llama-watch-2024.txt"));
}

#[test]
fn monitor_changes_are_logged_once() {
    let mut log = LogState::new(true);
    let first = vec![status("a", "A", true, true), status("b", "B", true, true)];
    assert!(log.check_monitor_state_changes(&first).is_empty());
    let second = vec![status("a", "A", false, true), status("b", "B", true, true)];
    let changes = log.check_monitor_state_changes(&second);
    assert_eq!(changes.len(), 1);
    assert_eq!(changes[0].index, 0);
    assert!(changes[0].was_safe && !changes[0].now_safe);
    assert!(log.check_monitor_state_changes(&second).is_empty());
}

#[test]
fn disabled_monitors_are_not_followed() {
    let mut log = LogState::new(true);
    log.check_monitor_state_changes(&vec![status("a", "A", true, false)]);
    assert!(log.last_monitor_states.is_empty());
}

#[test]
fn overall_changes() {
    let mut log = LogState::new(true);
    let s = vec![status("a", "A", true, true)];
    let (_, first) = log.check_overall_state_change(true, &s);
    assert_eq!(first, OverallChange::Initial { safe: true });
    let (_, same) = log.check_overall_state_change(true, &s);
    assert_eq!(same, OverallChange::Unchanged);
    let (_, changed) = log.check_overall_state_change(false, &s);
    assert_eq!(changed, OverallChange::Changed { was_safe: true, now_safe: false });
}

#[test]
fn disabled_log_records_nothing() {
    let mut log = LogState::new(false);
    let (changes, event) = log.check_overall_state_change(true, &vec![status("a", "A", true, true)]);
    assert!(changes.is_empty());
    assert_eq!(event, OverallChange::Unchanged);
    assert!(!log.periodic_status_due(1000));
}

#[test]
fn periodic_summary_every_five_minutes() {
    let mut log = LogState::new(true);
    assert!(log.periodic_status_due(1000));
    assert!(!log.periodic_status_due(1299));
    assert!(log.periodic_status_due(1300));
    log.set_enabled(false);
    assert!(!log.is_enabled());
}

#[test]
fn discovery_defaults_and_dedup() {
    assert_eq!(default_discovery_timeout(), 5);
    let found = vec![
        ("10.0.0.2".to_string(), 11111u16),
        ("10.0.0.3".to_string(), 11111u16),
        ("10.0.0.2".to_string(), 11111u16),
        ("10.0.0.2".to_string(), 80u16),
    ];
    let t = discovery_targets(&found);
    assert_eq!(t, vec![
        ("10.0.0.2".to_string(), 11111u16),
        ("10.0.0.3".to_string(), 11111u16),
        ("10.0.0.2".to_string(), 80u16),
    ]);
}

#[test]
fn endpoint_addresses() {
    assert_eq!(
        alpaca_endpoint_url("192.168.1.100", 11111, "SafetyMonitor", 0, "IsSafe"),
        "http://192.168.1.100:11111/api/v1/safetymonitor/0/issafe"
    );
    assert_eq!(configured_devices_url("h", 80), "http://h:80/management/v1/configureddevices");
}

#[test]
fn weather_device_listing() {
    let d = WeatherDeviceSettings {
        device_number: 4,
        name: "Roof".to_string(),
        enabled: true,
        source: WeatherDataSource::Tempest { serial_number: Some("ST-1".to_string()) },
        thresholds: Some(SafetyThresholdSettings { enabled: false, timeout_seconds: 300, hold_time_seconds: 0 }),
    };
    let r = weather_device_response(&d, "Tempest on roof", true, false);
    assert_eq!(r.source_type, "tempest");
    assert!(r.has_safety_thresholds);
    assert!(!r.safety_enabled);
    assert_eq!(r.description, "Tempest on roof");
}

#[test]
fn status_page_keeps_order_of_equal_names() {
    let active = vec![
        status("x", "Gate", true, true),
        status("y", "alpha", true, true),
        status("z", "gate", true, true),
        status("w", "GATE", true, true),
    ];
    let listing = status_listing(active, &Vec::new(), &Vec::new());
    let ids: Vec<&str> = listing.iter().map(|s| s.id.as_str()).collect();
    assert_eq!(ids, vec!["y", "x", "z", "w"]);
}

#[test]
fn status_page_lists_disabled_monitors_by_name() {
    let active = vec![status("b", "beta", true, true), status("a", "Alpha", false, true)];
    let mqtt = vec![
        ConfiguredMonitor { key: "z".to_string(), name: "zulu".to_string(), enabled: false, hold_time_seconds: 5, include_in_safety: true },
        ConfiguredMonitor { key: "b".to_string(), name: "beta".to_string(), enabled: false, hold_time_seconds: 0, include_in_safety: true },
    ];
    let alpaca = vec![
        ConfiguredMonitor { key: "c".to_string(), name: "Charlie".to_string(), enabled: false, hold_time_seconds: 0, include_in_safety: false },
        ConfiguredMonitor { key: "d".to_string(), name: "delta".to_string(), enabled: true, hold_time_seconds: 0, include_in_safety: true },
    ];
    let listing = status_listing(active, &mqtt, &alpaca);
    let names: Vec<&str> = listing.iter().map(|s| s.name.as_str()).collect();
    assert_eq!(names, vec!["Alpha", "beta", "Charlie", "zulu"]);
    let zulu = &listing[3];
    assert_eq!(zulu.monitor_type, "MQTT");
    assert_eq!(zulu.error.as_deref(), Some("Monitor disabled"));
    assert!(!zulu.enabled && !zulu.is_safe);
    assert_eq!(listing[2].monitor_type, "ALPACA");
}

#[test]
fn log_files_rotate_at_four_pm() {
    assert_eq!(log_file_name(2024, 3, 1, 16).as_deref(), Some("llama-watch-2024-03-01.log"));
    assert_eq!(log_file_name(2024, 3, 1, 15).as_deref(), Some("llama-watch-2024-02-29.log"));
    assert_eq!(log_file_name(2023, 3, 1, 9).as_deref(), Some("llama-watch-2023-02-28.log"));
    assert_eq!(log_file_name(2024, 1, 1, 0).as_deref(), Some("llama-watch-2023-12-31.log"));
    assert_eq!(log_file_name(987, 10, 2, 0).as_deref(), Some("llama-watch-0987-10-01.log"));
    assert!(log_file_name(2023, 2, 29, 18).is_none());
    assert_eq!(log_file_name(1, 1, 1, 0).as_deref(), Some("llama-watch-0000-12-31.log"));
    assert_eq!(log_file_name(-1, 6, 1, 18).as_deref(), Some("llama-watch--0001-06-01.log"));
    assert_eq!(log_file_name(10000, 1, 1, 20).as_deref(), Some("llama-watch-+10000-01-01.log"));
    assert_eq!(log_file_name(0, 2, 29, 20).as_deref(), Some("llama-watch-0000-02-29.log"));
    assert!(log_file_name(-262143, 1, 1, 3).is_none());
    assert!(log_file_name(262143, 1, 1, 20).is_none());
}

#[test]
fn log_files_newest_first() {
    let names = vec![
        "llama-watch-2024-01-02.log".to_string(),
        "llama-watch-2024-01-10.log".to_string(),
        "llama-watch-2023-12-31.log".to_string(),
    ];
    assert_eq!(newest_first(&names), vec![
        "llama-watch-2024-01-10.log",
        "llama-watch-2024-01-02.log",
        "llama-watch-2023-12-31.log",
    ]);
}

#[test]
fn log_file_dates_are_read_from_names() {
    assert_eq!(log_stem_date("llama-watch-2024-03-01.log"), Some((2024, 3, 1)));
    assert_eq!(log_stem_date("llama-watch-2024-02-30.log"), None);
    assert_eq!(log_stem_date("llama-watch-2024-03-01.txt"), None);
    assert_eq!(log_stem_date("other-2024-03-01.log"), None);
    assert_eq!(log_stem_date(".log"), None);
    assert_eq!(log_stem_date("llama-watch-.log"), None);
}

#[test]
fn log_files_expire_after_retention() {
    assert!(log_expired((2024, 3, 1), 16, (2024, 3, 1, 16, 0, 1)));
    assert!(!log_expired((2024, 3, 1), 16, (2024, 3, 1, 16, 0, 0)));
    assert!(!log_expired((2024, 3, 1), 16, (2024, 3, 1, 15, 59, 59)));
    assert!(log_expired((2023, 12, 31), 16, (2024, 1, 1, 0, 0, 0)));
    assert!(log_file_expired("llama-watch-2024-03-01.log", (2024, 3, 2, 9, 0, 0)));
    assert!(!log_file_expired("llama-watch-2024-03-01.log", (2024, 2, 28, 9, 0, 0)));
    assert!(!log_file_expired("notes-2024-03-01.log", (2030, 1, 1, 0, 0, 0)));
}
