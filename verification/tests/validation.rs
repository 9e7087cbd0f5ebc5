use llama_watch::config::{SwitchConfig, SwitchLogic};
use llama_watch::validation::{ConfigError, ConfigReferences, MonitorLink};

fn switch(id: &str, sources: &[&str], logic: SwitchLogic) -> SwitchConfig {
    SwitchConfig {
        id: id.to_string(),
        name: id.to_string(),
        description: None,
        sources: sources.iter().map(|s| s.to_string()).collect(),
        logic,
        timeout_seconds: 300,
        hold_time_seconds: 0,
        enabled: true,
    }
}

fn refs(switches: Vec<SwitchConfig>) -> ConfigReferences {
    ConfigReferences {
        mqtt_server_keys: vec!["broker".to_string()],
        mqtt_monitors: vec![MonitorLink {
            key: "solar".to_string(),
            id: "solar".to_string(),
            server_id: "broker".to_string(),
        }],
        alpaca_monitor_keys: vec!["roof".to_string()],
        switches,
    }
}

#[test]
fn valid_configuration_passes() {
    let r = refs(vec![switch("s", &["solar", "roof"], SwitchLogic::MinOf { count: 2 })]);
    assert!(r.validate().is_ok());
}

#[test]
fn unknown_server_is_refused() {
    let mut r = refs(Vec::new());
    r.mqtt_monitors.push(MonitorLink { key: "m".to_string(), id: "m".to_string(), server_id: "other".to_string() });
    let e = r.validate().unwrap_err();
    assert!(matches!(e, ConfigError::UnknownServer { .. }));
    assert_eq!(e.message(), "MQTT monitor 'm' references non-existent server 'other'");
}

#[test]
fn switch_without_sources_is_refused() {
    let e = refs(vec![switch("s", &[], SwitchLogic::Any)]).validate().unwrap_err();
    assert_eq!(e.message(), "Switch 's' has no sources defined");
}

#[test]
fn unknown_source_is_refused() {
    let e = refs(vec![switch("s", &["solar", "ghost"], SwitchLogic::Any)]).validate().unwrap_err();
    assert_eq!(e.message(), "Switch 's' references non-existent monitor 'ghost'");
}

#[test]
fn min_of_zero_is_refused() {
    let e = refs(vec![switch("s", &["solar"], SwitchLogic::MinOf { count: 0 })]).validate().unwrap_err();
    assert_eq!(e.message(), "Switch 's' has min_of count of 0, which would always trigger");
}

#[test]
fn min_of_above_sources_is_refused() {
    let e = refs(vec![switch("s", &["solar", "roof"], SwitchLogic::MinOf { count: 3 })]).validate().unwrap_err();
    assert_eq!(e.message(), "Switch 's' has min_of count 3 but only 2 sources");
}

#[test]
fn first_problem_is_reported() {
    let e = refs(vec![switch("a", &[], SwitchLogic::Any), switch("b", &["ghost"], SwitchLogic::Any)])
        .validate()
        .unwrap_err();
    assert_eq!(e.message(), "Switch 'a' has no sources defined");
}
