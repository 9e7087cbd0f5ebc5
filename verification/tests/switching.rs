use llama_watch::config::{SwitchConfig, SwitchLogic};
use llama_watch::monitors::MonitorStatus;
use llama_watch::switches::{evaluate_switch, join_texts, SwitchInternalState, SwitchManager};

fn status(id: &str, is_safe: bool, last_update: Option<i64>, enabled: bool) -> MonitorStatus {
    MonitorStatus {
        id: id.to_string(),
        name: format!("Monitor {}", id),
        monitor_type: "MQTT".to_string(),
        is_safe,
        last_update,
        error: None,
        enabled,
        hold_time_seconds: 0,
        pending_is_safe: None,
        pending_since: None,
        include_in_safety: true,
    }
}

fn config(id: &str, sources: &[&str], logic: SwitchLogic, hold: u64) -> SwitchConfig {
    SwitchConfig {
        id: id.to_string(),
        name: format!("Switch {}", id),
        description: None,
        sources: sources.iter().map(|s| s.to_string()).collect(),
        logic,
        timeout_seconds: 300,
        hold_time_seconds: hold,
        enabled: true,
    }
}

#[test]
fn switch_follows_unsafe_source() {
    let mut st = SwitchInternalState::new(config("s", &["a", "b"], SwitchLogic::Any, 0));
    let statuses = vec![status("a", true, Some(1000), true), status("b", false, Some(1000), true)];
    let r = evaluate_switch(&mut st, &statuses, 1010);
    assert!(r.is_triggered);
    assert!(st.is_triggered);
    assert!(r.error.is_none());
    assert_eq!(r.source_states.len(), 2);
    assert!(!r.source_states[0].is_triggered);
    assert!(r.source_states[1].is_triggered);
    assert_eq!(r.source_states[1].monitor_name, "Monitor b");
    assert_eq!(r.last_update, Some(1010));
}

#[test]
fn missing_source_counts_as_triggered() {
    let mut st = SwitchInternalState::new(config("s", &["a", "ghost"], SwitchLogic::Any, 0));
    let statuses = vec![status("a", true, Some(1000), true)];
    let r = evaluate_switch(&mut st, &statuses, 1010);
    assert!(r.is_triggered);
    assert_eq!(r.error.as_deref(), Some("Source 'ghost' not found"));
    assert_eq!(r.source_states[1].monitor_name, "ghost");
    assert_eq!(r.source_states[1].error.as_deref(), Some("Monitor not found"));
}

#[test]
fn timed_out_source_counts_as_triggered() {
    let mut st = SwitchInternalState::new(config("s", &["a", "b"], SwitchLogic::All, 0));
    let statuses = vec![status("a", false, Some(1000), true), status("b", true, Some(100), true)];
    let r = evaluate_switch(&mut st, &statuses, 1010);
    assert!(r.is_triggered);
    assert_eq!(r.error.as_deref(), Some("Source 'b' timed out"));
    assert_eq!(r.source_states[1].error.as_deref(), Some("Timed out"));
}

#[test]
fn source_errors_are_joined() {
    let mut st = SwitchInternalState::new(config("s", &["x", "y"], SwitchLogic::Any, 0));
    let statuses = vec![status("y", true, None, true)];
    let r = evaluate_switch(&mut st, &statuses, 1010);
    assert_eq!(r.error.as_deref(), Some("Source 'x' not found; Source 'y' timed out"));
}

#[test]
fn disabled_source_does_not_count() {
    let mut st = SwitchInternalState::new(config("s", &["a", "b"], SwitchLogic::All, 0));
    let statuses = vec![status("a", false, Some(1000), true), status("b", true, Some(1000), false)];
    let r = evaluate_switch(&mut st, &statuses, 1010);
    assert!(r.is_triggered);
    assert!(!r.source_states[1].is_triggered);
}

#[test]
fn switch_hold_time_delays_trigger() {
    let mut st = SwitchInternalState::new(config("s", &["a"], SwitchLogic::Any, 60));
    let unsafe_now = vec![status("a", false, Some(1000), true)];
    let r = evaluate_switch(&mut st, &unsafe_now, 1000);
    assert!(!r.is_triggered);
    assert_eq!(r.pending_is_triggered, Some(true));
    assert_eq!(r.pending_since, Some(1000));
    let r = evaluate_switch(&mut st, &unsafe_now, 1059);
    assert!(!r.is_triggered);
    let r = evaluate_switch(&mut st, &unsafe_now, 1060);
    assert!(r.is_triggered);
    assert!(r.pending_is_triggered.is_none());
}

#[test]
fn joins_texts_with_separator() {
    let parts = vec!["a".to_string(), "b".to_string(), "c".to_string()];
    assert_eq!(join_texts(&parts, "; "), "a; b; c");
    assert_eq!(join_texts(&Vec::new(), "; "), "");
}

fn configs() -> Vec<(String, SwitchConfig)> {
    let mut off = config("off", &["a"], SwitchLogic::Any, 0);
    off.enabled = false;
    vec![
        ("zeta".to_string(), config("zeta", &["a"], SwitchLogic::Any, 0)),
        ("off".to_string(), off),
        ("alpha".to_string(), config("alpha", &["a"], SwitchLogic::Any, 0)),
    ]
}

#[test]
fn manager_skips_disabled_switches() {
    let mut m = SwitchManager::new();
    m.initialize(configs());
    assert_eq!(m.get_switch_count(), 2);
    assert_eq!(m.get_switch_ids(), vec!["alpha", "zeta"]);
}

#[test]
fn manager_evaluates_by_index() {
    let mut m = SwitchManager::new();
    m.initialize(configs());
    let statuses = vec![status("a", false, Some(1000), true)];
    let ids = m.get_switch_ids();
    let first = m.get_switch_by_index(0, &statuses, 1000).unwrap();
    assert_eq!(first.id, "alpha");
    assert_eq!(first.id, ids[0]);
    assert!(first.is_triggered);
    let second = m.get_switch_by_index(1, &statuses, 1000).unwrap();
    assert_eq!(second.id, "zeta");
    assert_eq!(second.id, ids[1]);
    assert!(m.get_switch_by_index(2, &statuses, 1000).is_none());
    let all = m.evaluate_all(&statuses, 1000);
    assert_eq!(all.len(), 2);
    assert!(all.iter().all(|s| s.is_triggered));
}

#[test]
fn reload_keeps_switch_state() {
    let mut m = SwitchManager::new();
    m.initialize(configs());
    let statuses = vec![status("a", false, Some(1000), true)];
    m.get_all_statuses(&statuses, 1000);
    let mut next = configs();
    next.push(("beta".to_string(), config("beta", &["a"], SwitchLogic::Any, 0)));
    m.reload(next);
    assert_eq!(m.get_switch_count(), 3);
    assert!(m.switches[0].state.is_triggered);
    assert!(m.switches[1].state.is_triggered);
    assert!(!m.switches[2].state.is_triggered);
    assert!(m.switches[2].state.last_update.is_none());
}
