use llama_watch::alpaca::{
    action_not_supported, check_age_request, check_device_request, check_property_request, check_switch_request,
    command_not_implemented, configured_devices, generate_unique_id, is_discovery_request, negative_average_period,
    next_transaction, normalize_key, parse_bool_text, server_description, switch_description, switch_is_read_only,
    unique_id_from_digest, unknown_device_message, unmeasured_property, AlpacaFault, AlpacaResponse, CommandKind,
    DiscoveryService, ObservingConditionsDevice, SafetyMonitor, SwitchDevice,
};
use llama_watch::config::{SwitchDeviceConfig, SwitchLogic};
use llama_watch::switches::SwitchStatus;

#[test]
fn device_zero_is_required() {
    let f = check_device_request(1, false, true).unwrap();
    assert_eq!(f.error_number, 0x400);
    assert_eq!(f.message, "Invalid device number");
    assert!(check_device_request(0, false, false).is_none());
}

#[test]
fn connection_is_required_where_asked() {
    let f = check_device_request(0, true, false).unwrap();
    assert_eq!(f.error_number, 0x407);
    assert_eq!(f.message, "Device not connected");
    assert!(check_device_request(0, true, true).is_none());
}

#[test]
fn switch_ids_are_checked() {
    let f = check_switch_request(0, false, false, -1, 3).unwrap_err();
    assert_eq!(f.error_number, 0x401);
    assert_eq!(f.message, "Invalid switch ID");
    let f = check_switch_request(0, false, false, 3, 3).unwrap_err();
    assert_eq!(f.message, "Switch ID 3 out of range (max: 2)");
    let f = check_switch_request(0, false, false, 0, 0).unwrap_err();
    assert_eq!(f.message, "Switch ID 0 out of range (max: 0)");
    assert_eq!(check_switch_request(0, true, true, 2, 3).ok(), Some(2));
    let f = check_switch_request(5, true, false, -1, 3).unwrap_err();
    assert_eq!(f.error_number, 0x400);
}

#[test]
fn unsupported_operations() {
    let f = action_not_supported("Open");
    assert_eq!(f.error_number, 0x40C);
    assert_eq!(f.message, "Action 'Open' is not supported");
    assert_eq!(command_not_implemented(CommandKind::Blind).message, "CommandBlind is not implemented");
    assert_eq!(command_not_implemented(CommandKind::Bool).message, "CommandBool is not implemented");
    assert_eq!(command_not_implemented(CommandKind::Text).message, "CommandString is not implemented");
    let f = switch_is_read_only();
    assert_eq!(f.error_number, 0x40B);
    assert_eq!(f.message, "This switch is read-only and cannot be set");
    assert_eq!(unmeasured_property("CloudCover").message, "CloudCover is not implemented");
    assert_eq!(negative_average_period().error_number, 0x401);
    assert_eq!(unknown_device_message(7), "Invalid device number: 7");
}

#[test]
fn property_requests() {
    assert_eq!(check_property_request(false, "Humidity", true).unwrap().message, "Device is not connected");
    let f = check_property_request(true, "CloudCover", true).unwrap();
    assert_eq!(f.error_number, 0x400);
    assert_eq!(f.message, "Property 'CloudCover' is not implemented");
    let f = check_property_request(true, "Humidity", false).unwrap();
    assert_eq!(f.error_number, 0x40B);
    assert_eq!(f.message, "No weather data available");
    assert!(check_property_request(true, "Humidity", true).is_none());
    assert_eq!(check_age_request(true, false).unwrap().error_number, 0x40B);
    assert!(check_age_request(true, true).is_none());
}

#[test]
fn responses_carry_transaction_ids() {
    let r = AlpacaResponse::success(true, 7, 3);
    assert!(r.value);
    assert_eq!((r.client_transaction_i_d, r.server_transaction_i_d, r.error_number), (7, 3, 0));
    assert!(r.error_message.is_empty());
    let f = AlpacaFault { error_number: 0x407, message: "Device not connected".to_string() };
    let e = AlpacaResponse::<bool>::error(7, 4, f.error_number, f.message);
    assert!(!e.value);
    assert_eq!(e.error_number, 0x407);
    assert_eq!(e.error_message, "Device not connected");
    let c = AlpacaResponse::success_with_comments(false, 1, 2, Vec::new());
    assert!(c.comments.is_some());
}

#[test]
fn transaction_numbers_count_and_wrap() {
    let mut c = 5u32;
    assert_eq!(next_transaction(&mut c), 5);
    assert_eq!(c, 6);
    let mut top = u32::MAX;
    assert_eq!(next_transaction(&mut top), u32::MAX);
    assert_eq!(top, 0);
}

#[test]
fn safety_monitor_starts_disconnected() {
    let mut m = SafetyMonitor::new("LLAMA".to_string(), "Backyard".to_string());
    assert!(!m.connected);
    assert_eq!(m.driver_version, "0.1.0");
    assert_eq!(m.next_transaction_id(), 0);
    assert_eq!(m.next_transaction_id(), 1);
    m.connected = true;
    assert!(m.is_connected(true));
    assert!(!m.is_connected(false));
}

#[test]
fn switch_device_defaults() {
    let d = SwitchDevice::new(&SwitchDeviceConfig::default(), "1.2.3");
    assert_eq!(d.device_name, "LLAMA Switch Device");
    assert_eq!(d.description, "Aggregated switches with configurable logic for automation");
    assert_eq!(d.driver_info, "LLAMA Switch Driver v1.2.3");
    assert!(d.is_connected());
    let named = SwitchDevice::new(
        &SwitchDeviceConfig { enabled: true, name: Some("Relays".to_string()), description: None, auto_connect: false },
        "1.2.3",
    );
    assert_eq!(named.device_name, "Relays");
    assert!(!named.is_connected());
}

#[test]
fn observing_conditions_device() {
    let mut d = ObservingConditionsDevice::new(2, "Roof".to_string(), "Tempest".to_string(), false, "9.9");
    assert!(!d.is_connected());
    d.set_connected(true);
    assert!(d.is_connected());
    assert_eq!(d.driver_info, "LLAMA Weather Station Driver v9.9");
    assert_eq!(d.next_transaction_id(), 0);
}

#[test]
fn switch_descriptions() {
    let mut s = SwitchStatus {
        id: "s".to_string(),
        name: "S".to_string(),
        description: None,
        is_triggered: false,
        logic: SwitchLogic::MinOf { count: 2 },
        source_states: Vec::new(),
        pending_is_triggered: None,
        pending_since: None,
        hold_time_seconds: 30,
        error: None,
        enabled: true,
        last_update: None,
    };
    assert_eq!(
        switch_description(&s),
        "Aggregates 0 sources using at least 2 sources triggered logic (hold time: 30s)"
    );
    s.description = Some("Cloud watch".to_string());
    assert_eq!(switch_description(&s), "Cloud watch");
}

#[test]
fn query_keys_are_normalised() {
    assert_eq!(normalize_key("clientid"), "ClientID");
    assert_eq!(normalize_key("CLIENTTRANSACTIONID"), "ClientTransactionID");
    assert_eq!(normalize_key("sensorName"), "SensorName");
    assert_eq!(normalize_key("AVERAGEPERIOD"), "AveragePeriod");
    assert_eq!(normalize_key("connected"), "Connected");
    assert_eq!(normalize_key("Other"), "Other");
}

#[test]
fn boolean_form_values() {
    assert_eq!(parse_bool_text("TRUE"), Ok(true));
    assert_eq!(parse_bool_text("1"), Ok(true));
    assert_eq!(parse_bool_text("False"), Ok(false));
    assert_eq!(parse_bool_text("0"), Ok(false));
    assert_eq!(parse_bool_text("yes"), Err("expected boolean string, got 'yes'".to_string()));
}

#[test]
fn discovery_packets() {
    assert!(is_discovery_request(b"alpacadiscovery1"));
    assert!(!is_discovery_request(b"alpacadiscovery2"));
    assert!(!is_discovery_request(b"alpaca"));
    let d = DiscoveryService::new(11111, "LLAMA".to_string());
    assert_eq!(d.response_text(), "{\"AlpacaPort\":11111}");
}

#[test]
fn unique_ids() {
    assert_eq!(generate_unique_id(None), "llama-watch-00000000-0000-0000-0000-000000000000");
    assert_eq!(generate_unique_id(Some(Vec::new())), "llama-watch-e3b0c44298fc1c14");
    assert_eq!(unique_id_from_digest(&[0x00, 0x0f, 0xa0, 0xff, 1, 2, 3, 4, 9]), "llama-watch-000fa0ff01020304");
}

#[test]
fn management_descriptions() {
    let s = server_description("LLAMA", "Backyard", "0.1.0");
    assert_eq!(s.manufacturer, "Corey Smart");
    assert_eq!(s.location, "Backyard");
    let devices = configured_devices("LLAMA", "llama-watch-x", &vec![(3, "Roof".to_string())]);
    assert_eq!(devices.len(), 2);
    assert_eq!(devices[0].device_type, "SafetyMonitor");
    assert_eq!(devices[0].unique_i_d, "llama-watch-x-safetymonitor-0");
    assert_eq!(devices[1].device_name, "Roof");
    assert_eq!(devices[1].device_number, 3);
    assert_eq!(devices[1].unique_i_d, "llama-watch-x-observingconditions-3");
}
