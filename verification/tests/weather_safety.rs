use llama_watch::config::WeatherDataSource;
use llama_watch::weather::{
    get_sensor_description, is_property_supported, observation_time, rain_rate_window, MeasurementCheck, ObservationStore,
    ObservingConditionsProperties, SafetyThresholdSettings, UnsafeNote, WeatherDeviceSettings, WeatherMeasurement,
    WeatherMonitor, WeatherMonitorManager,
};

#[test]
fn lists_all_properties() {
    let all = ObservingConditionsProperties::all();
    assert_eq!(all.len(), 13);
    assert_eq!(all[0], "CloudCover");
    assert_eq!(all[12], "WindSpeed");
    let tempest = ObservingConditionsProperties::tempest_supported();
    assert_eq!(tempest, vec![
        "DewPoint", "Humidity", "Pressure", "RainRate", "SkyBrightness", "Temperature", "WindDirection", "WindGust",
        "WindSpeed",
    ]);
}

#[test]
fn tempest_property_support() {
    assert!(is_property_supported("Temperature"));
    assert!(is_property_supported("RainRate"));
    assert!(!is_property_supported("CloudCover"));
    assert!(!is_property_supported("temperature"));
}

#[test]
fn sensor_descriptions() {
    assert_eq!(get_sensor_description("Humidity"), "Relative humidity from Tempest weather station");
    assert_eq!(
        get_sensor_description("DewPoint"),
        "Dew point calculated from temperature and humidity using Magnus formula"
    );
    assert_eq!(get_sensor_description("StarFWHM"), "Property 'StarFWHM' not supported");
}

#[test]
fn measurement_names() {
    assert_eq!(WeatherMeasurement::SkyBrightness.name(), "Sky Brightness");
    assert_eq!(WeatherMeasurement::SkyBrightness.property(), "SkyBrightness");
    assert_eq!(WeatherMeasurement::RainRate.name(), "Rain Rate");
    let order = WeatherMeasurement::check_order();
    assert_eq!(order.len(), 6);
    assert_eq!(order[0], WeatherMeasurement::Temperature);
    assert_eq!(order[5], WeatherMeasurement::RainRate);
}

#[test]
fn rain_rate_needs_close_observations() {
    assert!(rain_rate_window(1060, 1000));
    assert!(!rain_rate_window(1000, 1000));
    assert!(!rain_rate_window(4600, 1000));
    assert!(rain_rate_window(4599, 1000));
}

#[test]
fn store_keeps_latest_and_previous() {
    let mut store: ObservationStore<u32> = ObservationStore::new();
    assert!(store.current(None).is_none());
    store.record("ST-1".to_string(), 1);
    store.record("ST-2".to_string(), 10);
    store.record("ST-1".to_string(), 2);
    assert_eq!(store.current(Some("ST-1")), Some(&2));
    assert_eq!(store.previous(Some("ST-1")), Some(&1));
    assert_eq!(store.current(Some("ST-2")), Some(&10));
    assert_eq!(store.previous(Some("ST-2")), None);
    assert_eq!(store.current(None), Some(&2));
    assert_eq!(store.current(Some("ST-9")), None);
}

fn device(hold: u64, enabled_thresholds: bool) -> WeatherDeviceSettings {
    WeatherDeviceSettings {
        device_number: 1,
        name: "Roof".to_string(),
        enabled: true,
        source: WeatherDataSource::Tempest { serial_number: None },
        thresholds: Some(SafetyThresholdSettings {
            enabled: enabled_thresholds,
            timeout_seconds: 300,
            hold_time_seconds: hold,
        }),
    }
}

fn checks(wind_safe: bool) -> Vec<MeasurementCheck> {
    vec![
        MeasurementCheck { kind: WeatherMeasurement::Temperature, is_safe: true, timeout_seconds: None },
        MeasurementCheck { kind: WeatherMeasurement::WindSpeed, is_safe: wind_safe, timeout_seconds: Some(60) },
    ]
}

#[test]
fn weather_monitor_starts_safe() {
    let m = WeatherMonitor::new(device(30, true));
    let s = m.get_status();
    assert!(s.is_safe);
    assert_eq!(s.hold_time_seconds, 30);
    assert!(s.measurements.is_empty());
}

#[test]
fn weather_without_data_reports_it() {
    let mut m = WeatherMonitor::new(device(0, true));
    m.check_safety(None, 1000, &checks(true));
    assert!(m.status.is_safe);
    assert_eq!(m.status.error.as_deref(), Some("No weather data received yet"));
}

#[test]
fn stale_weather_is_unsafe() {
    let mut m = WeatherMonitor::new(device(600, true));
    m.check_safety(Some(1000), 1400, &checks(true));
    assert!(!m.status.is_safe);
    assert_eq!(m.status.error.as_deref(), Some("Weather data timeout (400 seconds old)"));
    assert!(m.status.measurements.is_empty());
    assert!(m.status.last_update.is_none());
    let mut m = WeatherMonitor::new(device(600, true));
    m.check_safety(Some(1000), 1400, &device_timeout_checks());
    assert!(!m.status.is_safe);
    assert_eq!(m.status.error.as_deref(), Some("Weather data timeout (400 seconds old)"));
}

fn device_timeout_checks() -> Vec<MeasurementCheck> {
    vec![MeasurementCheck { kind: WeatherMeasurement::Temperature, is_safe: true, timeout_seconds: None }]
}

#[test]
fn measurement_timeout_overrides_device_timeout() {
    let own = |limit: u64| {
        vec![MeasurementCheck { kind: WeatherMeasurement::Temperature, is_safe: true, timeout_seconds: Some(limit) }]
    };
    let mut m = WeatherMonitor::new(device(0, true));
    m.check_safety(Some(1000), 1075, &own(60));
    assert!(!m.status.is_safe);
    assert_eq!(m.status.error.as_deref(), Some("Temperature data timeout (75 seconds old)"));
    assert!(m.status.pending_is_safe.is_none());
    let mut m = WeatherMonitor::new(device(0, true));
    m.check_safety(Some(1000), 1400, &own(60));
    assert!(!m.status.is_safe);
    assert_eq!(m.status.error.as_deref(), Some("Weather data timeout (400 seconds old)"));
    let mut m = WeatherMonitor::new(device(0, true));
    m.check_safety(Some(1000), 1400, &own(600));
    assert!(m.status.is_safe);
    assert!(m.status.error.is_none());
    assert_eq!(m.status.last_update, Some(1000));
    let mut mixed = own(600);
    mixed.push(MeasurementCheck { kind: WeatherMeasurement::Humidity, is_safe: true, timeout_seconds: None });
    let mut m = WeatherMonitor::new(device(0, true));
    m.check_safety(Some(1000), 1400, &mixed);
    assert!(!m.status.is_safe);
    assert_eq!(m.status.error.as_deref(), Some("Weather data timeout (400 seconds old)"));
    let mut m = WeatherMonitor::new(device(0, true));
    m.check_safety(Some(1000), 1060, &own(60));
    assert!(m.status.is_safe);
    assert!(m.status.error.is_none());
}

#[test]
fn unsafe_measurement_makes_device_unsafe() {
    let mut m = WeatherMonitor::new(device(0, true));
    m.check_safety(Some(1000), 1010, &checks(false));
    assert!(!m.status.is_safe);
    assert!(m.status.error.is_none());
    assert_eq!(m.status.last_update, Some(1000));
    assert_eq!(m.status.measurements.len(), 2);
    assert_eq!(m.status.measurements[1].name, "Wind Speed");
    assert!(!m.status.measurements[1].is_safe);
    assert_eq!(m.status.measurements[1].timeout_seconds, Some(60));
}

#[test]
fn weather_hold_time_uses_observation_time() {
    let mut m = WeatherMonitor::new(device(60, true));
    m.check_safety(Some(1000), 1000, &checks(false));
    assert!(m.status.is_safe);
    assert_eq!(m.status.pending_is_safe, Some(false));
    m.check_safety(Some(1030), 1040, &checks(false));
    assert!(m.status.is_safe);
    m.check_safety(Some(1060), 1070, &checks(false));
    assert!(!m.status.is_safe);
}

#[test]
fn disabled_thresholds_skip_check() {
    let mut m = WeatherMonitor::new(device(0, false));
    m.check_safety(Some(1000), 5000, &checks(false));
    assert!(m.status.is_safe);
    assert!(m.status.error.is_none());
}

#[test]
fn weather_underground_is_not_checked() {
    let mut d = device(0, true);
    d.source = WeatherDataSource::WeatherUnderground { station_id: "X".to_string(), api_key: "abc".to_string() };
    let mut m = WeatherMonitor::new(d);
    m.check_safety(None, 5000, &checks(false));
    assert!(m.status.error.is_none());
}

#[test]
fn manager_starts_monitored_devices_only() {
    let mut mgr = WeatherMonitorManager::new();
    assert!(mgr.get_overall_status().is_none());
    let mut second = device(0, true);
    second.device_number = 2;
    let mut off = device(0, false);
    off.device_number = 3;
    mgr.initialize(vec![device(0, true), second, off]);
    assert_eq!(mgr.monitors.len(), 2);
    assert!(mgr.get_monitor(3).is_none());
    assert!(mgr.are_all_safe());
    let (safe, notes) = mgr.get_overall_status().unwrap();
    assert!(safe);
    assert!(notes.is_empty());
    mgr.remove_monitor(2);
    assert_eq!(mgr.monitors.len(), 1);
    mgr.shutdown();
    assert!(mgr.monitors.is_empty());
}

#[test]
fn overall_status_explains_unsafe_devices() {
    let mut mgr = WeatherMonitorManager::new();
    let mut second = device(0, true);
    second.device_number = 2;
    second.name = "Yard".to_string();
    mgr.initialize(vec![device(0, true), second]);
    mgr.monitors[0].check_safety(Some(1000), 1010, &checks(false));
    mgr.monitors[1].check_safety(Some(1000), 2000, &device_timeout_checks());
    assert!(!mgr.are_all_safe());
    let (safe, notes) = mgr.get_overall_status().unwrap();
    assert!(!safe);
    assert_eq!(notes.len(), 2);
    match &notes[0] {
        UnsafeNote::Measurement { device_number, device_name, measurement } => {
            assert_eq!(*device_number, 1);
            assert_eq!(device_name, "Roof");
            assert_eq!(measurement, "Wind Speed");
        }
        _ => panic!("expected a measurement note"),
    }
    match &notes[1] {
        UnsafeNote::DeviceError { text } => assert_eq!(text, "Yard: Weather data timeout (1000 seconds old)"),
        _ => panic!("expected an error note"),
    }
}

#[test]
fn observation_arrays_need_a_header() {
    assert_eq!(observation_time(17, Some(5)), Err("Observation array too short: 17 fields".to_string()));
    assert_eq!(observation_time(18, None), Err("Invalid timestamp".to_string()));
    assert_eq!(observation_time(22, Some(1700000000)), Ok(1700000000));
}
