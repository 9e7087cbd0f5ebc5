//! The parameters and payloads of the HTTP endpoints, as plain records, and
//! the small decisions made while answering them.

use vstd::prelude::*;
use crate::config::WeatherDataSource;
use crate::text::{decimal_digits, decimal_string, same_text, to_lowercase, unicode_lowercase};
use crate::weather::WeatherDeviceSettings;

verus! {

/// Query parameters whose names were matched without regard to case.
pub struct CaseInsensitiveQuery<T>(pub T);

/// Form parameters of a PUT request.
pub struct AlpacaForm<T>(pub T);

/// The standard parameters of a PUT request.
pub struct PutRequest {
    pub client_i_d: u32,
    pub client_transaction_i_d: u32,
}

/// A PUT request that sets the connected state.
pub struct ConnectedRequest {
    pub client_i_d: u32,
    pub client_transaction_i_d: u32,
    pub connected: bool,
}

/// The standard query parameters.
pub struct QueryParams {
    pub client_i_d: u32,
    pub client_transaction_i_d: u32,
}

/// Query parameters of a request about one switch.
pub struct SwitchQueryParams {
    pub client_i_d: u32,
    pub client_transaction_i_d: u32,
    pub id: i16,
}

/// A PUT request for a custom action.
pub struct ActionRequest {
    pub client_i_d: u32,
    pub client_transaction_i_d: u32,
    pub action: String,
    pub parameters: String,
}

/// A PUT request for a command.
pub struct CommandRequest {
    pub client_i_d: u32,
    pub client_transaction_i_d: u32,
    pub command: String,
    pub raw: bool,
}

/// Query parameters naming a sensor.
pub struct SensorDescriptionQuery {
    pub client_i_d: u32,
    pub client_transaction_i_d: u32,
    pub sensor_name: String,
}

/// Query parameters naming a sensor whose last update is asked for.
pub struct TimeSinceQuery {
    pub client_i_d: u32,
    pub client_transaction_i_d: u32,
    pub sensor_name: String,
}

/// A PUT request that sets a switch.
pub struct SetSwitchRequest {
    pub client_i_d: u32,
    pub client_transaction_i_d: u32,
    pub state: String,
}

/// A PUT request that renames a switch.
pub struct SetSwitchNameRequest {
    pub client_i_d: u32,
    pub client_transaction_i_d: u32,
    pub name: String,
}

/// Turns a monitor on or off.
pub struct ToggleEnabledRequest {
    pub enabled: bool,
}

/// Turns the debug log on or off.
pub struct ToggleLoggingRequest {
    pub enabled: bool,
}

/// Asks for a network scan for Alpaca servers.
pub struct DiscoverRequest {
    pub timeout_seconds: u64,
}

/// A scan waits this many seconds for answers unless told otherwise.
pub fn default_discovery_timeout() -> (r: u64)
    ensures
        r == 5,
{
    5
}

/// Asks whether a given host runs an Alpaca server.
pub struct ProbeRequest {
    pub host: String,
    pub port: u16,
}

/// A device on an Alpaca server.
pub struct DeviceInfo {
    pub device_name: String,
    pub device_type: String,
    pub device_number: u32,
    pub unique_id: String,
}

/// An Alpaca server found on the network, with its devices.
pub struct DiscoveredDevice {
    pub host: String,
    pub port: u16,
    pub devices: Vec<DeviceInfo>,
}

/// The key an answering server is known by: host and port.
pub open spec fn endpoint_key(host: Seq<char>, port: u16) -> Seq<char> {
    host + ":"@ + decimal_digits(port as nat)
}

fn make_endpoint_key(host: &str, port: u16) -> (r: String)
    ensures
        r@ == endpoint_key(host@, port),
{
    let mut k = host.to_owned();
    k.append(":");
    let p = decimal_string(port as u64);
    k.append(p.as_str());
    k
}

/// The answers to a scan in order, each server once: an answer whose key
/// was seen before is dropped.
pub open spec fn first_answers(found: Seq<(Seq<char>, u16)>) -> Seq<(Seq<char>, u16)>
    decreases found.len(),
{
    if found.len() == 0 {
        Seq::empty()
    } else {
        let b = first_answers(found.drop_last());
        let (h, p) = found.last();
        if exists|i: int| 0 <= i < b.len() && endpoint_key(b[i].0, b[i].1) == endpoint_key(h, p) {
            b
        } else {
            b.push((h, p))
        }
    }
}

pub open spec fn endpoint_views(v: Seq<(String, u16)>) -> Seq<(Seq<char>, u16)> {
    Seq::new(v.len(), |i: int| (v[i].0@, v[i].1))
}

/// The servers to query after a scan; see `first_answers`.
pub fn discovery_targets(found: &Vec<(String, u16)>) -> (r: Vec<(String, u16)>)
    ensures
        endpoint_views(r@) == first_answers(endpoint_views(found@)),
{
    let ghost fs = endpoint_views(found@);
    let mut out: Vec<(String, u16)> = Vec::new();
    let mut keys: Vec<String> = Vec::new();
    let mut i: usize = 0;
    assert(fs.take(0) =~= Seq::<(Seq<char>, u16)>::empty());
    assert(endpoint_views(out@) =~= Seq::<(Seq<char>, u16)>::empty());
    while i < found.len()
        invariant
            fs == endpoint_views(found@),
            i <= fs.len(),
            endpoint_views(out@) == first_answers(fs.take(i as int)),
            keys@.len() == out@.len(),
            forall|j: int| 0 <= j < keys@.len() ==> #[trigger] keys@[j]@ == endpoint_key(out@[j].0@, out@[j].1),
        decreases fs.len() - i,
    {
        let (host, port) = (&found[i].0, found[i].1);
        assert(fs.take(i + 1).drop_last() =~= fs.take(i as int));
        assert(fs.take(i + 1).last() == (host@, port));
        let key = make_endpoint_key(host.as_str(), port);
        let ghost ov = endpoint_views(out@);
        let mut seen = false;
        let mut j: usize = 0;
        while j < keys.len()
            invariant
                keys@.len() == out@.len(),
                ov == endpoint_views(out@),
                j <= keys@.len(),
                forall|m: int| 0 <= m < keys@.len() ==> #[trigger] keys@[m]@ == endpoint_key(out@[m].0@, out@[m].1),
                seen == exists|m: int| 0 <= m < j && endpoint_key(ov[m].0, ov[m].1) == key@,
            decreases keys@.len() - j,
        {
            if same_text(keys[j].as_str(), key.as_str()) {
                assert(endpoint_key(ov[j as int].0, ov[j as int].1) == key@);
                seen = true;
            }
            j = j + 1;
        }
        if !seen {
            out.push((host.clone(), port));
            keys.push(key);
            assert(endpoint_views(out@) =~= ov.push((host@, port)));
        }
        i = i + 1;
    }
    assert(fs.take(fs.len() as int) =~= fs);
    out
}

/// A configured weather device, as the web interface lists it.
pub struct WeatherDeviceResponse {
    pub device_number: u32,
    pub name: String,
    pub description: String,
    pub enabled: bool,
    pub auto_connect: bool,
    pub connected: bool,
    pub source_type: String,
    pub has_safety_thresholds: bool,
    pub safety_enabled: bool,
}

/// The name of a kind of weather data source.
pub open spec fn source_type_text(source: WeatherDataSource) -> Seq<char> {
    match source {
        WeatherDataSource::Tempest { .. } => "tempest"@,
        WeatherDataSource::WeatherUnderground { .. } => "weatherunderground"@,
    }
}

/// Lists a weather device; `connected` is the state of its
/// ObservingConditions device (false when it has none).
pub fn weather_device_response(settings: &WeatherDeviceSettings, description: &str, auto_connect: bool, connected: bool) -> (r: WeatherDeviceResponse)
    ensures
        r.device_number == settings.device_number,
        r.name@ == settings.name@,
        r.description@ == description@,
        r.enabled == settings.enabled,
        r.auto_connect == auto_connect,
        r.connected == connected,
        r.source_type@ == source_type_text(settings.source),
        r.has_safety_thresholds == settings.thresholds is Some,
        r.safety_enabled == (settings.thresholds matches Some(t) && t.enabled),
{
    let source_type = match &settings.source {
        WeatherDataSource::Tempest { .. } => "tempest".to_owned(),
        WeatherDataSource::WeatherUnderground { .. } => "weatherunderground".to_owned(),
    };
    WeatherDeviceResponse {
        device_number: settings.device_number,
        name: settings.name.clone(),
        description: description.to_owned(),
        enabled: settings.enabled,
        auto_connect,
        connected,
        source_type,
        has_safety_thresholds: settings.thresholds.is_some(),
        safety_enabled: match settings.thresholds {
            Some(t) => t.enabled,
            None => false,
        },
    }
}

/// The address of a property of a remote Alpaca device; the device type
/// and the property are written in lower case.
pub open spec fn endpoint_url(host: Seq<char>, port: u16, device_type: Seq<char>, device_number: u32, property: Seq<char>) -> Seq<char> {
    "http://"@ + host + ":"@ + decimal_digits(port as nat) + "/api/v1/"@ + unicode_lowercase(device_type) + "/"@
        + decimal_digits(device_number as nat) + "/"@ + unicode_lowercase(property)
}

/// Builds the address a remote Alpaca property is read from.
pub fn alpaca_endpoint_url(host: &str, port: u16, device_type: &str, device_number: u32, property: &str) -> (r: String)
    ensures
        r@ == endpoint_url(host@, port, device_type@, device_number, property@),
{
    let mut u = "http://".to_owned();
    u.append(host);
    u.append(":");
    let p = decimal_string(port as u64);
    u.append(p.as_str());
    u.append("/api/v1/");
    let t = to_lowercase(device_type);
    u.append(t.as_str());
    u.append("/");
    let n = decimal_string(device_number as u64);
    u.append(n.as_str());
    u.append("/");
    let q = to_lowercase(property);
    u.append(q.as_str());
    u
}

/// The address of a server's device list.
pub fn configured_devices_url(host: &str, port: u16) -> (r: String)
    ensures
        r@ == "http://"@ + host@ + ":"@ + decimal_digits(port as nat) + "/management/v1/configureddevices"@,
{
    let mut u = "http://".to_owned();
    u.append(host);
    u.append(":");
    let p = decimal_string(port as u64);
    u.append(p.as_str());
    u.append("/management/v1/configureddevices");
    u
}

} // verus!
