//! The ASCOM Alpaca side: request checks and their error replies, the
//! device states behind the SafetyMonitor, Switch and ObservingConditions
//! endpoints, query key normalisation, discovery and the unique device id.

use vstd::prelude::*;
use sha2::Digest;
use crate::config::SwitchDeviceConfig;
use crate::monitors::opt_view;
use crate::safety::SafetyComment;
use crate::switches::SwitchStatus;
use crate::text::{decimal_digits, decimal_string, same_text, to_lowercase, unicode_lowercase};
use crate::weather::ObservingConditionsProperties;

verus! {

/// Error number for an invalid device number or an unimplemented property.
pub const ERROR_NOT_IMPLEMENTED: i32 = 0x400;
/// Error number for an invalid value, such as a switch id out of range.
pub const ERROR_INVALID_VALUE: i32 = 0x401;
/// Error number for a device that is not connected.
pub const ERROR_NOT_CONNECTED: i32 = 0x407;
/// Error number for an operation that is not valid now.
pub const ERROR_INVALID_OPERATION: i32 = 0x40B;
/// Error number for an action that is not implemented.
pub const ERROR_ACTION_NOT_IMPLEMENTED: i32 = 0x40C;

/// An error reply: its ASCOM error number and message.
pub struct AlpacaFault {
    pub error_number: i32,
    pub message: String,
}

/// The mathematical value of an `AlpacaFault`.
pub struct FaultView {
    pub error_number: i32,
    pub message: Seq<char>,
}

impl View for AlpacaFault {
    type V = FaultView;

    open spec fn view(&self) -> FaultView {
        FaultView { error_number: self.error_number, message: self.message@ }
    }
}

/// The standard Alpaca reply.
pub struct AlpacaResponse<T> {
    pub value: T,
    pub client_transaction_i_d: u32,
    pub server_transaction_i_d: u32,
    pub error_number: i32,
    pub error_message: String,
    /// Why the system is unsafe, where that is reported.
    pub comments: Option<Vec<SafetyComment>>,
}

impl<T> AlpacaResponse<T> {
    /// A successful reply carrying `value`.
    pub fn success(value: T, client_id: u32, server_id: u32) -> (r: Self)
        ensures
            r.value == value,
            r.client_transaction_i_d == client_id,
            r.server_transaction_i_d == server_id,
            r.error_number == 0,
            r.error_message@ == Seq::<char>::empty(),
            r.comments is None,
    {
        AlpacaResponse {
            value,
            client_transaction_i_d: client_id,
            server_transaction_i_d: server_id,
            error_number: 0,
            error_message: String::new(),
            comments: None,
        }
    }

    /// A successful reply carrying `value` and comments.
    pub fn success_with_comments(value: T, client_id: u32, server_id: u32, comments: Vec<SafetyComment>) -> (r: Self)
        ensures
            r.value == value,
            r.client_transaction_i_d == client_id,
            r.server_transaction_i_d == server_id,
            r.error_number == 0,
            r.error_message@ == Seq::<char>::empty(),
            r.comments == Some(comments),
    {
        AlpacaResponse {
            value,
            client_transaction_i_d: client_id,
            server_transaction_i_d: server_id,
            error_number: 0,
            error_message: String::new(),
            comments: Some(comments),
        }
    }

    /// An error reply; its value is the type's default value.
    pub fn error(client_id: u32, server_id: u32, error_number: i32, error_message: String) -> (r: Self) where T: Default
        ensures
            r.client_transaction_i_d == client_id,
            r.server_transaction_i_d == server_id,
            r.error_number == error_number,
            r.error_message == error_message,
            r.comments is None,
    {
        AlpacaResponse {
            value: T::default(),
            client_transaction_i_d: client_id,
            server_transaction_i_d: server_id,
            error_number,
            error_message,
            comments: None,
        }
    }
}

fn fault(error_number: i32, message: &str) -> (r: AlpacaFault)
    ensures
        r.error_number == error_number,
        r.message@ == message@,
{
    AlpacaFault { error_number, message: message.to_owned() }
}

/// The reply to a request for a device number other than 0.
pub open spec fn invalid_device() -> FaultView {
    FaultView { error_number: 0x400, message: "Invalid device number"@ }
}

/// The reply to a request that needs a connection the device lacks.
pub open spec fn not_connected() -> FaultView {
    FaultView { error_number: 0x407, message: "Device not connected"@ }
}

/// The outcome of the common checks of a SafetyMonitor or Switch request:
/// the device number must be 0, and where the request needs it, the device
/// must be connected.
pub open spec fn device_outcome(device: u32, needs_connection: bool, connected: bool) -> Option<FaultView> {
    if device != 0 {
        Some(invalid_device())
    } else if needs_connection && !connected {
        Some(not_connected())
    } else {
        None
    }
}

/// Applies the common checks of a SafetyMonitor or Switch request.
pub fn check_device_request(device: u32, needs_connection: bool, connected: bool) -> (r: Option<AlpacaFault>)
    ensures
        match r {
            Some(f) => device_outcome(device, needs_connection, connected) == Some(f@),
            None => device_outcome(device, needs_connection, connected) is None,
        },
{
    if device != 0 {
        return Some(fault(ERROR_NOT_IMPLEMENTED, "Invalid device number"));
    }
    if needs_connection && !connected {
        return Some(fault(ERROR_NOT_CONNECTED, "Device not connected"));
    }
    None
}

/// The message for a switch id beyond the last switch.
pub open spec fn out_of_range_text(switch_id: i16, count: usize) -> Seq<char> {
    "Switch ID "@ + decimal_digits(switch_id as nat) + " out of range (max: "@ + decimal_digits(
        if count == 0 {
            0nat
        } else {
            (count - 1) as nat
        },
    ) + ")"@
}

/// The outcome of a request about one switch: the common checks, then the
/// switch id must not be negative and must name one of `count` switches.
pub open spec fn switch_outcome(device: u32, needs_connection: bool, connected: bool, switch_id: i16, count: usize) -> Result<usize, FaultView> {
    match device_outcome(device, needs_connection, connected) {
        Some(f) => Err(f),
        None => if switch_id < 0 {
            Err(FaultView { error_number: 0x401, message: "Invalid switch ID"@ })
        } else if switch_id as usize >= count {
            Err(FaultView { error_number: 0x401, message: out_of_range_text(switch_id, count) })
        } else {
            Ok(switch_id as usize)
        },
    }
}

/// Applies the checks of a request about one switch; the result is the
/// switch's index.
pub fn check_switch_request(device: u32, needs_connection: bool, connected: bool, switch_id: i16, count: usize) -> (r: Result<usize, AlpacaFault>)
    ensures
        match r {
            Ok(i) => switch_outcome(device, needs_connection, connected, switch_id, count) == Ok::<usize, FaultView>(i),
            Err(f) => switch_outcome(device, needs_connection, connected, switch_id, count) == Err::<usize, FaultView>(f@),
        },
{
    match check_device_request(device, needs_connection, connected) {
        Some(f) => return Err(f),
        None => {},
    }
    if switch_id < 0 {
        return Err(fault(ERROR_INVALID_VALUE, "Invalid switch ID"));
    }
    let index = switch_id as usize;
    if index >= count {
        let mut m = "Switch ID ".to_owned();
        let id_text = decimal_string(switch_id as u64);
        m.append(id_text.as_str());
        m.append(" out of range (max: ");
        let max_text = decimal_string(count.saturating_sub(1) as u64);
        m.append(max_text.as_str());
        m.append(")");
        return Err(AlpacaFault { error_number: ERROR_INVALID_VALUE, message: m });
    }
    Ok(index)
}

/// The reply to any custom action: none is supported.
pub fn action_not_supported(action: &str) -> (r: AlpacaFault)
    ensures
        r@ == (FaultView { error_number: 0x40C, message: "Action '"@ + action@ + "' is not supported"@ }),
{
    let mut m = "Action '".to_owned();
    m.append(action);
    m.append("' is not supported");
    AlpacaFault { error_number: ERROR_ACTION_NOT_IMPLEMENTED, message: m }
}

/// The commands a device may be sent; none is implemented.
#[derive(Clone, Copy, Debug, PartialEq, Eq, Structural)]
pub enum CommandKind {
    Blind,
    Bool,
    Text,
}

/// The reply to a command.
pub fn command_not_implemented(kind: CommandKind) -> (r: AlpacaFault)
    ensures
        r.error_number == 0x40C,
        r.message@ == match kind {
            CommandKind::Blind => "CommandBlind is not implemented"@,
            CommandKind::Bool => "CommandBool is not implemented"@,
            CommandKind::Text => "CommandString is not implemented"@,
        },
{
    match kind {
        CommandKind::Blind => fault(ERROR_ACTION_NOT_IMPLEMENTED, "CommandBlind is not implemented"),
        CommandKind::Bool => fault(ERROR_ACTION_NOT_IMPLEMENTED, "CommandBool is not implemented"),
        CommandKind::Text => fault(ERROR_ACTION_NOT_IMPLEMENTED, "CommandString is not implemented"),
    }
}

/// The reply to an attempt to set a switch: switches are read-only.
pub fn switch_is_read_only() -> (r: AlpacaFault)
    ensures
        r@ == (FaultView { error_number: 0x40B, message: "This switch is read-only and cannot be set"@ }),
{
    fault(ERROR_INVALID_OPERATION, "This switch is read-only and cannot be set")
}

/// The transaction number a device hands out next, with its counter: the
/// counter is returned and then advanced, wrapping around at `u32::MAX`.
pub fn next_transaction(counter: &mut u32) -> (id: u32)
    ensures
        id == *old(counter),
        *final(counter) == (if *old(counter) == u32::MAX {
            0
        } else {
            (*old(counter) + 1) as u32
        }),
{
    let id = *counter;
    *counter = counter.wrapping_add(1);
    id
}

/// The ASCOM SafetyMonitor device.
pub struct SafetyMonitor {
    pub connected: bool,
    pub server_transaction_id: u32,
    pub device_name: String,
    pub location: String,
    pub description: String,
    pub driver_info: String,
    pub driver_version: String,
}

impl SafetyMonitor {
    /// A monitor that starts disconnected, as the ASCOM standard asks.
    pub fn new(device_name: String, location: String) -> (r: SafetyMonitor)
        ensures
            !r.connected,
            r.server_transaction_id == 0,
            r.device_name == device_name,
            r.location == location,
            r.description@ == "LLAMA Safety Monitor - Monitors MQTT and ASCOM Alpaca endpoints"@,
            r.driver_info@ == "LLAMA Safety Monitor Driver v0.1.0"@,
            r.driver_version@ == "0.1.0"@,
    {
        SafetyMonitor {
            connected: false,
            server_transaction_id: 0,
            device_name,
            location,
            description: "LLAMA Safety Monitor - Monitors MQTT and ASCOM Alpaca endpoints".to_owned(),
            driver_info: "LLAMA Safety Monitor Driver v0.1.0".to_owned(),
            driver_version: "0.1.0".to_owned(),
        }
    }

    /// Hands out the next server transaction number.
    pub fn next_transaction_id(&mut self) -> (id: u32)
        ensures
            id == old(self).server_transaction_id,
            final(self).server_transaction_id == (if id == u32::MAX {
                0
            } else {
                (id + 1) as u32
            }),
            final(self).connected == old(self).connected,
            final(self).device_name == old(self).device_name,
    {
        next_transaction(&mut self.server_transaction_id)
    }

    /// Connected means: switched on by the user, and every monitor ready.
    pub fn is_connected(&self, monitors_ready: bool) -> (r: bool)
        ensures
            r == (self.connected && monitors_ready),
    {
        self.connected && monitors_ready
    }
}

/// The ASCOM Switch device.
pub struct SwitchDevice {
    pub connected: bool,
    pub server_transaction_id: u32,
    pub device_name: String,
    pub description: String,
    pub driver_info: String,
    pub driver_version: String,
}

impl SwitchDevice {
    /// A switch device as configured; `version` is the program's version.
    pub fn new(config: &SwitchDeviceConfig, version: &str) -> (r: SwitchDevice)
        ensures
            r.connected == config.auto_connect,
            r.server_transaction_id == 0,
            r.device_name@ == match config.name {
                Some(n) => n@,
                None => "LLAMA Switch Device"@,
            },
            r.description@ == match config.description {
                Some(d) => d@,
                None => "Aggregated switches with configurable logic for automation"@,
            },
            r.driver_info@ == "LLAMA Switch Driver v"@ + version@,
            r.driver_version@ == version@,
    {
        let device_name = match &config.name {
            Some(n) => n.clone(),
            None => "LLAMA Switch Device".to_owned(),
        };
        let description = match &config.description {
            Some(d) => d.clone(),
            None => "Aggregated switches with configurable logic for automation".to_owned(),
        };
        let mut driver_info = "LLAMA Switch Driver v".to_owned();
        driver_info.append(version);
        SwitchDevice {
            connected: config.auto_connect,
            server_transaction_id: 0,
            device_name,
            description,
            driver_info,
            driver_version: version.to_owned(),
        }
    }

    /// Hands out the next server transaction number.
    pub fn next_transaction_id(&mut self) -> (id: u32)
        ensures
            id == old(self).server_transaction_id,
            final(self).server_transaction_id == (if id == u32::MAX {
                0
            } else {
                (id + 1) as u32
            }),
            final(self).connected == old(self).connected,
    {
        next_transaction(&mut self.server_transaction_id)
    }

    pub fn is_connected(&self) -> (r: bool)
        ensures
            r == self.connected,
    {
        self.connected
    }
}

/// The description a switch reports: its own, or one made from its sources,
/// logic and hold time.
pub open spec fn switch_description_text(description: Option<Seq<char>>, sources: nat, logic: Seq<char>, hold: u64) -> Seq<char> {
    match description {
        Some(d) => d,
        None => "Aggregates "@ + decimal_digits(sources) + " sources using "@ + logic + " logic (hold time: "@
            + decimal_digits(hold as nat) + "s)"@,
    }
}

/// Describes an evaluated switch.
pub fn switch_description(status: &SwitchStatus) -> (r: String)
    ensures
        r@ == switch_description_text(
            opt_view(status.description),
            status.source_states@.len(),
            status.logic.description_text(),
            status.hold_time_seconds,
        ),
{
    match &status.description {
        Some(d) => d.clone(),
        None => {
            let mut s = "Aggregates ".to_owned();
            let n = decimal_string(status.source_states.len() as u64);
            s.append(n.as_str());
            s.append(" sources using ");
            let l = status.logic.description();
            s.append(l.as_str());
            s.append(" logic (hold time: ");
            let h = decimal_string(status.hold_time_seconds);
            s.append(h.as_str());
            s.append("s)");
            s
        },
    }
}

/// The standard casing of a query parameter name, matched without regard
/// to case; unknown names are kept as they are.
pub open spec fn normalized_key(key: Seq<char>) -> Seq<char> {
    let lower = unicode_lowercase(key);
    if lower == "clientid"@ {
        "ClientID"@
    } else if lower == "clienttransactionid"@ {
        "ClientTransactionID"@
    } else if lower == "sensorname"@ {
        "SensorName"@
    } else if lower == "averageperiod"@ {
        "AveragePeriod"@
    } else if lower == "connected"@ {
        "Connected"@
    } else {
        key
    }
}

/// Normalises a query parameter name to its standard ASCOM casing.
pub fn normalize_key(key: &str) -> (r: String)
    ensures
        r@ == normalized_key(key@),
{
    let lower = to_lowercase(key);
    if same_text(lower.as_str(), "clientid") {
        "ClientID".to_owned()
    } else if same_text(lower.as_str(), "clienttransactionid") {
        "ClientTransactionID".to_owned()
    } else if same_text(lower.as_str(), "sensorname") {
        "SensorName".to_owned()
    } else if same_text(lower.as_str(), "averageperiod") {
        "AveragePeriod".to_owned()
    } else if same_text(lower.as_str(), "connected") {
        "Connected".to_owned()
    } else {
        key.to_owned()
    }
}

/// The boolean a form value stands for: "true" or "1", "false" or "0", in
/// any case; anything else is refused with a message.
pub open spec fn bool_text_value(s: Seq<char>) -> Result<bool, Seq<char>> {
    let lower = unicode_lowercase(s);
    if lower == "true"@ || lower == "1"@ {
        Ok(true)
    } else if lower == "false"@ || lower == "0"@ {
        Ok(false)
    } else {
        Err("expected boolean string, got '"@ + s + "'"@)
    }
}

/// Reads a boolean form value.
pub fn parse_bool_text(s: &str) -> (r: Result<bool, String>)
    ensures
        match r {
            Ok(b) => bool_text_value(s@) == Ok::<bool, Seq<char>>(b),
            Err(m) => bool_text_value(s@) == Err::<bool, Seq<char>>(m@),
        },
{
    let lower = to_lowercase(s);
    if same_text(lower.as_str(), "true") || same_text(lower.as_str(), "1") {
        Ok(true)
    } else if same_text(lower.as_str(), "false") || same_text(lower.as_str(), "0") {
        Ok(false)
    } else {
        let mut m = "expected boolean string, got '".to_owned();
        m.append(s);
        m.append("'");
        Err(m)
    }
}

/// An ASCOM ObservingConditions device.
pub struct ObservingConditionsDevice {
    pub device_number: u32,
    pub connected: bool,
    pub server_transaction_id: u32,
    pub name: String,
    pub description: String,
    pub driver_info: String,
    pub driver_version: String,
}

impl ObservingConditionsDevice {
    /// A device that starts connected when `auto_connect` is set; `version`
    /// is the program's version.
    pub fn new(device_number: u32, name: String, description: String, auto_connect: bool, version: &str) -> (r: ObservingConditionsDevice)
        ensures
            r.device_number == device_number,
            r.connected == auto_connect,
            r.server_transaction_id == 0,
            r.name == name,
            r.description == description,
            r.driver_info@ == "LLAMA Weather Station Driver v"@ + version@,
            r.driver_version@ == version@,
    {
        let mut driver_info = "LLAMA Weather Station Driver v".to_owned();
        driver_info.append(version);
        ObservingConditionsDevice {
            device_number,
            connected: auto_connect,
            server_transaction_id: 0,
            name,
            description,
            driver_info,
            driver_version: version.to_owned(),
        }
    }

    /// Hands out the next server transaction number.
    pub fn next_transaction_id(&mut self) -> (id: u32)
        ensures
            id == old(self).server_transaction_id,
            final(self).server_transaction_id == (if id == u32::MAX {
                0
            } else {
                (id + 1) as u32
            }),
            final(self).connected == old(self).connected,
    {
        next_transaction(&mut self.server_transaction_id)
    }

    pub fn is_connected(&self) -> (r: bool)
        ensures
            r == self.connected,
    {
        self.connected
    }

    pub fn set_connected(&mut self, connected: bool)
        ensures
            final(self).connected == connected,
            final(self).server_transaction_id == old(self).server_transaction_id,
            final(self).device_number == old(self).device_number,
    {
        self.connected = connected;
    }
}

/// The outcome of a request for a measured property: the device must be
/// connected, the property supported, and an observation at hand.
pub open spec fn property_outcome(connected: bool, property: Seq<char>, has_observation: bool) -> Option<FaultView> {
    if !connected {
        Some(FaultView { error_number: 0x407, message: "Device is not connected"@ })
    } else if !ObservingConditionsProperties::tempest_names().contains(property) {
        Some(FaultView { error_number: 0x400, message: "Property '"@ + property + "' is not implemented"@ })
    } else if !has_observation {
        Some(FaultView { error_number: 0x40B, message: "No weather data available"@ })
    } else {
        None
    }
}

/// Applies the checks of a request for a measured property.
pub fn check_property_request(connected: bool, property: &str, has_observation: bool) -> (r: Option<AlpacaFault>)
    ensures
        match r {
            Some(f) => property_outcome(connected, property@, has_observation) == Some(f@),
            None => property_outcome(connected, property@, has_observation) is None,
        },
{
    if !connected {
        return Some(fault(ERROR_NOT_CONNECTED, "Device is not connected"));
    }
    if !crate::weather::is_property_supported(property) {
        let mut m = "Property '".to_owned();
        m.append(property);
        m.append("' is not implemented");
        return Some(AlpacaFault { error_number: ERROR_NOT_IMPLEMENTED, message: m });
    }
    if !has_observation {
        return Some(fault(ERROR_INVALID_OPERATION, "No weather data available"));
    }
    None
}

/// The Alpaca discovery responder.
pub struct DiscoveryService {
    pub alpaca_port: u16,
    pub device_name: String,
}

impl DiscoveryService {
    pub fn new(alpaca_port: u16, device_name: String) -> (r: DiscoveryService)
        ensures
            r.alpaca_port == alpaca_port,
            r.device_name == device_name,
    {
        DiscoveryService { alpaca_port, device_name }
    }

    /// The reply to a discovery request, as JSON text.
    pub fn response_text(&self) -> (r: String)
        ensures
            r@ == "{\"AlpacaPort\":"@ + decimal_digits(self.alpaca_port as nat) + "}"@,
    {
        let mut s = "{\"AlpacaPort\":".to_owned();
        let p = decimal_string(self.alpaca_port as u64);
        s.append(p.as_str());
        s.append("}");
        s
    }
}

/// The bytes of an Alpaca discovery request.
pub open spec fn discovery_request() -> Seq<u8> {
    seq![
        97u8, 108u8, 112u8, 97u8, 99u8, 97u8, 100u8, 105u8, 115u8, 99u8, 111u8, 118u8, 101u8, 114u8, 121u8, 49u8,
    ]
}

/// Whether a packet is an Alpaca discovery request ("alpacadiscovery1").
pub fn is_discovery_request(data: &[u8]) -> (r: bool)
    ensures
        r == (data@ == discovery_request()),
{
    let expected: [u8; 16] = [97, 108, 112, 97, 99, 97, 100, 105, 115, 99, 111, 118, 101, 114, 121, 49];
    if data.len() != 16 {
        return false;
    }
    let mut i: usize = 0;
    while i < 16
        invariant
            data@.len() == 16,
            expected@ == discovery_request(),
            i <= 16,
            forall|j: int| 0 <= j < i ==> data@[j] == discovery_request()[j],
        decreases 16 - i,
    {
        if data[i] != expected[i] {
            return false;
        }
        i = i + 1;
    }
    assert(data@ =~= discovery_request());
    true
}

/// What SHA-256 gives for a byte sequence.
pub uninterp spec fn sha256_of(data: Seq<u8>) -> Seq<u8>;

/// Calls `Digest::digest` of sha2's `Sha256`. The contract names the result
/// `sha256_of` the input bytes and states its length: sha2 types the output
/// as a 32-byte array. The hash itself is not stated.
#[verifier::external_body]
fn sha256(data: &[u8]) -> (r: Vec<u8>)
    ensures
        r@ == sha256_of(data@),
        r@.len() == 32,
{
    sha2::Sha256::digest(data).to_vec()
}

/// The lower-case hexadecimal digit of a value below 16.
pub open spec fn hex_digit(n: int) -> char {
    if n < 10 {
        (48 + n) as char
    } else {
        (87 + n) as char
    }
}

/// Bytes in lower-case hexadecimal, two digits per byte, high digit first.
pub open spec fn hex_text(bytes: Seq<u8>) -> Seq<char>
    decreases bytes.len(),
{
    if bytes.len() == 0 {
        Seq::empty()
    } else {
        hex_text(bytes.drop_last()) + seq![hex_digit(bytes.last() as int / 16), hex_digit(bytes.last() as int % 16)]
    }
}

/// Calls `hex::encode`, which writes each byte as two lower-case
/// hexadecimal digits, high digit first (the table "0123456789abcdef" in
/// the crate's source).
#[verifier::external_body]
fn hex_encode(data: &[u8]) -> (r: String)
    ensures
        r@ == hex_text(data@),
{
    hex::encode(data)
}

/// The unique id made from the digest of the machine's MAC address: its
/// first 8 bytes in hexadecimal.
pub fn unique_id_from_digest(digest: &[u8]) -> (r: String)
    requires
        digest@.len() >= 8,
    ensures
        r@ == "llama-watch-"@ + hex_text(digest@.take(8)),
{
    let mut head: Vec<u8> = Vec::new();
    let mut i: usize = 0;
    while i < 8
        invariant
            digest@.len() >= 8,
            i <= 8,
            head@ == digest@.take(i as int),
        decreases 8 - i,
    {
        head.push(digest[i]);
        assert(head@ =~= digest@.take(i + 1));
        i = i + 1;
    }
    let hx = hex_encode(head.as_slice());
    let mut s = "llama-watch-".to_owned();
    s.append(hx.as_str());
    s
}

/// The id of this server: made from the SHA-256 digest of the MAC address
/// when there is one, else a fixed fallback.
pub open spec fn unique_id_text(mac: Option<Seq<u8>>) -> Seq<char> {
    match mac {
        Some(m) => "llama-watch-"@ + hex_text(sha256_of(m).take(8)),
        None => "llama-watch-00000000-0000-0000-0000-000000000000"@,
    }
}

/// Makes the unique id of this server from its MAC address, if known.
pub fn generate_unique_id(mac: Option<Vec<u8>>) -> (r: String)
    ensures
        r@ == unique_id_text(match mac {
            Some(m) => Some(m@),
            None => None,
        }),
{
    match mac {
        Some(m) => {
            let d = sha256(m.as_slice());
            unique_id_from_digest(d.as_slice())
        },
        None => "llama-watch-00000000-0000-0000-0000-000000000000".to_owned(),
    }
}

/// The description of the server, for the management API.
pub struct ServerDescription {
    pub server_name: String,
    pub manufacturer: String,
    pub manufacturer_version: String,
    pub location: String,
}

/// Describes this server; `version` is the program's version.
pub fn server_description(device_name: &str, location: &str, version: &str) -> (r: ServerDescription)
    ensures
        r.server_name@ == device_name@,
        r.manufacturer@ == "Corey Smart"@,
        r.manufacturer_version@ == version@,
        r.location@ == location@,
{
    ServerDescription {
        server_name: device_name.to_owned(),
        manufacturer: "Corey Smart".to_owned(),
        manufacturer_version: version.to_owned(),
        location: location.to_owned(),
    }
}

/// A device as listed by the management API.
pub struct DeviceDescription {
    pub device_name: String,
    pub device_type: String,
    pub device_number: u32,
    pub unique_i_d: String,
}

pub open spec fn description_views(v: Seq<DeviceDescription>) -> Seq<(Seq<char>, Seq<char>, u32, Seq<char>)> {
    Seq::new(v.len(), |i: int| (v[i].device_name@, v[i].device_type@, v[i].device_number, v[i].unique_i_d@))
}

/// The devices the management API lists: the SafetyMonitor, then each
/// ObservingConditions device, each with an id made from the server's.
pub open spec fn configured_device_entries(safety_name: Seq<char>, uid: Seq<char>, oc: Seq<(u32, String)>) -> Seq<(Seq<char>, Seq<char>, u32, Seq<char>)> {
    seq![(safety_name, "SafetyMonitor"@, 0u32, uid + "-safetymonitor-0"@)] + Seq::new(
        oc.len(),
        |i: int| (oc[i].1@, "ObservingConditions"@, oc[i].0, uid + "-observingconditions-"@ + decimal_digits(oc[i].0 as nat)),
    )
}

/// Lists the configured devices.
pub fn configured_devices(safety_name: &str, unique_id: &str, oc: &Vec<(u32, String)>) -> (r: Vec<DeviceDescription>)
    ensures
        description_views(r@) == configured_device_entries(safety_name@, unique_id@, oc@),
{
    let ghost target = configured_device_entries(safety_name@, unique_id@, oc@);
    let mut v: Vec<DeviceDescription> = Vec::new();
    let mut uid = unique_id.to_owned();
    uid.append("-safetymonitor-0");
    v.push(
        DeviceDescription {
            device_name: safety_name.to_owned(),
            device_type: "SafetyMonitor".to_owned(),
            device_number: 0,
            unique_i_d: uid,
        },
    );
    let mut i: usize = 0;
    while i < oc.len()
        invariant
            target == configured_device_entries(safety_name@, unique_id@, oc@),
            i <= oc@.len(),
            v@.len() == i + 1,
            forall|j: int| 0 <= j < i + 1 ==> #[trigger] description_views(v@)[j] == target[j],
        decreases oc@.len() - i,
    {
        let (n, name) = (oc[i].0, &oc[i].1);
        let mut id = unique_id.to_owned();
        id.append("-observingconditions-");
        let digits = decimal_string(n as u64);
        id.append(digits.as_str());
        let ghost v0 = v@;
        v.push(
            DeviceDescription {
                device_name: name.clone(),
                device_type: "ObservingConditions".to_owned(),
                device_number: n,
                unique_i_d: id,
            },
        );
        assert forall|j: int| 0 <= j < i + 2 implies #[trigger] description_views(v@)[j] == target[j] by {
            if j < i + 1 {
                assert(v@[j] == v0[j]);
                assert(description_views(v0)[j] == target[j]);
            }
        }
        i = i + 1;
    }
    assert(description_views(v@) =~= target);
    v
}

/// Parameter names are matched without regard to case: two names that
/// lower-case alike normalise alike when either is a known name.
pub proof fn lemma_normalize_ignores_case(a: Seq<char>, b: Seq<char>)
    requires
        unicode_lowercase(a) == unicode_lowercase(b),
        normalized_key(a) != a,
    ensures
        normalized_key(a) == normalized_key(b),
{
}

/// Boolean form values are read without regard to case.
pub proof fn lemma_bool_text_ignores_case(a: Seq<char>, b: Seq<char>)
    requires
        unicode_lowercase(a) == unicode_lowercase(b),
        bool_text_value(a) is Ok,
    ensures
        bool_text_value(b) == bool_text_value(a),
{
}

/// The reply to a property this server does not measure at all.
pub fn unmeasured_property(property: &str) -> (r: AlpacaFault)
    ensures
        r@ == (FaultView { error_number: 0x400, message: property@ + " is not implemented"@ }),
{
    let mut m = property.to_owned();
    m.append(" is not implemented");
    AlpacaFault { error_number: ERROR_NOT_IMPLEMENTED, message: m }
}

/// The reply to a negative averaging period.
pub fn negative_average_period() -> (r: AlpacaFault)
    ensures
        r@ == (FaultView { error_number: 0x401, message: "AveragePeriod cannot be negative"@ }),
{
    fault(ERROR_INVALID_VALUE, "AveragePeriod cannot be negative")
}

/// The outcome of a request for the age of the data: the device must be
/// connected and have an observation.
pub open spec fn age_outcome(connected: bool, has_observation: bool) -> Option<FaultView> {
    if !connected {
        Some(FaultView { error_number: 0x407, message: "Device is not connected"@ })
    } else if !has_observation {
        Some(FaultView { error_number: 0x40B, message: "No weather data available"@ })
    } else {
        None
    }
}

/// Applies the checks of a request for the age of the data.
pub fn check_age_request(connected: bool, has_observation: bool) -> (r: Option<AlpacaFault>)
    ensures
        match r {
            Some(f) => age_outcome(connected, has_observation) == Some(f@),
            None => age_outcome(connected, has_observation) is None,
        },
{
    if !connected {
        return Some(fault(ERROR_NOT_CONNECTED, "Device is not connected"));
    }
    if !has_observation {
        return Some(fault(ERROR_INVALID_OPERATION, "No weather data available"));
    }
    None
}

/// The body of the HTTP 400 reply to an unknown ObservingConditions device.
pub fn unknown_device_message(device_number: u32) -> (r: String)
    ensures
        r@ == "Invalid device number: "@ + decimal_digits(device_number as nat),
{
    let mut m = "Invalid device number: ".to_owned();
    let n = decimal_string(device_number as u64);
    m.append(n.as_str());
    m
}

} // verus!
