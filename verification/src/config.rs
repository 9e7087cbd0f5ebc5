//! Configuration model: comparison and aggregation rules, the settings
//! records the monitors and switches are built from, and the check that a
//! configuration only refers to servers and monitors that exist.

use vstd::prelude::*;
use crate::text::{decimal_digits, decimal_string};

verus! {

/// How a measured value is compared with its threshold.
#[derive(Clone, Copy, Debug, PartialEq, Eq, Structural)]
pub enum ComparisonOperator {
    GreaterThan,
    LessThan,
    Equal,
}

impl Default for ComparisonOperator {
    fn default() -> (r: Self)
        ensures
            r == ComparisonOperator::GreaterThan,
    {
        ComparisonOperator::GreaterThan
    }
}

/// Whether a threshold comparison means safe: with `safe_when_true` a true
/// comparison is safe, otherwise a true comparison is unsafe.
pub open spec fn safety_of(comparison_result: bool, safe_when_true: bool) -> bool {
    if safe_when_true {
        comparison_result
    } else {
        !comparison_result
    }
}

/// Turns the result of a threshold comparison into a safety verdict.
pub fn check_threshold(comparison_result: bool, safe_when_true: bool) -> (is_safe: bool)
    ensures
        is_safe == safety_of(comparison_result, safe_when_true),
{
    if safe_when_true {
        comparison_result
    } else {
        !comparison_result
    }
}

/// Inverting `safe_when_true` inverts the verdict.
pub proof fn lemma_safe_when_true_inverts(comparison_result: bool)
    ensures
        safety_of(comparison_result, true) != safety_of(comparison_result, false),
        safety_of(comparison_result, true) == comparison_result,
{
}

/// The number of `true` entries of a sequence.
pub open spec fn count_true(s: Seq<bool>) -> nat
    decreases s.len(),
{
    if s.len() == 0 {
        0
    } else {
        count_true(s.drop_last()) + if s.last() {
            1nat
        } else {
            0nat
        }
    }
}

/// At most every entry of a sequence is true.
pub proof fn lemma_count_true_bounded(s: Seq<bool>)
    ensures
        count_true(s) <= s.len(),
    decreases s.len(),
{
    if s.len() > 0 {
        lemma_count_true_bounded(s.drop_last());
    }
}

/// Counts the `true` entries of a slice.
pub fn count_triggered(states: &[bool]) -> (n: usize)
    ensures
        n == count_true(states@),
{
    let mut n: usize = 0;
    let mut i: usize = 0;
    while i < states.len()
        invariant
            i <= states.len(),
            n == count_true(states@.take(i as int)),
            n <= i,
        decreases states.len() - i,
    {
        assert(states@.take(i + 1).drop_last() =~= states@.take(i as int));
        if states[i] {
            n = n + 1;
        }
        i = i + 1;
    }
    assert(states@.take(states.len() as int) =~= states@);
    n
}

/// How the states of several sources combine into one switch state.
#[derive(Clone, Copy, Debug, PartialEq, Eq, Structural)]
pub enum SwitchLogic {
    /// Triggered when any source is triggered.
    Any,
    /// Triggered only when every source is triggered.
    All,
    /// Triggered when at least `count` sources are triggered.
    MinOf { count: u32 },
}

impl Default for SwitchLogic {
    fn default() -> (r: Self)
        ensures
            r == SwitchLogic::Any,
    {
        SwitchLogic::Any
    }
}

/// The combination rule shared by switches and monitor groups: no state
/// never triggers; otherwise the count of triggered states (as a 32-bit
/// count) is compared with the rule.
pub open spec fn combined(logic: SwitchLogic, states: Seq<bool>) -> bool {
    if states.len() == 0 {
        false
    } else {
        let c = count_true(states) as u32;
        match logic {
            SwitchLogic::Any => c > 0,
            SwitchLogic::All => c == states.len() as u32,
            SwitchLogic::MinOf { count } => c >= count,
        }
    }
}

impl SwitchLogic {
    /// What `evaluate` returns for these source states.
    pub open spec fn triggers(self, source_states: Seq<bool>) -> bool {
        combined(self, source_states)
    }

    /// Evaluates the logic over the source states (true = triggered).
    pub fn evaluate(&self, source_states: &[bool]) -> (r: bool)
        ensures
            r == self.triggers(source_states@),
    {
        if source_states.len() == 0 {
            return false;
        }
        let triggered_count = count_triggered(source_states) as u32;
        match self {
            SwitchLogic::Any => triggered_count > 0,
            SwitchLogic::All => triggered_count == source_states.len() as u32,
            SwitchLogic::MinOf { count } => triggered_count >= *count,
        }
    }

    /// The text of `description`.
    pub open spec fn description_text(self) -> Seq<char> {
        match self {
            SwitchLogic::Any => "ANY source triggered"@,
            SwitchLogic::All => "ALL sources triggered"@,
            SwitchLogic::MinOf { count } => "at least "@ + decimal_digits(count as nat)
                + " sources triggered"@,
        }
    }

    /// A human-readable description of the logic.
    pub fn description(&self) -> (s: String)
        ensures
            s@ == self.description_text(),
    {
        match self {
            SwitchLogic::Any => "ANY source triggered".to_owned(),
            SwitchLogic::All => "ALL sources triggered".to_owned(),
            SwitchLogic::MinOf { count } => {
                let mut s = "at least ".to_owned();
                let n = decimal_string(*count as u64);
                s.append(n.as_str());
                s.append(" sources triggered");
                s
            },
        }
    }
}

/// `MinOf` with a count of 1 behaves as `Any`.
pub proof fn lemma_min_of_one_is_any(states: Seq<bool>)
    requires
        states.len() <= u32::MAX,
    ensures
        (SwitchLogic::MinOf { count: 1 }).triggers(states) == SwitchLogic::Any.triggers(states),
{
    lemma_count_true_bounded(states);
}

/// `MinOf` with a count equal to the number of sources behaves as `All`.
pub proof fn lemma_min_of_all_is_all(states: Seq<bool>)
    requires
        0 < states.len() <= u32::MAX,
    ensures
        (SwitchLogic::MinOf { count: states.len() as u32 }).triggers(states)
            == SwitchLogic::All.triggers(states),
{
    lemma_count_true_bounded(states);
}

/// Triggering is monotone: a state sequence that is triggered at least
/// where another one is, triggers whenever the other one does.
pub proof fn lemma_triggers_monotone(logic: SwitchLogic, a: Seq<bool>, b: Seq<bool>)
    requires
        a.len() == b.len(),
        a.len() <= u32::MAX,
        forall|i: int| 0 <= i < a.len() && a[i] ==> b[i],
    ensures
        logic.triggers(a) ==> logic.triggers(b),
{
    lemma_count_monotone(a, b);
    lemma_count_true_bounded(a);
    lemma_count_true_bounded(b);
}

proof fn lemma_count_monotone(a: Seq<bool>, b: Seq<bool>)
    requires
        a.len() == b.len(),
        forall|i: int| 0 <= i < a.len() && a[i] ==> b[i],
    ensures
        count_true(a) <= count_true(b),
    decreases a.len(),
{
    if a.len() > 0 {
        lemma_count_monotone(a.drop_last(), b.drop_last());
    }
}

/// How the unsafe states of a group's members combine into the group's
/// verdict (true = the group is unsafe).
#[derive(Clone, Copy, Debug, PartialEq, Eq, Structural)]
pub enum GroupLogic {
    /// The group is unsafe when any member is unsafe.
    Any,
    /// The group is unsafe only when every member is unsafe.
    All,
    /// The group is unsafe when at least `count` members are unsafe.
    MinOf { count: u32 },
}

impl Default for GroupLogic {
    fn default() -> (r: Self)
        ensures
            r == GroupLogic::Any,
    {
        GroupLogic::Any
    }
}

impl GroupLogic {
    /// The same combination as the switch logic of the same name.
    pub open spec fn as_switch_logic(self) -> SwitchLogic {
        match self {
            GroupLogic::Any => SwitchLogic::Any,
            GroupLogic::All => SwitchLogic::All,
            GroupLogic::MinOf { count } => SwitchLogic::MinOf { count },
        }
    }

    /// What `evaluate_unsafe` returns.
    pub open spec fn unsafe_for(self, member_unsafe_states: Seq<bool>) -> bool {
        combined(self.as_switch_logic(), member_unsafe_states)
    }

    /// Whether the group is unsafe, given which members are unsafe.
    pub fn evaluate_unsafe(&self, member_unsafe_states: &[bool]) -> (r: bool)
        ensures
            r == self.unsafe_for(member_unsafe_states@),
    {
        let logic = match self {
            GroupLogic::Any => SwitchLogic::Any,
            GroupLogic::All => SwitchLogic::All,
            GroupLogic::MinOf { count } => SwitchLogic::MinOf { count: *count },
        };
        logic.evaluate(member_unsafe_states)
    }
}

/// A group's verdict counts its unsafe members: ANY is unsafe when at
/// least one member is, ALL when every member is, and MIN_OF when at least
/// `count` members are. A group with no members is never unsafe.
pub proof fn lemma_group_logic_counts(logic: GroupLogic, states: Seq<bool>)
    requires
        states.len() <= u32::MAX,
    ensures
        states.len() == 0 ==> !logic.unsafe_for(states),
        states.len() > 0 ==> logic.unsafe_for(states) == match logic {
            GroupLogic::Any => count_true(states) > 0,
            GroupLogic::All => count_true(states) == states.len(),
            GroupLogic::MinOf { count } => count_true(states) >= count,
        },
        states.len() > 0 ==> logic.unsafe_for(states) == logic.as_switch_logic().triggers(states),
{
    lemma_count_true_bounded(states);
}

/// A MIN_OF group with fewer unsafe members than its count is safe, and
/// one with at least that many is unsafe.
pub proof fn lemma_min_of_group(count: u32, states: Seq<bool>)
    requires
        0 < states.len() <= u32::MAX,
    ensures
        count_true(states) < count ==> !(GroupLogic::MinOf { count }).unsafe_for(states),
        count_true(states) >= count ==> (GroupLogic::MinOf { count }).unsafe_for(states),
{
    lemma_group_logic_counts(GroupLogic::MinOf { count }, states);
}

/// Connection settings of an MQTT broker.
pub struct MqttServerConfig {
    pub id: String,
    pub host: String,
    pub port: u16,
    pub username: Option<String>,
    pub password: Option<String>,
}

/// Settings of the ASCOM Switch device.
pub struct SwitchDeviceConfig {
    pub enabled: bool,
    pub name: Option<String>,
    pub description: Option<String>,
    pub auto_connect: bool,
}

impl Default for SwitchDeviceConfig {
    fn default() -> (r: Self)
        ensures
            r.enabled,
            r.name is None,
            r.description is None,
            r.auto_connect,
    {
        SwitchDeviceConfig { enabled: true, name: None, description: None, auto_connect: true }
    }
}

/// An explicit switch that aggregates several monitors.
pub struct SwitchConfig {
    pub id: String,
    pub name: String,
    pub description: Option<String>,
    /// The monitor ids aggregated by the switch.
    pub sources: Vec<String>,
    pub logic: SwitchLogic,
    /// Sources without data for longer than this count as triggered.
    pub timeout_seconds: u64,
    /// How long a new state must hold before the switch reports it.
    pub hold_time_seconds: u64,
    pub enabled: bool,
}

/// A group of monitors whose safety is combined by a logic before it
/// enters the overall verdict.
pub struct MonitorGroupConfig {
    pub id: String,
    pub name: String,
    pub description: Option<String>,
    pub members: Vec<String>,
    pub logic: GroupLogic,
    pub enabled: bool,
}

/// Where a weather device gets its observations.
pub enum WeatherDataSource {
    /// A Tempest station; without a serial number any station is accepted.
    Tempest { serial_number: Option<String> },
    WeatherUnderground { station_id: String, api_key: String },
}

/// Default timeout of monitors and switches, in seconds.
pub fn default_timeout() -> (r: u64)
    ensures
        r == 300,
{
    300
}

/// Monitors and devices are enabled by default.
pub fn default_enabled() -> (r: bool)
    ensures
        r,
{
    true
}

/// Monitors count towards the overall safety by default.
pub fn default_include_in_safety() -> (r: bool)
    ensures
        r,
{
    true
}

/// The interface the server binds to by default.
pub fn default_server_interface() -> (r: String)
    ensures
        r@ == "127.0.0.1"@,
{
    "127.0.0.1".to_owned()
}

/// The UDP port of Tempest broadcasts.
pub fn default_udp_port() -> (r: u16)
    ensures
        r == 50222,
{
    50222
}

/// The port the server listens on: the configured one, or 8080 when none
/// (0) is configured.
pub fn effective_server_port(configured: u16) -> (r: u16)
    ensures
        r == if configured > 0 {
            configured
        } else {
            8080
        },
{
    if configured > 0 {
        configured
    } else {
        8080
    }
}

/// The name the safety monitor device reports: the configured one, or
/// "LLAMA Safety Monitor" when it is empty.
pub fn effective_device_name(configured: &str) -> (r: String)
    ensures
        r@ == if configured@.len() > 0 {
            configured@
        } else {
            "LLAMA Safety Monitor"@
        },
{
    if configured.unicode_len() > 0 {
        configured.to_owned()
    } else {
        "LLAMA Safety Monitor".to_owned()
    }
}

/// Devices connect on startup by default.
pub fn default_auto_connect() -> (r: bool)
    ensures
        r,
{
    true
}

} // verus!
