//! The consistency check of a configuration: every MQTT monitor uses a
//! configured broker, and every switch has sources, refers only to
//! configured monitors and has a satisfiable MIN_OF count.

use vstd::prelude::*;
use crate::config::{SwitchConfig, SwitchLogic};
use crate::safety::{contains_key, has_key};
use crate::text::{decimal_digits, decimal_string, text_views};

verus! {

/// An MQTT monitor as the check sees it: its configuration key, its id and
/// the broker it uses.
pub struct MonitorLink {
    pub key: String,
    pub id: String,
    pub server_id: String,
}

/// The parts of a configuration the check looks at.
pub struct ConfigReferences {
    pub mqtt_server_keys: Vec<String>,
    pub mqtt_monitors: Vec<MonitorLink>,
    pub alpaca_monitor_keys: Vec<String>,
    pub switches: Vec<SwitchConfig>,
}

/// Why a configuration was refused.
pub enum ConfigError {
    UnknownServer { monitor_id: String, server_id: String },
    NoSources { switch_id: String },
    UnknownMonitor { switch_id: String, monitor_id: String },
    MinOfZero { switch_id: String },
    MinOfTooLarge { switch_id: String, count: u32, sources: usize },
}

/// The mathematical value of a `ConfigError`.
pub enum ConfigErrorView {
    UnknownServer(Seq<char>, Seq<char>),
    NoSources(Seq<char>),
    UnknownMonitor(Seq<char>, Seq<char>),
    MinOfZero(Seq<char>),
    MinOfTooLarge(Seq<char>, u32, usize),
}

impl View for ConfigError {
    type V = ConfigErrorView;

    open spec fn view(&self) -> ConfigErrorView {
        match self {
            ConfigError::UnknownServer { monitor_id, server_id } => ConfigErrorView::UnknownServer(
                monitor_id@,
                server_id@,
            ),
            ConfigError::NoSources { switch_id } => ConfigErrorView::NoSources(switch_id@),
            ConfigError::UnknownMonitor { switch_id, monitor_id } => ConfigErrorView::UnknownMonitor(
                switch_id@,
                monitor_id@,
            ),
            ConfigError::MinOfZero { switch_id } => ConfigErrorView::MinOfZero(switch_id@),
            ConfigError::MinOfTooLarge { switch_id, count, sources } => ConfigErrorView::MinOfTooLarge(
                switch_id@,
                *count,
                *sources,
            ),
        }
    }
}

/// The text of an error.
pub open spec fn error_text(e: ConfigErrorView) -> Seq<char> {
    match e {
        ConfigErrorView::UnknownServer(m, s) => "MQTT monitor '"@ + m + "' references non-existent server '"@ + s
            + "'"@,
        ConfigErrorView::NoSources(w) => "Switch '"@ + w + "' has no sources defined"@,
        ConfigErrorView::UnknownMonitor(w, m) => "Switch '"@ + w + "' references non-existent monitor '"@ + m + "'"@,
        ConfigErrorView::MinOfZero(w) => "Switch '"@ + w + "' has min_of count of 0, which would always trigger"@,
        ConfigErrorView::MinOfTooLarge(w, c, n) => "Switch '"@ + w + "' has min_of count "@ + decimal_digits(
            c as nat,
        ) + " but only "@ + decimal_digits(n as nat) + " sources"@,
    }
}

impl ConfigError {
    /// The error's message.
    pub fn message(&self) -> (r: String)
        ensures
            r@ == error_text(self@),
    {
        match self {
            ConfigError::UnknownServer { monitor_id, server_id } => {
                let mut s = "MQTT monitor '".to_owned();
                s.append(monitor_id.as_str());
                s.append("' references non-existent server '");
                s.append(server_id.as_str());
                s.append("'");
                s
            },
            ConfigError::NoSources { switch_id } => {
                let mut s = "Switch '".to_owned();
                s.append(switch_id.as_str());
                s.append("' has no sources defined");
                s
            },
            ConfigError::UnknownMonitor { switch_id, monitor_id } => {
                let mut s = "Switch '".to_owned();
                s.append(switch_id.as_str());
                s.append("' references non-existent monitor '");
                s.append(monitor_id.as_str());
                s.append("'");
                s
            },
            ConfigError::MinOfZero { switch_id } => {
                let mut s = "Switch '".to_owned();
                s.append(switch_id.as_str());
                s.append("' has min_of count of 0, which would always trigger");
                s
            },
            ConfigError::MinOfTooLarge { switch_id, count, sources } => {
                let mut s = "Switch '".to_owned();
                s.append(switch_id.as_str());
                s.append("' has min_of count ");
                let c = decimal_string(*count as u64);
                s.append(c.as_str());
                s.append(" but only ");
                let n = decimal_string(*sources as u64);
                s.append(n.as_str());
                s.append(" sources");
                s
            },
        }
    }
}

/// Some MQTT monitor is configured under the key `k`.
pub open spec fn has_monitor_key(ms: Seq<MonitorLink>, k: Seq<char>) -> bool {
    exists|i: int| 0 <= i < ms.len() && (#[trigger] ms[i]).key@ == k
}

/// The first MQTT monitor whose broker is not configured.
pub open spec fn first_unknown_server(ms: Seq<MonitorLink>, servers: Seq<String>) -> Option<int>
    decreases ms.len(),
{
    if ms.len() == 0 {
        None
    } else {
        match first_unknown_server(ms.drop_last(), servers) {
            Some(i) => Some(i),
            None => if !has_key(servers, ms.last().server_id@) {
                Some(ms.len() - 1)
            } else {
                None
            },
        }
    }
}

/// The first source of a switch that names no configured monitor.
pub open spec fn first_unknown_source(srcs: Seq<Seq<char>>, mqtt: Seq<MonitorLink>, alpaca: Seq<String>) -> Option<int>
    decreases srcs.len(),
{
    if srcs.len() == 0 {
        None
    } else {
        match first_unknown_source(srcs.drop_last(), mqtt, alpaca) {
            Some(i) => Some(i),
            None => if !has_monitor_key(mqtt, srcs.last()) && !has_key(alpaca, srcs.last()) {
                Some(srcs.len() - 1)
            } else {
                None
            },
        }
    }
}

/// What is wrong with one switch, if anything.
pub open spec fn switch_problem(sw: SwitchConfig, mqtt: Seq<MonitorLink>, alpaca: Seq<String>) -> Option<ConfigErrorView> {
    let srcs = text_views(sw.sources@);
    if srcs.len() == 0 {
        Some(ConfigErrorView::NoSources(sw.id@))
    } else {
        match first_unknown_source(srcs, mqtt, alpaca) {
            Some(j) => Some(ConfigErrorView::UnknownMonitor(sw.id@, srcs[j])),
            None => match sw.logic {
                SwitchLogic::MinOf { count } => if count == 0 {
                    Some(ConfigErrorView::MinOfZero(sw.id@))
                } else if count > (srcs.len() as u32) {
                    Some(ConfigErrorView::MinOfTooLarge(sw.id@, count, srcs.len() as usize))
                } else {
                    None
                },
                _ => None,
            },
        }
    }
}

/// The problem of the first switch that has one.
pub open spec fn first_switch_problem(sws: Seq<SwitchConfig>, mqtt: Seq<MonitorLink>, alpaca: Seq<String>) -> Option<ConfigErrorView>
    decreases sws.len(),
{
    if sws.len() == 0 {
        None
    } else {
        match first_switch_problem(sws.drop_last(), mqtt, alpaca) {
            Some(e) => Some(e),
            None => switch_problem(sws.last(), mqtt, alpaca),
        }
    }
}

impl ConfigReferences {
    /// The first problem of the configuration: MQTT monitors are checked
    /// first, then switches, each in order.
    pub open spec fn problem(self) -> Option<ConfigErrorView> {
        match first_unknown_server(self.mqtt_monitors@, self.mqtt_server_keys@) {
            Some(i) => Some(
                ConfigErrorView::UnknownServer(self.mqtt_monitors@[i].id@, self.mqtt_monitors@[i].server_id@),
            ),
            None => first_switch_problem(self.switches@, self.mqtt_monitors@, self.alpaca_monitor_keys@),
        }
    }

    /// Checks the configuration; the error is its first problem.
    pub fn validate(&self) -> (r: Result<(), ConfigError>)
        ensures
            match r {
                Ok(()) => self.problem() is None,
                Err(e) => self.problem() == Some(e@),
            },
    {
        let ghost ms = self.mqtt_monitors@;
        let mut i: usize = 0;
        while i < self.mqtt_monitors.len()
            invariant
                ms == self.mqtt_monitors@,
                i <= ms.len(),
                first_unknown_server(ms.take(i as int), self.mqtt_server_keys@) is None,
            decreases ms.len() - i,
        {
            let m = &self.mqtt_monitors[i];
            assert(ms.take(i + 1).drop_last() =~= ms.take(i as int));
            if !contains_key(&self.mqtt_server_keys, m.server_id.as_str()) {
                proof {
                    lemma_first_unknown_server_prefix(ms, self.mqtt_server_keys@, i + 1);
                }
                return Err(ConfigError::UnknownServer { monitor_id: m.id.clone(), server_id: m.server_id.clone() });
            }
            i = i + 1;
        }
        assert(ms.take(ms.len() as int) =~= ms);
        let ghost sws = self.switches@;
        let mut k: usize = 0;
        while k < self.switches.len()
            invariant
                ms == self.mqtt_monitors@,
                sws == self.switches@,
                k <= sws.len(),
                first_unknown_server(ms, self.mqtt_server_keys@) is None,
                first_switch_problem(sws.take(k as int), ms, self.alpaca_monitor_keys@) is None,
            decreases sws.len() - k,
        {
            let sw = &self.switches[k];
            assert(sws.take(k + 1).drop_last() =~= sws.take(k as int));
            assert(sws.take(k + 1).last() == *sw);
            match check_switch(sw, &self.mqtt_monitors, &self.alpaca_monitor_keys) {
                Some(e) => {
                    proof {
                        lemma_first_switch_problem_prefix(sws, ms, self.alpaca_monitor_keys@, k + 1);
                    }
                    return Err(e);
                },
                None => {},
            }
            k = k + 1;
        }
        assert(sws.take(sws.len() as int) =~= sws);
        Ok(())
    }
}

proof fn lemma_first_unknown_server_prefix(ms: Seq<MonitorLink>, servers: Seq<String>, k: int)
    requires
        0 <= k <= ms.len(),
        first_unknown_server(ms.take(k), servers) is Some,
    ensures
        first_unknown_server(ms, servers) == first_unknown_server(ms.take(k), servers),
    decreases ms.len(),
{
    if k < ms.len() {
        assert(ms.drop_last().take(k) =~= ms.take(k));
        lemma_first_unknown_server_prefix(ms.drop_last(), servers, k);
    } else {
        assert(ms.take(k) =~= ms);
    }
}

proof fn lemma_first_switch_problem_prefix(sws: Seq<SwitchConfig>, mqtt: Seq<MonitorLink>, alpaca: Seq<String>, k: int)
    requires
        0 <= k <= sws.len(),
        first_switch_problem(sws.take(k), mqtt, alpaca) is Some,
    ensures
        first_switch_problem(sws, mqtt, alpaca) == first_switch_problem(sws.take(k), mqtt, alpaca),
    decreases sws.len(),
{
    if k < sws.len() {
        assert(sws.drop_last().take(k) =~= sws.take(k));
        lemma_first_switch_problem_prefix(sws.drop_last(), mqtt, alpaca, k);
    } else {
        assert(sws.take(k) =~= sws);
    }
}

proof fn lemma_first_unknown_source_prefix(srcs: Seq<Seq<char>>, mqtt: Seq<MonitorLink>, alpaca: Seq<String>, k: int)
    requires
        0 <= k <= srcs.len(),
        first_unknown_source(srcs.take(k), mqtt, alpaca) is Some,
    ensures
        first_unknown_source(srcs, mqtt, alpaca) == first_unknown_source(srcs.take(k), mqtt, alpaca),
    decreases srcs.len(),
{
    if k < srcs.len() {
        assert(srcs.drop_last().take(k) =~= srcs.take(k));
        lemma_first_unknown_source_prefix(srcs.drop_last(), mqtt, alpaca, k);
    } else {
        assert(srcs.take(k) =~= srcs);
    }
}

fn contains_monitor_key(ms: &Vec<MonitorLink>, k: &str) -> (r: bool)
    ensures
        r == has_monitor_key(ms@, k@),
{
    let mut i: usize = 0;
    while i < ms.len()
        invariant
            i <= ms@.len(),
            forall|j: int| 0 <= j < i ==> ms@[j].key@ != k@,
        decreases ms@.len() - i,
    {
        if crate::text::same_text(ms[i].key.as_str(), k) {
            assert(ms@[i as int].key@ == k@);
            return true;
        }
        i = i + 1;
    }
    false
}

fn check_switch(sw: &SwitchConfig, mqtt: &Vec<MonitorLink>, alpaca: &Vec<String>) -> (r: Option<ConfigError>)
    ensures
        match r {
            Some(e) => switch_problem(*sw, mqtt@, alpaca@) == Some(e@),
            None => switch_problem(*sw, mqtt@, alpaca@) is None,
        },
{
    let ghost srcs = text_views(sw.sources@);
    if sw.sources.len() == 0 {
        return Some(ConfigError::NoSources { switch_id: sw.id.clone() });
    }
    let mut j: usize = 0;
    while j < sw.sources.len()
        invariant
            srcs == text_views(sw.sources@),
            j <= srcs.len(),
            first_unknown_source(srcs.take(j as int), mqtt@, alpaca@) is None,
        decreases srcs.len() - j,
    {
        let src = &sw.sources[j];
        assert(srcs.take(j + 1).drop_last() =~= srcs.take(j as int));
        assert(srcs.take(j + 1).last() == src@);
        let mqtt_exists = contains_monitor_key(mqtt, src.as_str());
        let alpaca_exists = contains_key(alpaca, src.as_str());
        if !mqtt_exists && !alpaca_exists {
            proof {
                lemma_first_unknown_source_prefix(srcs, mqtt@, alpaca@, j + 1);
            }
            return Some(ConfigError::UnknownMonitor { switch_id: sw.id.clone(), monitor_id: src.clone() });
        }
        j = j + 1;
    }
    assert(srcs.take(srcs.len() as int) =~= srcs);
    match sw.logic {
        SwitchLogic::MinOf { count } => {
            if count == 0 {
                return Some(ConfigError::MinOfZero { switch_id: sw.id.clone() });
            }
            let n = sw.sources.len();
            if count > n as u32 {
                return Some(ConfigError::MinOfTooLarge { switch_id: sw.id.clone(), count, sources: n });
            }
            None
        },
        _ => None,
    }
}

proof fn lemma_no_unknown_source(srcs: Seq<Seq<char>>, mqtt: Seq<MonitorLink>, alpaca: Seq<String>)
    requires
        first_unknown_source(srcs, mqtt, alpaca) is None,
    ensures
        forall|j: int| 0 <= j < srcs.len() ==> has_monitor_key(mqtt, #[trigger] srcs[j]) || has_key(alpaca, srcs[j]),
    decreases srcs.len(),
{
    if srcs.len() > 0 {
        let d = srcs.drop_last();
        lemma_no_unknown_source(d, mqtt, alpaca);
        assert forall|j: int| 0 <= j < srcs.len() implies has_monitor_key(mqtt, #[trigger] srcs[j]) || has_key(
            alpaca,
            srcs[j],
        ) by {
            if j < d.len() {
                assert(srcs[j] == d[j]);
            }
        }
    }
}

proof fn lemma_no_switch_problem(sws: Seq<SwitchConfig>, mqtt: Seq<MonitorLink>, alpaca: Seq<String>)
    requires
        first_switch_problem(sws, mqtt, alpaca) is None,
    ensures
        forall|i: int| 0 <= i < sws.len() ==> switch_problem(#[trigger] sws[i], mqtt, alpaca) is None,
    decreases sws.len(),
{
    if sws.len() > 0 {
        let d = sws.drop_last();
        lemma_no_switch_problem(d, mqtt, alpaca);
        assert forall|i: int| 0 <= i < sws.len() implies switch_problem(#[trigger] sws[i], mqtt, alpaca) is None by {
            if i < d.len() {
                assert(sws[i] == d[i]);
            }
        }
    }
}

/// A configuration that passes the check only has switches with at least
/// one source, whose sources all name configured MQTT or Alpaca monitors,
/// and whose MIN_OF count lies between 1 and the number of sources; and
/// every MQTT monitor uses a configured broker.
pub proof fn lemma_valid_configuration(refs: ConfigReferences)
    requires
        refs.problem() is None,
    ensures
        forall|i: int| 0 <= i < refs.mqtt_monitors@.len() ==> has_key(refs.mqtt_server_keys@, (#[trigger] refs.mqtt_monitors@[i]).server_id@),
        forall|i: int| 0 <= i < refs.switches@.len() ==> {
            let sw = #[trigger] refs.switches@[i];
            &&& sw.sources@.len() > 0
            &&& forall|j: int| 0 <= j < sw.sources@.len() ==> has_monitor_key(refs.mqtt_monitors@, (#[trigger] sw.sources@[j])@)
                || has_key(refs.alpaca_monitor_keys@, sw.sources@[j]@)
            &&& (sw.logic matches SwitchLogic::MinOf { count } ==> 1 <= count <= (sw.sources@.len() as u32))
        },
{
    lemma_no_unknown_server(refs.mqtt_monitors@, refs.mqtt_server_keys@);
    lemma_no_switch_problem(refs.switches@, refs.mqtt_monitors@, refs.alpaca_monitor_keys@);
    assert forall|i: int| 0 <= i < refs.switches@.len() implies {
        let sw = #[trigger] refs.switches@[i];
        &&& sw.sources@.len() > 0
        &&& forall|j: int| 0 <= j < sw.sources@.len() ==> has_monitor_key(refs.mqtt_monitors@, (#[trigger] sw.sources@[j])@)
            || has_key(refs.alpaca_monitor_keys@, sw.sources@[j]@)
        &&& (sw.logic matches SwitchLogic::MinOf { count } ==> 1 <= count <= (sw.sources@.len() as u32))
    } by {
        let sw = refs.switches@[i];
        let srcs = text_views(sw.sources@);
        assert(switch_problem(sw, refs.mqtt_monitors@, refs.alpaca_monitor_keys@) is None);
        lemma_no_unknown_source(srcs, refs.mqtt_monitors@, refs.alpaca_monitor_keys@);
        assert forall|j: int| 0 <= j < sw.sources@.len() implies has_monitor_key(refs.mqtt_monitors@, (#[trigger] sw.sources@[j])@)
            || has_key(refs.alpaca_monitor_keys@, sw.sources@[j]@) by {
            assert(srcs[j] == sw.sources@[j]@);
        }
    }
}

proof fn lemma_no_unknown_server(ms: Seq<MonitorLink>, servers: Seq<String>)
    requires
        first_unknown_server(ms, servers) is None,
    ensures
        forall|i: int| 0 <= i < ms.len() ==> has_key(servers, (#[trigger] ms[i]).server_id@),
    decreases ms.len(),
{
    if ms.len() > 0 {
        let d = ms.drop_last();
        lemma_no_unknown_server(d, servers);
        assert forall|i: int| 0 <= i < ms.len() implies has_key(servers, (#[trigger] ms[i]).server_id@) by {
            if i < d.len() {
                assert(ms[i] == d[i]);
            }
        }
    }
}

} // verus!
