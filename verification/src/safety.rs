//! The overall safety verdict over all monitors and monitor groups, and
//! the state that holds the monitors and groups.

use vstd::prelude::*;
use crate::config::{GroupLogic, MonitorGroupConfig};
use crate::monitors::{
    copy_opt, opt_view, find_record, lemma_find_record, observed_all, read_all, restored_record, status_views, MonitorManager,
    MonitorRecord, MonitorStatus, MonitorStatusView,
};
use crate::text::same_text;
use crate::weather::{all_enabled_safe, monitor_views, status_of, WeatherMonitorManager, WeatherStatusView};

verus! {

/// Which statuses take part in an evaluation.
#[derive(Clone, Copy, Debug, PartialEq, Eq)]
pub enum Selection {
    /// Every status.
    All,
    /// The statuses that count towards the overall safety.
    Safety,
    /// The statuses that count towards the overall safety and have data.
    SafetyWithData,
}

pub open spec fn selected(sel: Selection, s: MonitorStatusView) -> bool {
    match sel {
        Selection::All => true,
        Selection::Safety => s.include_in_safety,
        Selection::SafetyWithData => s.include_in_safety && s.last_update is Some,
    }
}

fn is_selected(sel: Selection, s: &MonitorStatus) -> (r: bool)
    ensures
        r == selected(sel, s@),
{
    match sel {
        Selection::All => true,
        Selection::Safety => s.include_in_safety,
        Selection::SafetyWithData => s.include_in_safety && s.last_update.is_some(),
    }
}

/// The status a group member refers to: the last selected status with that
/// id (statuses are looked up through a map built in order, where a later
/// entry replaces an earlier one).
pub open spec fn find_last(ss: Seq<MonitorStatusView>, id: Seq<char>, sel: Selection) -> Option<int>
    decreases ss.len(),
{
    if ss.len() == 0 {
        None
    } else if selected(sel, ss.last()) && ss.last().id == id {
        Some(ss.len() - 1)
    } else {
        find_last(ss.drop_last(), id, sel)
    }
}

/// `find_last` gives a selected status with the id, if any.
pub proof fn lemma_find_last(ss: Seq<MonitorStatusView>, id: Seq<char>, sel: Selection)
    ensures
        match find_last(ss, id, sel) {
            Some(i) => 0 <= i < ss.len() && selected(sel, ss[i]) && ss[i].id == id,
            None => forall|j: int| 0 <= j < ss.len() ==> !(selected(sel, ss[j]) && ss[j].id == id),
        },
    decreases ss.len(),
{
    if ss.len() > 0 {
        let d = ss.drop_last();
        lemma_find_last(d, id, sel);
        assert(forall|j: int| 0 <= j < d.len() ==> d[j] == ss[j]);
    }
}

/// A group member is unsafe when the status it refers to is unsafe or has
/// an error; a member without a status counts as safe.
pub open spec fn member_unsafe(ss: Seq<MonitorStatusView>, id: Seq<char>, sel: Selection) -> bool {
    match find_last(ss, id, sel) {
        Some(i) => ss[i].is_unsafe(),
        None => false,
    }
}

/// The unsafe states of a group's members, in member order.
pub open spec fn member_states(ss: Seq<MonitorStatusView>, g: MonitorGroupConfig, sel: Selection) -> Seq<bool> {
    Seq::new(g.members@.len(), |j: int| member_unsafe(ss, g.members@[j]@, sel))
}

/// The group's logic judges it unsafe.
pub open spec fn group_unsafe(ss: Seq<MonitorStatusView>, g: MonitorGroupConfig, sel: Selection) -> bool {
    g.logic.unsafe_for(member_states(ss, g, sel))
}

/// The id is a member of an enabled group.
pub open spec fn is_grouped(groups: Seq<MonitorGroupConfig>, id: Seq<char>) -> bool {
    exists|gi: int, j: int|
        0 <= gi < groups.len() && groups[gi].enabled && 0 <= j < groups[gi].members@.len()
            && #[trigger] groups[gi].members@[j]@ == id
}

/// Every enabled group is safe by its logic, and every selected monitor
/// outside the enabled groups is safe and without error.
pub open spec fn safe_with_groups(ss: Seq<MonitorStatusView>, groups: Seq<MonitorGroupConfig>, sel: Selection) -> bool {
    &&& forall|gi: int|
        0 <= gi < groups.len() && #[trigger] groups[gi].enabled ==> !group_unsafe(ss, groups[gi], sel)
    &&& forall|i: int|
        0 <= i < ss.len() && selected(sel, #[trigger] ss[i]) && !is_grouped(groups, ss[i].id)
            ==> !ss[i].is_unsafe()
}

/// Some status is selected.
pub open spec fn any_selected(ss: Seq<MonitorStatusView>, sel: Selection) -> bool {
    exists|i: int| 0 <= i < ss.len() && selected(sel, #[trigger] ss[i])
}

/// Some status that counts towards safety has no data yet.
pub open spec fn any_initializing(ss: Seq<MonitorStatusView>) -> bool {
    exists|i: int| 0 <= i < ss.len() && (#[trigger] ss[i]).include_in_safety && ss[i].last_update is None
}

pub open spec fn unwrap_or_false(o: Option<bool>) -> bool {
    match o {
        Some(b) => b,
        None => false,
    }
}

/// The overall safety verdict over all statuses. No monitor counting
/// towards safety means unsafe. While some of them still wait for data,
/// real unsafe data is reported at once; otherwise the last stable verdict
/// is held (unsafe when there is none). Once all have data, the verdict is
/// the group-aware evaluation.
pub open spec fn verdict(ss: Seq<MonitorStatusView>, groups: Seq<MonitorGroupConfig>, last_stable: Option<bool>) -> bool {
    if !any_selected(ss, Selection::Safety) {
        false
    } else if any_initializing(ss) {
        if !any_selected(ss, Selection::SafetyWithData) {
            unwrap_or_false(last_stable)
        } else if !safe_with_groups(ss, groups, Selection::SafetyWithData) {
            false
        } else {
            unwrap_or_false(last_stable)
        }
    } else {
        safe_with_groups(ss, groups, Selection::Safety)
    }
}

/// The verdict used before a reload, over the monitors that have data.
pub open spec fn verdict_ignoring_pending(ss: Seq<MonitorStatusView>, groups: Seq<MonitorGroupConfig>, last_stable: Option<bool>) -> bool {
    if !any_selected(ss, Selection::Safety) {
        false
    } else if !any_selected(ss, Selection::SafetyWithData) {
        unwrap_or_false(last_stable)
    } else {
        safe_with_groups(ss, groups, Selection::SafetyWithData)
    }
}

/// Whether the system is safe: the monitors' verdict holds and every
/// enabled weather device is safe.
pub open spec fn overall_verdict(
    ss: Seq<MonitorStatusView>,
    groups: Seq<MonitorGroupConfig>,
    last_stable: Option<bool>,
    weather: Seq<WeatherStatusView>,
) -> bool {
    verdict(ss, groups, last_stable) && all_enabled_safe(weather)
}

/// There is at least one status and every status has data.
pub open spec fn all_have_data(ss: Seq<MonitorStatusView>) -> bool {
    ss.len() > 0 && forall|i: int| 0 <= i < ss.len() ==> (#[trigger] ss[i]).last_update is Some
}

fn find_last_index(statuses: &Vec<MonitorStatus>, id: &str, sel: Selection) -> (r: Option<usize>)
    ensures
        match r {
            Some(i) => find_last(status_views(statuses@), id@, sel) == Some(i as int),
            None => find_last(status_views(statuses@), id@, sel) is None,
        },
{
    let ghost ss = status_views(statuses@);
    let mut found: Option<usize> = None;
    let mut i: usize = 0;
    while i < statuses.len()
        invariant
            ss == status_views(statuses@),
            i <= statuses.len(),
            match found {
                Some(k) => find_last(ss.take(i as int), id@, sel) == Some(k as int),
                None => find_last(ss.take(i as int), id@, sel) is None,
            },
        decreases statuses.len() - i,
    {
        assert(ss.take(i + 1).drop_last() =~= ss.take(i as int));
        assert(ss.take(i + 1).last() == statuses@[i as int]@);
        if is_selected(sel, &statuses[i]) && same_text(statuses[i].id.as_str(), id) {
            found = Some(i);
        }
        i = i + 1;
    }
    assert(ss.take(statuses.len() as int) =~= ss);
    found
}

fn member_is_unsafe(statuses: &Vec<MonitorStatus>, id: &str, sel: Selection) -> (r: bool)
    ensures
        r == member_unsafe(status_views(statuses@), id@, sel),
{
    proof {
        lemma_find_last(status_views(statuses@), id@, sel);
    }
    match find_last_index(statuses, id, sel) {
        Some(i) => !statuses[i].is_safe || statuses[i].error.is_some(),
        None => false,
    }
}

fn member_unsafe_states(statuses: &Vec<MonitorStatus>, group: &MonitorGroupConfig, sel: Selection) -> (r: Vec<bool>)
    ensures
        r@ == member_states(status_views(statuses@), *group, sel),
{
    let mut out: Vec<bool> = Vec::new();
    let mut j: usize = 0;
    while j < group.members.len()
        invariant
            j <= group.members@.len(),
            out@.len() == j,
            forall|k: int|
                0 <= k < j ==> out@[k] == member_unsafe(status_views(statuses@), group.members@[k]@, sel),
        decreases group.members@.len() - j,
    {
        let u = member_is_unsafe(statuses, group.members[j].as_str(), sel);
        out.push(u);
        j = j + 1;
    }
    assert(out@ =~= member_states(status_views(statuses@), *group, sel));
    out
}

fn id_is_grouped(groups: &Vec<MonitorGroupConfig>, id: &str) -> (r: bool)
    ensures
        r == is_grouped(groups@, id@),
{
    let mut gi: usize = 0;
    while gi < groups.len()
        invariant
            gi <= groups@.len(),
            forall|a: int, b: int|
                0 <= a < gi && groups@[a].enabled && 0 <= b < groups@[a].members@.len()
                    ==> groups@[a].members@[b]@ != id@,
        decreases groups@.len() - gi,
    {
        if groups[gi].enabled {
            let mut j: usize = 0;
            while j < groups[gi].members.len()
                invariant
                    gi < groups@.len(),
                    groups@[gi as int].enabled,
                    j <= groups@[gi as int].members@.len(),
                    forall|b: int| 0 <= b < j ==> groups@[gi as int].members@[b]@ != id@,
                decreases groups@[gi as int].members@.len() - j,
            {
                if same_text(groups[gi].members[j].as_str(), id) {
                    assert(groups@[gi as int].members@[j as int]@ == id@);
                    return true;
                }
                j = j + 1;
            }
        }
        gi = gi + 1;
    }
    false
}

/// Evaluates `safe_with_groups` over the selected statuses.
pub fn evaluate_safety_with_groups(statuses: &Vec<MonitorStatus>, groups: &Vec<MonitorGroupConfig>, sel: Selection) -> (r: bool)
    ensures
        r == safe_with_groups(status_views(statuses@), groups@, sel),
{
    let ghost ss = status_views(statuses@);
    let mut gi: usize = 0;
    while gi < groups.len()
        invariant
            ss == status_views(statuses@),
            gi <= groups@.len(),
            forall|a: int| 0 <= a < gi && groups@[a].enabled ==> !group_unsafe(ss, groups@[a], sel),
        decreases groups@.len() - gi,
    {
        if groups[gi].enabled {
            let states = member_unsafe_states(statuses, &groups[gi], sel);
            if groups[gi].logic.evaluate_unsafe(states.as_slice()) {
                return false;
            }
        }
        gi = gi + 1;
    }
    let mut i: usize = 0;
    while i < statuses.len()
        invariant
            ss == status_views(statuses@),
            i <= statuses@.len(),
            forall|a: int| 0 <= a < groups@.len() && #[trigger] groups@[a].enabled ==> !group_unsafe(ss, groups@[a], sel),
            forall|k: int|
                0 <= k < i && selected(sel, ss[k]) && !is_grouped(groups@, ss[k].id) ==> !ss[k].is_unsafe(),
        decreases statuses@.len() - i,
    {
        assert(ss[i as int] == statuses@[i as int]@);
        if is_selected(sel, &statuses[i]) && !id_is_grouped(groups, statuses[i].id.as_str()) {
            if !statuses[i].is_safe || statuses[i].error.is_some() {
                assert(ss[i as int] == statuses@[i as int]@);
                assert(ss[i as int].is_unsafe());
                return false;
            }
        }
        i = i + 1;
    }
    true
}

/// `keys` holds the text `k`.
pub open spec fn has_key(keys: Seq<String>, k: Seq<char>) -> bool {
    exists|i: int| 0 <= i < keys.len() && (#[trigger] keys[i])@ == k
}

/// Whether `keys` holds `k`.
pub fn contains_key(keys: &Vec<String>, k: &str) -> (r: bool)
    ensures
        r == has_key(keys@, k@),
{
    let mut i: usize = 0;
    while i < keys.len()
        invariant
            i <= keys@.len(),
            forall|j: int| 0 <= j < i ==> keys@[j]@ != k@,
        decreases keys@.len() - i,
    {
        if same_text(keys[i].as_str(), k) {
            return true;
        }
        i = i + 1;
    }
    false
}

/// An MQTT monitor offered by the configuration, with the broker it uses.
pub struct MqttCandidate {
    pub record: MonitorRecord,
    pub server_id: String,
}

/// The records after `r` was added: a record with the same id is replaced.
pub open spec fn add_spec(ms: Seq<MonitorRecord>, r: MonitorRecord) -> Seq<MonitorRecord> {
    match find_record(ms, r.status.id@) {
        Some(i) => ms.update(i, r),
        None => ms.push(r),
    }
}

/// An MQTT monitor is started when it is enabled and its broker exists.
pub open spec fn mqtt_admitted(c: MqttCandidate, server_keys: Seq<String>) -> bool {
    c.record.settings.enabled && has_key(server_keys, c.server_id@)
}

/// The MQTT records after the candidates were offered in order.
pub open spec fn add_mqtt(ms: Seq<MonitorRecord>, cands: Seq<MqttCandidate>, server_keys: Seq<String>) -> Seq<MonitorRecord>
    decreases cands.len(),
{
    if cands.len() == 0 {
        ms
    } else {
        let b = add_mqtt(ms, cands.drop_last(), server_keys);
        if mqtt_admitted(cands.last(), server_keys) {
            add_spec(b, cands.last().record)
        } else {
            b
        }
    }
}

/// The Alpaca records after the candidates were offered in order; disabled
/// ones are skipped.
pub open spec fn add_alpaca(ms: Seq<MonitorRecord>, cands: Seq<MonitorRecord>) -> Seq<MonitorRecord>
    decreases cands.len(),
{
    if cands.len() == 0 {
        ms
    } else {
        let b = add_alpaca(ms, cands.drop_last());
        if cands.last().settings.enabled {
            add_spec(b, cands.last())
        } else {
            b
        }
    }
}

/// The records after the saved statuses were restored in order: a status
/// goes to the MQTT monitor with its id, else to the Alpaca one.
pub open spec fn restore_all(m: Seq<MonitorRecord>, a: Seq<MonitorRecord>, saved: Seq<MonitorStatusView>) -> (Seq<MonitorRecord>, Seq<MonitorRecord>)
    decreases saved.len(),
{
    if saved.len() == 0 {
        (m, a)
    } else {
        let (m1, a1) = restore_all(m, a, saved.drop_last());
        let s = saved.last();
        match find_record(m1, s.id) {
            Some(i) => (m1.update(i, restored_record(m1[i], s)), a1),
            None => match find_record(a1, s.id) {
                Some(i) => (m1, a1.update(i, restored_record(a1[i], s))),
                None => (m1, a1),
            },
        }
    }
}

/// The status of a member of a group, as listed in the group's status.
pub struct GroupMemberStatus {
    pub id: String,
    pub name: String,
    pub is_safe: bool,
    pub error: Option<String>,
}

/// The status of a monitor group.
pub struct MonitorGroupStatus {
    pub id: String,
    pub name: String,
    pub description: Option<String>,
    pub logic: GroupLogic,
    pub is_safe: bool,
    pub enabled: bool,
    pub member_statuses: Vec<GroupMemberStatus>,
    pub error: Option<String>,
}

/// Why a monitor is listed in the safety comments.
pub struct SafetyComment {
    pub monitor_id: String,
    pub monitor: String,
    pub reason: String,
}

/// The comment entry a status contributes, if any: an error is reported
/// with its text, an unsafe state without error as an unsafe condition.
pub open spec fn comment_of(s: MonitorStatusView) -> Option<(Seq<char>, Seq<char>, Seq<char>)> {
    if !s.include_in_safety {
        None
    } else {
        match s.error {
            Some(e) => Some((s.id, s.name, "Error - "@ + e)),
            None => if !s.is_safe {
                Some((s.id, s.name, "Unsafe condition"@))
            } else {
                None
            },
        }
    }
}

/// The comment entries of all statuses, in order.
pub open spec fn comment_entries(ss: Seq<MonitorStatusView>) -> Seq<(Seq<char>, Seq<char>, Seq<char>)>
    decreases ss.len(),
{
    if ss.len() == 0 {
        Seq::empty()
    } else {
        match comment_of(ss.last()) {
            Some(c) => comment_entries(ss.drop_last()).push(c),
            None => comment_entries(ss.drop_last()),
        }
    }
}

pub open spec fn comment_views(v: Seq<SafetyComment>) -> Seq<(Seq<char>, Seq<char>, Seq<char>)> {
    Seq::new(v.len(), |i: int| (v[i].monitor_id@, v[i].monitor@, v[i].reason@))
}

/// All monitors, their groups, and the last stable verdict.
pub struct MonitorState {
    pub mqtt_manager: MonitorManager,
    pub alpaca_manager: MonitorManager,
    pub groups: Vec<MonitorGroupConfig>,
    /// The verdict captured before the last reconfiguration, if any.
    pub last_stable_safe_state: Option<bool>,
}

impl MonitorState {
    /// The statuses a read of all monitors reports at `now`: MQTT monitors
    /// first, then Alpaca monitors.
    pub open spec fn all_observed(self, now: i64) -> Seq<MonitorStatusView> {
        observed_all(self.mqtt_manager.monitors@, now) + observed_all(self.alpaca_manager.monitors@, now)
    }

    /// `after` is `self` once every monitor has been read at `now`.
    pub open spec fn read_to(self, after: MonitorState, now: i64) -> bool {
        &&& read_all(self.mqtt_manager.monitors@, after.mqtt_manager.monitors@, now)
        &&& read_all(self.alpaca_manager.monitors@, after.alpaca_manager.monitors@, now)
        &&& after.groups@ == self.groups@
        &&& after.last_stable_safe_state == self.last_stable_safe_state
    }

    pub fn new() -> (r: MonitorState)
        ensures
            r.mqtt_manager.monitors@.len() == 0,
            r.alpaca_manager.monitors@.len() == 0,
            r.groups@.len() == 0,
            r.last_stable_safe_state is None,
    {
        MonitorState {
            mqtt_manager: MonitorManager::new(),
            alpaca_manager: MonitorManager::new(),
            groups: Vec::new(),
            last_stable_safe_state: None,
        }
    }

    /// Adds the enabled MQTT monitors whose broker exists and the enabled
    /// Alpaca monitors, and takes over the groups.
    pub fn initialize(
        &mut self,
        mqtt: Vec<MqttCandidate>,
        server_keys: &Vec<String>,
        alpaca: Vec<MonitorRecord>,
        groups: Vec<MonitorGroupConfig>,
    )
        ensures
            final(self).mqtt_manager.monitors@ == add_mqtt(
                old(self).mqtt_manager.monitors@,
                mqtt@,
                server_keys@,
            ),
            final(self).alpaca_manager.monitors@ == add_alpaca(
                old(self).alpaca_manager.monitors@,
                alpaca@,
            ),
            final(self).groups@ == groups@,
            final(self).last_stable_safe_state == old(self).last_stable_safe_state,
    {
        let ghost m0 = self.mqtt_manager.monitors@;
        let ghost a0 = self.alpaca_manager.monitors@;
        let ghost ls = self.last_stable_safe_state;
        let ghost orig = mqtt@;
        let mut mqtt = mqtt;
        let ghost mut k: int = 0;
        while mqtt.len() > 0
            invariant
                0 <= k <= orig.len(),
                k + mqtt@.len() == orig.len(),
                mqtt@ == orig.skip(k),
                self.alpaca_manager.monitors@ == a0,
                self.last_stable_safe_state == ls,
                self.mqtt_manager.monitors@ == add_mqtt(m0, orig.take(k), server_keys@),
            decreases mqtt@.len(),
        {
            let c = mqtt.remove(0);
            assert(orig.take(k + 1).drop_last() =~= orig.take(k));
            assert(orig.skip(k).remove(0) =~= orig.skip(k + 1));
            if c.record.settings.enabled && contains_key(server_keys, c.server_id.as_str()) {
                self.mqtt_manager.add_monitor(c.record);
            }
            proof {
                k = k + 1;
            }
        }
        assert(orig.take(k) =~= orig);
        let ghost aorig = alpaca@;
        let mut alpaca = alpaca;
        let ghost mut j: int = 0;
        while alpaca.len() > 0
            invariant
                0 <= j <= aorig.len(),
                j + alpaca@.len() == aorig.len(),
                alpaca@ == aorig.skip(j),
                self.last_stable_safe_state == ls,
                self.alpaca_manager.monitors@ == add_alpaca(a0, aorig.take(j)),
                self.mqtt_manager.monitors@ == add_mqtt(m0, orig, server_keys@),
            decreases alpaca@.len(),
        {
            let c = alpaca.remove(0);
            assert(aorig.take(j + 1).drop_last() =~= aorig.take(j));
            assert(aorig.skip(j).remove(0) =~= aorig.skip(j + 1));
            if c.settings.enabled {
                self.alpaca_manager.add_monitor(c);
            }
            proof {
                j = j + 1;
            }
        }
        assert(aorig.take(j) =~= aorig);
        self.groups = groups;
    }

    /// Reads every monitor at `now`: MQTT monitors first, then Alpaca ones.
    pub fn get_all_statuses(&mut self, now: i64) -> (r: Vec<MonitorStatus>)
        ensures
            status_views(r@) == old(self).all_observed(now),
            old(self).read_to(*final(self), now),
    {
        let mut a = self.mqtt_manager.get_statuses(now);
        let mut b = self.alpaca_manager.get_statuses(now);
        let ghost av = a@;
        let ghost bv = b@;
        a.append(&mut b);
        assert(status_views(a@) =~= status_views(av) + status_views(bv));
        a
    }

    /// The answer to IsSafe at `now`: `overall_verdict` over all monitors
    /// read at `now` and the weather devices of `weather`.
    pub fn is_safe(&mut self, now: i64, weather: &WeatherMonitorManager) -> (r: bool)
        ensures
            r == overall_verdict(
                old(self).all_observed(now),
                old(self).groups@,
                old(self).last_stable_safe_state,
                status_of(monitor_views(weather.monitors@)),
            ),
            old(self).read_to(*final(self), now),
    {
        let monitors_safe = self.monitors_verdict(now);
        monitors_safe && weather.are_all_safe()
    }

    /// Evaluates `verdict` over all monitors read at `now`.
    fn monitors_verdict(&mut self, now: i64) -> (r: bool)
        ensures
            r == verdict(old(self).all_observed(now), old(self).groups@, old(self).last_stable_safe_state),
            old(self).read_to(*final(self), now),
    {
        let all = self.get_all_statuses(now);
        let (has_safety, initializing, has_data) = scan_statuses(&all);
        if !has_safety {
            return false;
        }
        if initializing {
            if !has_data {
                return match self.last_stable_safe_state {
                    Some(b) => b,
                    None => false,
                };
            }
            if !evaluate_safety_with_groups(&all, &self.groups, Selection::SafetyWithData) {
                return false;
            }
            return match self.last_stable_safe_state {
                Some(b) => b,
                None => false,
            };
        }
        evaluate_safety_with_groups(&all, &self.groups, Selection::Safety)
    }

    /// Evaluates `verdict_ignoring_pending` over all monitors read at `now`.
    pub fn is_safe_ignoring_pending(&mut self, now: i64) -> (r: bool)
        ensures
            r == verdict_ignoring_pending(
                old(self).all_observed(now),
                old(self).groups@,
                old(self).last_stable_safe_state,
            ),
            old(self).read_to(*final(self), now),
    {
        let all = self.get_all_statuses(now);
        let (has_safety, _initializing, has_data) = scan_statuses(&all);
        if !has_safety {
            return false;
        }
        if !has_data {
            return match self.last_stable_safe_state {
                Some(b) => b,
                None => false,
            };
        }
        evaluate_safety_with_groups(&all, &self.groups, Selection::SafetyWithData)
    }

    /// There is at least one monitor and every monitor has data.
    pub fn all_monitors_have_data(&mut self, now: i64) -> (r: bool)
        ensures
            r == all_have_data(old(self).all_observed(now)),
            old(self).read_to(*final(self), now),
    {
        let all = self.get_all_statuses(now);
        every_status_has_data(&all)
    }

    /// Monitors are ready when at least one is configured and each has
    /// received a value.
    pub fn is_ready(&mut self, now: i64) -> (r: bool)
        ensures
            r == all_have_data(old(self).all_observed(now)),
            old(self).read_to(*final(self), now),
    {
        let all = self.get_all_statuses(now);
        every_status_has_data(&all)
    }

    /// Reads the monitor with the given id: an MQTT monitor first, else an
    /// Alpaca monitor.
    pub fn get_status(&mut self, id: &str, now: i64) -> (r: Option<MonitorStatus>)
        ensures
            match find_record(old(self).mqtt_manager.monitors@, id@) {
                Some(i) => r is Some && r->0@ == old(self).mqtt_manager.monitors@[i].observed(now),
                None => match find_record(old(self).alpaca_manager.monitors@, id@) {
                    Some(i) => r is Some && r->0@ == old(self).alpaca_manager.monitors@[i].observed(now),
                    None => r is None,
                },
            },
    {
        match self.mqtt_manager.get_status(id, now) {
            Some(s) => Some(s),
            None => self.alpaca_manager.get_status(id, now),
        }
    }

    /// The status of every group (enabled or not), judged over all monitors
    /// read at `now`.
    pub fn get_group_statuses(&mut self, now: i64) -> (r: Vec<MonitorGroupStatus>)
        ensures
            r@.len() == old(self).groups@.len(),
            forall|gi: int|
                0 <= gi < r@.len() ==> group_status_matches(
                    #[trigger] r@[gi],
                    old(self).all_observed(now),
                    old(self).groups@[gi],
                ),
            old(self).read_to(*final(self), now),
    {
        let all = self.get_all_statuses(now);
        let mut out: Vec<MonitorGroupStatus> = Vec::new();
        let mut gi: usize = 0;
        while gi < self.groups.len()
            invariant
                status_views(all@) == old(self).all_observed(now),
                self.groups@ == old(self).groups@,
                gi <= self.groups@.len(),
                out@.len() == gi,
                forall|k: int|
                    0 <= k < gi ==> group_status_matches(
                        #[trigger] out@[k],
                        status_views(all@),
                        self.groups@[k],
                    ),
            decreases self.groups@.len() - gi,
        {
            let st = group_status(&all, &self.groups[gi]);
            out.push(st);
            gi = gi + 1;
        }
        out
    }

    /// Applies a new configuration. When every monitor has data, the
    /// current verdict (over the monitors with data) is kept as the last
    /// stable verdict. The monitors are then rebuilt from the new
    /// configuration and each one that existed before gets back its safety
    /// state and last update, with nothing pending.
    pub fn reload(
        &mut self,
        now: i64,
        mqtt: Vec<MqttCandidate>,
        server_keys: &Vec<String>,
        alpaca: Vec<MonitorRecord>,
        groups: Vec<MonitorGroupConfig>,
    )
        ensures
            ({
                let ss = old(self).all_observed(now);
                &&& final(self).last_stable_safe_state == if all_have_data(ss) {
                    Some(verdict_ignoring_pending(ss, old(self).groups@, old(self).last_stable_safe_state))
                } else {
                    old(self).last_stable_safe_state
                }
                &&& final(self).groups@ == groups@
                &&& (final(self).mqtt_manager.monitors@, final(self).alpaca_manager.monitors@)
                    == restore_all(
                    add_mqtt(Seq::empty(), mqtt@, server_keys@),
                    add_alpaca(Seq::empty(), alpaca@),
                    ss,
                )
            }),
    {
        let ghost ss = old(self).all_observed(now);
        let ghost s0 = *self;
        let have_data = self.all_monitors_have_data(now);
        proof {
            lemma_read_is_idempotent(s0.mqtt_manager.monitors@, self.mqtt_manager.monitors@, now);
            lemma_read_is_idempotent(s0.alpaca_manager.monitors@, self.alpaca_manager.monitors@, now);
        }
        if have_data {
            let current = self.is_safe_ignoring_pending(now);
            self.last_stable_safe_state = Some(current);
        }
        assert(read_all(s0.mqtt_manager.monitors@, self.mqtt_manager.monitors@, now));
        assert(read_all(s0.alpaca_manager.monitors@, self.alpaca_manager.monitors@, now));
        let ghost s1 = *self;
        proof {
            lemma_read_is_idempotent(s0.mqtt_manager.monitors@, s1.mqtt_manager.monitors@, now);
            lemma_read_is_idempotent(s0.alpaca_manager.monitors@, s1.alpaca_manager.monitors@, now);
        }
        let saved = self.get_all_statuses(now);
        assert(status_views(saved@) == ss);
        self.mqtt_manager.shutdown();
        self.alpaca_manager.shutdown();
        self.groups = Vec::new();
        assert(self.mqtt_manager.monitors@ =~= Seq::<MonitorRecord>::empty());
        assert(self.alpaca_manager.monitors@ =~= Seq::<MonitorRecord>::empty());
        assert(self.last_stable_safe_state == if all_have_data(ss) {
            Some(verdict_ignoring_pending(ss, old(self).groups@, old(self).last_stable_safe_state))
        } else {
            old(self).last_stable_safe_state
        });
        self.initialize(mqtt, server_keys, alpaca, groups);
        let ghost m0 = self.mqtt_manager.monitors@;
        let ghost a0 = self.alpaca_manager.monitors@;
        let ghost ls = self.last_stable_safe_state;
        let ghost gs = self.groups@;
        let mut i: usize = 0;
        while i < saved.len()
            invariant
                self.last_stable_safe_state == ls,
                self.groups@ == gs,
                status_views(saved@) == ss,
                i <= saved@.len(),
                (self.mqtt_manager.monitors@, self.alpaca_manager.monitors@) == restore_all(
                    m0,
                    a0,
                    ss.take(i as int),
                ),
            decreases saved@.len() - i,
        {
            assert(ss.take(i + 1).drop_last() =~= ss.take(i as int));
            assert(ss.take(i + 1).last() == saved@[i as int]@);
            let st = &saved[i];
            let done = self.mqtt_manager.restore_state(st.id.as_str(), st);
            if done.is_none() {
                self.alpaca_manager.restore_state(st.id.as_str(), st);
            }
            i = i + 1;
        }
        assert(ss.take(saved@.len() as int) =~= ss);
    }

    /// Structured comments on the monitors that make the system unsafe:
    /// `None` when there are none.
    pub fn get_safety_comments(&mut self, now: i64) -> (r: Option<Vec<SafetyComment>>)
        ensures
            match r {
                Some(v) => comment_entries(old(self).all_observed(now)).len() > 0
                    && comment_views(v@) == comment_entries(old(self).all_observed(now)),
                None => comment_entries(old(self).all_observed(now)).len() == 0,
            },
            old(self).read_to(*final(self), now),
    {
        let all = self.get_all_statuses(now);
        let ghost ss = status_views(all@);
        let mut out: Vec<SafetyComment> = Vec::new();
        let mut i: usize = 0;
        while i < all.len()
            invariant
                ss == status_views(all@),
                i <= all@.len(),
                comment_views(out@) == comment_entries(ss.take(i as int)),
            decreases all@.len() - i,
        {
            assert(ss.take(i + 1).drop_last() =~= ss.take(i as int));
            assert(ss.take(i + 1).last() == all@[i as int]@);
            let st = &all[i];
            if st.include_in_safety {
                match &st.error {
                    Some(e) => {
                        let mut reason = "Error - ".to_owned();
                        reason.append(e.as_str());
                        let ghost before = out@;
                        out.push(SafetyComment { monitor_id: st.id.clone(), monitor: st.name.clone(), reason });
                        assert(comment_views(out@) =~= comment_views(before).push(
                            (st.id@, st.name@, "Error - "@ + e@),
                        ));
                    },
                    None => {
                        if !st.is_safe {
                            let ghost before = out@;
                            out.push(
                                SafetyComment {
                                    monitor_id: st.id.clone(),
                                    monitor: st.name.clone(),
                                    reason: "Unsafe condition".to_owned(),
                                },
                            );
                            assert(comment_views(out@) =~= comment_views(before).push(
                                (st.id@, st.name@, "Unsafe condition"@),
                            ));
                        }
                    },
                }
            }
            i = i + 1;
        }
        assert(ss.take(all@.len() as int) =~= ss);
        if out.len() == 0 {
            None
        } else {
            Some(out)
        }
    }
}

/// The listed status of a group member: the status it refers to, or a
/// safe entry marked "Monitor not found" when there is none.
pub open spec fn member_entry(ss: Seq<MonitorStatusView>, m: Seq<char>) -> (Seq<char>, Seq<char>, bool, Option<Seq<char>>) {
    match find_last(ss, m, Selection::All) {
        Some(i) => (ss[i].id, ss[i].name, ss[i].is_safe && ss[i].error is None, ss[i].error),
        None => (m, m, true, Some("Monitor not found"@)),
    }
}

pub open spec fn member_views(v: Seq<GroupMemberStatus>) -> Seq<(Seq<char>, Seq<char>, bool, Option<Seq<char>>)> {
    Seq::new(v.len(), |i: int| (v[i].id@, v[i].name@, v[i].is_safe, opt_view(v[i].error)))
}

/// The status listed for group `g` over the statuses `ss`.
pub open spec fn group_status_matches(r: MonitorGroupStatus, ss: Seq<MonitorStatusView>, g: MonitorGroupConfig) -> bool {
    &&& r.id@ == g.id@
    &&& r.name@ == g.name@
    &&& opt_view(r.description) == opt_view(g.description)
    &&& r.logic == g.logic
    &&& r.is_safe == !group_unsafe(ss, g, Selection::All)
    &&& r.enabled == g.enabled
    &&& member_views(r.member_statuses@) == Seq::new(g.members@.len(), |j: int| member_entry(ss, g.members@[j]@))
    &&& r.error is None
}

fn group_status(all: &Vec<MonitorStatus>, g: &MonitorGroupConfig) -> (r: MonitorGroupStatus)
    ensures
        group_status_matches(r, status_views(all@), *g),
{
    let ghost ss = status_views(all@);
    let mut members: Vec<GroupMemberStatus> = Vec::new();
    let mut j: usize = 0;
    while j < g.members.len()
        invariant
            ss == status_views(all@),
            j <= g.members@.len(),
            members@.len() == j,
            forall|k: int| 0 <= k < j ==> (#[trigger] member_views(members@)[k]) == member_entry(ss, g.members@[k]@),
        decreases g.members@.len() - j,
    {
        let m = &g.members[j];
        proof {
            lemma_find_last(ss, m@, Selection::All);
        }
        let ghost before = members@;
        match find_last_index(all, m.as_str(), Selection::All) {
            Some(i) => {
                let st = &all[i];
                assert(ss[i as int] == st@);
                members.push(
                    GroupMemberStatus {
                        id: st.id.clone(),
                        name: st.name.clone(),
                        is_safe: st.is_safe && st.error.is_none(),
                        error: copy_opt(&st.error),
                    },
                );
            },
            None => {
                members.push(
                    GroupMemberStatus {
                        id: m.clone(),
                        name: m.clone(),
                        is_safe: true,
                        error: Some("Monitor not found".to_owned()),
                    },
                );
            },
        }
        assert forall|k: int| 0 <= k < j + 1 implies (#[trigger] member_views(members@)[k]) == member_entry(ss, g.members@[k]@) by {
            if k < j {
                assert(members@[k] == before[k]);
                assert(member_views(before)[k] == member_entry(ss, g.members@[k]@));
            }
        }
        j = j + 1;
    }
    assert(member_views(members@) =~= Seq::new(g.members@.len(), |k: int| member_entry(ss, g.members@[k]@)));
    let states = member_unsafe_states(all, g, Selection::All);
    let group_is_unsafe = g.logic.evaluate_unsafe(states.as_slice());
    MonitorGroupStatus {
        id: g.id.clone(),
        name: g.name.clone(),
        description: copy_opt(&g.description),
        logic: g.logic,
        is_safe: !group_is_unsafe,
        enabled: g.enabled,
        member_statuses: members,
        error: None,
    }
}

/// Reading the monitors a second time at the same moment changes nothing
/// and reports the same statuses.
pub proof fn lemma_read_is_idempotent(a: Seq<MonitorRecord>, b: Seq<MonitorRecord>, now: i64)
    requires
        read_all(a, b, now),
    ensures
        observed_all(b, now) == observed_all(a, now),
        forall|c: Seq<MonitorRecord>| read_all(b, c, now) ==> read_all(a, c, now),
{
    assert(observed_all(b, now) =~= observed_all(a, now));
    assert forall|c: Seq<MonitorRecord>| read_all(b, c, now) implies read_all(a, c, now) by {
        assert forall|i: int| 0 <= i < a.len() implies (#[trigger] c[i]).settings == a[i].settings
            && c[i].status@ == a[i].committed(now) by {
            assert(b[i].settings == a[i].settings);
        }
    }
}

/// Whether some status counts towards safety, whether one of those has no
/// data yet, and whether one of those has data.
fn scan_statuses(all: &Vec<MonitorStatus>) -> (r: (bool, bool, bool))
    ensures
        r.0 == any_selected(status_views(all@), Selection::Safety),
        r.1 == any_initializing(status_views(all@)),
        r.2 == any_selected(status_views(all@), Selection::SafetyWithData),
{
    let ghost ss = status_views(all@);
    let mut has_safety = false;
    let mut initializing = false;
    let mut has_data = false;
    let mut i: usize = 0;
    while i < all.len()
        invariant
            ss == status_views(all@),
            i <= all@.len(),
            has_safety == exists|k: int| 0 <= k < i && selected(Selection::Safety, #[trigger] ss[k]),
            initializing == exists|k: int|
                0 <= k < i && (#[trigger] ss[k]).include_in_safety && ss[k].last_update is None,
            has_data == exists|k: int| 0 <= k < i && selected(Selection::SafetyWithData, #[trigger] ss[k]),
        decreases all@.len() - i,
    {
        assert(ss[i as int] == all@[i as int]@);
        if all[i].include_in_safety {
            has_safety = true;
            if all[i].last_update.is_none() {
                initializing = true;
            } else {
                has_data = true;
            }
        }
        i = i + 1;
    }
    (has_safety, initializing, has_data)
}

fn every_status_has_data(all: &Vec<MonitorStatus>) -> (r: bool)
    ensures
        r == all_have_data(status_views(all@)),
{
    let ghost ss = status_views(all@);
    if all.len() == 0 {
        return false;
    }
    let mut i: usize = 0;
    while i < all.len()
        invariant
            ss == status_views(all@),
            i <= all@.len(),
            forall|k: int| 0 <= k < i ==> (#[trigger] ss[k]).last_update is Some,
        decreases all@.len() - i,
    {
        assert(ss[i as int] == all@[i as int]@);
        if all[i].last_update.is_none() {
            return false;
        }
        i = i + 1;
    }
    true
}

/// With no monitor counting towards safety, the system is unsafe.
pub proof fn lemma_no_safety_monitors_is_unsafe(ss: Seq<MonitorStatusView>, groups: Seq<MonitorGroupConfig>, last_stable: Option<bool>)
    requires
        forall|i: int| 0 <= i < ss.len() ==> !(#[trigger] ss[i]).include_in_safety,
    ensures
        !verdict(ss, groups, last_stable),
{
}

/// A monitor that counts towards safety, has data, is in no enabled group
/// and is unsafe or reports an error makes the system unsafe, whatever the
/// other monitors and the last stable verdict are.
pub proof fn lemma_unsafe_monitor_is_reported_at_once(
    ss: Seq<MonitorStatusView>,
    groups: Seq<MonitorGroupConfig>,
    last_stable: Option<bool>,
    i: int,
)
    requires
        0 <= i < ss.len(),
        ss[i].include_in_safety,
        ss[i].last_update is Some,
        !is_grouped(groups, ss[i].id),
        ss[i].is_unsafe(),
    ensures
        !verdict(ss, groups, last_stable),
{
    assert(selected(Selection::Safety, ss[i]));
    assert(selected(Selection::SafetyWithData, ss[i]));
}

/// An enabled group that its logic judges unsafe makes the system unsafe
/// once every monitor counting towards safety has data.
pub proof fn lemma_unsafe_group_is_unsafe(
    ss: Seq<MonitorStatusView>,
    groups: Seq<MonitorGroupConfig>,
    last_stable: Option<bool>,
    gi: int,
)
    requires
        !any_initializing(ss),
        0 <= gi < groups.len(),
        groups[gi].enabled,
        group_unsafe(ss, groups[gi], Selection::Safety),
    ensures
        !verdict(ss, groups, last_stable),
{
}

/// The system is safe only when some monitor counts towards safety and
/// every ungrouped one with data is safe without error; unless the last
/// stable verdict was safe, it is also only safe once every monitor
/// counting towards safety has received data.
pub proof fn lemma_safe_requires_good_data(ss: Seq<MonitorStatusView>, groups: Seq<MonitorGroupConfig>, last_stable: Option<bool>)
    requires
        verdict(ss, groups, last_stable),
    ensures
        any_selected(ss, Selection::Safety),
        forall|i: int|
            0 <= i < ss.len() && (#[trigger] ss[i]).include_in_safety && ss[i].last_update is Some
                && !is_grouped(groups, ss[i].id) ==> !ss[i].is_unsafe(),
        last_stable != Some(true) ==> !any_initializing(ss),
{
    assert forall|i: int|
        0 <= i < ss.len() && (#[trigger] ss[i]).include_in_safety && ss[i].last_update is Some
            && !is_grouped(groups, ss[i].id) implies !ss[i].is_unsafe() by {
        if ss[i].is_unsafe() {
            lemma_unsafe_monitor_is_reported_at_once(ss, groups, last_stable, i);
        }
    }
}

/// Without enabled groups, once every monitor counting towards safety has
/// data, the system is safe exactly when there is such a monitor and all
/// of them are safe without error.
pub proof fn lemma_verdict_without_groups(ss: Seq<MonitorStatusView>, groups: Seq<MonitorGroupConfig>, last_stable: Option<bool>)
    requires
        forall|gi: int| 0 <= gi < groups.len() ==> !(#[trigger] groups[gi]).enabled,
        !any_initializing(ss),
    ensures
        verdict(ss, groups, last_stable) == (any_selected(ss, Selection::Safety) && forall|i: int|
            0 <= i < ss.len() && (#[trigger] ss[i]).include_in_safety ==> !ss[i].is_unsafe()),
{
    assert forall|id: Seq<char>| !is_grouped(groups, id) by {}
}

/// While every monitor counting towards safety still waits for its first
/// data, the last stable verdict is held (unsafe when there is none).
pub proof fn lemma_startup_holds_last_stable(ss: Seq<MonitorStatusView>, groups: Seq<MonitorGroupConfig>, last_stable: Option<bool>)
    requires
        any_selected(ss, Selection::Safety),
        forall|i: int| 0 <= i < ss.len() && (#[trigger] ss[i]).include_in_safety ==> ss[i].last_update is None,
    ensures
        verdict(ss, groups, last_stable) == unwrap_or_false(last_stable),
{
    let i = choose|i: int| 0 <= i < ss.len() && selected(Selection::Safety, #[trigger] ss[i]);
    assert(ss[i].include_in_safety && ss[i].last_update is None);
}


/// Two record lists whose records carry the same ids, position by position.
pub open spec fn same_ids(x: Seq<MonitorRecord>, y: Seq<MonitorRecord>) -> bool {
    x.len() == y.len() && forall|i: int| 0 <= i < x.len() ==> (#[trigger] x[i]).status.id@ == y[i].status.id@
}

/// Two records that differ at most in the state a reload restores.
pub open spec fn same_but_state(x: MonitorRecord, y: MonitorRecord) -> bool {
    forall|s: MonitorStatusView| #[trigger] restored_record(x, s) == restored_record(y, s)
}

proof fn lemma_find_record_same_ids(x: Seq<MonitorRecord>, y: Seq<MonitorRecord>, id: Seq<char>)
    requires
        same_ids(x, y),
    ensures
        find_record(x, id) == find_record(y, id),
    decreases x.len(),
{
    if x.len() > 0 {
        lemma_find_record_same_ids(x.drop_last(), y.drop_last(), id);
        assert(x.last().status.id@ == y.last().status.id@);
    }
}

proof fn lemma_restore_all_shape(m: Seq<MonitorRecord>, a: Seq<MonitorRecord>, saved: Seq<MonitorStatusView>)
    ensures
        same_ids(restore_all(m, a, saved).0, m),
        same_ids(restore_all(m, a, saved).1, a),
        forall|i: int| 0 <= i < m.len() ==> same_but_state(#[trigger] restore_all(m, a, saved).0[i], m[i]),
        forall|i: int| 0 <= i < a.len() ==> same_but_state(#[trigger] restore_all(m, a, saved).1[i], a[i]),
    decreases saved.len(),
{
    if saved.len() > 0 {
        let (m1, a1) = restore_all(m, a, saved.drop_last());
        lemma_restore_all_shape(m, a, saved.drop_last());
        let s = saved.last();
        lemma_find_record(m1, s.id);
        lemma_find_record(a1, s.id);
        match find_record(m1, s.id) {
            Some(k) => {
                let m2 = m1.update(k, restored_record(m1[k], s));
                assert forall|i: int| 0 <= i < m.len() implies same_but_state(#[trigger] m2[i], m[i]) by {
                    assert(same_but_state(m1[i], m[i]));
                    assert forall|t: MonitorStatusView| #[trigger] restored_record(m2[i], t) == restored_record(m[i], t) by {
                        assert(restored_record(m1[i], t) == restored_record(m[i], t));
                    }
                }
            },
            None => match find_record(a1, s.id) {
                Some(k) => {
                    let a2 = a1.update(k, restored_record(a1[k], s));
                    assert forall|i: int| 0 <= i < a.len() implies same_but_state(#[trigger] a2[i], a[i]) by {
                        assert(same_but_state(a1[i], a[i]));
                        assert forall|t: MonitorStatusView| #[trigger] restored_record(a2[i], t) == restored_record(a[i], t) by {
                            assert(restored_record(a1[i], t) == restored_record(a[i], t));
                        }
                    }
                },
                None => {},
            },
        }
    }
}

/// Monitor ids that occur at most once among the saved statuses.
pub open spec fn distinct_ids(saved: Seq<MonitorStatusView>) -> bool {
    forall|x: int, y: int| 0 <= x < y < saved.len() ==> (#[trigger] saved[x]).id != (#[trigger] saved[y]).id
}

/// After a reload, a monitor that existed before gets back the safety
/// state and last update it had, with nothing pending: an MQTT monitor
/// with its id first, else an Alpaca monitor with its id.
pub proof fn lemma_reload_restores_state(
    m: Seq<MonitorRecord>,
    a: Seq<MonitorRecord>,
    saved: Seq<MonitorStatusView>,
    j: int,
)
    requires
        0 <= j < saved.len(),
        distinct_ids(saved),
    ensures
        match find_record(m, saved[j].id) {
            Some(k) => restore_all(m, a, saved).0[k] == restored_record(m[k], saved[j]),
            None => match find_record(a, saved[j].id) {
                Some(k) => restore_all(m, a, saved).1[k] == restored_record(a[k], saved[j]),
                None => true,
            },
        },
    decreases saved.len(),
{
    let (m1, a1) = restore_all(m, a, saved.drop_last());
    let s = saved.last();
    let id = saved[j].id;
    lemma_restore_all_shape(m, a, saved.drop_last());
    lemma_find_record_same_ids(m1, m, id);
    lemma_find_record_same_ids(a1, a, id);
    lemma_find_record_same_ids(m1, m, s.id);
    lemma_find_record_same_ids(a1, a, s.id);
    lemma_find_record(m, id);
    lemma_find_record(a, id);
    lemma_find_record(m1, s.id);
    lemma_find_record(a1, s.id);
    if j == saved.len() - 1 {
        match find_record(m, id) {
            Some(k) => {
                assert(same_but_state(m1[k], m[k]));
                assert(restored_record(m1[k], s) == restored_record(m[k], s));
            },
            None => match find_record(a, id) {
                Some(k) => {
                    assert(same_but_state(a1[k], a[k]));
                    assert(restored_record(a1[k], s) == restored_record(a[k], s));
                },
                None => {},
            },
        }
    } else {
        let d = saved.drop_last();
        assert(d[j] == saved[j]);
        assert(distinct_ids(d)) by {
            assert forall|x: int, y: int| 0 <= x < y < d.len() implies (#[trigger] d[x]).id != (#[trigger] d[y]).id by {
                assert(d[x] == saved[x] && d[y] == saved[y]);
            }
        }
        assert(saved[j].id != saved[saved.len() - 1].id);
        lemma_reload_restores_state(m, a, d, j);
    }
}

/// An enabled weather device that is unsafe (a threshold exceeded, or
/// its data too old) makes the system unsafe, whatever the monitors say.
pub proof fn lemma_unsafe_weather_is_unsafe(
    ss: Seq<MonitorStatusView>,
    groups: Seq<MonitorGroupConfig>,
    last_stable: Option<bool>,
    weather: Seq<WeatherStatusView>,
    i: int,
)
    requires
        0 <= i < weather.len(),
        weather[i].enabled,
        !weather[i].is_safe,
    ensures
        !overall_verdict(ss, groups, last_stable, weather),
{
    assert(!(weather[i].enabled ==> weather[i].is_safe));
}

/// With every enabled weather device safe, the overall verdict is the
/// monitors' verdict.
pub proof fn lemma_safe_weather_defers_to_monitors(
    ss: Seq<MonitorStatusView>,
    groups: Seq<MonitorGroupConfig>,
    last_stable: Option<bool>,
    weather: Seq<WeatherStatusView>,
)
    requires
        forall|i: int| 0 <= i < weather.len() && (#[trigger] weather[i]).enabled ==> weather[i].is_safe,
    ensures
        overall_verdict(ss, groups, last_stable, weather) == verdict(ss, groups, last_stable),
{
}

/// The safety comments list exactly the monitors that count towards
/// safety and are unsafe or have an error: one with an error is listed with
/// "Error - " and its error, one that is unsafe without error as an unsafe
/// condition, and every comment belongs to such a monitor. So there are no
/// comments exactly when every such monitor is safe and without error.
pub proof fn lemma_comments_list_unsafe_monitors(ss: Seq<MonitorStatusView>)
    ensures
        forall|i: int|
            0 <= i < ss.len() && (#[trigger] ss[i]).include_in_safety && ss[i].error is Some ==> comment_entries(
                ss,
            ).contains((ss[i].id, ss[i].name, "Error - "@ + ss[i].error->0)),
        forall|i: int|
            0 <= i < ss.len() && (#[trigger] ss[i]).include_in_safety && ss[i].error is None && !ss[i].is_safe
                ==> comment_entries(ss).contains((ss[i].id, ss[i].name, "Unsafe condition"@)),
        forall|k: int|
            0 <= k < comment_entries(ss).len() ==> exists|i: int|
                0 <= i < ss.len() && (#[trigger] ss[i]).include_in_safety && ss[i].is_unsafe() && ss[i].id
                    == (#[trigger] comment_entries(ss)[k]).0 && ss[i].name == comment_entries(ss)[k].1,
        (comment_entries(ss).len() == 0) == (forall|i: int|
            0 <= i < ss.len() && (#[trigger] ss[i]).include_in_safety ==> !ss[i].is_unsafe()),
    decreases ss.len(),
{
    if ss.len() > 0 {
        let d = ss.drop_last();
        lemma_comments_list_unsafe_monitors(d);
        let cd = comment_entries(d);
        let c = comment_entries(ss);
        let l = ss.last();
        assert(forall|i: int| 0 <= i < d.len() ==> d[i] == ss[i]);
        assert forall|i: int|
            0 <= i < ss.len() && (#[trigger] ss[i]).include_in_safety && ss[i].error is Some implies c.contains(
                (ss[i].id, ss[i].name, "Error - "@ + ss[i].error->0),
            ) by {
            if i < d.len() {
                assert(d[i] == ss[i]);
                let e = (ss[i].id, ss[i].name, "Error - "@ + ss[i].error->0);
                assert(cd.contains(e));
                let k = choose|k: int| 0 <= k < cd.len() && cd[k] == e;
                if comment_of(l) is Some {
                    assert(c[k] == cd[k]);
                }
            } else {
                assert(c[c.len() - 1] == (ss[i].id, ss[i].name, "Error - "@ + ss[i].error->0));
            }
        }
        assert forall|i: int|
            0 <= i < ss.len() && (#[trigger] ss[i]).include_in_safety && ss[i].error is None && !ss[i].is_safe
                implies c.contains((ss[i].id, ss[i].name, "Unsafe condition"@)) by {
            if i < d.len() {
                assert(d[i] == ss[i]);
                let e = (ss[i].id, ss[i].name, "Unsafe condition"@);
                assert(cd.contains(e));
                let k = choose|k: int| 0 <= k < cd.len() && cd[k] == e;
                if comment_of(l) is Some {
                    assert(c[k] == cd[k]);
                }
            } else {
                assert(c[c.len() - 1] == (ss[i].id, ss[i].name, "Unsafe condition"@));
            }
        }
        assert forall|k: int| 0 <= k < c.len() implies exists|i: int|
            0 <= i < ss.len() && (#[trigger] ss[i]).include_in_safety && ss[i].is_unsafe() && ss[i].id == (#[trigger] c[k]).0
                && ss[i].name == c[k].1 by {
            if k < cd.len() {
                assert(c[k] == cd[k]);
                let i = choose|i: int|
                    0 <= i < d.len() && (#[trigger] d[i]).include_in_safety && d[i].is_unsafe() && d[i].id == cd[k].0
                        && d[i].name == cd[k].1;
                assert(ss[i] == d[i]);
            } else {
                assert(ss[ss.len() - 1] == l);
            }
        }
        if c.len() == 0 {
            assert forall|i: int| 0 <= i < ss.len() && (#[trigger] ss[i]).include_in_safety implies !ss[i].is_unsafe() by {
                if i < d.len() {
                    assert(d[i] == ss[i]);
                } else {
                    assert(ss[i] == l);
                }
            }
        } else {
            if cd.len() == 0 {
                assert(ss[ss.len() - 1] == l);
                assert(l.include_in_safety && l.is_unsafe());
            } else {
                let i = choose|i: int| 0 <= i < d.len() && (#[trigger] d[i]).include_in_safety && d[i].is_unsafe();
                assert(ss[i] == d[i]);
            }
        }
    }
}

/// With `sel` choosing the same statuses as `sel2`, a group member refers
/// to the same status.
proof fn lemma_find_last_same_selection(ss: Seq<MonitorStatusView>, id: Seq<char>, sel: Selection, sel2: Selection)
    requires
        forall|i: int| 0 <= i < ss.len() ==> selected(sel, #[trigger] ss[i]) == selected(sel2, ss[i]),
    ensures
        find_last(ss, id, sel) == find_last(ss, id, sel2),
    decreases ss.len(),
{
    if ss.len() > 0 {
        let d = ss.drop_last();
        assert(forall|i: int| 0 <= i < d.len() ==> d[i] == ss[i]);
        assert(selected(sel, ss[ss.len() - 1]) == selected(sel2, ss[ss.len() - 1]));
        lemma_find_last_same_selection(d, id, sel, sel2);
    }
}

/// When every monitor has data, the verdict kept on a reload is the IsSafe
/// verdict of that moment, groups included.
pub proof fn lemma_kept_verdict_is_current_verdict(
    ss: Seq<MonitorStatusView>,
    groups: Seq<MonitorGroupConfig>,
    last_stable: Option<bool>,
)
    requires
        all_have_data(ss),
    ensures
        verdict_ignoring_pending(ss, groups, last_stable) == verdict(ss, groups, last_stable),
{
    assert forall|i: int| 0 <= i < ss.len() implies selected(Selection::Safety, #[trigger] ss[i]) == selected(
        Selection::SafetyWithData,
        ss[i],
    ) by {}
    assert forall|id: Seq<char>| find_last(ss, id, Selection::Safety) == #[trigger] find_last(ss, id, Selection::SafetyWithData) by {
        lemma_find_last_same_selection(ss, id, Selection::Safety, Selection::SafetyWithData);
    }
    assert forall|g: MonitorGroupConfig| #[trigger] member_states(ss, g, Selection::Safety) == member_states(ss, g, Selection::SafetyWithData) by {
        assert(member_states(ss, g, Selection::Safety) =~= member_states(ss, g, Selection::SafetyWithData));
    }
    if any_selected(ss, Selection::Safety) {
        let i = choose|i: int| 0 <= i < ss.len() && selected(Selection::Safety, #[trigger] ss[i]);
        assert(selected(Selection::SafetyWithData, ss[i]));
    }
    assert(!any_initializing(ss));
}

/// Before a reload, with every monitor holding data, a monitor tolerated by
/// an enabled group does not make the kept verdict unsafe: when every
/// enabled group's logic judges it safe and every other monitor counting
/// towards safety is safe without error, the kept verdict is safe.
pub proof fn lemma_kept_verdict_respects_groups(
    ss: Seq<MonitorStatusView>,
    groups: Seq<MonitorGroupConfig>,
    last_stable: Option<bool>,
)
    requires
        all_have_data(ss),
        exists|i: int| 0 <= i < ss.len() && (#[trigger] ss[i]).include_in_safety,
        forall|gi: int|
            0 <= gi < groups.len() && (#[trigger] groups[gi]).enabled ==> !groups[gi].logic.unsafe_for(
                member_states(ss, groups[gi], Selection::SafetyWithData),
            ),
        forall|i: int|
            0 <= i < ss.len() && (#[trigger] ss[i]).include_in_safety && !is_grouped(groups, ss[i].id)
                ==> !ss[i].is_unsafe(),
    ensures
        verdict_ignoring_pending(ss, groups, last_stable),
{
    let i = choose|i: int| 0 <= i < ss.len() && (#[trigger] ss[i]).include_in_safety;
    assert(selected(Selection::Safety, ss[i]));
    assert(selected(Selection::SafetyWithData, ss[i]));
}

} // verus!
