//! Aggregated switches: each switch combines the states of several monitors
//! with its logic (ANY, ALL, MIN_OF) and reports the result through a
//! hold-time state machine.

use vstd::prelude::*;
use crate::config::{count_true, SwitchConfig, SwitchLogic};
use crate::hold::{elapsed_seconds, elapsed_u64, HoldState};
use crate::monitors::{copy_opt, opt_view, status_views, MonitorStatus, MonitorStatusView};
use crate::text::{lemma_sorted_unique, same_text, sort_texts, sorted_texts_of, text_views, texts_sorted};

verus! {

/// The texts of `parts` joined with `sep` between them.
pub open spec fn joined(parts: Seq<Seq<char>>, sep: Seq<char>) -> Seq<char>
    decreases parts.len(),
{
    if parts.len() == 0 {
        Seq::empty()
    } else if parts.len() == 1 {
        parts[0]
    } else {
        joined(parts.drop_last(), sep) + sep + parts.last()
    }
}

/// Joins texts with a separator, as `join` on a slice of strings does.
pub fn join_texts(parts: &Vec<String>, sep: &str) -> (r: String)
    ensures
        r@ == joined(text_views(parts@), sep@),
{
    let ghost ps = text_views(parts@);
    let mut out = String::new();
    let mut i: usize = 0;
    while i < parts.len()
        invariant
            ps == text_views(parts@),
            i <= parts@.len(),
            out@ == joined(ps.take(i as int), sep@),
        decreases parts@.len() - i,
    {
        assert(ps.take(i + 1).drop_last() =~= ps.take(i as int));
        if i == 0 {
            assert(out@ =~= Seq::<char>::empty());
            out.append(parts[i].as_str());
            assert(out@ =~= joined(ps.take(1), sep@));
        } else {
            out.append(sep);
            out.append(parts[i].as_str());
        }
        i = i + 1;
    }
    assert(ps.take(parts@.len() as int) =~= ps);
    out
}

/// The state of one switch.
pub struct SwitchInternalState {
    pub config: SwitchConfig,
    /// true = triggered (an unsafe condition is detected).
    pub is_triggered: bool,
    pub pending_is_triggered: Option<bool>,
    pub pending_since: Option<i64>,
    pub last_update: Option<i64>,
    pub error: Option<String>,
}

impl SwitchInternalState {
    /// A fresh switch: not triggered, nothing pending, never evaluated.
    pub fn new(config: SwitchConfig) -> (r: SwitchInternalState)
        ensures
            r.config == config,
            !r.is_triggered,
            r.pending_is_triggered is None,
            r.pending_since is None,
            r.last_update is None,
            r.error is None,
    {
        SwitchInternalState {
            config,
            is_triggered: false,
            pending_is_triggered: None,
            pending_since: None,
            last_update: None,
            error: None,
        }
    }

    pub open spec fn hold(self) -> HoldState {
        HoldState {
            current: self.is_triggered,
            pending: self.pending_is_triggered,
            pending_since: self.pending_since,
        }
    }
}

/// The status of one source of a switch.
pub struct SwitchSourceStatus {
    pub monitor_id: String,
    pub monitor_name: String,
    /// true = this source is triggered.
    pub is_triggered: bool,
    pub last_update: Option<i64>,
    pub error: Option<String>,
}

/// The status of a switch, as evaluated.
pub struct SwitchStatus {
    pub id: String,
    pub name: String,
    pub description: Option<String>,
    pub is_triggered: bool,
    pub logic: SwitchLogic,
    pub source_states: Vec<SwitchSourceStatus>,
    pub pending_is_triggered: Option<bool>,
    pub pending_since: Option<i64>,
    pub hold_time_seconds: u64,
    pub error: Option<String>,
    pub enabled: bool,
    pub last_update: Option<i64>,
}

/// The first status with the given id.
pub open spec fn find_first(ss: Seq<MonitorStatusView>, id: Seq<char>) -> Option<int>
    decreases ss.len(),
{
    if ss.len() == 0 {
        None
    } else {
        match find_first(ss.drop_last(), id) {
            Some(i) => Some(i),
            None => if ss.last().id == id {
                Some(ss.len() - 1)
            } else {
                None
            },
        }
    }
}

/// `find_first` gives a status with the id, if any.
pub proof fn lemma_find_first(ss: Seq<MonitorStatusView>, id: Seq<char>)
    ensures
        match find_first(ss, id) {
            Some(i) => 0 <= i < ss.len() && ss[i].id == id,
            None => forall|j: int| 0 <= j < ss.len() ==> ss[j].id != id,
        },
    decreases ss.len(),
{
    if ss.len() > 0 {
        let d = ss.drop_last();
        lemma_find_first(d, id);
        assert(forall|j: int| 0 <= j < d.len() ==> d[j] == ss[j]);
    }
}

/// A source whose monitor has no data, or data older than the switch's
/// timeout, is timed out.
pub open spec fn timed_out(s: MonitorStatusView, now: i64, timeout: u64) -> bool {
    match s.last_update {
        Some(t) => elapsed_u64(now as int, t as int) > timeout,
        None => true,
    }
}

/// What a source contributes to its switch: whether it is triggered, the
/// state entered into the logic (none for a disabled monitor), its listed
/// status, and the error it adds to the switch.
pub struct SourceOutcome {
    pub triggered: bool,
    pub contribution: Option<bool>,
    pub monitor_name: Seq<char>,
    pub last_update: Option<i64>,
    pub entry_error: Option<Seq<char>>,
    pub switch_error: Option<Seq<char>>,
}

/// A found source is triggered when timed out, not when its monitor is
/// disabled, and otherwise when its monitor is unsafe; only enabled
/// monitors enter the logic. A missing source is triggered and enters the
/// logic as triggered.
pub open spec fn source_outcome(ss: Seq<MonitorStatusView>, source: Seq<char>, now: i64, timeout: u64) -> SourceOutcome {
    match find_first(ss, source) {
        Some(i) => {
            let s = ss[i];
            let to = timed_out(s, now, timeout);
            let triggered = if to {
                true
            } else if !s.enabled {
                false
            } else {
                !s.is_safe
            };
            SourceOutcome {
                triggered,
                contribution: if s.enabled {
                    Some(triggered)
                } else {
                    None
                },
                monitor_name: s.name,
                last_update: s.last_update,
                entry_error: if to {
                    Some("Timed out"@)
                } else {
                    s.error
                },
                switch_error: if to {
                    Some("Source '"@ + source + "' timed out"@)
                } else {
                    None
                },
            }
        },
        None => SourceOutcome {
            triggered: true,
            contribution: Some(true),
            monitor_name: source,
            last_update: None,
            entry_error: Some("Monitor not found"@),
            switch_error: Some("Source '"@ + source + "' not found"@),
        },
    }
}

/// The states entered into the switch's logic, in source order.
pub open spec fn contributions(ss: Seq<MonitorStatusView>, sources: Seq<Seq<char>>, now: i64, timeout: u64) -> Seq<bool>
    decreases sources.len(),
{
    if sources.len() == 0 {
        Seq::empty()
    } else {
        let b = contributions(ss, sources.drop_last(), now, timeout);
        match source_outcome(ss, sources.last(), now, timeout).contribution {
            Some(t) => b.push(t),
            None => b,
        }
    }
}

/// The errors the sources add to the switch, in source order.
pub open spec fn source_errors(ss: Seq<MonitorStatusView>, sources: Seq<Seq<char>>, now: i64, timeout: u64) -> Seq<Seq<char>>
    decreases sources.len(),
{
    if sources.len() == 0 {
        Seq::empty()
    } else {
        let b = source_errors(ss, sources.drop_last(), now, timeout);
        match source_outcome(ss, sources.last(), now, timeout).switch_error {
            Some(e) => b.push(e),
            None => b,
        }
    }
}

pub open spec fn source_views(v: Seq<SwitchSourceStatus>) -> Seq<(Seq<char>, Seq<char>, bool, Option<i64>, Option<Seq<char>>)> {
    Seq::new(
        v.len(),
        |i: int| (v[i].monitor_id@, v[i].monitor_name@, v[i].is_triggered, v[i].last_update, opt_view(v[i].error)),
    )
}

/// The listed status of each source, in source order.
pub open spec fn source_entries(ss: Seq<MonitorStatusView>, sources: Seq<Seq<char>>, now: i64, timeout: u64) -> Seq<(Seq<char>, Seq<char>, bool, Option<i64>, Option<Seq<char>>)> {
    Seq::new(
        sources.len(),
        |j: int| {
            let o = source_outcome(ss, sources[j], now, timeout);
            (sources[j], o.monitor_name, o.triggered, o.last_update, o.entry_error)
        },
    )
}

/// The switch's combined state before the hold time is applied.
pub open spec fn computed_trigger(ss: Seq<MonitorStatusView>, c: SwitchConfig, now: i64) -> bool {
    c.logic.triggers(contributions(ss, text_views(c.sources@), now, c.timeout_seconds))
}

/// The switch's error: its sources' errors joined with "; ", or none.
pub open spec fn switch_error_text(ss: Seq<MonitorStatusView>, c: SwitchConfig, now: i64) -> Option<Seq<char>> {
    let errs = source_errors(ss, text_views(c.sources@), now, c.timeout_seconds);
    if errs.len() == 0 {
        None
    } else {
        Some(joined(errs, "; "@))
    }
}

/// The switch state after an evaluation at `now`.
pub open spec fn evaluated_hold(st: SwitchInternalState, ss: Seq<MonitorStatusView>, now: i64) -> HoldState {
    st.hold().after_switch_evaluation(computed_trigger(ss, st.config, now), now, st.config.hold_time_seconds)
}

/// `after` is the switch state `before` after an evaluation at `now`.
pub open spec fn evaluated(before: SwitchInternalState, after: SwitchInternalState, ss: Seq<MonitorStatusView>, now: i64) -> bool {
    &&& after.config == before.config
    &&& after.hold() == evaluated_hold(before, ss, now)
    &&& after.last_update == Some(now)
    &&& opt_view(after.error) == switch_error_text(ss, before.config, now)
}

/// `r` is the status reported for the switch `after`.
pub open spec fn reports(r: SwitchStatus, after: SwitchInternalState, ss: Seq<MonitorStatusView>, now: i64) -> bool {
    &&& r.id@ == after.config.id@
    &&& r.name@ == after.config.name@
    &&& opt_view(r.description) == opt_view(after.config.description)
    &&& r.is_triggered == after.is_triggered
    &&& r.logic == after.config.logic
    &&& source_views(r.source_states@) == source_entries(
        ss,
        text_views(after.config.sources@),
        now,
        after.config.timeout_seconds,
    )
    &&& r.pending_is_triggered == after.pending_is_triggered
    &&& r.pending_since == after.pending_since
    &&& r.hold_time_seconds == after.config.hold_time_seconds
    &&& opt_view(r.error) == opt_view(after.error)
    &&& r.enabled == after.config.enabled
    &&& r.last_update == after.last_update
}

fn find_first_index(all: &Vec<MonitorStatus>, id: &str) -> (r: Option<usize>)
    ensures
        match r {
            Some(i) => find_first(status_views(all@), id@) == Some(i as int),
            None => find_first(status_views(all@), id@) is None,
        },
{
    let ghost ss = status_views(all@);
    let mut i: usize = 0;
    while i < all.len()
        invariant
            ss == status_views(all@),
            i <= all@.len(),
            find_first(ss.take(i as int), id@) is None,
        decreases all@.len() - i,
    {
        assert(ss.take(i + 1).drop_last() =~= ss.take(i as int));
        assert(ss.take(i + 1).last() == all@[i as int]@);
        if same_text(all[i].id.as_str(), id) {
            proof {
                lemma_find_first_prefix(ss, id@, i + 1);
            }
            return Some(i);
        }
        i = i + 1;
    }
    assert(ss.take(all@.len() as int) =~= ss);
    None
}

proof fn lemma_find_first_prefix(ss: Seq<MonitorStatusView>, id: Seq<char>, k: int)
    requires
        0 <= k <= ss.len(),
        find_first(ss.take(k), id) is Some,
    ensures
        find_first(ss, id) == find_first(ss.take(k), id),
    decreases ss.len(),
{
    if k < ss.len() {
        assert(ss.drop_last().take(k) =~= ss.take(k));
        lemma_find_first_prefix(ss.drop_last(), id, k);
    } else {
        assert(ss.take(k) =~= ss);
    }
}

fn source_message(source: &str, tail: &str) -> (r: String)
    ensures
        r@ == "Source '"@ + source@ + tail@,
{
    let mut m = "Source '".to_owned();
    m.append(source);
    m.append(tail);
    m
}

/// Evaluates one switch over the monitor statuses at `now` and updates its
/// state; see `evaluated` and `reports`.
pub fn evaluate_switch(state: &mut SwitchInternalState, all_statuses: &Vec<MonitorStatus>, now: i64) -> (r: SwitchStatus)
    ensures
        evaluated(*old(state), *final(state), status_views(all_statuses@), now),
        reports(r, *final(state), status_views(all_statuses@), now),
        old(state).hold().wf() ==> final(state).hold().wf(),
{
    let ghost ss = status_views(all_statuses@);
    let ghost srcs = text_views(state.config.sources@);
    let timeout = state.config.timeout_seconds;
    let mut source_states: Vec<SwitchSourceStatus> = Vec::new();
    let mut values: Vec<bool> = Vec::new();
    let mut errors: Vec<String> = Vec::new();
    let mut k: usize = 0;
    while k < state.config.sources.len()
        invariant
            ss == status_views(all_statuses@),
            srcs == text_views(state.config.sources@),
            timeout == state.config.timeout_seconds,
            k <= srcs.len(),
            source_states@.len() == k,
            source_views(source_states@) == source_entries(ss, srcs.take(k as int), now, timeout),
            values@ == contributions(ss, srcs.take(k as int), now, timeout),
            text_views(errors@) == source_errors(ss, srcs.take(k as int), now, timeout),
        decreases srcs.len() - k,
    {
        let source_id = &state.config.sources[k];
        assert(srcs.take(k + 1).drop_last() =~= srcs.take(k as int));
        assert(srcs.take(k + 1).last() == source_id@);
        proof {
            lemma_find_first(ss, source_id@);
        }
        let ghost o = source_outcome(ss, source_id@, now, timeout);
        let ghost sv0 = source_states@;
        let ghost ev0 = errors@;
        match find_first_index(all_statuses, source_id.as_str()) {
            Some(i) => {
                let ms = &all_statuses[i];
                assert(ss[i as int] == ms@);
                let is_timed_out = match ms.last_update {
                    Some(t) => elapsed_seconds(now, t) > timeout,
                    None => true,
                };
                let is_triggered = if is_timed_out {
                    errors.push(source_message(source_id.as_str(), "' timed out"));
                    true
                } else if !ms.enabled {
                    false
                } else {
                    !ms.is_safe
                };
                source_states.push(
                    SwitchSourceStatus {
                        monitor_id: source_id.clone(),
                        monitor_name: ms.name.clone(),
                        is_triggered,
                        last_update: ms.last_update,
                        error: if is_timed_out {
                            Some("Timed out".to_owned())
                        } else {
                            copy_opt(&ms.error)
                        },
                    },
                );
                assert(source_views(source_states@)[k as int] == (
                    source_id@,
                    o.monitor_name,
                    o.triggered,
                    o.last_update,
                    o.entry_error,
                ));
                if ms.enabled {
                    values.push(is_triggered);
                }
            },
            None => {
                errors.push(source_message(source_id.as_str(), "' not found"));
                source_states.push(
                    SwitchSourceStatus {
                        monitor_id: source_id.clone(),
                        monitor_name: source_id.clone(),
                        is_triggered: true,
                        last_update: None,
                        error: Some("Monitor not found".to_owned()),
                    },
                );
                values.push(true);
                assert(source_views(source_states@)[k as int] == (
                    source_id@,
                    o.monitor_name,
                    o.triggered,
                    o.last_update,
                    o.entry_error,
                ));
            },
        }
        assert(source_views(source_states@) =~= source_entries(ss, srcs.take(k + 1), now, timeout)) by {
            assert(source_views(sv0) == source_entries(ss, srcs.take(k as int), now, timeout));
            assert forall|j: int| 0 <= j < k implies source_views(source_states@)[j] == source_views(sv0)[j] by {
                assert(source_states@[j] == sv0[j]);
            }
            assert forall|j: int| 0 <= j < k implies source_entries(ss, srcs.take(k + 1), now, timeout)[j]
                == source_entries(ss, srcs.take(k as int), now, timeout)[j] by {
                assert(srcs.take(k + 1)[j] == srcs.take(k as int)[j]);
            }
            assert(srcs.take(k + 1)[k as int] == source_id@);
            assert(source_entries(ss, srcs.take(k + 1), now, timeout)[k as int] == (
                source_id@,
                o.monitor_name,
                o.triggered,
                o.last_update,
                o.entry_error,
            ));
            assert(source_views(source_states@).len() == k + 1);
            assert(source_entries(ss, srcs.take(k + 1), now, timeout).len() == k + 1);
            assert forall|j: int| 0 <= j < k + 1 implies #[trigger] source_views(source_states@)[j]
                == source_entries(ss, srcs.take(k + 1), now, timeout)[j] by {
                if j < k {
                    assert(source_views(sv0)[j] == source_entries(ss, srcs.take(k as int), now, timeout)[j]);
                }
            }
        }
        assert(text_views(errors@) =~= source_errors(ss, srcs.take(k + 1), now, timeout)) by {
            assert forall|j: int| 0 <= j < ev0.len() implies text_views(errors@)[j] == text_views(ev0)[j] by {
                assert(errors@[j] == ev0[j]);
            }
        }
        k = k + 1;
    }
    assert(srcs.take(srcs.len() as int) =~= srcs);
    let new_triggered = state.config.logic.evaluate(values.as_slice());
    proof {
        if state.hold().wf() {
            crate::hold::lemma_steps_keep_wf(state.hold(), new_triggered, now, state.config.hold_time_seconds, false);
        }
    }
    let mut h = HoldState {
        current: state.is_triggered,
        pending: state.pending_is_triggered,
        pending_since: state.pending_since,
    };
    h.apply_switch_evaluation(new_triggered, now, state.config.hold_time_seconds);
    state.is_triggered = h.current;
    state.pending_is_triggered = h.pending;
    state.pending_since = h.pending_since;
    state.last_update = Some(now);
    state.error = if errors.len() == 0 {
        None
    } else {
        Some(join_texts(&errors, "; "))
    };
    SwitchStatus {
        id: state.config.id.clone(),
        name: state.config.name.clone(),
        description: copy_opt(&state.config.description),
        is_triggered: state.is_triggered,
        logic: state.config.logic,
        source_states,
        pending_is_triggered: state.pending_is_triggered,
        pending_since: state.pending_since,
        hold_time_seconds: state.config.hold_time_seconds,
        error: copy_opt(&state.error),
        enabled: state.config.enabled,
        last_update: state.last_update,
    }
}

/// A configured switch under its configuration key.
pub struct SwitchEntry {
    pub key: String,
    pub state: SwitchInternalState,
}

/// The first entry with the given key.
pub open spec fn find_entry(es: Seq<SwitchEntry>, key: Seq<char>) -> Option<int>
    decreases es.len(),
{
    if es.len() == 0 {
        None
    } else {
        match find_entry(es.drop_last(), key) {
            Some(i) => Some(i),
            None => if es.last().key@ == key {
                Some(es.len() - 1)
            } else {
                None
            },
        }
    }
}

/// `find_entry` gives the first switch entry with the key, if any.
pub proof fn lemma_find_entry(es: Seq<SwitchEntry>, key: Seq<char>)
    ensures
        match find_entry(es, key) {
            Some(i) => 0 <= i < es.len() && es[i].key@ == key && forall|j: int|
                0 <= j < i ==> es[j].key@ != key,
            None => forall|j: int| 0 <= j < es.len() ==> es[j].key@ != key,
        },
    decreases es.len(),
{
    if es.len() > 0 {
        let d = es.drop_last();
        lemma_find_entry(d, key);
        assert(forall|j: int| 0 <= j < d.len() ==> d[j] == es[j]);
    }
}

proof fn lemma_find_entry_prefix(es: Seq<SwitchEntry>, key: Seq<char>, k: int)
    requires
        0 <= k <= es.len(),
        find_entry(es.take(k), key) is Some,
    ensures
        find_entry(es, key) == find_entry(es.take(k), key),
    decreases es.len(),
{
    if k < es.len() {
        assert(es.drop_last().take(k) =~= es.take(k));
        lemma_find_entry_prefix(es.drop_last(), key, k);
    } else {
        assert(es.take(k) =~= es);
    }
}

fn find_entry_index(es: &Vec<SwitchEntry>, key: &str) -> (r: Option<usize>)
    ensures
        match r {
            Some(i) => find_entry(es@, key@) == Some(i as int),
            None => find_entry(es@, key@) is None,
        },
{
    let mut i: usize = 0;
    while i < es.len()
        invariant
            i <= es@.len(),
            find_entry(es@.take(i as int), key@) is None,
        decreases es@.len() - i,
    {
        assert(es@.take(i + 1).drop_last() =~= es@.take(i as int));
        if same_text(es[i].key.as_str(), key) {
            assert(find_entry(es@.take(i + 1), key@) == Some(i as int));
            proof {
                lemma_find_entry_prefix(es@, key@, i + 1);
            }
            return Some(i);
        }
        i = i + 1;
    }
    assert(es@.take(es@.len() as int) =~= es@);
    None
}

/// The entries after `e` was stored: an entry with the same key is replaced.
pub open spec fn put_entry(es: Seq<SwitchEntry>, e: SwitchEntry) -> Seq<SwitchEntry> {
    match find_entry(es, e.key@) {
        Some(i) => es.update(i, e),
        None => es.push(e),
    }
}

/// A switch that has never been evaluated.
pub open spec fn fresh_state(c: SwitchConfig) -> SwitchInternalState {
    SwitchInternalState {
        config: c,
        is_triggered: false,
        pending_is_triggered: None,
        pending_since: None,
        last_update: None,
        error: None,
    }
}

/// The switches built from the configured ones, in order; disabled ones
/// are skipped.
pub open spec fn initialized(cfgs: Seq<(String, SwitchConfig)>) -> Seq<SwitchEntry>
    decreases cfgs.len(),
{
    if cfgs.len() == 0 {
        Seq::empty()
    } else {
        let b = initialized(cfgs.drop_last());
        let (k, c) = cfgs.last();
        if c.enabled {
            put_entry(b, SwitchEntry { key: k, state: fresh_state(c) })
        } else {
            b
        }
    }
}

/// A new switch state that takes over the triggered state and the pending
/// change of the switch stored under the same key in `old`, if any.
pub open spec fn carried_over(st: SwitchInternalState, old: Seq<SwitchEntry>, key: Seq<char>) -> SwitchInternalState {
    match find_entry(old, key) {
        Some(i) => SwitchInternalState {
            is_triggered: old[i].state.is_triggered,
            pending_is_triggered: old[i].state.pending_is_triggered,
            pending_since: old[i].state.pending_since,
            ..st
        },
        None => st,
    }
}

/// The switches rebuilt from the configured ones, each carrying over the
/// state of the old switch with its key.
pub open spec fn reloaded(old: Seq<SwitchEntry>, cfgs: Seq<(String, SwitchConfig)>) -> Seq<SwitchEntry>
    decreases cfgs.len(),
{
    if cfgs.len() == 0 {
        Seq::empty()
    } else {
        let b = reloaded(old, cfgs.drop_last());
        let (k, c) = cfgs.last();
        if c.enabled {
            put_entry(b, SwitchEntry { key: k, state: carried_over(fresh_state(c), old, k@) })
        } else {
            b
        }
    }
}

/// The configured switches.
pub struct SwitchManager {
    pub switches: Vec<SwitchEntry>,
}

impl SwitchManager {
    /// No two switches share a key.
    pub open spec fn keys_unique(self) -> bool {
        forall|i: int, j: int|
            0 <= i < self.switches@.len() && 0 <= j < self.switches@.len() && i != j
                ==> self.switches@[i].key@ != self.switches@[j].key@
    }

    /// Every switch's hold state is well formed.
    pub open spec fn holds_wf(self) -> bool {
        forall|i: int| 0 <= i < self.switches@.len() ==> (#[trigger] self.switches@[i]).state.hold().wf()
    }

    /// No two switches share a key, and every hold state is well formed.
    pub open spec fn wf(self) -> bool {
        self.keys_unique() && self.holds_wf()
    }

    /// The keys of the switches, in storage order.
    pub open spec fn switch_keys(self) -> Seq<Seq<char>> {
        Seq::new(self.switches@.len(), |i: int| self.switches@[i].key@)
    }

    /// The keys of the switches in text order: the order in which ASCOM
    /// switch indices name them.
    pub open spec fn switch_order(self) -> Seq<Seq<char>> {
        sorted_texts_of(self.switch_keys())
    }

    pub fn new() -> (r: SwitchManager)
        ensures
            r.switches@.len() == 0,
            r.wf(),
    {
        SwitchManager { switches: Vec::new() }
    }

    fn put(&mut self, e: SwitchEntry)
        ensures
            final(self).switches@ == put_entry(old(self).switches@, e),
            old(self).keys_unique() ==> final(self).keys_unique(),
            old(self).holds_wf() && e.state.hold().wf() ==> final(self).holds_wf(),
    {
        proof {
            lemma_find_entry(self.switches@, e.key@);
        }
        match find_entry_index(&self.switches, e.key.as_str()) {
            Some(i) => {
                self.switches.set(i, e);
            },
            None => {
                self.switches.push(e);
            },
        }
    }

    /// Replaces the switches with the enabled configured ones, fresh.
    pub fn initialize(&mut self, configs: Vec<(String, SwitchConfig)>)
        ensures
            final(self).switches@ == initialized(configs@),
            final(self).wf(),
    {
        self.switches = Vec::new();
        let ghost orig = configs@;
        let mut configs = configs;
        let ghost mut k: int = 0;
        assert(orig.take(0) =~= Seq::<(String, SwitchConfig)>::empty());
        assert(orig.skip(0) =~= orig);
        while configs.len() > 0
            invariant
                0 <= k <= orig.len(),
                k + configs@.len() == orig.len(),
                configs@ == orig.skip(k),
                self.switches@ == initialized(orig.take(k)),
                self.wf(),
            decreases configs@.len(),
        {
            let (key, config) = configs.remove(0);
            assert(orig.take(k + 1).drop_last() =~= orig.take(k));
            assert(orig.skip(k).remove(0) =~= orig.skip(k + 1));
            assert(orig.take(k + 1).last() == orig[k]);
            if config.enabled {
                self.put(SwitchEntry { key, state: SwitchInternalState::new(config) });
            }
            proof {
                k = k + 1;
            }
        }
        assert(orig.take(k) =~= orig);
    }

    /// Rebuilds the switches from the configuration; a switch that existed
    /// before under the same key keeps its triggered state and its pending
    /// change.
    pub fn reload(&mut self, configs: Vec<(String, SwitchConfig)>)
        ensures
            final(self).switches@ == reloaded(old(self).switches@, configs@),
            final(self).keys_unique(),
            old(self).holds_wf() ==> final(self).holds_wf(),
    {
        let ghost was_wf = self.holds_wf();
        let mut old_entries: Vec<SwitchEntry> = Vec::new();
        std::mem::swap(&mut old_entries, &mut self.switches);
        let ghost olds = old_entries@;
        let ghost orig = configs@;
        let mut configs = configs;
        let ghost mut k: int = 0;
        assert(orig.take(0) =~= Seq::<(String, SwitchConfig)>::empty());
        assert(orig.skip(0) =~= orig);
        while configs.len() > 0
            invariant
                0 <= k <= orig.len(),
                k + configs@.len() == orig.len(),
                configs@ == orig.skip(k),
                old_entries@ == olds,
                self.switches@ == reloaded(olds, orig.take(k)),
                self.keys_unique(),
                was_wf ==> self.holds_wf(),
                was_wf ==> forall|j: int| 0 <= j < olds.len() ==> (#[trigger] olds[j]).state.hold().wf(),
            decreases configs@.len(),
        {
            let (key, config) = configs.remove(0);
            assert(orig.take(k + 1).drop_last() =~= orig.take(k));
            assert(orig.skip(k).remove(0) =~= orig.skip(k + 1));
            assert(orig.take(k + 1).last() == orig[k]);
            if config.enabled {
                let mut state = SwitchInternalState::new(config);
                proof {
                    lemma_find_entry(olds, key@);
                }
                match find_entry_index(&old_entries, key.as_str()) {
                    Some(i) => {
                        state.is_triggered = old_entries[i].state.is_triggered;
                        state.pending_is_triggered = old_entries[i].state.pending_is_triggered;
                        state.pending_since = old_entries[i].state.pending_since;
                    },
                    None => {},
                }
                self.put(SwitchEntry { key, state });
            }
            proof {
                k = k + 1;
            }
        }
        assert(orig.take(k) =~= orig);
    }

    /// Evaluates every switch over the monitor statuses at `now`, in order.
    pub fn evaluate_all(&mut self, all_statuses: &Vec<MonitorStatus>, now: i64) -> (r: Vec<SwitchStatus>)
        ensures
            old(self).wf() ==> final(self).wf(),
            final(self).switches@.len() == old(self).switches@.len(),
            r@.len() == old(self).switches@.len(),
            forall|i: int|
                0 <= i < r@.len() ==> {
                    &&& #[trigger] final(self).switches@[i].key == old(self).switches@[i].key
                    &&& evaluated(
                        old(self).switches@[i].state,
                        final(self).switches@[i].state,
                        status_views(all_statuses@),
                        now,
                    )
                    &&& reports(r@[i], final(self).switches@[i].state, status_views(all_statuses@), now)
                },
    {
        let ghost ss = status_views(all_statuses@);
        let mut rest: Vec<SwitchEntry> = Vec::new();
        std::mem::swap(&mut rest, &mut self.switches);
        let ghost olds = rest@;
        let mut results: Vec<SwitchStatus> = Vec::new();
        let ghost mut k: int = 0;
        while rest.len() > 0
            invariant
                ss == status_views(all_statuses@),
                0 <= k <= olds.len(),
                k + rest@.len() == olds.len(),
                rest@ == olds.skip(k),
                self.switches@.len() == k,
                results@.len() == k,
                forall|i: int|
                    0 <= i < k ==> {
                        &&& #[trigger] self.switches@[i].key == olds[i].key
                        &&& evaluated(olds[i].state, self.switches@[i].state, ss, now)
                        &&& reports(results@[i], self.switches@[i].state, ss, now)
                        &&& (olds[i].state.hold().wf() ==> self.switches@[i].state.hold().wf())
                    },
            decreases rest@.len(),
        {
            let mut e = rest.remove(0);
            assert(olds.skip(k).remove(0) =~= olds.skip(k + 1));
            assert(e == olds[k]);
            let ghost e0 = e;
            let st = evaluate_switch(&mut e.state, all_statuses, now);
            assert(e.key == e0.key);
            assert(evaluated(e0.state, e.state, ss, now));
            let ghost sw0 = self.switches@;
            let ghost rs0 = results@;
            self.switches.push(e);
            results.push(st);
            assert forall|i: int| 0 <= i < k + 1 implies {
                &&& #[trigger] self.switches@[i].key == olds[i].key
                &&& evaluated(olds[i].state, self.switches@[i].state, ss, now)
                &&& reports(results@[i], self.switches@[i].state, ss, now)
                &&& (olds[i].state.hold().wf() ==> self.switches@[i].state.hold().wf())
            } by {
                if i < k {
                    assert(self.switches@[i] == sw0[i]);
                    assert(results@[i] == rs0[i]);
                } else {
                    assert(self.switches@[i] == e);
                    assert(results@[i] == st);
                }
            }
            proof {
                k = k + 1;
            }
        }
        proof {
            if old(self).wf() {
                assert forall|i: int, j: int|
                    0 <= i < self.switches@.len() && 0 <= j < self.switches@.len() && i != j
                        implies self.switches@[i].key@ != self.switches@[j].key@ by {
                    assert(self.switches@[i].key == olds[i].key);
                    assert(self.switches@[j].key == olds[j].key);
                }
                assert forall|i: int| 0 <= i < self.switches@.len() implies (#[trigger] self.switches@[i]).state.hold().wf() by {
                    assert(old(self).switches@[i] == olds[i]);
                    assert(self.switches@[i].key == olds[i].key);
                    assert(olds[i].state.hold().wf());
                }
            }
        }
        results
    }

    /// The number of switches.
    pub fn get_switch_count(&self) -> (n: usize)
        ensures
            n == self.switches@.len(),
    {
        self.switches.len()
    }

    /// Evaluates the switch that ASCOM index `index` names: the one whose
    /// key stands at `index` in text order (see `get_switch_ids`); `None`
    /// when there is no such switch. The other switches are left as they
    /// were.
    pub fn get_switch_by_index(&mut self, index: usize, all_statuses: &Vec<MonitorStatus>, now: i64) -> (r: Option<SwitchStatus>)
        ensures
            old(self).wf() ==> final(self).wf(),
            final(self).switches@.len() == old(self).switches@.len(),
            old(self).switch_order().len() == old(self).switches@.len(),
            match r {
                Some(st) => {
                    &&& index < old(self).switches@.len()
                    &&& match find_entry(old(self).switches@, old(self).switch_order()[index as int]) {
                        Some(p) => {
                            &&& final(self).switches@[p].key == old(self).switches@[p].key
                            &&& evaluated(
                                old(self).switches@[p].state,
                                final(self).switches@[p].state,
                                status_views(all_statuses@),
                                now,
                            )
                            &&& reports(st, final(self).switches@[p].state, status_views(all_statuses@), now)
                            &&& forall|j: int|
                                0 <= j < old(self).switches@.len() && j != p ==> #[trigger] final(self).switches@[j]
                                    == old(self).switches@[j]
                        },
                        None => false,
                    }
                },
                None => index >= old(self).switches@.len() && final(self).switches@ == old(self).switches@,
            },
    {
        let ids = self.get_switch_ids();
        let ghost olds = self.switches@;
        let ghost ks = self.switch_keys();
        let ghost order = self.switch_order();
        proof {
            vstd::seq_lib::to_multiset_len(text_views(ids@));
            vstd::seq_lib::to_multiset_len(ks);
            assert(ks.len() == olds.len());
            assert(text_views(ids@).len() == ids@.len());
        }
        if index >= ids.len() {
            return None;
        }
        let key = &ids[index];
        proof {
            let id = order[index as int];
            assert(id == key@);
            vstd::seq_lib::to_multiset_contains(order, id);
            vstd::seq_lib::to_multiset_contains(ks, id);
            assert(order.contains(id));
            assert(ks.contains(id));
            let j = choose|j: int| 0 <= j < ks.len() && ks[j] == id;
            assert(olds[j].key@ == id);
            lemma_find_entry(olds, id);
        }
        match find_entry_index(&self.switches, key.as_str()) {
            None => {
                return None;
            },
            Some(p) => {
                let mut e = self.switches.remove(p);
                let ghost e0 = e;
                let st = evaluate_switch(&mut e.state, all_statuses, now);
                self.switches.insert(p, e);
                assert forall|j: int| 0 <= j < olds.len() && j != p implies #[trigger] self.switches@[j] == olds[j] by {
                    if j < p {
                    } else {
                        assert(olds.remove(p as int)[j - 1] == olds[j]);
                    }
                }
                proof {
                    if old(self).wf() {
                        assert(olds[p as int] == e0);
                        assert forall|i: int, j: int|
                            0 <= i < self.switches@.len() && 0 <= j < self.switches@.len() && i != j
                                implies self.switches@[i].key@ != self.switches@[j].key@ by {
                            assert(self.switches@[i].key == olds[i].key);
                            assert(self.switches@[j].key == olds[j].key);
                        }
                        assert forall|i: int| 0 <= i < self.switches@.len() implies (#[trigger] self.switches@[i]).state.hold().wf() by {
                            assert(olds[i].state.hold().wf());
                        }
                    }
                }
                Some(st)
            },
        }
    }

    /// The status of every switch; see `evaluate_all`.
    pub fn get_all_statuses(&mut self, all_statuses: &Vec<MonitorStatus>, now: i64) -> (r: Vec<SwitchStatus>)
        ensures
            old(self).wf() ==> final(self).wf(),
            final(self).switches@.len() == old(self).switches@.len(),
            r@.len() == old(self).switches@.len(),
            forall|i: int|
                0 <= i < r@.len() ==> {
                    &&& #[trigger] final(self).switches@[i].key == old(self).switches@[i].key
                    &&& evaluated(
                        old(self).switches@[i].state,
                        final(self).switches@[i].state,
                        status_views(all_statuses@),
                        now,
                    )
                    &&& reports(r@[i], final(self).switches@[i].state, status_views(all_statuses@), now)
                },
    {
        self.evaluate_all(all_statuses, now)
    }

    /// The switch keys in text order, the order of ASCOM switch indices.
    pub fn get_switch_ids(&self) -> (r: Vec<String>)
        ensures
            text_views(r@) == self.switch_order(),
            self.keys_unique() ==> forall|i: int, j: int|
                0 <= i < j < r@.len() ==> #[trigger] r@[i]@ != #[trigger] r@[j]@,
            texts_sorted(text_views(r@)),
            text_views(r@).to_multiset() == Seq::new(
                self.switches@.len(),
                |i: int| self.switches@[i].key@,
            ).to_multiset(),
    {
        let mut keys: Vec<String> = Vec::new();
        let mut i: usize = 0;
        while i < self.switches.len()
            invariant
                i <= self.switches@.len(),
                keys@.len() == i,
                forall|j: int| 0 <= j < i ==> #[trigger] keys@[j]@ == self.switches@[j].key@,
            decreases self.switches@.len() - i,
        {
            keys.push(self.switches[i].key.clone());
            i = i + 1;
        }
        assert(text_views(keys@) =~= Seq::new(self.switches@.len(), |j: int| self.switches@[j].key@));
        let r = sort_texts(&keys);
        proof {
            let ks = self.switch_keys();
            let rs = text_views(r@);
            assert(ks == text_views(keys@));
            if self.keys_unique() {
                assert(ks.no_duplicates());
                ks.lemma_multiset_has_no_duplicates();
                rs.lemma_multiset_has_no_duplicates_conv();
                assert forall|i: int, j: int| 0 <= i < j < r@.len() implies #[trigger] r@[i]@ != #[trigger] r@[j]@ by {
                    assert(rs[i] == r@[i]@ && rs[j] == r@[j]@);
                }
            }
        }
        r
    }
}

/// `e` is a switch built on reload from the entries `old`: enabled, and
/// with the triggered state and pending change of the old switch with its
/// key, or fresh when there was none.
pub open spec fn carried_correctly(e: SwitchEntry, old: Seq<SwitchEntry>) -> bool {
    &&& e.state.config.enabled
    &&& e.state.last_update is None
    &&& e.state.error is None
    &&& match find_entry(old, e.key@) {
        Some(j) => e.state.hold() == old[j].state.hold(),
        None => e.state.hold() == (HoldState { current: false, pending: None, pending_since: None }),
    }
}

proof fn lemma_put_keeps(es: Seq<SwitchEntry>, e: SwitchEntry, old: Seq<SwitchEntry>)
    requires
        forall|i: int| 0 <= i < es.len() ==> carried_correctly(#[trigger] es[i], old),
        carried_correctly(e, old),
    ensures
        forall|i: int| 0 <= i < put_entry(es, e).len() ==> carried_correctly(#[trigger] put_entry(es, e)[i], old),
{
    lemma_find_entry(es, e.key@);
}

/// On reload, every switch that existed before under the same key keeps
/// its triggered state and its pending change; a new switch starts
/// untriggered with nothing pending.
pub proof fn lemma_reload_keeps_switch_state(old: Seq<SwitchEntry>, cfgs: Seq<(String, SwitchConfig)>)
    ensures
        forall|i: int| 0 <= i < reloaded(old, cfgs).len() ==> carried_correctly(#[trigger] reloaded(old, cfgs)[i], old),
    decreases cfgs.len(),
{
    if cfgs.len() > 0 {
        lemma_reload_keeps_switch_state(old, cfgs.drop_last());
        let (k, c) = cfgs.last();
        if c.enabled {
            let e = SwitchEntry { key: k, state: carried_over(fresh_state(c), old, k@) };
            lemma_find_entry(old, k@);
            lemma_put_keeps(reloaded(old, cfgs.drop_last()), e, old);
        }
    }
}

proof fn lemma_contributions_len(ss: Seq<MonitorStatusView>, srcs: Seq<Seq<char>>, now: i64, timeout: u64)
    ensures
        contributions(ss, srcs, now, timeout).len() <= srcs.len(),
    decreases srcs.len(),
{
    if srcs.len() > 0 {
        lemma_contributions_len(ss, srcs.drop_last(), now, timeout);
    }
}

proof fn lemma_triggered_source_counts(ss: Seq<MonitorStatusView>, srcs: Seq<Seq<char>>, now: i64, timeout: u64, j: int)
    requires
        0 <= j < srcs.len(),
        source_outcome(ss, srcs[j], now, timeout).contribution == Some(true),
    ensures
        count_true(contributions(ss, srcs, now, timeout)) > 0,
    decreases srcs.len(),
{
    let d = srcs.drop_last();
    let b = contributions(ss, d, now, timeout);
    if j == srcs.len() - 1 {
        assert(contributions(ss, srcs, now, timeout) == b.push(true));
        assert(b.push(true).drop_last() =~= b);
    } else {
        assert(d[j] == srcs[j]);
        lemma_triggered_source_counts(ss, d, now, timeout, j);
        match source_outcome(ss, srcs.last(), now, timeout).contribution {
            Some(t) => {
                assert(b.push(t).drop_last() =~= b);
            },
            None => {},
        }
    }
}

/// A source that is missing, or whose monitor is enabled but has no fresh
/// data, counts as triggered: under ANY logic it triggers the switch.
pub proof fn lemma_unreachable_source_triggers_any(ss: Seq<MonitorStatusView>, c: SwitchConfig, now: i64, j: int)
    requires
        c.logic == SwitchLogic::Any,
        c.sources@.len() <= u32::MAX,
        0 <= j < c.sources@.len(),
        match find_first(ss, c.sources@[j]@) {
            None => true,
            Some(i) => ss[i].enabled && timed_out(ss[i], now, c.timeout_seconds),
        },
    ensures
        computed_trigger(ss, c, now),
{
    let srcs = text_views(c.sources@);
    assert(srcs[j] == c.sources@[j]@);
    lemma_triggered_source_counts(ss, srcs, now, c.timeout_seconds, j);
    lemma_contributions_len(ss, srcs, now, c.timeout_seconds);
    crate::config::lemma_count_true_bounded(contributions(ss, srcs, now, c.timeout_seconds));
}

/// Without a hold time, a switch takes the state its sources compute at
/// every evaluation.
pub proof fn lemma_switch_without_hold_follows_sources(st: SwitchInternalState, ss: Seq<MonitorStatusView>, now: i64)
    requires
        st.hold().wf(),
        st.config.hold_time_seconds == 0,
    ensures
        evaluated_hold(st, ss, now).current == computed_trigger(ss, st.config, now),
{
}

} // verus!
