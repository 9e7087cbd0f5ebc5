//! What the debug log records, and when: state changes of single monitors
//! and of the overall verdict, periodic summaries, and which log files may
//! be served.

use vstd::prelude::*;
use chrono::Datelike;
use crate::monitors::{status_views, MonitorStatus, MonitorStatusView};
use crate::text::{
    contains_substring, contains_text, decimal_digits, ends_with_text, has_char, same_text, sort_texts,
    starts_with_text, text_le, text_views,
};

verus! {

/// How a safety state changed, for the log; none when it did not.
pub open spec fn change_label(old_safe: bool, new_safe: bool) -> Option<Seq<char>> {
    if old_safe && !new_safe {
        Some("SAFE -> UNSAFE"@)
    } else if !old_safe && new_safe {
        Some("UNSAFE -> SAFE"@)
    } else {
        None
    }
}

/// Names a change of safety state.
pub fn state_change_label(old_safe: bool, new_safe: bool) -> (r: Option<&'static str>)
    ensures
        match r {
            Some(s) => change_label(old_safe, new_safe) == Some(s@),
            None => change_label(old_safe, new_safe) is None,
        },
{
    if old_safe && !new_safe {
        Some("SAFE -> UNSAFE")
    } else if !old_safe && new_safe {
        Some("UNSAFE -> SAFE")
    } else {
        None
    }
}

/// The state of a monitor as the log shows it.
pub open spec fn state_text(enabled: bool, is_safe: bool) -> Seq<char> {
    if !enabled {
        "DISABLED"@
    } else if is_safe {
        "SAFE"@
    } else {
        "UNSAFE"@
    }
}

/// Names the state of a monitor.
pub fn monitor_state_label(enabled: bool, is_safe: bool) -> (r: &'static str)
    ensures
        r@ == state_text(enabled, is_safe),
{
    if !enabled {
        "DISABLED"
    } else if is_safe {
        "SAFE"
    } else {
        "UNSAFE"
    }
}

/// A log file name the server may hand out: no path separators or "..",
/// and of the form `llama-watch-*.log`.
pub open spec fn servable_log_name(name: Seq<char>) -> bool {
    &&& !name.contains('/')
    &&& !name.contains('\\')
    &&& !contains_text(name, ".."@)
    &&& "llama-watch-"@.len() <= name.len() && name.subrange(0, "llama-watch-"@.len() as int) == "llama-watch-"@
    &&& ".log"@.len() <= name.len() && name.subrange(name.len() - ".log"@.len(), name.len() as int) == ".log"@
}

/// Whether a requested log file name may be served.
pub fn is_servable_log_name(filename: &str) -> (r: bool)
    ensures
        r == servable_log_name(filename@),
{
    if has_char(filename, '/') || has_char(filename, '\\') || contains_substring(filename, "..") {
        return false;
    }
    starts_with_text(filename, "llama-watch-") && ends_with_text(filename, ".log")
}

/// A monitor whose safety state changed since it was last seen.
pub struct MonitorChange {
    /// Its position among the statuses checked.
    pub index: usize,
    pub was_safe: bool,
    pub now_safe: bool,
}

/// What happened to the overall verdict.
#[derive(Clone, Copy, Debug, PartialEq, Eq, Structural)]
pub enum OverallChange {
    /// Nothing to log.
    Unchanged,
    /// The first verdict seen.
    Initial { safe: bool },
    /// The verdict changed.
    Changed { was_safe: bool, now_safe: bool },
}

/// What the debug log remembers between checks.
pub struct LogState {
    pub enabled: bool,
    pub last_overall_safe: Option<bool>,
    /// When the last periodic summary was written.
    pub last_status_log: Option<i64>,
    /// The last seen safety state of each enabled monitor, by id.
    pub last_monitor_states: Vec<(String, bool)>,
}

/// The remembered states, as texts and flags.
pub open spec fn state_views(v: Seq<(String, bool)>) -> Seq<(Seq<char>, bool)> {
    Seq::new(v.len(), |i: int| (v[i].0@, v[i].1))
}

/// Where the state of the monitor `id` is remembered.
pub open spec fn find_state(states: Seq<(Seq<char>, bool)>, id: Seq<char>) -> Option<int>
    decreases states.len(),
{
    if states.len() == 0 {
        None
    } else {
        match find_state(states.drop_last(), id) {
            Some(k) => Some(k),
            None => if states.last().0 == id {
                Some(states.len() - 1)
            } else {
                None
            },
        }
    }
}

/// `find_state` gives the first remembered state with the id, if any.
pub proof fn lemma_find_state(states: Seq<(Seq<char>, bool)>, id: Seq<char>)
    ensures
        match find_state(states, id) {
            Some(k) => 0 <= k < states.len() && states[k].0 == id && forall|j: int| 0 <= j < k ==> states[j].0 != id,
            None => forall|j: int| 0 <= j < states.len() ==> states[j].0 != id,
        },
    decreases states.len(),
{
    if states.len() > 0 {
        let d = states.drop_last();
        lemma_find_state(d, id);
        assert(forall|j: int| 0 <= j < d.len() ==> d[j] == states[j]);
    }
}

/// The remembered states after the state of `id` was set to `b`.
pub open spec fn remember(states: Seq<(Seq<char>, bool)>, id: Seq<char>, b: bool) -> Seq<(Seq<char>, bool)> {
    match find_state(states, id) {
        Some(k) => states.update(k, (id, b)),
        None => states.push((id, b)),
    }
}

/// Tracks the enabled monitors in order: each one whose state differs from
/// the remembered one is remembered anew, and reported as a change when a
/// state was remembered before.
pub open spec fn watched(states: Seq<(Seq<char>, bool)>, ss: Seq<MonitorStatusView>) -> (Seq<(Seq<char>, bool)>, Seq<(int, bool, bool)>)
    decreases ss.len(),
{
    if ss.len() == 0 {
        (states, Seq::empty())
    } else {
        let (st, ch) = watched(states, ss.drop_last());
        let s = ss.last();
        if !s.enabled {
            (st, ch)
        } else {
            match find_state(st, s.id) {
                Some(k) => if st[k].1 == s.is_safe {
                    (st, ch)
                } else {
                    (remember(st, s.id, s.is_safe), ch.push((ss.len() - 1, st[k].1, s.is_safe)))
                },
                None => (remember(st, s.id, s.is_safe), ch),
            }
        }
    }
}

pub open spec fn change_views(v: Seq<MonitorChange>) -> Seq<(int, bool, bool)> {
    Seq::new(v.len(), |i: int| (v[i].index as int, v[i].was_safe, v[i].now_safe))
}

fn find_state_index(states: &Vec<(String, bool)>, id: &str) -> (r: Option<usize>)
    ensures
        match r {
            Some(k) => find_state(state_views(states@), id@) == Some(k as int),
            None => find_state(state_views(states@), id@) is None,
        },
{
    let ghost vs = state_views(states@);
    proof {
        lemma_find_state(vs, id@);
    }
    let mut i: usize = 0;
    while i < states.len()
        invariant
            vs == state_views(states@),
            i <= vs.len(),
            forall|j: int| 0 <= j < i ==> vs[j].0 != id@,
            match find_state(vs, id@) {
                Some(k) => 0 <= k < vs.len() && vs[k].0 == id@ && forall|j: int| 0 <= j < k ==> vs[j].0 != id@,
                None => forall|j: int| 0 <= j < vs.len() ==> vs[j].0 != id@,
            },
        decreases vs.len() - i,
    {
        if same_text(states[i].0.as_str(), id) {
            assert(vs[i as int].0 == id@);
            return Some(i);
        }
        i = i + 1;
    }
    None
}

impl LogState {
    pub fn new(enabled: bool) -> (r: LogState)
        ensures
            r.enabled == enabled,
            r.last_overall_safe is None,
            r.last_status_log is None,
            r.last_monitor_states@.len() == 0,
    {
        LogState { enabled, last_overall_safe: None, last_status_log: None, last_monitor_states: Vec::new() }
    }

    pub fn is_enabled(&self) -> (r: bool)
        ensures
            r == self.enabled,
    {
        self.enabled
    }

    pub fn set_enabled(&mut self, enabled: bool)
        ensures
            final(self).enabled == enabled,
            final(self).last_overall_safe == old(self).last_overall_safe,
            final(self).last_status_log == old(self).last_status_log,
            final(self).last_monitor_states == old(self).last_monitor_states,
    {
        self.enabled = enabled;
    }

    fn remember_state(&mut self, id: &str, b: bool)
        ensures
            state_views(final(self).last_monitor_states@) == remember(state_views(old(self).last_monitor_states@), id@, b),
            final(self).enabled == old(self).enabled,
            final(self).last_overall_safe == old(self).last_overall_safe,
            final(self).last_status_log == old(self).last_status_log,
    {
        let ghost vs = state_views(self.last_monitor_states@);
        proof {
            lemma_find_state(vs, id@);
        }
        match find_state_index(&self.last_monitor_states, id) {
            Some(k) => {
                self.last_monitor_states.set(k, (id.to_owned(), b));
                assert(state_views(self.last_monitor_states@) =~= vs.update(k as int, (id@, b)));
            },
            None => {
                self.last_monitor_states.push((id.to_owned(), b));
                assert(state_views(self.last_monitor_states@) =~= vs.push((id@, b)));
            },
        }
    }

    /// Finds the enabled monitors whose state changed since the last check
    /// (see `watched`); nothing happens while logging is off.
    pub fn check_monitor_state_changes(&mut self, statuses: &Vec<MonitorStatus>) -> (r: Vec<MonitorChange>)
        ensures
            final(self).enabled == old(self).enabled,
            final(self).last_overall_safe == old(self).last_overall_safe,
            final(self).last_status_log == old(self).last_status_log,
            old(self).enabled ==> {
                let (st, ch) = watched(state_views(old(self).last_monitor_states@), status_views(statuses@));
                &&& state_views(final(self).last_monitor_states@) == st
                &&& change_views(r@) == ch
            },
            !old(self).enabled ==> r@.len() == 0 && final(self).last_monitor_states == old(self).last_monitor_states,
    {
        let mut changes: Vec<MonitorChange> = Vec::new();
        if !self.enabled {
            return changes;
        }
        let ghost ss = status_views(statuses@);
        let ghost st0 = state_views(self.last_monitor_states@);
        let mut i: usize = 0;
        assert(ss.take(0) =~= Seq::<MonitorStatusView>::empty());
        assert(change_views(changes@) =~= Seq::<(int, bool, bool)>::empty());
        while i < statuses.len()
            invariant
                ss == status_views(statuses@),
                i <= ss.len(),
                self.enabled,
                self.last_overall_safe == old(self).last_overall_safe,
                self.last_status_log == old(self).last_status_log,
                (state_views(self.last_monitor_states@), change_views(changes@)) == watched(st0, ss.take(i as int)),
            decreases ss.len() - i,
        {
            let s = &statuses[i];
            assert(ss.take(i + 1).drop_last() =~= ss.take(i as int));
            assert(ss.take(i + 1).last() == s@);
            if s.enabled {
                let ghost cur = state_views(self.last_monitor_states@);
                proof {
                    lemma_find_state(cur, s@.id);
                }
                match find_state_index(&self.last_monitor_states, s.id.as_str()) {
                    Some(k) => {
                        let was = self.last_monitor_states[k].1;
                        if was != s.is_safe {
                            self.remember_state(s.id.as_str(), s.is_safe);
                            let ghost c0 = change_views(changes@);
                            changes.push(MonitorChange { index: i, was_safe: was, now_safe: s.is_safe });
                            assert(change_views(changes@) =~= c0.push((i as int, was, s.is_safe)));
                        }
                    },
                    None => {
                        self.remember_state(s.id.as_str(), s.is_safe);
                    },
                }
            }
            i = i + 1;
        }
        assert(ss.take(ss.len() as int) =~= ss);
        changes
    }

    /// Checks the overall verdict after the single monitors: the first
    /// verdict is logged as the initial one, later ones when they change.
    /// Nothing happens while logging is off.
    pub fn check_overall_state_change(&mut self, current_safe: bool, statuses: &Vec<MonitorStatus>) -> (r: (Vec<MonitorChange>, OverallChange))
        ensures
            final(self).enabled == old(self).enabled,
            final(self).last_status_log == old(self).last_status_log,
            old(self).enabled ==> {
                let (st, ch) = watched(state_views(old(self).last_monitor_states@), status_views(statuses@));
                &&& state_views(final(self).last_monitor_states@) == st
                &&& change_views(r.0@) == ch
                &&& final(self).last_overall_safe == Some(current_safe)
                &&& r.1 == match old(self).last_overall_safe {
                    None => OverallChange::Initial { safe: current_safe },
                    Some(was) => if was == current_safe {
                        OverallChange::Unchanged
                    } else {
                        OverallChange::Changed { was_safe: was, now_safe: current_safe }
                    },
                }
            },
            !old(self).enabled ==> r.0@.len() == 0 && r.1 == OverallChange::Unchanged && final(self).last_overall_safe
                == old(self).last_overall_safe && final(self).last_monitor_states == old(self).last_monitor_states,
    {
        if !self.enabled {
            return (Vec::new(), OverallChange::Unchanged);
        }
        let changes = self.check_monitor_state_changes(statuses);
        let old_safe = self.last_overall_safe;
        let event = match old_safe {
            None => OverallChange::Initial { safe: current_safe },
            Some(was) => if was == current_safe {
                OverallChange::Unchanged
            } else {
                OverallChange::Changed { was_safe: was, now_safe: current_safe }
            },
        };
        self.last_overall_safe = Some(current_safe);
        (changes, event)
    }

    /// Whether a periodic summary is due at `now`: at most one every five
    /// minutes, and none while logging is off. A due summary is recorded.
    pub fn periodic_status_due(&mut self, now: i64) -> (r: bool)
        ensures
            r == (old(self).enabled && match old(self).last_status_log {
                Some(t) => now - t >= 300,
                None => true,
            }),
            final(self).last_status_log == if r {
                Some(now)
            } else {
                old(self).last_status_log
            },
            final(self).enabled == old(self).enabled,
            final(self).last_overall_safe == old(self).last_overall_safe,
            final(self).last_monitor_states == old(self).last_monitor_states,
    {
        if !self.enabled {
            return false;
        }
        match self.last_status_log {
            Some(t) => {
                let elapsed: i128 = now as i128 - t as i128;
                if elapsed < 300 {
                    return false;
                }
            },
            None => {},
        }
        self.last_status_log = Some(now);
        true
    }
}

/// The enabled statuses carry distinct ids.
pub open spec fn enabled_ids_distinct(ss: Seq<MonitorStatusView>) -> bool {
    forall|i: int, j: int|
        0 <= i < j < ss.len() && (#[trigger] ss[i]).enabled && (#[trigger] ss[j]).enabled ==> ss[i].id != ss[j].id
}

/// Every enabled status's state is the one remembered for its id.
pub open spec fn remembers_all(st: Seq<(Seq<char>, bool)>, ss: Seq<MonitorStatusView>) -> bool {
    forall|j: int|
        0 <= j < ss.len() && (#[trigger] ss[j]).enabled ==> (find_state(st, ss[j].id) matches Some(k) && st[k].1
            == ss[j].is_safe)
}

proof fn lemma_remember_other(st: Seq<(Seq<char>, bool)>, x: Seq<char>, b: bool, y: Seq<char>)
    requires
        x != y,
    ensures
        find_state(remember(st, x, b), y) == find_state(st, y),
        find_state(st, y) matches Some(k) ==> remember(st, x, b)[k] == st[k],
{
    lemma_find_state(st, x);
    lemma_find_state(st, y);
    let r = remember(st, x, b);
    lemma_find_state(r, y);
    match find_state(st, x) {
        Some(k) => {
            lemma_find_state_same_keys(st, r, y);
        },
        None => {
            assert(r.drop_last() =~= st);
        },
    }
}

proof fn lemma_find_state_same_keys(a: Seq<(Seq<char>, bool)>, b: Seq<(Seq<char>, bool)>, y: Seq<char>)
    requires
        a.len() == b.len(),
        forall|j: int| 0 <= j < a.len() ==> (#[trigger] a[j]).0 == b[j].0,
    ensures
        find_state(a, y) == find_state(b, y),
    decreases a.len(),
{
    if a.len() > 0 {
        lemma_find_state_same_keys(a.drop_last(), b.drop_last(), y);
    }
}

proof fn lemma_watch_remembers(states: Seq<(Seq<char>, bool)>, ss: Seq<MonitorStatusView>)
    requires
        enabled_ids_distinct(ss),
    ensures
        remembers_all(watched(states, ss).0, ss),
    decreases ss.len(),
{
    if ss.len() > 0 {
        let d = ss.drop_last();
        assert(enabled_ids_distinct(d)) by {
            assert forall|i: int, j: int| 0 <= i < j < d.len() && (#[trigger] d[i]).enabled && (#[trigger] d[j]).enabled implies d[i].id
                != d[j].id by {
                assert(d[i] == ss[i] && d[j] == ss[j]);
            }
        }
        lemma_watch_remembers(states, d);
        let st = watched(states, d).0;
        let s = ss.last();
        let n = ss.len() - 1;
        lemma_find_state(st, s.id);
        let fin = watched(states, ss).0;
        if s.enabled {
            assert forall|j: int| 0 <= j < ss.len() && (#[trigger] ss[j]).enabled implies (find_state(fin, ss[j].id) matches Some(
                k,
            ) && fin[k].1 == ss[j].is_safe) by {
                if j < n {
                    assert(ss[j] == d[j]);
                    assert(ss[j].id != s.id);
                    if fin != st {
                        lemma_remember_other(st, s.id, s.is_safe, ss[j].id);
                    }
                } else {
                    if fin != st {
                        lemma_find_state(fin, s.id);
                        match find_state(st, s.id) {
                            Some(k) => {
                                lemma_find_state_same_keys(st, fin, s.id);
                            },
                            None => {
                                assert(fin.drop_last() =~= st);
                            },
                        }
                    }
                }
            }
        } else {
            assert forall|j: int| 0 <= j < ss.len() && (#[trigger] ss[j]).enabled implies (find_state(fin, ss[j].id) matches Some(
                k,
            ) && fin[k].1 == ss[j].is_safe) by {
                assert(ss[j] == d[j]);
            }
        }
    }
}

proof fn lemma_watch_quiet(st: Seq<(Seq<char>, bool)>, ss: Seq<MonitorStatusView>)
    requires
        remembers_all(st, ss),
    ensures
        watched(st, ss) == (st, Seq::<(int, bool, bool)>::empty()),
    decreases ss.len(),
{
    if ss.len() > 0 {
        let d = ss.drop_last();
        assert(remembers_all(st, d)) by {
            assert forall|j: int| 0 <= j < d.len() && (#[trigger] d[j]).enabled implies (find_state(st, d[j].id) matches Some(k)
                && st[k].1 == d[j].is_safe) by {
                assert(d[j] == ss[j]);
            }
        }
        lemma_watch_quiet(st, d);
        assert(ss.last() == ss[ss.len() - 1]);
    }
}

/// A monitor state change is reported once: checking the same statuses
/// again, with distinct ids among the enabled monitors, reports no change
/// and leaves what is remembered as it was.
pub proof fn lemma_change_reported_once(states: Seq<(Seq<char>, bool)>, ss: Seq<MonitorStatusView>)
    requires
        enabled_ids_distinct(ss),
    ensures
        watched(watched(states, ss).0, ss).1.len() == 0,
        watched(watched(states, ss).0, ss).0 == watched(states, ss).0,
{
    lemma_watch_remembers(states, ss);
    lemma_watch_quiet(watched(states, ss).0, ss);
}

/// A leap year of the Gregorian calendar.
pub open spec fn is_leap_year(y: int) -> bool {
    (y % 4 == 0 && y % 100 != 0) || y % 400 == 0
}

/// The number of days of a month.
pub open spec fn days_in_month(y: int, m: int) -> int {
    if m == 2 {
        if is_leap_year(y) {
            29
        } else {
            28
        }
    } else if m == 4 || m == 6 || m == 9 || m == 11 {
        30
    } else {
        31
    }
}

/// The first year a local date can fall in (the first year of chrono's
/// `NaiveDate`).
pub const FIRST_YEAR: i32 = -262143;

/// The last year a local date can fall in (the last year of chrono's
/// `NaiveDate`).
pub const LAST_YEAR: i32 = 262142;

/// A date of the (proleptic) Gregorian calendar within the years a local
/// date can take.
pub open spec fn valid_date(y: int, m: int, d: int) -> bool {
    FIRST_YEAR <= y <= LAST_YEAR && 1 <= m <= 12 && 1 <= d <= days_in_month(y, m)
}

/// The day before a date.
pub open spec fn day_before(y: int, m: int, d: int) -> (int, int, int) {
    if d > 1 {
        (y, m, d - 1)
    } else if m > 1 {
        (y, m - 1, days_in_month(y, m - 1))
    } else {
        (y - 1, 12, 31)
    }
}

/// The day before a date of the calendar is a date of the calendar,
/// unless it is the first day of the first year.
proof fn lemma_day_before_is_valid(y: int, m: int, d: int)
    requires
        valid_date(y, m, d),
        !(y == FIRST_YEAR && m == 1 && d == 1),
    ensures
        valid_date(day_before(y, m, d).0, day_before(y, m, d).1, day_before(y, m, d).2),
{
}

/// Calls chrono's `NaiveDate::from_ymd_opt` and then `pred_opt` on the
/// date it gives, and reads back year, month and day. chrono's dates are
/// those of the proleptic Gregorian calendar from the first day of
/// `FIRST_YEAR` to the last of `LAST_YEAR` (`from_ymd_opt` gives `None`
/// for any other triple); `pred_opt` gives the previous calendar day, or
/// `None` for the first representable date.
#[verifier::external_body]
fn previous_date(year: i32, month: u32, day: u32) -> (r: Option<(i32, u32, u32)>)
    ensures
        match r {
            Some((y, m, d)) => valid_date(year as int, month as int, day as int) && !(year == FIRST_YEAR && month == 1
                && day == 1) && (y as int, m as int, d as int) == day_before(year as int, month as int, day as int),
            None => !valid_date(year as int, month as int, day as int) || (year == FIRST_YEAR && month == 1 && day
                == 1),
        },
{
    let date = match chrono::NaiveDate::from_ymd_opt(year, month, day) {
        Some(date) => date,
        None => return None,
    };
    match date.pred_opt() {
        Some(p) => Some((p.year(), p.month(), p.day())),
        None => None,
    }
}

/// The digits of `n`, zero-padded on the left to `width` characters.
pub open spec fn padded(n: nat, width: nat) -> Seq<char> {
    let digits = decimal_digits(n);
    if digits.len() >= width {
        digits
    } else {
        Seq::new((width - digits.len()) as nat, |i: int| '0') + digits
    }
}

/// A year as dates are written: four digits at least, zero-padded, for
/// the years 0 to 9999; otherwise its sign, then its magnitude padded the
/// same way.
pub open spec fn year_text(y: int) -> Seq<char> {
    if 0 <= y <= 9999 {
        padded(y as nat, 4)
    } else if y < 0 {
        "-"@ + padded((-y) as nat, 4)
    } else {
        "+"@ + padded(y as nat, 4)
    }
}

/// A date written as `%Y-%m-%d`.
pub open spec fn date_text(y: int, m: int, d: int) -> Seq<char> {
    year_text(y) + "-"@ + padded(m as nat, 2) + "-"@ + padded(d as nat, 2)
}

/// Calls chrono's `NaiveDate::from_ymd_opt` and formats the date it gives
/// with `format("%Y-%m-%d")`. `%Y` writes years 0 to 9999 as four digits,
/// zero-padded, and other years with their sign and at least four digits;
/// `%m` and `%d` write two digits, zero-padded.
#[verifier::external_body]
fn format_date(year: i32, month: u32, day: u32) -> (r: Option<String>)
    ensures
        match r {
            Some(t) => valid_date(year as int, month as int, day as int) && t@ == date_text(
                year as int,
                month as int,
                day as int,
            ),
            None => !valid_date(year as int, month as int, day as int),
        },
{
    match chrono::NaiveDate::from_ymd_opt(year, month, day) {
        Some(date) => Some(date.format("%Y-%m-%d").to_string()),
        None => None,
    }
}

/// The hour of the day at which a new log file is started.
pub const LOG_ROTATION_HOUR: u32 = 16;

/// The number of days a log file is kept.
pub const LOG_RETENTION_DAYS: u32 = 7;

/// The log file in use at a local date and hour: files rotate at 16:00, so
/// before that hour the file is named after the previous day.
pub open spec fn log_file_name_text(y: int, m: int, d: int, hour: int) -> Seq<char> {
    let (fy, fm, fd) = if hour < LOG_ROTATION_HOUR {
        day_before(y, m, d)
    } else {
        (y, m, d)
    };
    "llama-watch-"@ + date_text(fy, fm, fd) + ".log"@
}

/// Names the log file in use at a local date and hour; `None` for a date
/// that is not a calendar date within the years a local date can take, or
/// whose previous day falls before them.
pub fn log_file_name(year: i32, month: u32, day: u32, hour: u32) -> (r: Option<String>)
    ensures
        match r {
            Some(name) => valid_date(year as int, month as int, day as int) && !(hour < LOG_ROTATION_HOUR && year == FIRST_YEAR && month
                == 1 && day == 1) && name@ == log_file_name_text(
                year as int,
                month as int,
                day as int,
                hour as int,
            ),
            None => !valid_date(year as int, month as int, day as int) || (hour < LOG_ROTATION_HOUR && year == FIRST_YEAR && month
                == 1 && day == 1),
        },
{
    let (fy, fm, fd) = if hour < LOG_ROTATION_HOUR {
        match previous_date(year, month, day) {
            Some(p) => p,
            None => return None,
        }
    } else {
        (year, month, day)
    };
    proof {
        if hour < LOG_ROTATION_HOUR {
            lemma_day_before_is_valid(year as int, month as int, day as int);
        }
    }
    let text = match format_date(fy, fm, fd) {
        Some(t) => t,
        None => return None,
    };
    let mut name = "llama-watch-".to_owned();
    name.append(text.as_str());
    name.append(".log");
    Some(name)
}

/// What chrono's `NaiveDate::parse_from_str` gives for a text and a format:
/// the year, month and day of the date it reads, if any.
pub uninterp spec fn parsed_date(s: Seq<char>, fmt: Seq<char>) -> Option<(i32, u32, u32)>;

/// Calls chrono's `NaiveDate::parse_from_str` and reads back year, month
/// and day. The result is named `parsed_date` of the text and the format;
/// a date it gives is one of chrono's dates, so a calendar date within
/// `FIRST_YEAR` and `LAST_YEAR`. Which texts it accepts is not stated.
#[verifier::external_body]
fn parse_date(s: &str, fmt: &str) -> (r: Option<(i32, u32, u32)>)
    ensures
        r == parsed_date(s@, fmt@),
        match r {
            Some((y, m, d)) => valid_date(y as int, m as int, d as int),
            None => true,
        },
{
    match chrono::NaiveDate::parse_from_str(s, fmt) {
        Ok(date) => Some((date.year(), date.month(), date.day())),
        Err(_) => None,
    }
}

/// The stem of a file name with the extension `log`: the name without its
/// final `.log`, when something stands before that dot.
pub open spec fn log_stem(name: Seq<char>) -> Option<Seq<char>> {
    if name.len() > 4 && name.subrange(name.len() - 4, name.len() as int) == ".log"@ {
        Some(name.subrange(0, name.len() - 4))
    } else {
        None
    }
}

/// The date a log file is named after: its stem is `llama-watch-`
/// followed by a date that chrono reads as `%Y-%m-%d`.
pub open spec fn log_file_date(name: Seq<char>) -> Option<(i32, u32, u32)> {
    match log_stem(name) {
        Some(stem) => if stem.len() >= 12 && stem.subrange(0, 12) == "llama-watch-"@ {
            parsed_date(stem.subrange(12, stem.len() as int), "%Y-%m-%d"@)
        } else {
            None
        },
        None => None,
    }
}

/// Reads the date from the name of a log file; `None` for a name that is
/// not a log file name of this library.
pub fn log_stem_date(file_name: &str) -> (r: Option<(i32, u32, u32)>)
    ensures
        r == log_file_date(file_name@),
{
    proof {
        reveal_strlit(".log");
        reveal_strlit("llama-watch-");
    }
    let n = file_name.unicode_len();
    if n <= 4 || !ends_with_text(file_name, ".log") {
        return None;
    }
    let stem = file_name.substring_char(0, n - 4);
    if !starts_with_text(stem, "llama-watch-") {
        return None;
    }
    let rest = stem.substring_char(12, n - 4);
    parse_date(rest, "%Y-%m-%d")
}

/// `a` comes before `b` in the order of (year, month, day, hour, minute,
/// second).
pub open spec fn moment_before(a: (int, int, int, int, int, int), b: (int, int, int, int, int, int)) -> bool {
    a.0 < b.0 || (a.0 == b.0 && (a.1 < b.1 || (a.1 == b.1 && (a.2 < b.2 || (a.2 == b.2 && (a.3 < b.3 || (a.3
        == b.3 && (a.4 < b.4 || (a.4 == b.4 && a.5 < b.5)))))))))
}

/// Whether a log file dated `date` has expired: the moment its day reaches
/// `rotation_hour` lies before the local `cutoff` (year, month, day, hour,
/// minute, second).
pub fn log_expired(date: (i32, u32, u32), rotation_hour: u32, cutoff: (i32, u32, u32, u32, u32, u32)) -> (r: bool)
    ensures
        r == moment_before(
            (date.0 as int, date.1 as int, date.2 as int, rotation_hour as int, 0, 0),
            (cutoff.0 as int, cutoff.1 as int, cutoff.2 as int, cutoff.3 as int, cutoff.4 as int, cutoff.5 as int),
        ),
{
    if date.0 != cutoff.0 {
        return date.0 < cutoff.0;
    }
    if date.1 != cutoff.1 {
        return date.1 < cutoff.1;
    }
    if date.2 != cutoff.2 {
        return date.2 < cutoff.2;
    }
    if rotation_hour != cutoff.3 {
        return rotation_hour < cutoff.3;
    }
    if 0 != cutoff.4 {
        return true;
    }
    0 < cutoff.5
}

/// Whether the file `file_name` is a log file of this library that has
/// expired by the local `cutoff`: its date, at the rotation hour, lies
/// before the cutoff.
pub fn log_file_expired(file_name: &str, cutoff: (i32, u32, u32, u32, u32, u32)) -> (r: bool)
    ensures
        r == match log_file_date(file_name@) {
            Some(date) => moment_before(
                (date.0 as int, date.1 as int, date.2 as int, LOG_ROTATION_HOUR as int, 0, 0),
                (cutoff.0 as int, cutoff.1 as int, cutoff.2 as int, cutoff.3 as int, cutoff.4 as int, cutoff.5 as int),
            ),
            None => false,
        },
{
    match log_stem_date(file_name) {
        Some(date) => log_expired(date, LOG_ROTATION_HOUR, cutoff),
        None => false,
    }
}

/// Log file names, newest first (names carry their date, so this is text
/// order reversed).
pub fn newest_first(names: &Vec<String>) -> (r: Vec<String>)
    ensures
        forall|i: int, j: int| 0 <= i < j < r@.len() ==> text_le(#[trigger] r@[j]@, #[trigger] r@[i]@),
        text_views(r@).to_multiset() == text_views(names@).to_multiset(),
{
    let sorted = sort_texts(names);
    let ghost sv = text_views(sorted@);
    let mut out: Vec<String> = Vec::new();
    let mut k: usize = sorted.len();
    while k > 0
        invariant
            sv == text_views(sorted@),
            k <= sorted@.len(),
            out@.len() == sorted@.len() - k,
            forall|i: int| 0 <= i < out@.len() ==> #[trigger] out@[i]@ == sv[sorted@.len() - 1 - i],
        decreases k,
    {
        k = k - 1;
        out.push(sorted[k].clone());
    }
    assert(text_views(out@) =~= sv.reverse());
    proof {
        sv.lemma_reverse_to_multiset();
    }
    out
}

} // verus!
