//! Monitor records, their safety state machine, and the aggregation of all
//! monitors (and monitor groups) into the overall safety verdict.

use vstd::prelude::*;
use crate::hold::HoldState;
use crate::text::{decimal_digits, decimal_string, signed_decimal_string, signed_digits};

verus! {

/// The settings of a monitor that its state machine reads.
#[derive(Clone, Copy, Debug, PartialEq, Eq)]
pub struct MonitorSettings {
    /// Data older than this makes the monitor unsafe; 0 disables the check.
    pub timeout_seconds: u64,
    /// How long a new safety state must hold before it is reported.
    pub hold_time_seconds: u64,
    pub enabled: bool,
    /// The monitor counts towards the overall safety verdict.
    pub include_in_safety: bool,
}

/// The state of one monitor as reported to the rest of the program.
/// Measured values live beside it, keyed by the monitor id.
pub struct MonitorStatus {
    pub id: String,
    pub name: String,
    pub monitor_type: String,
    pub is_safe: bool,
    /// When the last reading arrived, in seconds since the Unix epoch.
    pub last_update: Option<i64>,
    pub error: Option<String>,
    pub enabled: bool,
    pub hold_time_seconds: u64,
    pub pending_is_safe: Option<bool>,
    pub pending_since: Option<i64>,
    pub include_in_safety: bool,
}

/// The mathematical value of a `MonitorStatus`.
pub struct MonitorStatusView {
    pub id: Seq<char>,
    pub name: Seq<char>,
    pub monitor_type: Seq<char>,
    pub is_safe: bool,
    pub last_update: Option<i64>,
    pub error: Option<Seq<char>>,
    pub enabled: bool,
    pub hold_time_seconds: u64,
    pub pending_is_safe: Option<bool>,
    pub pending_since: Option<i64>,
    pub include_in_safety: bool,
}

pub open spec fn opt_view(o: Option<String>) -> Option<Seq<char>> {
    match o {
        Some(s) => Some(s@),
        None => None,
    }
}

/// Copies an optional text.
pub fn copy_opt(o: &Option<String>) -> (r: Option<String>)
    ensures
        opt_view(r) == opt_view(*o),
{
    match o {
        Some(s) => Some(s.clone()),
        None => None,
    }
}

impl View for MonitorStatus {
    type V = MonitorStatusView;

    open spec fn view(&self) -> MonitorStatusView {
        MonitorStatusView {
            id: self.id@,
            name: self.name@,
            monitor_type: self.monitor_type@,
            is_safe: self.is_safe,
            last_update: self.last_update,
            error: opt_view(self.error),
            enabled: self.enabled,
            hold_time_seconds: self.hold_time_seconds,
            pending_is_safe: self.pending_is_safe,
            pending_since: self.pending_since,
            include_in_safety: self.include_in_safety,
        }
    }
}

impl MonitorStatusView {
    /// The safety state and pending change of the status.
    pub open spec fn hold(self) -> HoldState {
        HoldState {
            current: self.is_safe,
            pending: self.pending_is_safe,
            pending_since: self.pending_since,
        }
    }

    /// The status with its safety state and pending change replaced.
    pub open spec fn with_hold(self, h: HoldState) -> MonitorStatusView {
        MonitorStatusView {
            is_safe: h.current,
            pending_is_safe: h.pending,
            pending_since: h.pending_since,
            ..self
        }
    }

    /// The monitor is unsafe or reports an error.
    pub open spec fn is_unsafe(self) -> bool {
        !self.is_safe || self.error is Some
    }
}

/// The views of a sequence of statuses.
pub open spec fn status_views(v: Seq<MonitorStatus>) -> Seq<MonitorStatusView> {
    Seq::new(v.len(), |i: int| v[i]@)
}

impl MonitorStatus {
    /// Copies the status.
    pub fn copy(&self) -> (r: MonitorStatus)
        ensures
            r@ == self@,
    {
        MonitorStatus {
            id: self.id.clone(),
            name: self.name.clone(),
            monitor_type: self.monitor_type.clone(),
            is_safe: self.is_safe,
            last_update: self.last_update,
            error: copy_opt(&self.error),
            enabled: self.enabled,
            hold_time_seconds: self.hold_time_seconds,
            pending_is_safe: self.pending_is_safe,
            pending_since: self.pending_since,
            include_in_safety: self.include_in_safety,
        }
    }

    fn get_hold(&self) -> (h: HoldState)
        ensures
            h == self@.hold(),
    {
        HoldState {
            current: self.is_safe,
            pending: self.pending_is_safe,
            pending_since: self.pending_since,
        }
    }

    fn set_hold(&mut self, h: HoldState)
        ensures
            final(self)@ == old(self)@.with_hold(h),
    {
        self.is_safe = h.current;
        self.pending_is_safe = h.pending;
        self.pending_since = h.pending_since;
    }
}

/// The error text of a monitor whose data is older than its timeout.
pub open spec fn timeout_message(elapsed: nat, timeout: nat) -> Seq<char> {
    "Timeout: No data received for "@ + decimal_digits(elapsed) + " seconds (timeout: "@
        + decimal_digits(timeout) + "s)"@
}

/// A monitor: its settings and its stored status.
pub struct MonitorRecord {
    pub settings: MonitorSettings,
    pub status: MonitorStatus,
}

impl MonitorRecord {
    /// The stored status after a read at `now`: a pending change whose hold
    /// time has passed is committed.
    pub open spec fn committed(self, now: i64) -> MonitorStatusView {
        self.status@.with_hold(self.status@.hold().after_read(now, self.settings.hold_time_seconds))
    }

    /// The status reported by a read at `now`: the committed status with
    /// the settings' flags, made unsafe with an error once its data is older
    /// than the timeout or when no data ever arrived; with no timeout a
    /// monitor without data reports that it waits for its first reading.
    pub open spec fn observed(self, now: i64) -> MonitorStatusView {
        let c = self.committed(now);
        let base = MonitorStatusView {
            enabled: self.settings.enabled,
            hold_time_seconds: self.settings.hold_time_seconds,
            include_in_safety: self.settings.include_in_safety,
            ..c
        };
        let timeout = self.settings.timeout_seconds;
        if timeout > 0 {
            match c.last_update {
                Some(t) => if now - t > timeout {
                    MonitorStatusView {
                        is_safe: false,
                        error: Some(timeout_message((now - t) as nat, timeout as nat)),
                        ..base
                    }
                } else {
                    base
                },
                None => MonitorStatusView {
                    is_safe: false,
                    error: Some("No data received yet"@),
                    ..base
                },
            }
        } else if c.last_update is None {
            MonitorStatusView { error: Some("Waiting for initial data"@), ..base }
        } else {
            base
        }
    }

    /// A new monitor: not safe, no data, nothing pending.
    pub fn new(id: String, name: String, monitor_type: String, settings: MonitorSettings) -> (r:
        MonitorRecord)
        ensures
            r.settings == settings,
            r.status@ == (MonitorStatusView {
                id: id@,
                name: name@,
                monitor_type: monitor_type@,
                is_safe: false,
                last_update: None,
                error: None,
                enabled: settings.enabled,
                hold_time_seconds: settings.hold_time_seconds,
                pending_is_safe: None,
                pending_since: None,
                include_in_safety: settings.include_in_safety,
            }),
    {
        MonitorRecord {
            settings,
            status: MonitorStatus {
                id,
                name,
                monitor_type,
                is_safe: false,
                last_update: None,
                error: None,
                enabled: settings.enabled,
                hold_time_seconds: settings.hold_time_seconds,
                pending_is_safe: None,
                pending_since: None,
                include_in_safety: settings.include_in_safety,
            },
        }
    }

    /// Reads the monitor's status at `now`; see `committed` and `observed`.
    pub fn observe(&mut self, now: i64) -> (s: MonitorStatus)
        ensures
            final(self).settings == old(self).settings,
            final(self).status@ == old(self).committed(now),
            s@ == old(self).observed(now),
    {
        let mut h = self.status.get_hold();
        h.commit_elapsed(now, self.settings.hold_time_seconds);
        self.status.set_hold(h);
        let mut status = self.status.copy();
        status.enabled = self.settings.enabled;
        status.hold_time_seconds = self.settings.hold_time_seconds;
        status.include_in_safety = self.settings.include_in_safety;
        let timeout = self.settings.timeout_seconds;
        if timeout > 0 {
            match status.last_update {
                Some(t) => {
                    let elapsed: i128 = now as i128 - t as i128;
                    if elapsed > timeout as i128 {
                        let mut msg = "Timeout: No data received for ".to_owned();
                        let e = decimal_string(elapsed as u64);
                        msg.append(e.as_str());
                        msg.append(" seconds (timeout: ");
                        let tt = decimal_string(timeout);
                        msg.append(tt.as_str());
                        msg.append("s)");
                        status.is_safe = false;
                        status.error = Some(msg);
                    }
                },
                None => {
                    status.is_safe = false;
                    status.error = Some("No data received yet".to_owned());
                },
            }
        } else if status.last_update.is_none() {
            status.error = Some("Waiting for initial data".to_owned());
        }
        status
    }

    /// Records a successful reading whose threshold check gave `computed`:
    /// the reading time becomes the last update, the error is cleared, and
    /// the safety state follows the hold-time rule, a first reading taking
    /// effect at once.
    pub fn record_reading(&mut self, computed: bool, now: i64)
        ensures
            final(self).settings == old(self).settings,
            final(self).status@ == (MonitorStatusView {
                last_update: Some(now),
                error: None,
                ..old(self).status@.with_hold(
                    old(self).status@.hold().after_reading(
                        computed,
                        now,
                        old(self).settings.hold_time_seconds,
                        old(self).status.last_update is None,
                    ),
                )
            }),
    {
        let initial = self.status.last_update.is_none();
        self.status.last_update = Some(now);
        self.status.error = None;
        let mut h = self.status.get_hold();
        h.apply_reading(computed, now, self.settings.hold_time_seconds, initial);
        self.status.set_hold(h);
    }

    /// Records a message that could not be turned into a value: the monitor
    /// becomes unsafe with the error, and the message time is its last
    /// update.
    pub fn record_processing_error(&mut self, error: String, now: i64)
        ensures
            final(self).settings == old(self).settings,
            final(self).status@ == (MonitorStatusView {
                is_safe: false,
                error: Some(error@),
                last_update: Some(now),
                ..old(self).status@
            }),
    {
        self.status.error = Some(error);
        self.status.is_safe = false;
        self.status.last_update = Some(now);
    }

    /// Records a failed poll or a lost connection: the monitor becomes
    /// unsafe with the error.
    pub fn record_poll_error(&mut self, error: String)
        ensures
            final(self).settings == old(self).settings,
            final(self).status@ == (MonitorStatusView {
                is_safe: false,
                error: Some(error@),
                ..old(self).status@
            }),
    {
        self.status.error = Some(error);
        self.status.is_safe = false;
    }

    /// Takes over the safety state and last update of a status the monitor
    /// had before a reload, and drops any pending change.
    pub fn restore_from(&mut self, old_status: &MonitorStatus)
        ensures
            *final(self) == restored_record(*old(self), old_status@),
    {
        self.status.is_safe = old_status.is_safe;
        self.status.last_update = old_status.last_update;
        self.status.pending_is_safe = None;
        self.status.pending_since = None;
    }
}

/// The record after its state was restored from the status `old_status`.
pub open spec fn restored_record(r: MonitorRecord, old_status: MonitorStatusView) -> MonitorRecord {
    MonitorRecord {
        settings: r.settings,
        status: MonitorStatus {
            is_safe: old_status.is_safe,
            last_update: old_status.last_update,
            pending_is_safe: None,
            pending_since: None,
            ..r.status
        },
    }
}

/// A monitor that has never received data reports no error-free safe
/// state while a timeout is set.
pub proof fn lemma_no_data_with_timeout_is_unsafe(r: MonitorRecord, now: i64)
    requires
        r.settings.timeout_seconds > 0,
        r.status.last_update is None,
    ensures
        !r.observed(now).is_safe,
        r.observed(now).error == Some("No data received yet"@),
{
}

/// With a timeout set, data older than the timeout makes a monitor unsafe,
/// with an error that says how old the data is.
pub proof fn lemma_stale_data_is_unsafe(r: MonitorRecord, now: i64)
    requires
        r.settings.timeout_seconds > 0,
        r.status.last_update matches Some(t) && now - t > r.settings.timeout_seconds,
    ensures
        !r.observed(now).is_safe,
        r.observed(now).error == Some(
            timeout_message((now - r.status.last_update->0) as nat, r.settings.timeout_seconds as nat),
        ),
{
}

/// The first record with the given monitor id.
pub open spec fn find_record(ms: Seq<MonitorRecord>, id: Seq<char>) -> Option<int>
    decreases ms.len(),
{
    if ms.len() == 0 {
        None
    } else {
        match find_record(ms.drop_last(), id) {
            Some(i) => Some(i),
            None => if ms.last().status.id@ == id {
                Some(ms.len() - 1)
            } else {
                None
            },
        }
    }
}

/// `find_record` gives the first record with the id, if any.
pub proof fn lemma_find_record(ms: Seq<MonitorRecord>, id: Seq<char>)
    ensures
        match find_record(ms, id) {
            Some(i) => 0 <= i < ms.len() && ms[i].status.id@ == id && forall|j: int|
                0 <= j < i ==> ms[j].status.id@ != id,
            None => forall|j: int| 0 <= j < ms.len() ==> ms[j].status.id@ != id,
        },
    decreases ms.len(),
{
    if ms.len() > 0 {
        let d = ms.drop_last();
        lemma_find_record(d, id);
        assert(forall|j: int| 0 <= j < d.len() ==> d[j] == ms[j]);
    }
}

fn find_record_index(ms: &Vec<MonitorRecord>, id: &str) -> (r: Option<usize>)
    ensures
        match r {
            Some(i) => find_record(ms@, id@) == Some(i as int),
            None => find_record(ms@, id@) is None,
        },
{
    let mut i: usize = 0;
    while i < ms.len()
        invariant
            i <= ms.len(),
            find_record(ms@.take(i as int), id@) is None,
        decreases ms.len() - i,
    {
        assert(ms@.take(i + 1).drop_last() =~= ms@.take(i as int));
        if crate::text::same_text(ms[i].status.id.as_str(), id) {
            assert(find_record(ms@.take(i + 1), id@) == Some(i as int));
            proof {
                lemma_find_prefix(ms@, id@, i + 1);
            }
            return Some(i);
        }
        i = i + 1;
    }
    assert(ms@.take(ms.len() as int) =~= ms@);
    None
}

proof fn lemma_find_prefix(ms: Seq<MonitorRecord>, id: Seq<char>, k: int)
    requires
        0 <= k <= ms.len(),
        find_record(ms.take(k), id) is Some,
    ensures
        find_record(ms, id) == find_record(ms.take(k), id),
    decreases ms.len(),
{
    if k < ms.len() {
        assert(ms.drop_last().take(k) =~= ms.take(k));
        lemma_find_prefix(ms.drop_last(), id, k);
    } else {
        assert(ms.take(k) =~= ms);
    }
}

/// The monitors of one kind (MQTT or Alpaca), at most one per id.
pub struct MonitorManager {
    pub monitors: Vec<MonitorRecord>,
}

/// The statuses a read of all monitors reports, in order.
pub open spec fn observed_all(ms: Seq<MonitorRecord>, now: i64) -> Seq<MonitorStatusView> {
    Seq::new(ms.len(), |i: int| ms[i].observed(now))
}

/// `after` is `before` once every monitor has been read at `now`.
pub open spec fn read_all(before: Seq<MonitorRecord>, after: Seq<MonitorRecord>, now: i64) -> bool {
    &&& after.len() == before.len()
    &&& forall|i: int|
        0 <= i < before.len() ==> (#[trigger] after[i]).settings == before[i].settings
            && after[i].status@ == before[i].committed(now)
}

impl MonitorManager {
    /// No two monitors share an id.
    pub open spec fn ids_unique(self) -> bool {
        forall|i: int, j: int|
            0 <= i < self.monitors@.len() && 0 <= j < self.monitors@.len() && i != j
                ==> self.monitors@[i].status.id@ != self.monitors@[j].status.id@
    }

    pub fn new() -> (r: MonitorManager)
        ensures
            r.monitors@.len() == 0,
    {
        MonitorManager { monitors: Vec::new() }
    }

    /// Adds a monitor; a monitor with the same id is replaced.
    pub fn add_monitor(&mut self, record: MonitorRecord)
        ensures
            match find_record(old(self).monitors@, record.status.id@) {
                Some(i) => final(self).monitors@ == old(self).monitors@.update(i, record),
                None => final(self).monitors@ == old(self).monitors@.push(record),
            },
            old(self).ids_unique() ==> final(self).ids_unique(),
    {
        proof {
            lemma_find_record(self.monitors@, record.status.id@);
        }
        match find_record_index(&self.monitors, record.status.id.as_str()) {
            Some(i) => {
                self.monitors.set(i, record);
            },
            None => {
                self.monitors.push(record);
            },
        }
    }

    /// Reads every monitor at `now`.
    pub fn get_statuses(&mut self, now: i64) -> (r: Vec<MonitorStatus>)
        ensures
            status_views(r@) == observed_all(old(self).monitors@, now),
            read_all(old(self).monitors@, final(self).monitors@, now),
            old(self).ids_unique() ==> final(self).ids_unique(),
    {
        let mut out: Vec<MonitorStatus> = Vec::new();
        let n = self.monitors.len();
        let ghost before = self.monitors@;
        let mut i: usize = 0;
        while i < n
            invariant
                n == before.len(),
                self.monitors@.len() == n,
                i <= n,
                out@.len() == i,
                forall|k: int| 0 <= k < i ==> (#[trigger] out@[k])@ == before[k].observed(now),
                forall|k: int|
                    0 <= k < i ==> (#[trigger] self.monitors@[k]).settings == before[k].settings
                        && self.monitors@[k].status@ == before[k].committed(now),
                forall|k: int| i <= k < n ==> #[trigger] self.monitors@[k] == before[k],
            decreases n - i,
        {
            let s = self.monitors[i].observe(now);
            out.push(s);
            i = i + 1;
        }
        assert(status_views(out@) =~= observed_all(before, now));
        out
    }

    /// Reads the monitor with the given id, if there is one.
    pub fn get_status(&mut self, id: &str, now: i64) -> (r: Option<MonitorStatus>)
        ensures
            match find_record(old(self).monitors@, id@) {
                Some(i) => r is Some && r->0@ == old(self).monitors@[i].observed(now)
                    && final(self).monitors@.len() == old(self).monitors@.len()
                    && final(self).monitors@[i].settings == old(self).monitors@[i].settings
                    && final(self).monitors@[i].status@ == old(self).monitors@[i].committed(now)
                    && forall|j: int| 0 <= j < old(self).monitors@.len() && j != i
                        ==> final(self).monitors@[j] == old(self).monitors@[j],
                None => r is None && final(self).monitors@ == old(self).monitors@,
            },
    {
        match find_record_index(&self.monitors, id) {
            Some(i) => {
                proof {
                    lemma_find_record(self.monitors@, id@);
                }
                let s = self.monitors[i].observe(now);
                Some(s)
            },
            None => None,
        }
    }

    /// Restores the state of the monitor with the given id from its status
    /// before a reload; `None` when there is no such monitor.
    pub fn restore_state(&mut self, id: &str, old_status: &MonitorStatus) -> (r: Option<()>)
        ensures
            match find_record(old(self).monitors@, id@) {
                Some(i) => r is Some && final(self).monitors@ == old(self).monitors@.update(
                    i,
                    restored_record(old(self).monitors@[i], old_status@),
                ),
                None => r is None && final(self).monitors@ == old(self).monitors@,
            },
    {
        match find_record_index(&self.monitors, id) {
            Some(i) => {
                proof {
                    lemma_find_record(self.monitors@, id@);
                }
                self.monitors[i].restore_from(old_status);
                Some(())
            },
            None => None,
        }
    }

    /// Drops every monitor.
    pub fn shutdown(&mut self)
        ensures
            final(self).monitors@.len() == 0,
    {
        self.monitors.clear();
    }
}

/// The JSON path query for a configured path: a path that starts at the
/// root (`$`) is kept, any other is read from the root.
pub open spec fn query_path(path: Seq<char>) -> Seq<char> {
    if path.len() > 0 && path[0] == '$' {
        path
    } else {
        "$."@ + path
    }
}

/// Turns a configured JSON path into a query.
pub fn json_query_path(path: &str) -> (r: String)
    ensures
        r@ == query_path(path@),
{
    if path.unicode_len() > 0 && path.get_char(0) == '$' {
        path.to_owned()
    } else {
        let mut q = "$.".to_owned();
        q.append(path);
        q
    }
}

/// A monitor reads its payload as a bare number when it has no JSON path,
/// or an empty one.
pub fn reads_raw_value(json_path: &Option<String>) -> (r: bool)
    ensures
        r == match json_path {
            None => true,
            Some(p) => p@.len() == 0,
        },
{
    match json_path {
        None => true,
        Some(p) => p.unicode_len() == 0,
    }
}

/// The client id an MQTT monitor connects with.
pub fn mqtt_client_id(monitor_id: &str) -> (r: String)
    ensures
        r@ == "llama-watch-"@ + monitor_id@,
{
    let mut s = "llama-watch-".to_owned();
    s.append(monitor_id);
    s
}

/// The error of an Alpaca reply: none when its error number is 0.
pub fn ascom_reply_error(error_number: i32, message: &str) -> (r: Option<String>)
    ensures
        match r {
            None => error_number == 0,
            Some(e) => error_number != 0 && e@ == "ASCOM error "@ + signed_digits(error_number as int) + ": "@
                + message@,
        },
{
    if error_number == 0 {
        return None;
    }
    let mut e = "ASCOM error ".to_owned();
    let n = signed_decimal_string(error_number as i64);
    e.append(n.as_str());
    e.append(": ");
    e.append(message);
    Some(e)
}

} // verus!
