//! The monitor listing of the web status page: active monitors, the
//! disabled ones from the configuration, ordered by name.

use vstd::prelude::*;
use crate::monitors::{status_views, MonitorStatus, MonitorStatusView};
use crate::text::{lemma_text_le_reflexive, lemma_text_le_total, lemma_text_le_transitive, same_text, text_le, text_less_eq, to_lowercase, unicode_lowercase};

verus! {

/// A configured monitor, as far as the listing needs it.
pub struct ConfiguredMonitor {
    pub key: String,
    pub name: String,
    pub enabled: bool,
    pub hold_time_seconds: u64,
    pub include_in_safety: bool,
}

/// The status listed for a disabled monitor.
pub open spec fn disabled_view(c: ConfiguredMonitor, monitor_type: Seq<char>) -> MonitorStatusView {
    MonitorStatusView {
        id: c.key@,
        name: c.name@,
        monitor_type,
        is_safe: false,
        last_update: None,
        error: Some("Monitor disabled"@),
        enabled: false,
        hold_time_seconds: c.hold_time_seconds,
        pending_is_safe: None,
        pending_since: None,
        include_in_safety: c.include_in_safety,
    }
}

/// Some listed status has the id.
pub open spec fn listed(ss: Seq<MonitorStatusView>, id: Seq<char>) -> bool {
    exists|i: int| 0 <= i < ss.len() && (#[trigger] ss[i]).id == id
}

/// The listing after the disabled monitors of `cs` were added in order,
/// each unless a status with its id is listed.
pub open spec fn with_disabled(ss: Seq<MonitorStatusView>, cs: Seq<ConfiguredMonitor>, monitor_type: Seq<char>) -> Seq<MonitorStatusView>
    decreases cs.len(),
{
    if cs.len() == 0 {
        ss
    } else {
        let b = with_disabled(ss, cs.drop_last(), monitor_type);
        let c = cs.last();
        if !c.enabled && !listed(b, c.key@) {
            b.push(disabled_view(c, monitor_type))
        } else {
            b
        }
    }
}

fn is_listed(ss: &Vec<MonitorStatus>, id: &str) -> (r: bool)
    ensures
        r == listed(status_views(ss@), id@),
{
    let ghost v = status_views(ss@);
    let mut i: usize = 0;
    while i < ss.len()
        invariant
            v == status_views(ss@),
            i <= v.len(),
            forall|j: int| 0 <= j < i ==> v[j].id != id@,
        decreases v.len() - i,
    {
        if same_text(ss[i].id.as_str(), id) {
            assert(v[i as int].id == id@);
            return true;
        }
        i = i + 1;
    }
    false
}

fn add_disabled(statuses: &mut Vec<MonitorStatus>, configured: &Vec<ConfiguredMonitor>, monitor_type: &str)
    ensures
        status_views(final(statuses)@) == with_disabled(status_views(old(statuses)@), configured@, monitor_type@),
{
    let ghost s0 = status_views(statuses@);
    let mut i: usize = 0;
    assert(configured@.take(0) =~= Seq::<ConfiguredMonitor>::empty());
    while i < configured.len()
        invariant
            i <= configured@.len(),
            status_views(statuses@) == with_disabled(s0, configured@.take(i as int), monitor_type@),
        decreases configured@.len() - i,
    {
        let c = &configured[i];
        assert(configured@.take(i + 1).drop_last() =~= configured@.take(i as int));
        assert(configured@.take(i + 1).last() == *c);
        if !c.enabled && !is_listed(statuses, c.key.as_str()) {
            let ghost before = status_views(statuses@);
            statuses.push(
                MonitorStatus {
                    id: c.key.clone(),
                    name: c.name.clone(),
                    monitor_type: monitor_type.to_owned(),
                    is_safe: false,
                    last_update: None,
                    error: Some("Monitor disabled".to_owned()),
                    enabled: false,
                    hold_time_seconds: c.hold_time_seconds,
                    pending_is_safe: None,
                    pending_since: None,
                    include_in_safety: c.include_in_safety,
                },
            );
            assert(status_views(statuses@) =~= before.push(disabled_view(*c, monitor_type@)));
        }
        i = i + 1;
    }
    assert(configured@.take(configured@.len() as int) =~= configured@);
}

/// The listing is ordered by lower-cased name.
pub open spec fn ordered_by_name(ss: Seq<MonitorStatusView>) -> bool {
    forall|i: int, j: int|
        0 <= i < j < ss.len() ==> text_le(unicode_lowercase(#[trigger] ss[i].name), unicode_lowercase(#[trigger] ss[j].name))
}

/// `origin` says where each entry of `r` stood in `orig`: distinct
/// positions, and entries whose lower-cased names are equal keep the order
/// they had in `orig`.
pub open spec fn stable_origin(orig: Seq<MonitorStatusView>, r: Seq<MonitorStatusView>, origin: Seq<int>) -> bool {
    &&& origin.len() == r.len()
    &&& forall|i: int| 0 <= i < r.len() ==> 0 <= #[trigger] origin[i] < orig.len() && r[i] == orig[origin[i]]
    &&& forall|i: int, j: int| 0 <= i < j < r.len() ==> #[trigger] origin[i] != #[trigger] origin[j]
    &&& forall|i: int, j: int|
        0 <= i < j < r.len() && unicode_lowercase(r[i].name) == unicode_lowercase(r[j].name) ==> #[trigger] origin[i]
            < #[trigger] origin[j]
}

/// `r` keeps the order `orig` gave to entries with equal lower-cased names.
pub open spec fn keeps_order_of_equal_names(orig: Seq<MonitorStatusView>, r: Seq<MonitorStatusView>) -> bool {
    exists|origin: Seq<int>| stable_origin(orig, r, origin)
}

/// Orders statuses by lower-cased name; statuses with equal lower-cased
/// names keep their order.
pub fn sort_by_name(statuses: Vec<MonitorStatus>) -> (r: Vec<MonitorStatus>)
    ensures
        ordered_by_name(status_views(r@)),
        status_views(r@).to_multiset() == status_views(statuses@).to_multiset(),
        keeps_order_of_equal_names(status_views(statuses@), status_views(r@)),
{
    let ghost orig = status_views(statuses@);
    let mut rest = statuses;
    let mut out: Vec<MonitorStatus> = Vec::new();
    let mut keys: Vec<String> = Vec::new();
    let ghost mut k: int = 0;
    let ghost mut origin: Seq<int> = Seq::empty();
    assert(orig.take(0) =~= Seq::<MonitorStatusView>::empty());
    assert(orig.skip(0) =~= orig);
    assert(status_views(out@) =~= Seq::<MonitorStatusView>::empty());
    while rest.len() > 0
        invariant
            0 <= k <= orig.len(),
            k + rest@.len() == orig.len(),
            status_views(rest@) == orig.skip(k),
            ordered_by_name(status_views(out@)),
            status_views(out@).to_multiset() == orig.take(k).to_multiset(),
            keys@.len() == out@.len(),
            forall|m: int| 0 <= m < keys@.len() ==> #[trigger] keys@[m]@ == unicode_lowercase(out@[m].name@),
            stable_origin(orig, status_views(out@), origin),
            forall|m: int| 0 <= m < origin.len() ==> #[trigger] origin[m] < k,
        decreases rest@.len(),
    {
        let ghost rv = status_views(rest@);
        let s = rest.remove(0);
        assert(rv[0] == s@);
        assert(status_views(rest@) =~= rv.drop_first());
        assert(orig.skip(k).drop_first() =~= orig.skip(k + 1));
        assert(orig[k] == s@);
        let key = to_lowercase(s.name.as_str());
        let ghost os = status_views(out@);
        let mut pos: usize = 0;
        while pos < out.len() && text_less_eq(keys[pos].as_str(), key.as_str())
            invariant
                os == status_views(out@),
                keys@.len() == out@.len(),
                forall|m: int| 0 <= m < keys@.len() ==> #[trigger] keys@[m]@ == unicode_lowercase(out@[m].name@),
                pos <= out@.len(),
                forall|m: int| 0 <= m < pos ==> text_le(unicode_lowercase(#[trigger] os[m].name), key@),
            decreases out@.len() - pos,
        {
            assert(keys@[pos as int]@ == unicode_lowercase(os[pos as int].name));
            pos = pos + 1;
        }
        proof {
            if pos < os.len() {
                assert(keys@[pos as int]@ == unicode_lowercase(os[pos as int].name));
                lemma_text_le_total(unicode_lowercase(os[pos as int].name), key@);
            }
        }
        let ghost sv = s@;
        let ghost ko = keys@;
        let ghost oo = out@;
        out.insert(pos, s);
        keys.insert(pos, key);
        let ghost ns = status_views(out@);
        assert(ns =~= os.insert(pos as int, sv));
        assert forall|m: int| 0 <= m < keys@.len() implies #[trigger] keys@[m]@ == unicode_lowercase(out@[m].name@) by {
            if m < pos {
                assert(keys@[m] == ko[m]);
                assert(out@[m] == oo[m]);
            } else if m > pos {
                assert(keys@[m] == ko[m - 1]);
                assert(out@[m] == oo[m - 1]);
            }
        }
        assert forall|a: int, b: int| 0 <= a < b < ns.len() implies text_le(
            unicode_lowercase(#[trigger] ns[a].name),
            unicode_lowercase(#[trigger] ns[b].name),
        ) by {
            let ka = unicode_lowercase(ns[a].name);
            let kb = unicode_lowercase(ns[b].name);
            if b < pos {
                assert(ns[a] == os[a] && ns[b] == os[b]);
            } else if b == pos {
                assert(ns[a] == os[a]);
            } else if a < pos {
                assert(ns[a] == os[a] && ns[b] == os[b - 1]);
            } else if a == pos {
                assert(ns[b] == os[b - 1]);
                let kp = unicode_lowercase(os[pos as int].name);
                assert(text_le(key@, kp));
                if b - 1 > pos {
                    assert(text_le(kp, unicode_lowercase(os[b - 1].name)));
                }
                lemma_text_le_reflexive(kp);
                lemma_text_le_transitive(key@, kp, unicode_lowercase(os[b - 1].name));
            } else {
                assert(ns[a] == os[a - 1] && ns[b] == os[b - 1]);
            }
        }
        proof {
            let no = origin.insert(pos as int, k);
            assert(forall|m: int| 0 <= m < os.len() ==> #[trigger] os[m] == orig[origin[m]] && 0 <= origin[m] < k);
            assert forall|m: int| 0 <= m < ns.len() implies 0 <= #[trigger] no[m] < orig.len() && ns[m] == orig[no[m]]
                && no[m] < k + 1 by {
                if m < pos {
                    assert(no[m] == origin[m] && ns[m] == os[m]);
                } else if m > pos {
                    assert(no[m] == origin[m - 1] && ns[m] == os[m - 1]);
                }
            }
            assert forall|a: int, b: int| 0 <= a < b < ns.len() implies #[trigger] no[a] != #[trigger] no[b] by {
                if a < pos {
                    assert(no[a] == origin[a]);
                } else if a > pos {
                    assert(no[a] == origin[a - 1]);
                }
                if b < pos {
                    assert(no[b] == origin[b]);
                } else if b > pos {
                    assert(no[b] == origin[b - 1]);
                }
            }
            assert forall|a: int, b: int|
                0 <= a < b < ns.len() && unicode_lowercase(ns[a].name) == unicode_lowercase(ns[b].name)
                    implies #[trigger] no[a] < #[trigger] no[b] by {
                if b < pos {
                    assert(no[a] == origin[a] && no[b] == origin[b]);
                    assert(ns[a] == os[a] && ns[b] == os[b]);
                } else if b == pos {
                    assert(no[a] == origin[a]);
                } else if a < pos {
                    assert(no[a] == origin[a] && no[b] == origin[b - 1]);
                    assert(ns[a] == os[a] && ns[b] == os[b - 1]);
                } else if a == pos {
                    let kp = unicode_lowercase(os[pos as int].name);
                    assert(keys@[pos as int]@ == kp) by {
                        assert(ko[pos as int]@ == unicode_lowercase(oo[pos as int].name@));
                    }
                    assert(!text_le(kp, key@));
                    assert(ns[b] == os[b - 1]);
                    if b - 1 > pos {
                        assert(text_le(kp, unicode_lowercase(os[b - 1].name)));
                    }
                    assert(false);
                } else {
                    assert(no[a] == origin[a - 1] && no[b] == origin[b - 1]);
                    assert(ns[a] == os[a - 1] && ns[b] == os[b - 1]);
                }
            }
            origin = no;
            vstd::seq_lib::to_multiset_insert(os, pos as int, sv);
            vstd::seq_lib::to_multiset_build(orig.take(k), sv);
            assert(orig.take(k + 1) =~= orig.take(k).push(sv));
            k = k + 1;
        }
    }
    assert(orig.take(k) =~= orig);
    assert(stable_origin(orig, status_views(out@), origin));
    out
}

/// The listing of the status page: the active statuses, the disabled MQTT
/// monitors not listed yet, then the disabled Alpaca monitors not among
/// the active ones or the disabled MQTT ones, ordered by name.
pub fn status_listing(active: Vec<MonitorStatus>, mqtt: &Vec<ConfiguredMonitor>, alpaca: &Vec<ConfiguredMonitor>) -> (r: Vec<MonitorStatus>)
    ensures
        ordered_by_name(status_views(r@)),
        status_views(r@).to_multiset() == with_disabled(
            with_disabled(status_views(active@), mqtt@, "MQTT"@),
            alpaca@,
            "ALPACA"@,
        ).to_multiset(),
        keeps_order_of_equal_names(
            with_disabled(with_disabled(status_views(active@), mqtt@, "MQTT"@), alpaca@, "ALPACA"@),
            status_views(r@),
        ),
{
    let mut all = active;
    add_disabled(&mut all, mqtt, "MQTT");
    add_disabled(&mut all, alpaca, "ALPACA");
    sort_by_name(all)
}

} // verus!
