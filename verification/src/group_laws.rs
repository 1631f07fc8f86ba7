//! The group structure of native tabs: every membership names a group that
//! exists, and the reactor's native-tab operations keep it so.
use vstd::prelude::*;

use crate::ids::{Pid, Rect, WindowId};
use crate::native_tab_manager::{entry_not_in_app, group_not_of_pid, NativeTabGroup, NativeTabView};
use crate::reactor::ReactorView;
use crate::seq_util::lemma_first_match_some;
use crate::store::{
    distinct_keys, key_is, keys_with_value, lemma_distinct_lookup, lemma_filter_keeps_distinct_keys,
    lemma_keys_with_value, lemma_map_insert, lemma_map_remove, lookup, map_insert, map_remove,
};

verus! {

/// Every window that belongs to a group belongs to one that exists.
pub open spec fn memberships_in_groups(t: NativeTabView) -> bool {
    forall|w: WindowId|
        #![trigger lookup(t.memberships, w)]
        lookup(t.memberships, w) is Some ==> lookup(t.groups, lookup(t.memberships, w)->0) is Some
}

/// The groups and memberships of `a` and `b` are the same.
pub open spec fn same_groups(a: NativeTabView, b: NativeTabView) -> bool {
    a.groups == b.groups && a.memberships == b.memberships
}

/// An entry found by `lookup` is an entry of the sequence.
proof fn lemma_lookup_entry<K, V>(s: Seq<(K, V)>, k: K)
    requires
        lookup(s, k) is Some,
    ensures
        s.contains((k, lookup(s, k)->0)),
{
    lemma_first_match_some(s, key_is::<K, V>(k));
}

/// With distinct keys, looking up in the entries a filter keeps finds what
/// the entries find, where the filter keeps that entry.
proof fn lemma_lookup_filter<K, V>(s: Seq<(K, V)>, p: spec_fn((K, V)) -> bool, k: K)
    requires
        distinct_keys(s),
    ensures
        lookup(s.filter(p), k) == match lookup(s, k) {
            Some(v) => if p((k, v)) {
                Some(v)
            } else {
                None
            },
            None => None,
        },
{
    broadcast use vstd::seq_lib::group_filter_ensures;

    let f = s.filter(p);
    lemma_filter_keeps_distinct_keys(s, p);
    if lookup(f, k) is Some {
        lemma_lookup_entry(f, k);
        let e = (k, lookup(f, k)->0);
        s.lemma_filter_contains_rev(p, e);
        let j = choose|j: int| 0 <= j < f.len() && f[j] == e;
        s.lemma_filter_pred(p, j);
        let i = choose|i: int| 0 <= i < s.len() && s[i] == e;
        lemma_distinct_lookup(s, i);
    } else {
        if lookup(s, k) is Some {
            let v = lookup(s, k)->0;
            if p((k, v)) {
                lemma_lookup_entry(s, k);
                let i = choose|i: int| 0 <= i < s.len() && s[i] == (k, v);
                s.lemma_filter_contains(p, i);
                let j = choose|j: int| 0 <= j < f.len() && f[j] == (k, v);
                assert(distinct_keys(f));
                lemma_distinct_lookup(f, j);
            }
        }
    }
}

proof fn lemma_join_keeps(t: NativeTabView, anchor: WindowId, other: WindowId, active: WindowId, frame: Rect)
    requires
        memberships_in_groups(t),
    ensures
        memberships_in_groups(t.join(anchor, other, active, frame)),
{
    let g = t.group_of_anchor(anchor);
    let m1 = map_insert(t.memberships, anchor, g);
    lemma_map_insert(t.memberships, anchor, g);
    lemma_map_insert(m1, other, g);
    lemma_map_insert(t.groups, g, NativeTabGroup { pid: anchor.pid, active: Some(active), canonical_frame: frame });
    let u = t.join(anchor, other, active, frame);
    assert forall|w: WindowId| #![trigger lookup(u.memberships, w)]
        lookup(u.memberships, w) is Some implies lookup(u.groups, lookup(u.memberships, w)->0) is Some by {
        if w != other && w != anchor {
            assert(lookup(u.memberships, w) == lookup(t.memberships, w));
        }
    }
}

proof fn lemma_group_update_keeps(t: NativeTabView, g: u32, group: NativeTabGroup)
    requires
        memberships_in_groups(t),
    ensures
        memberships_in_groups(NativeTabView { groups: map_insert(t.groups, g, group), ..t }),
{
    lemma_map_insert(t.groups, g, group);
    let u = NativeTabView { groups: map_insert(t.groups, g, group), ..t };
    assert forall|w: WindowId| #![trigger lookup(u.memberships, w)]
        lookup(u.memberships, w) is Some implies lookup(u.groups, lookup(u.memberships, w)->0) is Some by {
        assert(lookup(t.memberships, w) is Some);
    }
}

proof fn lemma_set_active_member_keeps(t: NativeTabView, wid: WindowId, frame: Rect)
    requires
        memberships_in_groups(t),
    ensures
        memberships_in_groups(t.set_active_member(wid, frame)),
{
    if let Some(g) = t.live_group_of(wid) {
        lemma_group_update_keeps(t, g, NativeTabGroup { active: Some(wid), canonical_frame: frame, ..t.group(g)->0 });
    }
}

proof fn lemma_update_frame_keeps(t: NativeTabView, frame: Rect, membership: Option<crate::model::NativeTabMembership>)
    requires
        memberships_in_groups(t),
    ensures
        memberships_in_groups(t.update_frame(frame, membership)),
{
    if let Some(m) = membership {
        if m.role == crate::model::NativeTabRole::Active && t.group(m.group_id) is Some {
            lemma_group_update_keeps(t, m.group_id, NativeTabGroup { canonical_frame: frame, ..t.group(m.group_id)->0 });
        }
    }
}

proof fn lemma_remove_window_keeps(t: NativeTabView, wid: WindowId, windows: Seq<(WindowId, crate::model::WindowState)>)
    requires
        memberships_in_groups(t),
    ensures
        memberships_in_groups(t.remove_window(wid, windows).0),
{
    let r = t.remove_window(wid, windows).0;
    if let Some(g) = t.group_for_window(wid) {
        let m = map_remove(t.memberships, wid);
        lemma_map_remove(t.memberships, wid);
        if let Some(group) = t.group(g) {
            if keys_with_value(m, g).len() == 0 {
                lemma_map_remove(t.groups, g);
                lemma_keys_with_value(m, g);
                assert forall|w: WindowId| #![trigger lookup(r.memberships, w)]
                    lookup(r.memberships, w) is Some implies lookup(r.groups, lookup(r.memberships, w)->0) is Some by {
                    assert(lookup(t.memberships, w) is Some);
                    if lookup(m, w)->0 == g {
                        lemma_lookup_entry(m, w);
                        let i = choose|i: int| 0 <= i < m.len() && m[i] == (w, g);
                        assert(keys_with_value(m, g).contains(w));
                    }
                }
            } else if group.active == Some(wid) {
                lemma_map_insert(t.groups, g, NativeTabGroup { active: Some(keys_with_value(m, g)[0]), ..group });
                assert forall|w: WindowId| #![trigger lookup(r.memberships, w)]
                    lookup(r.memberships, w) is Some implies lookup(r.groups, lookup(r.memberships, w)->0) is Some by {
                    assert(lookup(t.memberships, w) is Some);
                }
            } else {
                assert forall|w: WindowId| #![trigger lookup(r.memberships, w)]
                    lookup(r.memberships, w) is Some implies lookup(r.groups, lookup(r.memberships, w)->0) is Some by {
                    assert(lookup(t.memberships, w) is Some);
                }
            }
        } else {
            assert forall|w: WindowId| #![trigger lookup(r.memberships, w)]
                lookup(r.memberships, w) is Some implies lookup(r.groups, lookup(r.memberships, w)->0) is Some by {
                assert(lookup(t.memberships, w) is Some);
            }
        }
    }
}

proof fn lemma_remove_app_keeps(t: NativeTabView, pid: Pid, windows: Seq<(WindowId, crate::model::WindowState)>)
    requires
        memberships_in_groups(t),
        t.wf(),
    ensures
        memberships_in_groups(t.remove_app(pid, windows).0),
{
    let r = t.remove_app(pid, windows).0;
    assert forall|w: WindowId| #![trigger lookup(r.memberships, w)]
        lookup(r.memberships, w) is Some implies lookup(r.groups, lookup(r.memberships, w)->0) is Some by {
        lemma_lookup_filter(t.memberships, entry_not_in_app(t.groups, pid), w);
        let g = lookup(t.memberships, w)->0;
        assert(lookup(t.groups, g) is Some);
        lemma_lookup_filter(t.groups, group_not_of_pid(pid), g);
    }
}


/// Operations that leave the groups and memberships as they are keep them
/// sound.
proof fn lemma_same_groups_keeps(a: ReactorView, b: ReactorView)
    requires
        same_groups(a.tabs, b.tabs),
        memberships_in_groups(b.tabs),
    ensures
        memberships_in_groups(a.tabs),
{
}

proof fn lemma_sync_members_same_groups(v: ReactorView, members: Seq<WindowId>, active_wid: WindowId, frame: Rect, sync: bool)
    ensures
        same_groups(v.sync_members(members, active_wid, frame, sync).tabs, v.tabs),
    decreases members.len(),
{
    if members.len() > 0 {
        lemma_sync_members_same_groups(v, members.drop_last(), active_wid, frame, sync);
    }
}

proof fn lemma_activate_keeps(v: ReactorView, old_wid: WindowId, new_wid: WindowId)
    requires
        memberships_in_groups(v.tabs),
    ensures
        memberships_in_groups(v.activate_native_tab_replacement(old_wid, new_wid).tabs),
        memberships_in_groups(v.try_activate_native_tab_replacement(old_wid, new_wid).tabs),
{
    if v.activation_allowed(old_wid, new_wid) {
        let frame = v.activation_frame(old_wid);
        lemma_join_keeps(v.tabs, old_wid, new_wid, new_wid, frame);
        let a = v.activate_native_tab_replacement(old_wid, new_wid);
        assert(same_groups(a.tabs, v.tabs.join(old_wid, new_wid, new_wid, frame)));
    }
}

proof fn lemma_finalize_keeps(v: ReactorView, wid: WindowId)
    requires
        memberships_in_groups(v.tabs),
    ensures
        memberships_in_groups(v.finalize_native_tab_window_destroy(wid).tabs),
        memberships_in_groups(v.handle_window_destroyed(wid).0.tabs),
{
    let v1 = v.with_tabs(v.tabs.clear_pending_destroy(wid));
    lemma_remove_window_keeps(v1.tabs, wid, v1.windows);
    let f = v.finalize_native_tab_window_destroy(wid);
    assert(same_groups(f.tabs, v1.tabs.remove_window(wid, v1.windows).0));
}

proof fn lemma_appearance_keeps(v: ReactorView, wsid: crate::ids::WindowServerId, sid: crate::ids::SpaceId, info: crate::ids::WindowServerInfo)
    requires
        memberships_in_groups(v.tabs),
    ensures
        memberships_in_groups(v.note_native_tab_appearance(wsid, sid, info).0.tabs),
{
    let v1 = ReactorView {
        visible_windows: crate::store::set_insert(v.visible_windows, wsid),
        window_server_info: map_insert(v.window_server_info, wsid, info),
        ..v
    };
    if let Some(wid) = v1.window_for_server_id(wsid) {
        let v2 = v1.with_tabs(v1.tabs.clear_pending_appearance(info.pid, wsid));
        let pending_old = v2.pending_native_tab_replacement_for(info.pid, wid, sid, info.frame);
        if pending_old is Some {
            lemma_activate_keeps(v2, pending_old->0, wid);
        }
        if let Some(g) = v2.tabs.group_for_window(wid) {
            if let Some(group) = v2.tabs.group(g) {
                if let Some(old_active) = group.active {
                    lemma_activate_keeps(v2, old_active, wid);
                } else {
                    lemma_set_active_member_keeps(v2.tabs, wid, info.frame);
                }
            }
        }
    }
}

proof fn lemma_frame_changed_keeps(v: ReactorView, wid: WindowId, sync_group: bool)
    requires
        memberships_in_groups(v.tabs),
    ensures
        memberships_in_groups(v.handle_native_tab_frame_changed(wid, sync_group).tabs),
{
    if let Some(w) = v.window(wid) {
        lemma_update_frame_keeps(v.tabs, w.frame_monotonic, w.native_tab);
        let u = v.with_tabs(v.tabs.update_frame(w.frame_monotonic, w.native_tab));
        if let Some(m) = w.native_tab {
            lemma_sync_members_same_groups(u, u.tabs.members(m.group_id), wid, w.frame_monotonic, true);
        }
    }
}

proof fn lemma_main_window_changed_keeps(v: ReactorView, pid: Pid, wid: Option<WindowId>, quiet: crate::ids::Quiet)
    requires
        memberships_in_groups(v.tabs),
    ensures
        memberships_in_groups(v.handle_native_tab_main_window_changed(pid, wid, quiet).tabs),
{
    if let Some(w) = wid {
        let v1 = v.with_tabs(v.tabs.clear_transient_empty_visibility(pid));
        if let Some(st) = v1.window(w) {
            if let Some(first) = v1.native_tab_replacement_candidate_for(w, st.frame_monotonic) {
                lemma_activate_keeps(v1, first, w);
            }
        }
        if let Some(g) = v1.tabs.group_for_window(w) {
            if let Some(group) = v1.tabs.group(g) {
                if let Some(a) = v1.takeover_target(w, g, group) {
                    lemma_activate_keeps(v1, a, w);
                }
            }
        }
    }
}

proof fn lemma_reconcile_appearances_keeps(v: ReactorView, pid: Pid, s: Seq<crate::native_tab_manager::PendingNativeTabAppearance>)
    requires
        memberships_in_groups(v.tabs),
    ensures
        memberships_in_groups(v.reconcile_appearances(pid, s).tabs),
    decreases s.len(),
{
    if s.len() > 0 {
        lemma_reconcile_appearances_keeps(v, pid, s.drop_last());
        let r = v.reconcile_appearances(pid, s.drop_last());
        let a = s.last();
        if let Some(wid) = r.window_for_server_id(a.wsid) {
            if let Some(old_active) = r.pending_native_tab_replacement_for(pid, wid, a.space, a.frame) {
                lemma_activate_keeps(r, old_active, wid);
            }
        }
    }
}

proof fn lemma_reconcile_destroys_keeps(
    v: ReactorView,
    pid: Pid,
    known_visible: Seq<WindowId>,
    s: Seq<crate::native_tab_manager::PendingNativeTabDestroy>,
)
    requires
        memberships_in_groups(v.tabs),
    ensures
        memberships_in_groups(v.reconcile_destroys(pid, known_visible, s).tabs),
    decreases s.len(),
{
    if s.len() > 0 {
        lemma_reconcile_destroys_keeps(v, pid, known_visible, s.drop_last());
        let r = v.reconcile_destroys(pid, known_visible, s.drop_last());
        let d = s.last();
        let replacement = crate::seq_util::first_match(known_visible, r.destroy_replacement(d));
        let grouped = r.grouped_native_tab_replacement_for(d.window_id, known_visible);
        if replacement is Some {
            lemma_activate_keeps(r, d.window_id, replacement->0);
        }
        if grouped is Some {
            lemma_activate_keeps(r, d.window_id, grouped->0);
            let t = r.try_activate_native_tab_replacement(d.window_id, grouped->0);
            lemma_finalize_keeps(t, d.window_id);
        }
        let c = r.with_tabs(r.tabs.clear_pending_destroy(d.window_id));
        lemma_finalize_keeps(c, d.window_id);
    }
}

proof fn lemma_clear_stale_keeps(v: ReactorView, pid: Pid, s: Seq<crate::native_tab_manager::PendingNativeTabAppearance>)
    ensures
        same_groups(v.clear_stale_fold(pid, s).tabs, v.tabs),
    decreases s.len(),
{
    if s.len() > 0 {
        lemma_clear_stale_keeps(v, pid, s.drop_last());
    }
}

proof fn lemma_background_members_keeps(v: ReactorView, aw: WindowId, frame: Rect, s: Seq<WindowId>)
    requires
        memberships_in_groups(v.tabs),
    ensures
        memberships_in_groups(v.background_members(aw, frame, s).tabs),
    decreases s.len(),
{
    if s.len() > 0 {
        lemma_background_members_keeps(v, aw, frame, s.drop_last());
        let r = v.background_members(aw, frame, s.drop_last());
        lemma_join_keeps(r.tabs, aw, s.last(), aw, frame);
    }
}

proof fn lemma_adopt_all_keeps(v: ReactorView, known_visible: Seq<WindowId>, s: Seq<WindowId>)
    requires
        memberships_in_groups(v.tabs),
    ensures
        memberships_in_groups(v.adopt_all(known_visible, s).tabs),
    decreases s.len(),
{
    if s.len() > 0 {
        lemma_adopt_all_keeps(v, known_visible, s.drop_last());
        let r = v.adopt_all(known_visible, s.drop_last());
        if let Some(st) = r.window(s.last()) {
            lemma_background_members_keeps(r, s.last(), st.frame_monotonic, known_visible);
        }
    }
}

proof fn lemma_reconcile_keeps(v: ReactorView, pid: Pid, known_visible: Seq<WindowId>)
    requires
        memberships_in_groups(v.tabs),
    ensures
        memberships_in_groups(v.reconcile_native_tabs_for_pid(pid, known_visible).tabs),
{
    let v0 = v.with_tabs(v.tabs.purge_expired(v.now_ms, crate::native_tabs::PENDING_NATIVE_TAB_MAX_AGE_MS));
    lemma_reconcile_appearances_keeps(v0, pid, v0.tabs.pending_appearances_for_pid(pid));
    let v1 = v0.reconcile_appearances(pid, v0.tabs.pending_appearances_for_pid(pid));
    lemma_reconcile_destroys_keeps(v1, pid, known_visible, v1.tabs.pending_destroys_for_pid(pid));
    let v2 = v1.reconcile_destroys(pid, known_visible, v1.tabs.pending_destroys_for_pid(pid));
    lemma_clear_stale_keeps(v2, pid, v2.tabs.pending_appearances_for_pid(pid));
    let v3 = if known_visible.len() == 0 && v2.tabs.pending_destroys_for_pid(pid).len() == 0 {
        v2.clear_stale_pending_native_tab_appearances_for_pid(pid)
    } else {
        v2
    };
    lemma_adopt_all_keeps(v3, known_visible, v3.active_windows_of(pid, v3.visible_windows));
}

/// Every native-tab operation of the reactor keeps each membership pointing
/// at a group that exists: switching tabs, a WindowServer window going away
/// or appearing, a window created, held back or destroyed, a frame change, a
/// main-window report, a reconcile, dropping stale appearances, and (of a
/// well-formed reactor) an application terminating.
pub proof fn lemma_operations_keep_memberships_in_groups(v: ReactorView)
    requires
        memberships_in_groups(v.tabs),
    ensures
        forall|old_wid: WindowId, new_wid: WindowId|
            #[trigger] memberships_in_groups(v.try_activate_native_tab_replacement(old_wid, new_wid).tabs),
        forall|wsid: crate::ids::WindowServerId, sid: crate::ids::SpaceId|
            #[trigger] memberships_in_groups(v.stage_native_tab_destroy(wsid, sid).0.tabs),
        forall|wsid: crate::ids::WindowServerId, sid: crate::ids::SpaceId, info: crate::ids::WindowServerInfo|
            #[trigger] memberships_in_groups(v.note_native_tab_appearance(wsid, sid, info).0.tabs),
        forall|wid: WindowId, info: crate::ids::WindowInfo, ws: Option<crate::ids::WindowServerInfo>|
            #[trigger] memberships_in_groups(v.handle_window_created(wid, info, ws).tabs),
        forall|wid: WindowId| #[trigger] memberships_in_groups(v.handle_window_destroyed(wid).0.tabs),
        forall|wid: WindowId, sync_group: bool|
            #[trigger] memberships_in_groups(v.handle_native_tab_frame_changed(wid, sync_group).tabs),
        forall|pid: Pid, wid: Option<WindowId>, quiet: crate::ids::Quiet|
            #[trigger] memberships_in_groups(v.handle_native_tab_main_window_changed(pid, wid, quiet).tabs),
        forall|pid: Pid, known_visible: Seq<WindowId>|
            #[trigger] memberships_in_groups(v.reconcile_native_tabs_for_pid(pid, known_visible).tabs),
        forall|pid: Pid| #[trigger] memberships_in_groups(v.clear_stale_pending_native_tab_appearances_for_pid(pid).tabs),
        v.wf() ==> forall|pid: Pid| #[trigger] memberships_in_groups(v.handle_native_tab_app_terminated(pid).tabs),
{
    assert forall|old_wid: WindowId, new_wid: WindowId|
        #[trigger] memberships_in_groups(v.try_activate_native_tab_replacement(old_wid, new_wid).tabs) by {
        lemma_activate_keeps(v, old_wid, new_wid);
    }
    assert forall|wsid: crate::ids::WindowServerId, sid: crate::ids::SpaceId, info: crate::ids::WindowServerInfo|
        #[trigger] memberships_in_groups(v.note_native_tab_appearance(wsid, sid, info).0.tabs) by {
        lemma_appearance_keeps(v, wsid, sid, info);
    }
    assert forall|wid: WindowId, info: crate::ids::WindowInfo, ws: Option<crate::ids::WindowServerInfo>|
        #[trigger] memberships_in_groups(v.handle_window_created(wid, info, ws).tabs) by {
        assert(same_groups(v.handle_window_created(wid, info, ws).tabs, v.tabs));
    }
    assert forall|wid: WindowId| #[trigger] memberships_in_groups(v.handle_window_destroyed(wid).0.tabs) by {
        lemma_finalize_keeps(v, wid);
    }
    assert forall|wid: WindowId, sync_group: bool|
        #[trigger] memberships_in_groups(v.handle_native_tab_frame_changed(wid, sync_group).tabs) by {
        lemma_frame_changed_keeps(v, wid, sync_group);
    }
    assert forall|pid: Pid, wid: Option<WindowId>, quiet: crate::ids::Quiet|
        #[trigger] memberships_in_groups(v.handle_native_tab_main_window_changed(pid, wid, quiet).tabs) by {
        lemma_main_window_changed_keeps(v, pid, wid, quiet);
    }
    assert forall|pid: Pid, known_visible: Seq<WindowId>|
        #[trigger] memberships_in_groups(v.reconcile_native_tabs_for_pid(pid, known_visible).tabs) by {
        lemma_reconcile_keeps(v, pid, known_visible);
    }
    assert forall|pid: Pid| #[trigger] memberships_in_groups(v.clear_stale_pending_native_tab_appearances_for_pid(pid).tabs) by {
        lemma_clear_stale_keeps(v, pid, v.tabs.pending_appearances_for_pid(pid));
    }
    if v.wf() {
        assert forall|pid: Pid| #[trigger] memberships_in_groups(v.handle_native_tab_app_terminated(pid).tabs) by {
            lemma_remove_app_keeps(v.tabs, pid, v.windows);
        }
    }
}

} // verus!
