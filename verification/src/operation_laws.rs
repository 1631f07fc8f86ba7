//! What the reactor's native-tab operations achieve, stated over the
//! windows, groups and layout before and after, for every state in which the
//! situation they handle arises.
use vstd::prelude::*;

use crate::ids::{spec_frames_match, Pid, Quiet, SpaceId, WindowId, WindowInfo, WindowServerId, WindowServerInfo};
use crate::laws::{has_role, lemma_switch_settles_pending_destroy, lemma_tab_switch_outcome};
use crate::model::{NativeTabRole, WindowFilter};
use crate::reactor::ReactorView;
use crate::seq_util::{is_first, lemma_first_index_found, lemma_first_index_none};
use crate::store::{keys_with_value, lemma_map_insert, lookup, map_remove};

verus! {

/// After `w`, the switch from `old_wid` to `new_wid` is done: `old_wid` is a
/// hidden tab and `new_wid` the tab on screen of the group they now share,
/// and where `old_wid` was laid out and `new_wid` was not, `new_wid` holds
/// the layout slot of `old_wid`, which holds none.
pub open spec fn switched(v: ReactorView, w: ReactorView, old_wid: WindowId, new_wid: WindowId) -> bool {
    &&& has_role(w, old_wid, NativeTabRole::Suppressed)
    &&& has_role(w, new_wid, NativeTabRole::Active)
    &&& w.tabs.group_for_window(new_wid) is Some
    &&& w.tabs.group_for_window(old_wid) == w.tabs.group_for_window(new_wid)
    &&& w.tabs.group(w.tabs.group_for_window(new_wid)->0) matches Some(g) && g.active == Some(new_wid)
    &&& (lookup(v.layout, old_wid) is Some && lookup(v.layout, new_wid) is None) ==> {
        &&& lookup(w.layout, new_wid) == lookup(v.layout, old_wid)
        &&& lookup(w.layout, old_wid) is None
    }
}

/// A switch between two distinct tab candidates happens and is done, and the
/// pending destroy of the tab it leaves is settled.
pub proof fn lemma_switch_done(v: ReactorView, old_wid: WindowId, new_wid: WindowId)
    requires
        v.wf(),
        old_wid != new_wid,
        v.window_is_native_tab_candidate(old_wid),
        v.window_is_native_tab_candidate(new_wid),
    ensures
        switched(v, v.try_activate_native_tab_replacement(old_wid, new_wid), old_wid, new_wid),
        forall|pid: Pid| !#[trigger] v.try_activate_native_tab_replacement(old_wid, new_wid).tabs.has_pending_destroy(pid, old_wid),
{
    lemma_tab_switch_outcome(v, old_wid, new_wid);
    assert forall|pid: Pid| !#[trigger] v.try_activate_native_tab_replacement(old_wid, new_wid).tabs.has_pending_destroy(pid, old_wid) by {
        lemma_switch_settles_pending_destroy(v, old_wid, new_wid, pid);
    }
    let a = v.activate_native_tab_replacement(old_wid, new_wid);
    let w = v.try_activate_native_tab_replacement(old_wid, new_wid);
    assert(w.windows == a.windows && w.layout == a.layout && w.tabs.groups == a.tabs.groups
        && w.tabs.memberships == a.tabs.memberships);
    assert(w.tabs.group_for_window(new_wid) == a.tabs.group_for_window(new_wid));
}

/// A switch that happens hands the main-window mark of the application of
/// `old_wid` to `new_wid` where `old_wid` held it; every other main window
/// stays.
pub proof fn lemma_switch_moves_main_window(v: ReactorView, old_wid: WindowId, new_wid: WindowId)
    requires
        v.window_is_native_tab_candidate(old_wid),
        v.window_is_native_tab_candidate(new_wid),
    ensures
        ({
            let w = v.activate_native_tab_replacement(old_wid, new_wid);
            &&& lookup(v.main_windows, old_wid.pid) == Some(old_wid) ==> lookup(w.main_windows, old_wid.pid) == Some(new_wid)
            &&& lookup(v.main_windows, old_wid.pid) != Some(old_wid) ==> lookup(w.main_windows, old_wid.pid) == lookup(v.main_windows, old_wid.pid)
            &&& forall|p: Pid| p != old_wid.pid ==> #[trigger] lookup(w.main_windows, p) == lookup(v.main_windows, p)
        }),
        v.try_activate_native_tab_replacement(old_wid, new_wid).main_windows == v.activate_native_tab_replacement(old_wid, new_wid).main_windows,
{
    lemma_map_insert(v.main_windows, old_wid.pid, new_wid);
}

/// The WindowServer window of a hidden tab reappears at its group's frame
/// while the group shows another tab and the application has no pending
/// destroy: the switch back to it happens and is reported, the tab shown
/// until then is hidden, and the reappeared tab holds its layout slot.
pub proof fn lemma_hidden_tab_reappearing_switches_back(
    v: ReactorView,
    wsid: WindowServerId,
    sid: SpaceId,
    info: WindowServerInfo,
    wid: WindowId,
    g: u32,
    active: WindowId,
)
    requires
        v.wf(),
        v.window_for_server_id(wsid) == Some(wid),
        info.pid == wid.pid,
        v.tabs.pending_destroys_for_pid(info.pid).len() == 0,
        v.tabs.group_for_window(wid) == Some(g),
        v.tabs.group(g) matches Some(group) && group.active == Some(active) && spec_frames_match(
            group.canonical_frame,
            info.frame,
        ),
        active != wid,
        v.window_is_native_tab_candidate(wid),
        v.window_is_native_tab_candidate(active),
    ensures
        v.note_native_tab_appearance(wsid, sid, info).1,
        switched(v, v.note_native_tab_appearance(wsid, sid, info).0, active, wid),
{
    let v1 = ReactorView {
        visible_windows: crate::store::set_insert(v.visible_windows, wsid),
        window_server_info: crate::store::map_insert(v.window_server_info, wsid, info),
        ..v
    };
    lemma_map_insert(v.window_server_info, wsid, info);
    let v2 = v1.with_tabs(v1.tabs.clear_pending_appearance(info.pid, wsid));
    lemma_first_index_none(
        v2.tabs.pending_destroys_for_pid(info.pid),
        v2.pending_replacement(info.pid, wid, sid, info.frame),
    );
    assert(v2.pending_native_tab_replacement_for(info.pid, wid, sid, info.frame) is None);
    assert(v2.is_native_tab_suppressed(wid));
    assert(v2.wf());
    lemma_switch_done(v2, active, wid);
    assert(v.note_native_tab_appearance(wsid, sid, info) == (v2.try_activate_native_tab_replacement(active, wid), true));
}


/// The application reports as its main window a tab candidate `wid` that is
/// not a hidden tab, while its first pending destroy is of another tab
/// candidate, on the space of `wid` at a frame matching that of `wid`, and no
/// other visible manageable window of the application has that frame: `wid`
/// takes over from that window, which becomes a hidden tab, and its pending
/// destroy is settled.
pub proof fn lemma_main_window_takes_over_pending_destroy(v: ReactorView, pid: Pid, wid: WindowId, space: SpaceId)
    requires
        v.wf(),
        wid.pid == pid,
        v.window_is_native_tab_candidate(wid),
        !v.is_native_tab_suppressed(wid),
        v.best_space_for_window_id(wid) == Some(space),
        v.tabs.pending_destroys_for_pid(pid).len() > 0,
        ({
            let d = v.tabs.pending_destroys_for_pid(pid)[0];
            &&& d.window_id != wid
            &&& d.space_id == space
            &&& spec_frames_match(d.frame, v.window(wid)->0.frame_monotonic)
            &&& v.window_is_native_tab_candidate(d.window_id)
            &&& forall|k: int|
                #![trigger v.visible_windows[k]]
                0 <= k < v.visible_windows.len() && v.window_for_server_id(v.visible_windows[k]) is Some ==> {
                    let y = v.window_for_server_id(v.visible_windows[k])->0;
                    (y.pid == pid && y != d.window_id && y != wid && v.window(y) is Some
                        && v.window(y)->0.spec_matches_filter(WindowFilter::Manageable)) ==> !spec_frames_match(
                        v.window(y)->0.frame_monotonic,
                        d.frame,
                    )
                }
        }),
    ensures
        ({
            let d = v.tabs.pending_destroys_for_pid(pid)[0];
            let w = v.handle_native_tab_main_window_changed(pid, Some(wid), Quiet::No);
            &&& switched(v, w, d.window_id, wid)
            &&& !w.tabs.has_pending_destroy(pid, d.window_id)
        }),
{
    let ds = v.tabs.pending_destroys_for_pid(pid);
    let d = ds[0];
    let v1 = v.with_tabs(v.tabs.clear_transient_empty_visibility(pid));
    assert(v.pid_has_native_tab_state(pid));
    let frame = v.window(wid)->0.frame_monotonic;
    let q = v1.same_pid_frame(pid, d.frame, seq![d.window_id, wid]);
    assert forall|k: int| 0 <= k < v1.visible_windows.len() implies !q(#[trigger] v1.visible_windows[k]) by {
        let x = v1.visible_windows[k];
        if let Some(y) = v1.window_for_server_id(x) {
            if y.pid == pid && !seq![d.window_id, wid].contains(y) {
                assert(y != d.window_id && y != wid) by {
                    assert(seq![d.window_id, wid][0] == d.window_id);
                    assert(seq![d.window_id, wid][1] == wid);
                }
            }
        }
    }
    lemma_first_index_none(v1.visible_windows, q);
    let p = v1.pending_replacement(pid, wid, space, frame);
    assert(p(d));
    assert(is_first(ds, p, 0));
    assert(v1.tabs.pending_destroys_for_pid(pid) == ds);
    lemma_first_index_found(ds, p, 0);
    assert(v1.native_tab_replacement_candidate_for(wid, frame) == Some(d.window_id));
    assert(v1.wf());
    lemma_switch_done(v1, d.window_id, wid);
}


/// The tab on screen `wid` of group `g` goes while the group has other
/// members; the first remaining member, effectively manageable once it is on
/// screen, not laid out, and belonging to `space`, joins the layout of
/// `space`, selected. A destroy of `wid` that is not held back does the same
/// and reports the window removed.
pub proof fn lemma_destroyed_tab_lays_out_its_successor(v: ReactorView, wid: WindowId, g: u32, space: SpaceId)
    requires
        v.tabs.group_for_window(wid) == Some(g),
        v.tabs.group(g) matches Some(group) && group.active == Some(wid),
        keys_with_value(map_remove(v.tabs.memberships, wid), g).len() > 0,
        ({
            let p = keys_with_value(map_remove(v.tabs.memberships, wid), g)[0];
            &&& v.window(p) matches Some(st) && st.is_manageable && !st.ignore_app_rule
            &&& lookup(v.layout, p) is None
            &&& v.best_space_for_window_id(p) == Some(space)
        }),
    ensures
        ({
            let p = keys_with_value(map_remove(v.tabs.memberships, wid), g)[0];
            let w = v.finalize_native_tab_window_destroy(wid);
            &&& lookup(w.layout, p) == Some(space)
            &&& lookup(w.selection, space) == Some(p)
            &&& has_role(w, p, NativeTabRole::Active)
            &&& (v.window(wid) is Some && !v.tabs.has_pending_destroy(wid.pid, wid)) ==> {
                &&& v.handle_window_destroyed(wid).1
                &&& lookup(v.handle_window_destroyed(wid).0.layout, p) == Some(space)
            }
        }),
{
    let m = map_remove(v.tabs.memberships, wid);
    let p = keys_with_value(m, g)[0];
    crate::store::lemma_keys_with_value(m, g);
    assert(keys_with_value(m, g).contains(p));
    let i = choose|i: int| 0 <= i < m.len() && #[trigger] m[i] == (p, g);
    crate::laws::lemma_filter_contains_iff(v.tabs.memberships, crate::store::key_is_not::<WindowId, u32>(wid));
    assert(m.contains(m[i]));
    assert(p != wid);
    crate::laws::lemma_removal_promotes_survivor(v, wid, g);
    let v1 = v.with_tabs(v.tabs.clear_pending_destroy(wid));
    let removed = v1.tabs.remove_window(wid, v1.windows);
    let v2 = ReactorView { tabs: removed.0, windows: removed.1, ..v1 };
    assert(removed.2 == Some(p));
    let st = v.window(p)->0;
    lemma_map_insert(
        v.windows,
        p,
        crate::model::WindowState {
            native_tab: Some(crate::model::NativeTabMembership { group_id: g, role: NativeTabRole::Active }),
            ..st
        },
    );
    assert(v2.window(p)->0.frame_monotonic == st.frame_monotonic);
    assert(v2.best_space_for_window_id(p) == Some(space));
    assert(v2.window(p)->0.spec_matches_filter(WindowFilter::EffectivelyManageable));
    let w = v.finalize_native_tab_window_destroy(wid);
    assert(w == v2.add_to_layout(space, p));
    lemma_map_insert(v2.layout, p, space);
    lemma_map_insert(v2.selection, space, p);
    if v.window(wid) is Some && !v.tabs.has_pending_destroy(wid.pid, wid) {
        assert(!v.defer_native_tab_window_destroy(wid).1);
        let f = v.handle_window_destroyed(wid).0;
        crate::store::lemma_map_remove(f.layout, wid);
        let u = match w.window(wid) {
            Some(x) => match x.info.sys_id {
                Some(ws) => ReactorView {
                    window_ids: map_remove(w.window_ids, ws),
                    visible_windows: crate::store::set_remove(w.visible_windows, ws),
                    window_server_info: map_remove(w.window_server_info, ws),
                    transactions: map_remove(w.transactions, ws),
                    ..w
                },
                None => w,
            },
            None => w,
        };
        assert(u.layout == w.layout);
        crate::store::lemma_map_remove(u.layout, wid);
    }
}


/// A new window that is a tab candidate (standard, top-level, not minimized),
/// created at a frame matching the shared frame of a group of its
/// application, is recorded but held out of the layout: the layout and its
/// selection are unchanged.
pub proof fn lemma_created_tab_at_group_frame_is_held(
    v: ReactorView,
    wid: WindowId,
    info: WindowInfo,
    ws_info: Option<WindowServerInfo>,
    i: int,
)
    requires
        v.window(wid) is None,
        info.is_standard && info.is_root && !info.is_minimized,
        0 <= i < v.tabs.groups.len(),
        v.tabs.groups[i].1.pid == wid.pid,
        spec_frames_match(v.tabs.groups[i].1.canonical_frame, info.frame),
    ensures
        v.handle_window_created(wid, info, ws_info).layout == v.layout,
        v.handle_window_created(wid, info, ws_info).selection == v.selection,
        v.handle_window_created(wid, info, ws_info).window(wid) is Some,
{
    let v2 = v.record_created_window(wid, info, ws_info);
    let sys_id = match ws_info {
        Some(ws) => Some(ws.id),
        None => info.sys_id,
    };
    let st = crate::window_events::new_window_state(info, sys_id);
    lemma_map_insert(v.windows, wid, st);
    assert(v2.window(wid) == Some(st));
    assert(v2.tabs == v.tabs);
    assert(v2.window_is_native_tab_candidate(wid));
    let q = ReactorView::group_at(wid.pid, st.frame_monotonic);
    assert(q(v2.tabs.groups[i]));
    if !crate::seq_util::any_match(v2.tabs.groups, q) {
        assert(!q(v2.tabs.groups[i]));
    }
    assert(v2.maybe_hold_native_tab_window_created(wid));
}

} // verus!
