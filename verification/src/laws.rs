//! Properties of the native-tab logic that span its operations.
use vstd::prelude::*;

use crate::ids::{spec_frames_match, Pid, Quiet, Rect, Request, SpaceId, WindowId, WindowInfo, WindowServerId, WindowServerInfo};
use crate::managers::selection_rekey;
use crate::model::{NativeTabMembership, NativeTabRole, WindowFilter, WindowState};
use crate::native_tab_manager::{
    appearance_is_fresh, appearance_not_of, appearance_not_of_pid, appearance_of_pid, destroy_is_fresh,
    destroy_not_of_pid, destroy_not_of_window, destroy_of_pid, group_not_of_pid, NativeTabGroup, NativeTabView,
    PendingNativeTabAppearance, PendingNativeTabDestroy,
};
use crate::native_tabs::PENDING_NATIVE_TAB_MAX_AGE_MS;
use crate::reactor::ReactorView;
use crate::testing::entry_keys;
use crate::seq_util::{any_match, first_match, lemma_first_index_none};
use crate::store::{
    elem_is_not, keys_with_value, lemma_map_insert, lemma_map_rekey, lemma_map_remove, lookup, map_insert,
    map_rekey, map_remove, set_insert, set_remove,
};

verus! {

/// Setting a role changes only the membership of that window.
pub proof fn lemma_set_role(v: ReactorView, wid: WindowId, g: u32, role: NativeTabRole)
    ensures
        forall|w: WindowId|
            #![trigger v.set_native_tab_role(wid, g, role).window(w)]
            v.set_native_tab_role(wid, g, role).window(w) == if w == wid && v.window(wid) is Some {
                Some(WindowState { native_tab: Some(NativeTabMembership { group_id: g, role }), ..v.window(wid)->0 })
            } else {
                v.window(w)
            },
        v.set_native_tab_role(wid, g, role).tabs == v.tabs,
        v.set_native_tab_role(wid, g, role).layout == v.layout,
        v.set_native_tab_role(wid, g, role).selection == v.selection,
{
    if let Some(st) = v.window(wid) {
        lemma_map_insert(
            v.windows,
            wid,
            WindowState { native_tab: Some(NativeTabMembership { group_id: g, role }), ..st },
        );
    }
}

/// A tab switch: when `old_wid` and `new_wid` are distinct candidates, after
/// the switch `new_wid` is the tab on screen of the group (the group of
/// `old_wid`, or a new one) and `old_wid` is a hidden tab of it; `new_wid`
/// has the group's frame; and where `old_wid` held a layout slot that
/// `new_wid` did not, `new_wid` holds that slot (and the selection, where
/// `old_wid` was selected) and `old_wid` none.
pub proof fn lemma_tab_switch_outcome(v: ReactorView, old_wid: WindowId, new_wid: WindowId)
    requires
        v.wf(),
        old_wid != new_wid,
        v.activation_allowed(old_wid, new_wid),
    ensures
        ({
            let w = v.activate_native_tab_replacement(old_wid, new_wid);
            let g = v.tabs.group_of_anchor(old_wid);
            let frame = v.activation_frame(old_wid);
            &&& w.window(old_wid) matches Some(o) && o.native_tab == Some(
                NativeTabMembership { group_id: g, role: NativeTabRole::Suppressed },
            )
            &&& w.window(new_wid) matches Some(n) && n.native_tab == Some(
                NativeTabMembership { group_id: g, role: NativeTabRole::Active },
            ) && n.frame_monotonic == frame && n.info.frame == frame
            &&& w.tabs.group(g) == Some(
                NativeTabGroup { pid: old_wid.pid, active: Some(new_wid), canonical_frame: frame },
            )
            &&& w.tabs.group_for_window(old_wid) == Some(g)
            &&& w.tabs.group_for_window(new_wid) == Some(g)
            &&& w.is_native_tab_suppressed(old_wid)
            &&& !w.is_native_tab_suppressed(new_wid)
            &&& (v.has_window_membership(old_wid) && !v.has_window_membership(new_wid)) ==> {
                &&& lookup(w.layout, new_wid) == lookup(v.layout, old_wid)
                &&& lookup(w.layout, old_wid) is None
                &&& forall|s: SpaceId|
                    lookup(v.selection, s) == Some(old_wid) && lookup(v.layout, old_wid) == Some(s)
                        ==> #[trigger] lookup(w.selection, s) == Some(new_wid)
            }
        }),
{
    let frame = v.activation_frame(old_wid);
    let v1 = ReactorView {
        layout: map_rekey(v.layout, old_wid, new_wid),
        selection: selection_rekey(v.layout, v.selection, old_wid, new_wid),
        ..v
    };
    lemma_map_rekey(v.layout, old_wid, new_wid);
    let g = v1.tabs.group_of_anchor(old_wid);
    let t2 = v1.tabs.join(old_wid, new_wid, new_wid, frame);
    let m1 = map_insert(v1.tabs.memberships, old_wid, g);
    lemma_map_insert(v1.tabs.memberships, old_wid, g);
    lemma_map_insert(m1, new_wid, g);
    lemma_map_insert(
        v1.tabs.groups,
        g,
        NativeTabGroup { pid: old_wid.pid, active: Some(new_wid), canonical_frame: frame },
    );
    let v2 = v1.with_tabs(t2);
    let v3a = v2.set_native_tab_role(old_wid, g, NativeTabRole::Suppressed);
    lemma_set_role(v2, old_wid, g, NativeTabRole::Suppressed);
    let v3 = v3a.set_native_tab_role(new_wid, g, NativeTabRole::Active);
    lemma_set_role(v3a, new_wid, g, NativeTabRole::Active);
    let st = v3.window(new_wid)->0;
    let v4 = v3.with_window(
        new_wid,
        WindowState { frame_monotonic: frame, info: WindowInfo { frame, ..st.info }, ..st },
    );
    lemma_map_insert(
        v3.windows,
        new_wid,
        WindowState { frame_monotonic: frame, info: WindowInfo { frame, ..st.info }, ..st },
    );
    let w = v.activate_native_tab_replacement(old_wid, new_wid);
    assert(w.windows == v4.windows);
    assert(w.tabs.groups == t2.groups);
    assert(w.tabs.memberships == t2.memberships);
    assert(w.layout == v1.layout);
    assert(w.selection == v1.selection);
    assert(v2.window(old_wid) is Some);
    assert(v3a.window(old_wid) == Some(
        WindowState {
            native_tab: Some(NativeTabMembership { group_id: g, role: NativeTabRole::Suppressed }),
            ..v2.window(old_wid)->0
        },
    ));
    assert(v3.window(old_wid) == v3a.window(old_wid));
    assert(v4.window(old_wid) == v3.window(old_wid));
    assert(w.window(old_wid) matches Some(o) && o.native_tab == Some(
        NativeTabMembership { group_id: g, role: NativeTabRole::Suppressed },
    ));
    assert(w.window(new_wid) matches Some(n) && n.native_tab == Some(
        NativeTabMembership { group_id: g, role: NativeTabRole::Active },
    ) && n.frame_monotonic == frame && n.info.frame == frame);
    assert(w.tabs.group(g) == Some(
        NativeTabGroup { pid: old_wid.pid, active: Some(new_wid), canonical_frame: frame },
    ));
    assert(w.tabs.group_for_window(old_wid) == Some(g));
    assert(w.tabs.group_for_window(new_wid) == Some(g));
    assert(w.is_native_tab_suppressed(old_wid));
    assert(!w.is_native_tab_suppressed(new_wid));
    if v.has_window_membership(old_wid) && !v.has_window_membership(new_wid) {
        assert(lookup(w.layout, new_wid) == lookup(v.layout, old_wid));
        assert(lookup(w.layout, old_wid) is None);
        let space = lookup(v.layout, old_wid)->0;
        assert forall|s: SpaceId|
            lookup(v.selection, s) == Some(old_wid) && lookup(v.layout, old_wid) == Some(s)
                implies #[trigger] lookup(w.selection, s) == Some(new_wid) by {
            lemma_map_insert(v.selection, space, new_wid);
        }
    }
}

/// A switch that happens settles the pending destroy of the tab it leaves.
pub proof fn lemma_switch_settles_pending_destroy(v: ReactorView, old_wid: WindowId, new_wid: WindowId, pid: Pid)
    requires
        v.activation_allowed(old_wid, new_wid),
    ensures
        !v.try_activate_native_tab_replacement(old_wid, new_wid).tabs.has_pending_destroy(pid, old_wid),
{
    broadcast use vstd::seq_lib::group_filter_ensures;

    let a = v.activate_native_tab_replacement(old_wid, new_wid);
    let s = a.tabs.pending_destroys.filter(destroy_not_of_window(old_wid));
    let w = v.try_activate_native_tab_replacement(old_wid, new_wid);
    assert(w.tabs.pending_destroys == s);
    assert forall|i: int| 0 <= i < s.len() implies (#[trigger] s[i]).window_id != old_wid by {
        a.tabs.pending_destroys.lemma_filter_pred(destroy_not_of_window(old_wid), i);
    }
}

/// A destroy is held back only for a window with a pending destroy.
pub proof fn lemma_defer_needs_pending_destroy(v: ReactorView, wid: WindowId)
    ensures
        v.defer_native_tab_window_destroy(wid).1 ==> v.window_is_native_tab_candidate(wid)
            && v.tabs.has_pending_destroy(wid.pid, wid),
        !v.defer_native_tab_window_destroy(wid).1 ==> v.defer_native_tab_window_destroy(wid).0 == v,
{
}


/// No element of `s` satisfies `p`, so keeping those that do keeps nothing.
pub proof fn lemma_filter_none<A>(s: Seq<A>, p: spec_fn(A) -> bool)
    requires
        forall|i: int| 0 <= i < s.len() ==> !p(#[trigger] s[i]),
    ensures
        s.filter(p).len() == 0,
{
    broadcast use vstd::seq_lib::group_filter_ensures;

    if s.filter(p).len() > 0 {
        s.lemma_filter_pred(p, 0);
        s.lemma_filter_contains_rev(p, s.filter(p)[0]);
        let j = choose|j: int| 0 <= j < s.len() && s[j] == s.filter(p)[0];
        assert(p(s[j]));
    }
}

/// A created window that looks like the new tab of a switch stays out of the
/// layout: the layout and its selection are as before.
pub proof fn lemma_held_window_stays_out_of_layout(
    v: ReactorView,
    wid: WindowId,
    info: WindowInfo,
    ws_info: Option<WindowServerInfo>,
)
    ensures
        v.record_created_window(wid, info, ws_info).maybe_hold_native_tab_window_created(wid) ==> {
            &&& v.handle_window_created(wid, info, ws_info).layout == v.layout
            &&& v.handle_window_created(wid, info, ws_info).selection == v.selection
        },
{
}

/// A destroyed window that is not held back is gone from the windows and from
/// the layout.
pub proof fn lemma_destroyed_window_is_gone(v: ReactorView, wid: WindowId)
    ensures
        v.handle_window_destroyed(wid).1 ==> {
            &&& v.handle_window_destroyed(wid).0.window(wid) is None
            &&& !v.handle_window_destroyed(wid).0.has_window_membership(wid)
        },
{
    if v.handle_window_destroyed(wid).1 {
        let v1 = v.finalize_native_tab_window_destroy(wid);
        let v2 = match v1.window(wid) {
            Some(w) => match w.info.sys_id {
                Some(ws) => ReactorView {
                    window_ids: map_remove(v1.window_ids, ws),
                    visible_windows: set_remove(v1.visible_windows, ws),
                    window_server_info: map_remove(v1.window_server_info, ws),
                    transactions: map_remove(v1.transactions, ws),
                    ..v1
                },
                None => v1,
            },
            None => v1,
        };
        lemma_map_remove(v2.windows, wid);
        lemma_map_remove(v2.layout, wid);
    }
}

/// When an application terminates, nothing of its native tabs remains: no
/// group, no pending destroy or appearance, no transient-empty mark.
pub proof fn lemma_app_terminated_forgets_tabs(v: ReactorView, pid: Pid)
    ensures
        ({
            let w = v.handle_native_tab_app_terminated(pid);
            &&& forall|i: int| 0 <= i < w.tabs.groups.len() ==> (#[trigger] w.tabs.groups[i]).1.pid != pid
            &&& !w.pid_has_native_tab_state(pid)
            &&& !w.tabs.transient_empty_visibility.contains(pid)
        }),
{
    broadcast use vstd::seq_lib::group_filter_ensures;

    let w = v.handle_native_tab_app_terminated(pid);
    let gp = group_not_of_pid(pid);
    assert forall|i: int| 0 <= i < w.tabs.groups.len() implies (#[trigger] w.tabs.groups[i]).1.pid != pid by {
        v.tabs.groups.lemma_filter_pred(gp, i);
    }
    let dp = destroy_not_of_pid(pid);
    let ds = w.tabs.pending_destroys;
    assert forall|i: int| 0 <= i < ds.len() implies !destroy_of_pid(pid)(
        #[trigger] ds[i],
    ) by {
        v.tabs.pending_destroys.lemma_filter_pred(dp, i);
    }
    lemma_filter_none(ds, destroy_of_pid(pid));
    let ap = appearance_not_of_pid(pid);
    let aps = w.tabs.pending_appearances;
    assert forall|i: int| 0 <= i < aps.len() implies !appearance_of_pid(pid)(
        #[trigger] aps[i],
    ) by {
        v.tabs.pending_appearances.lemma_filter_pred(ap, i);
    }
    lemma_filter_none(aps, appearance_of_pid(pid));
    let ts = v.tabs.transient_empty_visibility;
    if w.tabs.transient_empty_visibility.contains(pid) {
        let j = choose|j: int| 0 <= j < w.tabs.transient_empty_visibility.len() && w.tabs.transient_empty_visibility[j] == pid;
        ts.lemma_filter_pred(elem_is_not(pid), j);
    }
}

/// Staging a destroy leaves one record for the window: the new one, last.
pub proof fn lemma_stage_destroy_replaces_record(
    t: NativeTabView,
    wid: WindowId,
    wsid: WindowServerId,
    space: SpaceId,
    frame: Rect,
    now: u64,
)
    ensures
        ({
            let u = t.stage_destroy(wid, wsid, space, frame, now);
            &&& u.pending_destroys.last() == (PendingNativeTabDestroy {
                window_id: wid,
                window_server_id: wsid,
                space_id: space,
                frame,
                staged_at: now,
            })
            &&& forall|i: int| 0 <= i < u.pending_destroys.len() - 1 ==> (#[trigger] u.pending_destroys[i]).window_id != wid
        }),
{
    let u = t.stage_destroy(wid, wsid, space, frame, now);
    let f = t.pending_destroys.filter(destroy_not_of_window(wid));
    assert forall|i: int| 0 <= i < u.pending_destroys.len() - 1 implies (#[trigger] u.pending_destroys[i]).window_id != wid by {
        assert(u.pending_destroys[i] == f[i]);
        t.pending_destroys.lemma_filter_pred(destroy_not_of_window(wid), i);
    }
}

/// When the tab on screen of a group with other members goes, the first
/// remaining member becomes the group's tab on screen, with the active role
/// in its window state.
pub proof fn lemma_removal_promotes_survivor(v: ReactorView, wid: WindowId, g: u32)
    requires
        v.tabs.group_for_window(wid) == Some(g),
        v.tabs.group(g) matches Some(group) && group.active == Some(wid),
    ensures
        ({
            let u = NativeTabView {
                memberships: map_remove(v.tabs.memberships, wid),
                ..v.tabs
            };
            let survivors = u.members(g);
            let w = v.finalize_native_tab_window_destroy(wid);
            survivors.len() > 0 && v.window(survivors[0]) is Some ==> {
                &&& w.tabs.group(g) matches Some(after) && after.active == Some(survivors[0])
                &&& w.window(survivors[0]) matches Some(st) && st.native_tab == Some(
                    NativeTabMembership { group_id: g, role: NativeTabRole::Active },
                )
            }
        }),
{
    let v1 = v.with_tabs(v.tabs.clear_pending_destroy(wid));
    let u = NativeTabView {
        memberships: map_remove(v.tabs.memberships, wid),
        ..v.tabs
    };
    let survivors = u.members(g);
    if survivors.len() > 0 && v.window(survivors[0]) is Some {
        let group = v.tabs.group(g)->0;
        let promoted = survivors[0];
        let st = v.window(promoted)->0;
        let removed = v1.tabs.remove_window(wid, v1.windows);
        assert(keys_with_value(map_remove(v1.tabs.memberships, wid), g) == survivors);
        lemma_map_insert(v.tabs.groups, g, NativeTabGroup { active: Some(promoted), ..group });
        lemma_map_insert(
            v.windows,
            promoted,
            WindowState {
                native_tab: Some(NativeTabMembership { group_id: g, role: NativeTabRole::Active }),
                ..st
            },
        );
        let v2 = ReactorView { tabs: removed.0, windows: removed.1, ..v1 };
        assert(v2.window(promoted) == Some(
            WindowState {
                native_tab: Some(NativeTabMembership { group_id: g, role: NativeTabRole::Active }),
                ..st
            },
        ));
        assert(v2.tabs.group(g) == Some(NativeTabGroup { active: Some(promoted), ..group }));
        let w = v.finalize_native_tab_window_destroy(wid);
        if !v2.has_window_membership(promoted) {
            match v2.best_space_for_window_id(promoted) {
                Some(space) => {
                    if (match v2.window(promoted) {
                        Some(x) => x.spec_matches_filter(WindowFilter::EffectivelyManageable),
                        None => false,
                    }) {
                        assert(w == v2.add_to_layout(space, promoted));
                    }
                },
                None => {},
            }
        }
        assert(w.windows == v2.windows);
        assert(w.tabs == v2.tabs);
    }
}

/// Every member of a group keeps the frame its tab on screen moved to.
pub proof fn lemma_sync_members_frames(
    v: ReactorView,
    members: Seq<WindowId>,
    active_wid: WindowId,
    frame: Rect,
    sync: bool,
)
    ensures
        ({
            let w = v.sync_members(members, active_wid, frame, sync);
            &&& forall|x: WindowId| #[trigger] w.window(x) is Some == v.window(x) is Some
            &&& forall|x: WindowId|
                members.contains(x) && v.window(x) is Some ==> (#[trigger] w.window(x))->0.frame_monotonic
                    == frame && w.window(x)->0.info.frame == frame
            &&& forall|x: WindowId| !members.contains(x) ==> #[trigger] w.window(x) == v.window(x)
        }),
    decreases members.len(),
{
    if members.len() > 0 {
        let rest = members.drop_last();
        let x0 = members.last();
        lemma_sync_members_frames(v, rest, active_wid, frame, sync);
        let r = v.sync_members(rest, active_wid, frame, sync);
        let w = v.sync_members(members, active_wid, frame, sync);
        let a = match r.window(x0) {
            Some(st) => r.with_window(
                x0,
                WindowState { frame_monotonic: frame, info: WindowInfo { frame, ..st.info }, ..st },
            ),
            None => r,
        };
        if let Some(st) = r.window(x0) {
            lemma_map_insert(
                r.windows,
                x0,
                WindowState { frame_monotonic: frame, info: WindowInfo { frame, ..st.info }, ..st },
            );
        }
        let b = if !sync || x0 == active_wid {
            a
        } else {
            a.request_native_tab_member_frame_sync(x0, frame)
        };
        assert(b.windows == a.windows);
        assert(w == b);
        assert(w.windows == a.windows);
        assert forall|x: WindowId| members.contains(x) && v.window(x) is Some implies (#[trigger] w.window(x))->0.frame_monotonic
            == frame && w.window(x)->0.info.frame == frame by {
            assert(r.window(x) is Some);
            assert(w.window(x) == a.window(x));
            if x != x0 {
                let j = choose|j: int| 0 <= j < members.len() && members[j] == x;
                assert(j != members.len() - 1);
                assert(rest[j] == x);
                assert(rest.contains(x));
                assert(a.window(x) == r.window(x));
            } else {
                assert(a.window(x0) == Some(
                    WindowState {
                        frame_monotonic: frame,
                        info: WindowInfo { frame, ..r.window(x0)->0.info },
                        ..r.window(x0)->0
                    },
                ));
            }
        }
        assert forall|x: WindowId| #[trigger] w.window(x) is Some == v.window(x) is Some by {
            assert(w.window(x) == a.window(x));
            assert(r.window(x) is Some == v.window(x) is Some);
        }
        assert forall|x: WindowId| !members.contains(x) implies #[trigger] w.window(x) == v.window(x) by {
            if rest.contains(x) {
                let j = choose|j: int| 0 <= j < rest.len() && rest[j] == x;
                assert(members[j] == x);
            }
            assert(members[members.len() - 1] == x0);
            assert(x != x0);
            assert(w.window(x) == a.window(x));
            assert(a.window(x) == r.window(x));
            assert(r.window(x) == v.window(x));
        }
    }
}

/// After the tab on screen of a group moves, every known member of the group
/// is at its frame.
pub proof fn lemma_group_follows_active_frame(
    v: ReactorView,
    active_wid: WindowId,
    frame: Rect,
    membership: NativeTabMembership,
    sync: bool,
)
    requires
        membership.role == NativeTabRole::Active,
        v.tabs.group(membership.group_id) is Some,
    ensures
        forall|x: WindowId|
            #![trigger v.sync_native_tab_group_frame(active_wid, frame, Some(membership), sync).window(x)]
            v.tabs.members(membership.group_id).contains(x) && v.window(x) is Some ==> {
                let w = v.sync_native_tab_group_frame(active_wid, frame, Some(membership), sync);
                &&& w.window(x) is Some
                &&& w.window(x)->0.frame_monotonic == frame
                &&& w.window(x)->0.info.frame == frame
            },
{
    lemma_sync_members_frames(v, v.tabs.members(membership.group_id), active_wid, frame, sync);
}


/// A main-window report of a quiet event changes nothing; a report that the
/// application has no main window changes nothing but the application's
/// transient-empty mark, which it sets where the application has native-tab
/// state.
pub proof fn lemma_empty_main_window_keeps_tab_state(v: ReactorView, pid: Pid, wid: Option<WindowId>, quiet: Quiet)
    ensures
        quiet == Quiet::Yes ==> v.handle_native_tab_main_window_changed(pid, wid, quiet) == v,
        wid is None ==> ({
            let w = v.handle_native_tab_main_window_changed(pid, wid, quiet);
            &&& w == ReactorView {
                tabs: NativeTabView {
                    transient_empty_visibility: w.tabs.transient_empty_visibility,
                    ..v.tabs
                },
                ..v
            }
            &&& (quiet == Quiet::No && v.pid_has_native_tab_state(pid))
                ==> w.tabs.transient_empty_visibility.contains(pid)
        }),
{
    if quiet == Quiet::No && v.pid_has_native_tab_state(pid) && wid is None {
        let t = v.tabs.transient_empty_visibility;
        if !t.contains(pid) {
            assert(t.push(pid)[t.len() as int] == pid);
        }
    }
}

/// The WindowServer window of a laid-out window that belongs to no group,
/// appearing while its application has no pending destroy, is no tab switch:
/// nothing is staged for it, and the windows, the layout and the groups are
/// as before.
pub proof fn lemma_known_window_appearance_is_no_tab_signal(
    v: ReactorView,
    wsid: WindowServerId,
    sid: SpaceId,
    info: WindowServerInfo,
)
    requires
        v.window_for_server_id(wsid) matches Some(wid) && v.tabs.group_for_window(wid) is None
            && v.has_window_membership(wid),
        v.tabs.pending_destroys_for_pid(info.pid).len() == 0,
    ensures
        ({
            let (w, switched) = v.note_native_tab_appearance(wsid, sid, info);
            &&& !switched
            &&& w.windows == v.windows
            &&& w.layout == v.layout
            &&& w.selection == v.selection
            &&& w.tabs.groups == v.tabs.groups
            &&& w.tabs.memberships == v.tabs.memberships
            &&& !w.tabs.has_pending_appearance(info.pid, wsid)
        }),
{
    broadcast use vstd::seq_lib::group_filter_ensures;

    let wid = v.window_for_server_id(wsid)->0;
    let v1 = ReactorView {
        visible_windows: set_insert(v.visible_windows, wsid),
        window_server_info: map_insert(v.window_server_info, wsid, info),
        ..v
    };
    let v2 = v1.with_tabs(v1.tabs.clear_pending_appearance(info.pid, wsid));
    lemma_first_index_none(
        v2.tabs.pending_destroys_for_pid(info.pid),
        v2.pending_replacement(info.pid, wid, sid, info.frame),
    );
    assert(v2.pending_native_tab_replacement_for(info.pid, wid, sid, info.frame) is None);
    let (w, switched) = v.note_native_tab_appearance(wsid, sid, info);
    assert(w == v2);
    let aps = v1.tabs.pending_appearances;
    let f = aps.filter(appearance_not_of(info.pid, wsid));
    if w.tabs.has_pending_appearance(info.pid, wsid) {
        let i = choose|i: int| 0 <= i < f.len() && #[trigger] f[i].pid == info.pid && f[i].wsid == wsid;
        aps.lemma_filter_pred(appearance_not_of(info.pid, wsid), i);
    }
}


/// Every pending destroy and appearance of `t` was staged no longer than the
/// maximum age before `now`.
pub open spec fn pending_records_fresh(t: NativeTabView, now: u64) -> bool {
    &&& forall|i: int|
        #![trigger t.pending_destroys[i]]
        0 <= i < t.pending_destroys.len() ==> destroy_is_fresh(now, PENDING_NATIVE_TAB_MAX_AGE_MS)(
            t.pending_destroys[i],
        )
    &&& forall|i: int|
        #![trigger t.pending_appearances[i]]
        0 <= i < t.pending_appearances.len() ==> appearance_is_fresh(now, PENDING_NATIVE_TAB_MAX_AGE_MS)(
            t.pending_appearances[i],
        )
}

/// The pending destroys and appearances of `a` and `b` are the same.
pub open spec fn same_pending_records(a: NativeTabView, b: NativeTabView) -> bool {
    a.pending_destroys == b.pending_destroys && a.pending_appearances == b.pending_appearances
}

/// What every element of `s` satisfies, every element kept by a filter does.
proof fn lemma_filter_keeps<A>(s: Seq<A>, p: spec_fn(A) -> bool, q: spec_fn(A) -> bool)
    requires
        forall|i: int| 0 <= i < s.len() ==> q(#[trigger] s[i]),
    ensures
        forall|i: int| 0 <= i < s.filter(p).len() ==> q(#[trigger] s.filter(p)[i]),
{
    assert forall|i: int| 0 <= i < s.filter(p).len() implies q(#[trigger] s.filter(p)[i]) by {
        s.lemma_filter_contains_rev(p, s.filter(p)[i]);
        let j = choose|j: int| 0 <= j < s.len() && s[j] == s.filter(p)[i];
        assert(q(s[j]));
    }
}

proof fn lemma_fresh_clear_destroy(t: NativeTabView, wid: WindowId, now: u64)
    requires
        pending_records_fresh(t, now),
    ensures
        pending_records_fresh(t.clear_pending_destroy(wid), now),
{
    lemma_filter_keeps(
        t.pending_destroys,
        destroy_not_of_window(wid),
        destroy_is_fresh(now, PENDING_NATIVE_TAB_MAX_AGE_MS),
    );
}

proof fn lemma_fresh_clear_appearance(t: NativeTabView, pid: Pid, wsid: WindowServerId, now: u64)
    requires
        pending_records_fresh(t, now),
    ensures
        pending_records_fresh(t.clear_pending_appearance(pid, wsid), now),
{
    lemma_filter_keeps(
        t.pending_appearances,
        appearance_not_of(pid, wsid),
        appearance_is_fresh(now, PENDING_NATIVE_TAB_MAX_AGE_MS),
    );
}

/// A switch stages and drops no pending record.
proof fn lemma_activate_keeps_records(v: ReactorView, old_wid: WindowId, new_wid: WindowId)
    ensures
        same_pending_records(v.activate_native_tab_replacement(old_wid, new_wid).tabs, v.tabs),
{
}

proof fn lemma_fresh_try_activate(v: ReactorView, old_wid: WindowId, new_wid: WindowId, now: u64)
    requires
        pending_records_fresh(v.tabs, now),
    ensures
        pending_records_fresh(v.try_activate_native_tab_replacement(old_wid, new_wid).tabs, now),
{
    lemma_activate_keeps_records(v, old_wid, new_wid);
    let a = v.activate_native_tab_replacement(old_wid, new_wid);
    lemma_fresh_clear_destroy(a.tabs, old_wid, now);
}

proof fn lemma_fresh_clear_appearance_of_window(v: ReactorView, pid: Pid, w: WindowId, now: u64)
    requires
        pending_records_fresh(v.tabs, now),
    ensures
        pending_records_fresh(v.clear_appearance_of_window(pid, w).tabs, now),
{
    if let Some(st) = v.window(w) {
        if let Some(ws) = st.info.sys_id {
            lemma_fresh_clear_appearance(v.tabs, pid, ws, now);
        }
    }
}

proof fn lemma_fresh_window_destroyed(v: ReactorView, wid: WindowId, now: u64)
    requires
        pending_records_fresh(v.tabs, now),
    ensures
        pending_records_fresh(v.handle_window_destroyed(wid).0.tabs, now),
{
    lemma_fresh_clear_destroy(v.tabs, wid, now);
    let v1 = v.with_tabs(v.tabs.clear_pending_destroy(wid));
    assert(same_pending_records(v1.tabs.remove_window(wid, v1.windows).0, v1.tabs));
}

proof fn lemma_fresh_reconcile_appearances(v: ReactorView, pid: Pid, s: Seq<PendingNativeTabAppearance>, now: u64)
    requires
        pending_records_fresh(v.tabs, now),
    ensures
        pending_records_fresh(v.reconcile_appearances(pid, s).tabs, now),
    decreases s.len(),
{
    if s.len() > 0 {
        lemma_fresh_reconcile_appearances(v, pid, s.drop_last(), now);
        let r = v.reconcile_appearances(pid, s.drop_last());
        let a = s.last();
        if r.tabs.has_pending_appearance(pid, a.wsid) {
            if let Some(wid) = r.window_for_server_id(a.wsid) {
                if let Some(old_active) = r.pending_native_tab_replacement_for(pid, wid, a.space, a.frame) {
                    lemma_fresh_try_activate(r, old_active, wid, now);
                    let t = r.try_activate_native_tab_replacement(old_active, wid);
                    lemma_fresh_clear_appearance(t.tabs, pid, a.wsid, now);
                }
            }
        }
    }
}

proof fn lemma_fresh_reconcile_destroys(
    v: ReactorView,
    pid: Pid,
    known_visible: Seq<WindowId>,
    s: Seq<PendingNativeTabDestroy>,
    now: u64,
)
    requires
        pending_records_fresh(v.tabs, now),
    ensures
        pending_records_fresh(v.reconcile_destroys(pid, known_visible, s).tabs, now),
    decreases s.len(),
{
    if s.len() > 0 {
        lemma_fresh_reconcile_destroys(v, pid, known_visible, s.drop_last(), now);
        let r = v.reconcile_destroys(pid, known_visible, s.drop_last());
        let d = s.last();
        let replacement = first_match(known_visible, r.destroy_replacement(d));
        let grouped = r.grouped_native_tab_replacement_for(d.window_id, known_visible);
        if replacement is Some {
            lemma_fresh_try_activate(r, d.window_id, replacement->0, now);
            let t = r.try_activate_native_tab_replacement(d.window_id, replacement->0);
            lemma_fresh_clear_appearance_of_window(t, pid, replacement->0, now);
        }
        if grouped is Some {
            lemma_fresh_try_activate(r, d.window_id, grouped->0, now);
            let t = r.try_activate_native_tab_replacement(d.window_id, grouped->0);
            lemma_fresh_clear_appearance_of_window(t, pid, grouped->0, now);
            lemma_fresh_window_destroyed(t, d.window_id, now);
        }
        lemma_fresh_clear_destroy(r.tabs, d.window_id, now);
        let c = r.with_tabs(r.tabs.clear_pending_destroy(d.window_id));
        lemma_fresh_window_destroyed(c, d.window_id, now);
    }
}

proof fn lemma_fresh_clear_stale(v: ReactorView, pid: Pid, s: Seq<PendingNativeTabAppearance>, now: u64)
    requires
        pending_records_fresh(v.tabs, now),
    ensures
        pending_records_fresh(v.clear_stale_fold(pid, s).tabs, now),
    decreases s.len(),
{
    if s.len() > 0 {
        lemma_fresh_clear_stale(v, pid, s.drop_last(), now);
        let r = v.clear_stale_fold(pid, s.drop_last());
        lemma_fresh_clear_appearance(r.tabs, pid, s.last().wsid, now);
    }
}

proof fn lemma_background_members_keep_records(v: ReactorView, aw: WindowId, frame: Rect, s: Seq<WindowId>)
    ensures
        same_pending_records(v.background_members(aw, frame, s).tabs, v.tabs),
    decreases s.len(),
{
    if s.len() > 0 {
        lemma_background_members_keep_records(v, aw, frame, s.drop_last());
    }
}

proof fn lemma_adopt_keeps_records(v: ReactorView, known_visible: Seq<WindowId>, s: Seq<WindowId>)
    ensures
        same_pending_records(v.adopt_all(known_visible, s).tabs, v.tabs),
    decreases s.len(),
{
    if s.len() > 0 {
        lemma_adopt_keeps_records(v, known_visible, s.drop_last());
        let r = v.adopt_all(known_visible, s.drop_last());
        if let Some(st) = r.window(s.last()) {
            lemma_background_members_keep_records(r, s.last(), st.frame_monotonic, known_visible);
        }
    }
}

/// After reconciling an application's tabs, no pending destroy or appearance
/// older than `PENDING_NATIVE_TAB_MAX_AGE_MS` at the reactor's clock is left.
pub proof fn lemma_reconcile_leaves_only_fresh_records(v: ReactorView, pid: Pid, known_visible: Seq<WindowId>)
    ensures
        pending_records_fresh(v.reconcile_native_tabs_for_pid(pid, known_visible).tabs, v.now_ms),
{
    broadcast use vstd::seq_lib::group_filter_ensures;

    let now = v.now_ms;
    let v0 = v.with_tabs(v.tabs.purge_expired(now, PENDING_NATIVE_TAB_MAX_AGE_MS));
    assert(pending_records_fresh(v0.tabs, now));
    lemma_fresh_reconcile_appearances(v0, pid, v0.tabs.pending_appearances_for_pid(pid), now);
    let v1 = v0.reconcile_appearances(pid, v0.tabs.pending_appearances_for_pid(pid));
    lemma_fresh_reconcile_destroys(v1, pid, known_visible, v1.tabs.pending_destroys_for_pid(pid), now);
    let v2 = v1.reconcile_destroys(pid, known_visible, v1.tabs.pending_destroys_for_pid(pid));
    lemma_fresh_clear_stale(v2, pid, v2.tabs.pending_appearances_for_pid(pid), now);
    let v3 = if known_visible.len() == 0 && v2.tabs.pending_destroys_for_pid(pid).len() == 0 {
        v2.clear_stale_pending_native_tab_appearances_for_pid(pid)
    } else {
        v2
    };
    lemma_adopt_keeps_records(v3, known_visible, v3.active_windows_of(pid, v3.visible_windows));
}


/// The WindowServer window of no known window appearing is recorded as a
/// pending appearance, once: the new record comes last and no other record
/// names the same application and WindowServer window. The window becomes
/// visible, and the windows and the layout are as before.
pub proof fn lemma_unknown_appearance_is_staged_once(
    v: ReactorView,
    wsid: WindowServerId,
    sid: SpaceId,
    info: WindowServerInfo,
)
    requires
        v.window_for_server_id(wsid) is None,
    ensures
        ({
            let (w, switched) = v.note_native_tab_appearance(wsid, sid, info);
            let a = w.tabs.pending_appearances;
            &&& !switched
            &&& a.last() == (PendingNativeTabAppearance {
                wsid,
                pid: info.pid,
                space: sid,
                frame: info.frame,
                staged_at: v.now_ms,
            })
            &&& forall|i: int|
                0 <= i < a.len() - 1 ==> !((#[trigger] a[i]).pid == info.pid && a[i].wsid == wsid)
            &&& w.is_visible(wsid)
            &&& w.windows == v.windows
            &&& w.layout == v.layout
        }),
{
    let (w, switched) = v.note_native_tab_appearance(wsid, sid, info);
    let a = w.tabs.pending_appearances;
    let f = v.tabs.pending_appearances.filter(appearance_not_of(info.pid, wsid));
    assert forall|i: int| 0 <= i < a.len() - 1 implies !((#[trigger] a[i]).pid == info.pid && a[i].wsid == wsid) by {
        assert(a[i] == f[i]);
        v.tabs.pending_appearances.lemma_filter_pred(appearance_not_of(info.pid, wsid), i);
    }
    let vis = v.visible_windows;
    if !vis.contains(wsid) {
        assert(vis.push(wsid)[vis.len() as int] == wsid);
    }
}


/// An element is kept by a filter exactly when it is in the sequence and
/// satisfies the predicate.
pub proof fn lemma_filter_contains_iff<A>(s: Seq<A>, p: spec_fn(A) -> bool)
    ensures
        forall|x: A| #[trigger] s.filter(p).contains(x) <==> s.contains(x) && p(x),
{
    broadcast use vstd::seq_lib::group_filter_ensures;

    assert forall|x: A| #[trigger] s.filter(p).contains(x) <==> s.contains(x) && p(x) by {
        if s.filter(p).contains(x) {
            s.lemma_filter_contains_rev(p, x);
            let i = choose|i: int| 0 <= i < s.filter(p).len() && s.filter(p)[i] == x;
            s.lemma_filter_pred(p, i);
        }
        if s.contains(x) && p(x) {
            let i = choose|i: int| 0 <= i < s.len() && s[i] == x;
            s.lemma_filter_contains(p, i);
        }
    }
}

/// `x` is the WindowServer window of one of the appearances `s`.
pub open spec fn names_server_window(s: Seq<PendingNativeTabAppearance>, x: WindowServerId) -> bool {
    exists|i: int| 0 <= i < s.len() && (#[trigger] s[i]).wsid == x
}

/// `x` is the WindowServer window of one of the appearances `s` and no window
/// of `v` has it.
pub open spec fn stale_unmapped(v: ReactorView, s: Seq<PendingNativeTabAppearance>, x: WindowServerId) -> bool {
    names_server_window(s, x) && v.window_for_server_id(x) is None
}

/// Dropping the appearances `s` of `pid`: an appearance stays exactly when it
/// is not one of `pid` naming a WindowServer window of `s`; a WindowServer
/// window of `s` that maps to no window is no longer visible, described or
/// observed, and every other is as before; the windows, their WindowServer
/// ids, the layout, the groups and the pending destroys are unchanged.
pub proof fn lemma_clear_stale_fold(v: ReactorView, pid: Pid, s: Seq<PendingNativeTabAppearance>)
    ensures
        ({
            let w = v.clear_stale_fold(pid, s);
            &&& w.windows == v.windows
            &&& w.window_ids == v.window_ids
            &&& w.layout == v.layout
            &&& w.tabs.groups == v.tabs.groups
            &&& w.tabs.memberships == v.tabs.memberships
            &&& w.tabs.pending_destroys == v.tabs.pending_destroys
            &&& forall|a: PendingNativeTabAppearance|
                #[trigger] w.tabs.pending_appearances.contains(a) <==> v.tabs.pending_appearances.contains(a)
                    && !(a.pid == pid && names_server_window(s, a.wsid))
            &&& forall|x: WindowServerId|
                #[trigger] w.is_visible(x) <==> v.is_visible(x) && !stale_unmapped(v, s, x)
            &&& forall|x: WindowServerId|
                #[trigger] w.observed_window_server_ids.contains(x) <==> v.observed_window_server_ids.contains(x)
                    && !stale_unmapped(v, s, x)
            &&& forall|x: WindowServerId|
                #[trigger] lookup(w.window_server_info, x) == if stale_unmapped(v, s, x) {
                    None
                } else {
                    lookup(v.window_server_info, x)
                }
        }),
    decreases s.len(),
{
    if s.len() > 0 {
        let s0 = s.drop_last();
        let a = s.last();
        lemma_clear_stale_fold(v, pid, s0);
        let r = v.clear_stale_fold(pid, s0);
        let u = if r.window_for_server_id(a.wsid) is None {
            ReactorView {
                visible_windows: set_remove(r.visible_windows, a.wsid),
                window_server_info: map_remove(r.window_server_info, a.wsid),
                observed_window_server_ids: set_remove(r.observed_window_server_ids, a.wsid),
                ..r
            }
        } else {
            r
        };
        let w = v.clear_stale_fold(pid, s);
        assert(w == u.with_tabs(u.tabs.clear_pending_appearance(pid, a.wsid)));
        lemma_filter_contains_iff(r.visible_windows, elem_is_not(a.wsid));
        lemma_filter_contains_iff(r.observed_window_server_ids, elem_is_not(a.wsid));
        lemma_map_remove(r.window_server_info, a.wsid);
        lemma_filter_contains_iff(r.tabs.pending_appearances, appearance_not_of(pid, a.wsid));
        assert forall|x: WindowServerId| #[trigger] names_server_window(s, x) <==> names_server_window(s0, x) || a.wsid == x by {
            if names_server_window(s0, x) {
                let i = choose|i: int| 0 <= i < s0.len() && (#[trigger] s0[i]).wsid == x;
                assert(s[i] == s0[i]);
            }
            if a.wsid == x {
                assert(s[s.len() - 1] == a);
            }
            if names_server_window(s, x) && !names_server_window(s0, x) {
                let i = choose|i: int| 0 <= i < s.len() && (#[trigger] s[i]).wsid == x;
                if i < s.len() - 1 {
                    assert(s0[i] == s[i]);
                }
            }
        }
        assert forall|x: WindowServerId| #[trigger] w.is_visible(x) <==> v.is_visible(x) && !stale_unmapped(v, s, x) by {
            assert(names_server_window(s, x) <==> names_server_window(s0, x) || a.wsid == x);
            assert(r.is_visible(x) <==> v.is_visible(x) && !stale_unmapped(v, s0, x));
        }
        assert forall|x: WindowServerId|
            #[trigger] w.observed_window_server_ids.contains(x) <==> v.observed_window_server_ids.contains(x)
                && !stale_unmapped(v, s, x) by {
            assert(names_server_window(s, x) <==> names_server_window(s0, x) || a.wsid == x);
            assert(r.observed_window_server_ids.contains(x) <==> v.observed_window_server_ids.contains(x)
                && !stale_unmapped(v, s0, x));
        }
        assert forall|x: WindowServerId|
            #[trigger] lookup(w.window_server_info, x) == if stale_unmapped(v, s, x) {
                None
            } else {
                lookup(v.window_server_info, x)
            } by {
            assert(names_server_window(s, x) <==> names_server_window(s0, x) || a.wsid == x);
            assert(lookup(r.window_server_info, x) == if stale_unmapped(v, s0, x) {
                None
            } else {
                lookup(v.window_server_info, x)
            });
        }
        assert forall|b: PendingNativeTabAppearance|
            #[trigger] w.tabs.pending_appearances.contains(b) <==> v.tabs.pending_appearances.contains(b)
                && !(b.pid == pid && names_server_window(s, b.wsid)) by {
            assert(names_server_window(s, b.wsid) <==> names_server_window(s0, b.wsid) || a.wsid == b.wsid);
            assert(r.tabs.pending_appearances.contains(b) <==> v.tabs.pending_appearances.contains(b)
                && !(b.pid == pid && names_server_window(s0, b.wsid)));
        }
    }
}

/// Dropping the stale appearances of `pid` leaves none of them: no pending
/// appearance of `pid` remains, and those of other applications stay. A
/// WindowServer window of one of them that maps to no window is no longer
/// visible, described or observed; every other WindowServer window keeps its
/// visibility, description and observation. The windows, the layout, the
/// groups and the pending destroys are unchanged.
pub proof fn lemma_clear_stale_leaves_no_appearance(v: ReactorView, pid: Pid)
    ensures
        ({
            let s = v.tabs.pending_appearances_for_pid(pid);
            let w = v.clear_stale_pending_native_tab_appearances_for_pid(pid);
            &&& w.tabs.pending_appearances_for_pid(pid).len() == 0
            &&& forall|a: PendingNativeTabAppearance|
                a.pid != pid ==> (#[trigger] w.tabs.pending_appearances.contains(a)
                    <==> v.tabs.pending_appearances.contains(a))
            &&& forall|x: WindowServerId|
                #[trigger] w.is_visible(x) <==> v.is_visible(x) && !stale_unmapped(v, s, x)
            &&& forall|x: WindowServerId|
                #[trigger] w.observed_window_server_ids.contains(x) <==> v.observed_window_server_ids.contains(x)
                    && !stale_unmapped(v, s, x)
            &&& forall|x: WindowServerId|
                #[trigger] lookup(w.window_server_info, x) == if stale_unmapped(v, s, x) {
                    None
                } else {
                    lookup(v.window_server_info, x)
                }
            &&& w.windows == v.windows
            &&& w.window_ids == v.window_ids
            &&& w.layout == v.layout
            &&& w.tabs.groups == v.tabs.groups
            &&& w.tabs.pending_destroys == v.tabs.pending_destroys
        }),
{
    broadcast use vstd::seq_lib::group_filter_ensures;

    let s = v.tabs.pending_appearances_for_pid(pid);
    let w = v.clear_stale_pending_native_tab_appearances_for_pid(pid);
    lemma_clear_stale_fold(v, pid, s);
    lemma_filter_contains_iff(v.tabs.pending_appearances, appearance_of_pid(pid));
    let ws = w.tabs.pending_appearances;
    assert forall|i: int| 0 <= i < ws.len() implies !appearance_of_pid(pid)(#[trigger] ws[i]) by {
        let b = ws[i];
        assert(ws.contains(b));
        if b.pid == pid {
            assert(v.tabs.pending_appearances.contains(b));
            assert(s.contains(b));
            let j = choose|j: int| 0 <= j < s.len() && s[j] == b;
            assert(names_server_window(s, b.wsid));
        }
    }
    lemma_filter_none(ws, appearance_of_pid(pid));
}


/// A reconcile that reports no visible window and leaves no pending destroy
/// of `pid` leaves no pending appearance of `pid` either.
pub proof fn lemma_empty_reconcile_clears_appearances(v: ReactorView, pid: Pid, known_visible: Seq<WindowId>)
    requires
        known_visible.len() == 0,
    ensures
        ({
            let w = v.reconcile_native_tabs_for_pid(pid, known_visible);
            w.tabs.pending_destroys_for_pid(pid).len() == 0 ==> w.tabs.pending_appearances_for_pid(pid).len() == 0
        }),
{
    let v0 = v.with_tabs(v.tabs.purge_expired(v.now_ms, PENDING_NATIVE_TAB_MAX_AGE_MS));
    let v1 = v0.reconcile_appearances(pid, v0.tabs.pending_appearances_for_pid(pid));
    let v2 = v1.reconcile_destroys(pid, known_visible, v1.tabs.pending_destroys_for_pid(pid));
    lemma_clear_stale_leaves_no_appearance(v2, pid);
    let v3 = if known_visible.len() == 0 && v2.tabs.pending_destroys_for_pid(pid).len() == 0 {
        v2.clear_stale_pending_native_tab_appearances_for_pid(pid)
    } else {
        v2
    };
    assert(v3.tabs.pending_destroys == v2.tabs.pending_destroys);
    lemma_adopt_keeps_records(v3, known_visible, v3.active_windows_of(pid, v3.visible_windows));
}


/// The members of `members` that a group frame sync asks to move: all but
/// the active tab, of applications the reactor knows.
pub open spec fn frame_sync_targets(apps: Seq<Pid>, members: Seq<WindowId>, active_wid: WindowId) -> Seq<WindowId> {
    members.filter(is_frame_sync_target(apps, active_wid))
}

/// A member other than the active tab, of an application the reactor knows.
pub open spec fn is_frame_sync_target(apps: Seq<Pid>, active_wid: WindowId) -> spec_fn(WindowId) -> bool {
    |m: WindowId| m != active_wid && apps.contains(m.pid)
}

/// The request, sent to the application of `wid`, asks `wid` to take `frame`
/// as a tab-group sync.
pub open spec fn is_member_sync(r: (Pid, Request), wid: WindowId, frame: Rect) -> bool {
    r.0 == wid.pid && match r.1 {
        Request::SetWindowFrame(w, f, _, sync) => w == wid && f == frame && sync,
    }
}

/// Moving `members` to `frame` sends, when positions are synced, one request
/// per member other than the active tab whose application is known, in member
/// order and after the earlier requests; when they are not, no request.
pub proof fn lemma_sync_members_requests(
    v: ReactorView,
    members: Seq<WindowId>,
    active_wid: WindowId,
    frame: Rect,
    sync: bool,
)
    ensures
        ({
            let w = v.sync_members(members, active_wid, frame, sync);
            let t = frame_sync_targets(v.apps, members, active_wid);
            &&& w.apps == v.apps
            &&& !sync ==> w.requests == v.requests
            &&& sync ==> {
                &&& w.requests.len() == v.requests.len() + t.len()
                &&& w.requests.take(v.requests.len() as int) == v.requests
                &&& forall|i: int|
                    0 <= i < t.len() ==> is_member_sync(#[trigger] w.requests[v.requests.len() + i], t[i], frame)
            }
        }),
    decreases members.len(),
{
    if members.len() > 0 {
        let rest = members.drop_last();
        let x = members.last();
        lemma_sync_members_requests(v, rest, active_wid, frame, sync);
        let r = v.sync_members(rest, active_wid, frame, sync);
        let p = is_frame_sync_target(v.apps, active_wid);
        assert(members == rest.push(x));
        rest.lemma_filter_push(x, p);
        let t0 = frame_sync_targets(v.apps, rest, active_wid);
        let t = frame_sync_targets(v.apps, members, active_wid);
        let a = match r.window(x) {
            Some(st) => r.with_window(
                x,
                WindowState { frame_monotonic: frame, info: WindowInfo { frame, ..st.info }, ..st },
            ),
            None => r,
        };
        let w = v.sync_members(members, active_wid, frame, sync);
        if sync && p(x) {
            assert(w == a.request_native_tab_member_frame_sync(x, frame));
            assert(a.has_app(x.pid));
            assert(t == t0.push(x));
            assert(w.requests.len() == r.requests.len() + 1);
            assert forall|i: int| 0 <= i < t.len() implies is_member_sync(#[trigger] w.requests[v.requests.len() + i], t[i], frame) by {
                if i < t0.len() {
                    assert(w.requests[v.requests.len() + i] == r.requests[v.requests.len() + i]);
                }
            }
            assert(w.requests.take(v.requests.len() as int) =~= v.requests) by {
                assert forall|j: int| 0 <= j < v.requests.len() implies w.requests[j] == v.requests[j] by {
                    assert(r.requests.take(v.requests.len() as int)[j] == v.requests[j]);
                }
            }
        } else if sync {
            assert(t == t0);
            if x != active_wid {
                assert(!a.has_app(x.pid));
            }
            assert(w.requests == r.requests);
        } else {
            assert(w.requests == r.requests);
        }
    } else {
        assert(v.requests.take(v.requests.len() as int) =~= v.requests);
    }
}

/// Syncing the frame of a group: where `membership` is not an active
/// membership of an existing group nothing changes; otherwise every known
/// member takes `frame`, and, when positions are synced, exactly the members
/// other than `active_wid` whose application is known are asked to move to
/// `frame`, in member order.
pub proof fn lemma_group_sync_requests(
    v: ReactorView,
    active_wid: WindowId,
    frame: Rect,
    membership: Option<NativeTabMembership>,
    sync: bool,
)
    ensures
        ({
            let w = v.sync_native_tab_group_frame(active_wid, frame, membership, sync);
            match membership {
                Some(m) => if m.role == NativeTabRole::Active && v.tabs.group(m.group_id) is Some {
                    let t = frame_sync_targets(v.apps, v.tabs.members(m.group_id), active_wid);
                    &&& forall|x: WindowId|
                        v.tabs.members(m.group_id).contains(x) && v.window(x) is Some
                            ==> (#[trigger] w.window(x))->0.frame_monotonic == frame && w.window(x)->0.info.frame
                            == frame
                    &&& !sync ==> w.requests == v.requests
                    &&& sync ==> {
                        &&& w.requests.len() == v.requests.len() + t.len()
                        &&& w.requests.take(v.requests.len() as int) == v.requests
                        &&& forall|i: int|
                            0 <= i < t.len() ==> is_member_sync(
                                #[trigger] w.requests[v.requests.len() + i],
                                t[i],
                                frame,
                            )
                    }
                } else {
                    w == v
                },
                None => w == v,
            }
        }),
{
    if let Some(m) = membership {
        if m.role == NativeTabRole::Active && v.tabs.group(m.group_id) is Some {
            lemma_sync_members_frames(v, v.tabs.members(m.group_id), active_wid, frame, sync);
            lemma_sync_members_requests(v, v.tabs.members(m.group_id), active_wid, frame, sync);
        }
    }
}


/// Every pending destroy of `a` is one of `b`, and every WindowServer window
/// visible in `a` is visible in `b`.
pub open spec fn shrinks(a: ReactorView, b: ReactorView) -> bool {
    &&& forall|i: int|
        0 <= i < a.tabs.pending_destroys.len() ==> b.tabs.pending_destroys.contains(
            #[trigger] a.tabs.pending_destroys[i],
        )
    &&& forall|x: WindowServerId| #[trigger] a.is_visible(x) ==> b.is_visible(x)
}

/// No pending destroy of `t` is for `wid`.
pub open spec fn no_destroy_of(t: Seq<PendingNativeTabDestroy>, wid: WindowId) -> bool {
    forall|i: int| 0 <= i < t.len() ==> (#[trigger] t[i]).window_id != wid
}

proof fn lemma_shrinks_refl(v: ReactorView)
    ensures
        shrinks(v, v),
{
    assert forall|i: int| 0 <= i < v.tabs.pending_destroys.len() implies v.tabs.pending_destroys.contains(
        #[trigger] v.tabs.pending_destroys[i],
    ) by {}
}

proof fn lemma_shrinks_trans(a: ReactorView, b: ReactorView, c: ReactorView)
    requires
        shrinks(a, b),
        shrinks(b, c),
    ensures
        shrinks(a, c),
{
    assert forall|i: int| 0 <= i < a.tabs.pending_destroys.len() implies c.tabs.pending_destroys.contains(
        #[trigger] a.tabs.pending_destroys[i],
    ) by {
        let j = choose|j: int| 0 <= j < b.tabs.pending_destroys.len() && b.tabs.pending_destroys[j] == a.tabs.pending_destroys[i];
        assert(c.tabs.pending_destroys.contains(b.tabs.pending_destroys[j]));
    }
}

proof fn lemma_shrinks_keeps_no_destroy(a: ReactorView, b: ReactorView, wid: WindowId)
    requires
        shrinks(a, b),
        no_destroy_of(b.tabs.pending_destroys, wid),
    ensures
        no_destroy_of(a.tabs.pending_destroys, wid),
{
    assert forall|i: int| 0 <= i < a.tabs.pending_destroys.len() implies (#[trigger] a.tabs.pending_destroys[i]).window_id != wid by {
        assert(b.tabs.pending_destroys.contains(a.tabs.pending_destroys[i]));
    }
}

proof fn lemma_clear_destroy_shrinks(v: ReactorView, wid: WindowId)
    ensures
        shrinks(v.with_tabs(v.tabs.clear_pending_destroy(wid)), v),
        no_destroy_of(v.tabs.clear_pending_destroy(wid).pending_destroys, wid),
{
    broadcast use vstd::seq_lib::group_filter_ensures;

    let t = v.tabs.pending_destroys;
    lemma_filter_contains_iff(t, destroy_not_of_window(wid));
    let f = t.filter(destroy_not_of_window(wid));
    assert forall|i: int| 0 <= i < f.len() implies t.contains(#[trigger] f[i]) by {
        assert(f.contains(f[i]));
    }
    assert forall|i: int| 0 <= i < f.len() implies (#[trigger] f[i]).window_id != wid by {
        t.lemma_filter_pred(destroy_not_of_window(wid), i);
    }
}

proof fn lemma_try_activate_shrinks(v: ReactorView, old_wid: WindowId, new_wid: WindowId)
    ensures
        shrinks(v.try_activate_native_tab_replacement(old_wid, new_wid), v),
        v.activation_allowed(old_wid, new_wid) ==> no_destroy_of(
            v.try_activate_native_tab_replacement(old_wid, new_wid).tabs.pending_destroys,
            old_wid,
        ),
{
    lemma_shrinks_refl(v);
    if v.activation_allowed(old_wid, new_wid) {
        let a = v.activate_native_tab_replacement(old_wid, new_wid);
        lemma_activate_keeps_records(v, old_wid, new_wid);
        assert(a.visible_windows == v.visible_windows);
        lemma_clear_destroy_shrinks(a, old_wid);
        assert(shrinks(a, v));
        lemma_shrinks_trans(a.with_tabs(a.tabs.clear_pending_destroy(old_wid)), a, v);
    }
}

proof fn lemma_clear_appearance_of_window_shrinks(v: ReactorView, pid: Pid, w: WindowId)
    ensures
        shrinks(v.clear_appearance_of_window(pid, w), v),
{
    lemma_shrinks_refl(v);
}

proof fn lemma_window_destroyed_shrinks(v: ReactorView, wid: WindowId)
    ensures
        shrinks(v.handle_window_destroyed(wid).0, v),
{
    lemma_shrinks_refl(v);
    let d = v.defer_native_tab_window_destroy(wid);
    if d.1 {
        let w = v.window(wid)->0;
        if let Some(ws) = w.info.sys_id {
            lemma_filter_contains_iff(v.visible_windows, elem_is_not(ws));
        }
        assert(shrinks(d.0, v));
    } else if v.window(wid) is Some {
        let v1 = v.finalize_native_tab_window_destroy(wid);
        lemma_clear_destroy_shrinks(v, wid);
        let c = v.with_tabs(v.tabs.clear_pending_destroy(wid));
        assert(same_pending_records(c.tabs.remove_window(wid, c.windows).0, c.tabs));
        assert(v1.tabs.pending_destroys == c.tabs.pending_destroys);
        assert(v1.visible_windows == v.visible_windows);
        assert(shrinks(v1, v));
        if let Some(st) = v1.window(wid) {
            if let Some(ws) = st.info.sys_id {
                lemma_filter_contains_iff(v1.visible_windows, elem_is_not(ws));
            }
        }
        assert(shrinks(v.handle_window_destroyed(wid).0, v1));
        lemma_shrinks_trans(v.handle_window_destroyed(wid).0, v1, v);
    }
}

/// One step of settling pending destroys shrinks the state; a destroy `d`
/// still pending before it is afterwards either settled (no record for its
/// window is left) or kept untouched because its window is reported visible
/// while its WindowServer window is not.
proof fn lemma_destroy_step(r: ReactorView, pid: Pid, known_visible: Seq<WindowId>, d: PendingNativeTabDestroy)
    ensures
        shrinks(r.reconcile_destroy_step(pid, known_visible, d), r),
        r.tabs.has_pending_destroy(pid, d.window_id) ==> {
            ||| no_destroy_of(r.reconcile_destroy_step(pid, known_visible, d).tabs.pending_destroys, d.window_id)
            ||| (r.reconcile_destroy_step(pid, known_visible, d) == r && known_visible.contains(d.window_id)
                && !r.is_visible(d.window_server_id))
        },
{
    lemma_shrinks_refl(r);
    let w = r.reconcile_destroy_step(pid, known_visible, d);
    if r.tabs.has_pending_destroy(pid, d.window_id) {
        let replacement = first_match(known_visible, r.destroy_replacement(d));
        if replacement is Some && r.activation_allowed(d.window_id, replacement->0) {
            lemma_try_activate_shrinks(r, d.window_id, replacement->0);
            let t = r.try_activate_native_tab_replacement(d.window_id, replacement->0);
            lemma_clear_appearance_of_window_shrinks(t, pid, replacement->0);
            lemma_shrinks_trans(w, t, r);
            lemma_shrinks_keeps_no_destroy(w, t, d.window_id);
        } else if !known_visible.contains(d.window_id) {
            let grouped = r.grouped_native_tab_replacement_for(d.window_id, known_visible);
            if grouped is Some && r.activation_allowed(d.window_id, grouped->0) {
                lemma_try_activate_shrinks(r, d.window_id, grouped->0);
                let t = r.try_activate_native_tab_replacement(d.window_id, grouped->0);
                lemma_clear_appearance_of_window_shrinks(t, pid, grouped->0);
                lemma_window_destroyed_shrinks(t, d.window_id);
                lemma_shrinks_trans(w, t, r);
                lemma_shrinks_keeps_no_destroy(w, t, d.window_id);
            } else {
                lemma_clear_destroy_shrinks(r, d.window_id);
                let c = r.with_tabs(r.tabs.clear_pending_destroy(d.window_id));
                lemma_window_destroyed_shrinks(c, d.window_id);
                lemma_shrinks_trans(w, c, r);
                lemma_shrinks_keeps_no_destroy(w, c, d.window_id);
            }
        } else if r.is_visible(d.window_server_id) {
            lemma_clear_destroy_shrinks(r, d.window_id);
        }
    }
}

/// What is known, after the first `n` pending destroys of `l` were settled,
/// of each of them.
pub open spec fn settled_prefix(
    w: ReactorView,
    pid: Pid,
    known_visible: Seq<WindowId>,
    l: Seq<PendingNativeTabDestroy>,
    n: int,
) -> bool {
    forall|j: int|
        #![trigger l[j]]
        0 <= j < n && l[j].window_id.pid == pid ==> no_destroy_of(w.tabs.pending_destroys, l[j].window_id) || (
        known_visible.contains(l[j].window_id) && !w.is_visible(l[j].window_server_id))
}

proof fn lemma_destroys_fold(
    v: ReactorView,
    pid: Pid,
    known_visible: Seq<WindowId>,
    l: Seq<PendingNativeTabDestroy>,
    n: int,
)
    requires
        0 <= n <= l.len(),
    ensures
        shrinks(v.reconcile_destroys(pid, known_visible, l.take(n)), v),
        settled_prefix(v.reconcile_destroys(pid, known_visible, l.take(n)), pid, known_visible, l, n),
    decreases n,
{
    if n == 0 {
        assert(l.take(0).len() == 0);
        lemma_shrinks_refl(v);
    } else {
        lemma_destroys_fold(v, pid, known_visible, l, n - 1);
        let r = v.reconcile_destroys(pid, known_visible, l.take(n - 1));
        let d = l[n - 1];
        assert(l.take(n).drop_last() == l.take(n - 1));
        assert(l.take(n).last() == d);
        let w = v.reconcile_destroys(pid, known_visible, l.take(n));
        assert(w == r.reconcile_destroy_step(pid, known_visible, d));
        lemma_destroy_step(r, pid, known_visible, d);
        lemma_shrinks_trans(w, r, v);
        assert forall|j: int|
            #![trigger l[j]]
            0 <= j < n && l[j].window_id.pid == pid implies no_destroy_of(w.tabs.pending_destroys, l[j].window_id) || (
            known_visible.contains(l[j].window_id) && !w.is_visible(l[j].window_server_id)) by {
            if j < n - 1 {
                if no_destroy_of(r.tabs.pending_destroys, l[j].window_id) {
                    lemma_shrinks_keeps_no_destroy(w, r, l[j].window_id);
                }
            } else {
                if !r.tabs.has_pending_destroy(pid, d.window_id) {
                    assert forall|i: int| 0 <= i < r.tabs.pending_destroys.len() implies (
                    #[trigger] r.tabs.pending_destroys[i]).window_id != d.window_id by {}
                    lemma_shrinks_keeps_no_destroy(w, r, d.window_id);
                }
            }
        }
    }
}

/// After reconciling `pid`, every pending destroy of `pid` that is left is for
/// a window reported visible whose WindowServer window is not visible: every
/// other one was settled, by a switch, by destroying the window, or by
/// dropping the record of a window whose WindowServer window is visible again
/// (and expired ones were purged).
pub proof fn lemma_reconcile_leaves_only_hidden_destroys(v: ReactorView, pid: Pid, known_visible: Seq<WindowId>)
    ensures
        ({
            let w = v.reconcile_native_tabs_for_pid(pid, known_visible);
            forall|i: int|
                0 <= i < w.tabs.pending_destroys.len() && (#[trigger] w.tabs.pending_destroys[i]).window_id.pid == pid
                    ==> known_visible.contains(w.tabs.pending_destroys[i].window_id)
                    && !w.is_visible(w.tabs.pending_destroys[i].window_server_id)
        }),
{
    let v0 = v.with_tabs(v.tabs.purge_expired(v.now_ms, PENDING_NATIVE_TAB_MAX_AGE_MS));
    let v1 = v0.reconcile_appearances(pid, v0.tabs.pending_appearances_for_pid(pid));
    let l = v1.tabs.pending_destroys_for_pid(pid);
    lemma_destroys_fold(v1, pid, known_visible, l, l.len() as int);
    assert(l.take(l.len() as int) == l);
    let v2 = v1.reconcile_destroys(pid, known_visible, l);
    lemma_filter_contains_iff(v1.tabs.pending_destroys, destroy_of_pid(pid));
    let v3 = if known_visible.len() == 0 && v2.tabs.pending_destroys_for_pid(pid).len() == 0 {
        v2.clear_stale_pending_native_tab_appearances_for_pid(pid)
    } else {
        v2
    };
    lemma_clear_stale_leaves_no_appearance(v2, pid);
    assert(v3.tabs.pending_destroys == v2.tabs.pending_destroys);
    assert forall|x: WindowServerId| #[trigger] v3.is_visible(x) implies v2.is_visible(x) by {}
    let act = v3.active_windows_of(pid, v3.visible_windows);
    lemma_adopt_keeps_records(v3, known_visible, act);
    lemma_adopt_keeps_visibility(v3, known_visible, act);
    let w = v.reconcile_native_tabs_for_pid(pid, known_visible);
    assert forall|i: int|
        0 <= i < w.tabs.pending_destroys.len() && (#[trigger] w.tabs.pending_destroys[i]).window_id.pid == pid
            implies known_visible.contains(w.tabs.pending_destroys[i].window_id)
            && !w.is_visible(w.tabs.pending_destroys[i].window_server_id) by {
        let r = w.tabs.pending_destroys[i];
        assert(v2.tabs.pending_destroys[i] == r);
        assert(v1.tabs.pending_destroys.contains(r));
        assert(l.contains(r));
        let j = choose|j: int| 0 <= j < l.len() && l[j] == r;
        assert(l[j] == r);
        if no_destroy_of(v2.tabs.pending_destroys, r.window_id) {
            assert(v2.tabs.pending_destroys[i].window_id != r.window_id);
        }
    }
}

proof fn lemma_background_members_keep_visibility(v: ReactorView, aw: WindowId, frame: Rect, s: Seq<WindowId>)
    ensures
        v.background_members(aw, frame, s).visible_windows == v.visible_windows,
        v.background_members(aw, frame, s).window_ids == v.window_ids,
    decreases s.len(),
{
    if s.len() > 0 {
        lemma_background_members_keep_visibility(v, aw, frame, s.drop_last());
    }
}

proof fn lemma_adopt_keeps_visibility(v: ReactorView, known_visible: Seq<WindowId>, s: Seq<WindowId>)
    ensures
        v.adopt_all(known_visible, s).visible_windows == v.visible_windows,
        v.adopt_all(known_visible, s).window_ids == v.window_ids,
    decreases s.len(),
{
    if s.len() > 0 {
        lemma_adopt_keeps_visibility(v, known_visible, s.drop_last());
        let r = v.adopt_all(known_visible, s.drop_last());
        if let Some(st) = r.window(s.last()) {
            lemma_background_members_keep_visibility(r, s.last(), st.frame_monotonic, known_visible);
        }
    }
}


/// The WindowServer window of `x` is visible.
pub open spec fn server_visible(v: ReactorView, x: WindowId) -> bool {
    v.window(x) matches Some(st) && st.info.sys_id matches Some(ws) && v.is_visible(ws)
}

/// Each WindowServer id maps to a window that records that id.
pub open spec fn ids_agree(v: ReactorView) -> bool {
    forall|ws: WindowServerId|
        #![trigger v.window_for_server_id(ws)]
        v.window_for_server_id(ws) is Some ==> (v.window(v.window_for_server_id(ws)->0) matches Some(st)
            && st.info.sys_id == Some(ws))
}

/// The window `x` has a membership with role `role`.
pub open spec fn has_role(v: ReactorView, x: WindowId, role: NativeTabRole) -> bool {
    v.window(x) matches Some(st) && st.native_tab matches Some(m) && m.role == role
}

/// The windows of `a` and `b` are the same but for their memberships.
pub open spec fn same_windows_but_tabs(a: ReactorView, b: ReactorView) -> bool {
    forall|x: WindowId|
        #![trigger a.window(x)]
        (a.window(x) is Some <==> b.window(x) is Some) && (a.window(x) is Some ==> a.window(x)->0.info
            == b.window(x)->0.info && a.window(x)->0.frame_monotonic == b.window(x)->0.frame_monotonic)
}

/// `c`, reported visible, is a hidden window of the application of `a` at
/// the frame of `a`: the adoption pass makes it a hidden tab of `a`.
pub open spec fn adoptable(v: ReactorView, known_visible: Seq<WindowId>, a: WindowId, c: WindowId) -> bool {
    &&& c != a
    &&& c.pid == a.pid
    &&& known_visible.contains(c)
    &&& v.window_is_native_tab_candidate(c)
    &&& !server_visible(v, c)
    &&& v.window(a) is Some
    &&& spec_frames_match(v.window(c)->0.frame_monotonic, v.window(a)->0.frame_monotonic)
}

proof fn lemma_set_role_window(v: ReactorView, wid: WindowId, g: u32, role: NativeTabRole)
    ensures
        forall|x: WindowId|
            #![trigger v.set_native_tab_role(wid, g, role).window(x)]
            v.set_native_tab_role(wid, g, role).window(x) == if x == wid && v.window(wid) is Some {
                Some(WindowState { native_tab: Some(NativeTabMembership { group_id: g, role }), ..v.window(wid)->0 })
            } else {
                v.window(x)
            },
        v.set_native_tab_role(wid, g, role).visible_windows == v.visible_windows,
        v.set_native_tab_role(wid, g, role).window_ids == v.window_ids,
{
    lemma_set_role(v, wid, g, role);
}

/// One step of the adoption pass for the tab on screen `aw`.
proof fn lemma_background_step(u: ReactorView, aw: WindowId, frame: Rect, c: WindowId)
    requires
        u.window(aw) is Some,
        server_visible(u, aw),
    ensures
        ({
            let w = u.background_member_step(aw, frame, c);
            &&& same_windows_but_tabs(w, u)
            &&& w.visible_windows == u.visible_windows
            &&& w.window_ids == u.window_ids
            &&& forall|x: WindowId| x != aw && server_visible(u, x) ==> #[trigger] w.window(x) == u.window(x)
            &&& w.window(aw) == u.window(aw) || has_role(w, aw, NativeTabRole::Active)
            &&& forall|x: WindowId|
                x != aw && has_role(u, x, NativeTabRole::Suppressed) ==> #[trigger] has_role(
                    w,
                    x,
                    NativeTabRole::Suppressed,
                )
            &&& (c != aw && c.pid == aw.pid && u.window_is_native_tab_candidate(c) && !server_visible(u, c)
                && spec_frames_match(u.window(c)->0.frame_monotonic, frame)) ==> has_role(
                w,
                c,
                NativeTabRole::Suppressed,
            ) && has_role(w, aw, NativeTabRole::Active)
        }),
{
    let w = u.background_member_step(aw, frame, c);
    if c == aw || c.pid != aw.pid || !u.window_is_native_tab_candidate(c) {
    } else {
        let cst = u.window(c)->0;
        if (match cst.info.sys_id {
            Some(sys_id) => u.is_visible(sys_id),
            None => false,
        }) || !spec_frames_match(cst.frame_monotonic, frame) {
        } else {
            let g = u.tabs.group_of_anchor(aw);
            let u1 = u.with_tabs(u.tabs.join(aw, c, aw, frame));
            let u2 = u1.set_native_tab_role(c, g, NativeTabRole::Suppressed);
            lemma_set_role_window(u1, c, g, NativeTabRole::Suppressed);
            lemma_set_role_window(u2, aw, g, NativeTabRole::Active);
            assert(w == u2.set_native_tab_role(aw, g, NativeTabRole::Active));
            assert(!server_visible(u, c));
            assert forall|x: WindowId| x != aw && server_visible(u, x) implies #[trigger] w.window(x) == u.window(x) by {
                assert(x != c);
            }
            assert(same_windows_but_tabs(w, u));
        }
    }
}

proof fn lemma_background_members(u: ReactorView, aw: WindowId, frame: Rect, s: Seq<WindowId>)
    requires
        u.window(aw) is Some,
        server_visible(u, aw),
    ensures
        ({
            let w = u.background_members(aw, frame, s);
            &&& same_windows_but_tabs(w, u)
            &&& w.visible_windows == u.visible_windows
            &&& w.window_ids == u.window_ids
            &&& forall|x: WindowId| x != aw && server_visible(u, x) ==> #[trigger] w.window(x) == u.window(x)
            &&& w.window(aw) == u.window(aw) || has_role(w, aw, NativeTabRole::Active)
            &&& forall|x: WindowId|
                x != aw && has_role(u, x, NativeTabRole::Suppressed) ==> #[trigger] has_role(
                    w,
                    x,
                    NativeTabRole::Suppressed,
                )
            &&& forall|c: WindowId|
                s.contains(c) && c != aw && c.pid == aw.pid && u.window_is_native_tab_candidate(c)
                    && !server_visible(u, c) && spec_frames_match(u.window(c)->0.frame_monotonic, frame)
                    ==> #[trigger] has_role(w, c, NativeTabRole::Suppressed) && has_role(
                    w,
                    aw,
                    NativeTabRole::Active,
                )
        }),
    decreases s.len(),
{
    if s.len() > 0 {
        let s0 = s.drop_last();
        let c0 = s.last();
        lemma_background_members(u, aw, frame, s0);
        let r = u.background_members(aw, frame, s0);
        assert(r.window(aw) is Some);
        assert(server_visible(r, aw));
        lemma_background_step(r, aw, frame, c0);
        let w = u.background_members(aw, frame, s);
        assert forall|x: WindowId| #[trigger] server_visible(r, x) == server_visible(u, x) by {
            assert(r.window(x) is Some <==> u.window(x) is Some);
        }
        assert forall|x: WindowId| #[trigger] r.window_is_native_tab_candidate(x) == u.window_is_native_tab_candidate(x) by {
            assert(r.window(x) is Some <==> u.window(x) is Some);
        }
        assert(same_windows_but_tabs(w, u)) by {
            assert forall|x: WindowId| #![trigger w.window(x)]
                (w.window(x) is Some <==> u.window(x) is Some) && (w.window(x) is Some ==> w.window(x)->0.info
                    == u.window(x)->0.info && w.window(x)->0.frame_monotonic == u.window(x)->0.frame_monotonic) by {
                assert(r.window(x) is Some <==> u.window(x) is Some);
            }
        }
        assert forall|x: WindowId| x != aw && server_visible(u, x) implies #[trigger] w.window(x) == u.window(x) by {
            assert(server_visible(r, x));
            assert(r.window(x) == u.window(x));
        }
        assert forall|x: WindowId|
            x != aw && has_role(u, x, NativeTabRole::Suppressed) implies #[trigger] has_role(
                w,
                x,
                NativeTabRole::Suppressed,
            ) by {
            assert(has_role(r, x, NativeTabRole::Suppressed));
        }
        if !(w.window(aw) == r.window(aw)) {
            assert(has_role(w, aw, NativeTabRole::Active));
        } else if !(r.window(aw) == u.window(aw)) {
            assert(has_role(r, aw, NativeTabRole::Active));
            assert(has_role(w, aw, NativeTabRole::Active));
        }
        assert(w.window(aw) == u.window(aw) || has_role(w, aw, NativeTabRole::Active));
        assert(w.visible_windows == u.visible_windows);
        assert(w.window_ids == u.window_ids);
        assert forall|c: WindowId|
            s.contains(c) && c != aw && c.pid == aw.pid && u.window_is_native_tab_candidate(c)
                && !server_visible(u, c) && spec_frames_match(u.window(c)->0.frame_monotonic, frame)
                implies #[trigger] has_role(w, c, NativeTabRole::Suppressed) && has_role(
                w,
                aw,
                NativeTabRole::Active,
            ) by {
            assert(r.window(c) is Some);
            assert(r.window(c)->0.frame_monotonic == u.window(c)->0.frame_monotonic);
            assert(server_visible(r, c) == server_visible(u, c));
            assert(r.window_is_native_tab_candidate(c));
            if c == c0 {
            } else {
                let j = choose|j: int| 0 <= j < s.len() && s[j] == c;
                assert(j != s.len() - 1);
                assert(s0[j] == c);
                assert(s0.contains(c));
                assert(has_role(r, c, NativeTabRole::Suppressed));
                assert(has_role(r, aw, NativeTabRole::Active));
                assert(has_role(w, c, NativeTabRole::Suppressed));
                if w.window(aw) == r.window(aw) {
                    assert(has_role(w, aw, NativeTabRole::Active));
                }
            }
        }
    } else {
        assert(same_windows_but_tabs(u, u));
    }
}

/// Each window of the visible list is mapped from a visible WindowServer
/// window, belongs to `pid` and is a tab candidate; and each such window not
/// hidden behind another tab is in the list.
proof fn lemma_active_windows_of(v: ReactorView, pid: Pid, vis: Seq<WindowServerId>)
    ensures
        forall|a: WindowId|
            #[trigger] v.active_windows_of(pid, vis).contains(a) ==> a.pid == pid && v.window_is_native_tab_candidate(a)
                && exists|k: int| 0 <= k < vis.len() && v.window_for_server_id(#[trigger] vis[k]) == Some(a),
        forall|k: int|
            0 <= k < vis.len() && (v.window_for_server_id(#[trigger] vis[k]) matches Some(a) && a.pid == pid
                && v.window_is_native_tab_candidate(a) && !v.is_native_tab_suppressed(a))
                ==> v.active_windows_of(pid, vis).contains(v.window_for_server_id(vis[k])->0),
    decreases vis.len(),
{
    if vis.len() > 0 {
        let rest = vis.drop_last();
        lemma_active_windows_of(v, pid, rest);
        let r = v.active_windows_of(pid, rest);
        let t = v.active_windows_of(pid, vis);
        assert forall|a: WindowId|
            #[trigger] t.contains(a) implies a.pid == pid && v.window_is_native_tab_candidate(a)
                && exists|k: int| 0 <= k < vis.len() && v.window_for_server_id(#[trigger] vis[k]) == Some(a) by {
            if r.contains(a) {
                let k = choose|k: int| 0 <= k < rest.len() && v.window_for_server_id(#[trigger] rest[k]) == Some(a);
                assert(vis[k] == rest[k]);
            } else {
                let j = choose|j: int| 0 <= j < t.len() && t[j] == a;
                assert(t != r);
                assert(t == r.push(a) || t[j] == a);
                assert(j == r.len());
                assert(v.window_for_server_id(vis[vis.len() - 1]) == Some(a));
            }
        }
        assert forall|k: int|
            0 <= k < vis.len() && (v.window_for_server_id(#[trigger] vis[k]) matches Some(a) && a.pid == pid
                && v.window_is_native_tab_candidate(a) && !v.is_native_tab_suppressed(a))
                implies t.contains(v.window_for_server_id(vis[k])->0) by {
            let a = v.window_for_server_id(vis[k])->0;
            if k < vis.len() - 1 {
                assert(rest[k] == vis[k]);
                assert(r.contains(a));
                let j = choose|j: int| 0 <= j < r.len() && r[j] == a;
                if t != r {
                    assert(t[j] == a);
                }
            } else {
                assert(t[t.len() - 1] == a);
            }
        }
    }
}

/// The adoption pass that ends a reconcile: where each WindowServer id maps
/// to a window that records it, for every window `a` of `pid` mapped from a
/// visible WindowServer window that is a tab candidate not hidden behind
/// another tab, every window `c` reported visible that is a hidden tab
/// candidate of the same application at the frame of `a` ends as a hidden
/// tab, and `a` as the tab on screen.
pub proof fn lemma_adoption_groups_hidden_windows(v: ReactorView, pid: Pid, known_visible: Seq<WindowId>)
    requires
        ids_agree(v),
    ensures
        forall|a: WindowId, c: WindowId|
            #![trigger adoptable(v, known_visible, a, c)]
            (exists|k: int|
                0 <= k < v.visible_windows.len() && v.window_for_server_id(#[trigger] v.visible_windows[k])
                    == Some(a)) && a.pid == pid && v.window_is_native_tab_candidate(a)
                && !v.is_native_tab_suppressed(a) && adoptable(v, known_visible, a, c) ==> has_role(
                v.adopt_all(known_visible, v.active_windows_of(pid, v.visible_windows)),
                c,
                NativeTabRole::Suppressed,
            ) && has_role(
                v.adopt_all(known_visible, v.active_windows_of(pid, v.visible_windows)),
                a,
                NativeTabRole::Active,
            ),
{
    let l = v.active_windows_of(pid, v.visible_windows);
    lemma_active_windows_of(v, pid, v.visible_windows);
    assert forall|a: WindowId| #[trigger] l.contains(a) implies server_visible(v, a) by {
        let k = choose|k: int| 0 <= k < v.visible_windows.len() && v.window_for_server_id(#[trigger] v.visible_windows[k]) == Some(a);
        assert(v.window_for_server_id(v.visible_windows[k]) is Some);
        assert(v.is_visible(v.visible_windows[k]));
    }
    lemma_adopt_prefix(v, known_visible, l, l.len() as int);
    assert(l.take(l.len() as int) == l);
    let w = v.adopt_all(known_visible, l);
    assert forall|a: WindowId, c: WindowId|
        #![trigger adoptable(v, known_visible, a, c)]
        (exists|k: int|
            0 <= k < v.visible_windows.len() && v.window_for_server_id(#[trigger] v.visible_windows[k])
                == Some(a)) && a.pid == pid && v.window_is_native_tab_candidate(a)
            && !v.is_native_tab_suppressed(a) && adoptable(v, known_visible, a, c) implies has_role(
            w,
            c,
            NativeTabRole::Suppressed,
        ) && has_role(w, a, NativeTabRole::Active) by {
        let k = choose|k: int|
            0 <= k < v.visible_windows.len() && v.window_for_server_id(#[trigger] v.visible_windows[k]) == Some(a);
        assert(l.contains(a));
        let j = choose|j: int| 0 <= j < l.len() && l[j] == a;
        assert(l[j] == a);
    }
}

proof fn lemma_adopt_prefix(v: ReactorView, known_visible: Seq<WindowId>, l: Seq<WindowId>, n: int)
    requires
        0 <= n <= l.len(),
        forall|a: WindowId| #[trigger] l.contains(a) ==> server_visible(v, a),
    ensures
        ({
            let w = v.adopt_all(known_visible, l.take(n));
            &&& same_windows_but_tabs(w, v)
            &&& w.visible_windows == v.visible_windows
            &&& forall|x: WindowId| has_role(v, x, NativeTabRole::Suppressed) && !server_visible(v, x)
                ==> #[trigger] has_role(w, x, NativeTabRole::Suppressed)
            &&& forall|j: int, c: WindowId|
                #![trigger l[j], has_role(w, c, NativeTabRole::Suppressed)]
                0 <= j < n && adoptable(v, known_visible, l[j], c) ==> has_role(w, c, NativeTabRole::Suppressed)
                    && has_role(w, l[j], NativeTabRole::Active)
        }),
    decreases n,
{
    if n == 0 {
        assert(l.take(0).len() == 0);
        assert(same_windows_but_tabs(v, v));
    } else {
        lemma_adopt_prefix(v, known_visible, l, n - 1);
        let r = v.adopt_all(known_visible, l.take(n - 1));
        let aw = l[n - 1];
        assert(l.take(n).drop_last() == l.take(n - 1));
        assert(l.take(n).last() == aw);
        let w = v.adopt_all(known_visible, l.take(n));
        assert(l.contains(aw));
        assert(server_visible(v, aw));
        assert forall|x: WindowId| #[trigger] server_visible(r, x) == server_visible(v, x) by {
            assert(r.window(x) is Some <==> v.window(x) is Some);
        }
        assert forall|x: WindowId| #[trigger] r.window_is_native_tab_candidate(x) == v.window_is_native_tab_candidate(x) by {
            assert(r.window(x) is Some <==> v.window(x) is Some);
        }
        let frame = r.window(aw)->0.frame_monotonic;
        assert(r.window(aw) is Some);
        assert(server_visible(r, aw));
        lemma_background_members(r, aw, frame, known_visible);
        assert(w == r.background_members(aw, frame, known_visible));
        assert(same_windows_but_tabs(w, v)) by {
            assert forall|x: WindowId| #![trigger w.window(x)]
                (w.window(x) is Some <==> v.window(x) is Some) && (w.window(x) is Some ==> w.window(x)->0.info
                    == v.window(x)->0.info && w.window(x)->0.frame_monotonic == v.window(x)->0.frame_monotonic) by {
                assert(r.window(x) is Some <==> v.window(x) is Some);
            }
        }
        assert forall|x: WindowId| has_role(v, x, NativeTabRole::Suppressed) && !server_visible(v, x)
            implies #[trigger] has_role(w, x, NativeTabRole::Suppressed) by {
            assert(has_role(r, x, NativeTabRole::Suppressed));
            assert(x != aw);
        }
        assert forall|j: int, c: WindowId|
            #![trigger l[j], has_role(w, c, NativeTabRole::Suppressed)]
            0 <= j < n && adoptable(v, known_visible, l[j], c) implies has_role(w, c, NativeTabRole::Suppressed)
                && has_role(w, l[j], NativeTabRole::Active) by {
            let a = l[j];
            assert(l.contains(a));
            assert(server_visible(v, a));
            assert(v.window(c) is Some);
            assert(r.window(c) is Some);
            if j < n - 1 {
                assert(has_role(r, c, NativeTabRole::Suppressed));
                assert(has_role(r, a, NativeTabRole::Active));
                assert(c != aw);
                assert(has_role(w, c, NativeTabRole::Suppressed));
                if a != aw {
                    assert(server_visible(r, a));
                    assert(w.window(a) == r.window(a));
                } else {
                    if w.window(aw) == r.window(aw) {
                    }
                }
            } else {
                assert(a == aw);
                assert(r.window(c)->0.frame_monotonic == v.window(c)->0.frame_monotonic);
                assert(r.window(aw)->0.frame_monotonic == v.window(aw)->0.frame_monotonic);
            }
        }
    }
}


/// The WindowServer id numbered like the window index of `w`.
pub open spec fn index_server_id(w: WindowId) -> WindowServerId {
    WindowServerId { id: w.idx }
}

/// Renumbering the windows of `pid` cannot collide: no window of `pid` has as
/// its WindowServer id the index of another window of `pid`, and no two
/// windows of `pid` share a WindowServer id.
pub open spec fn renumber_safe(v: ReactorView, pid: Pid) -> bool {
    forall|x: WindowId, y: WindowId|
        #![trigger v.window(x), v.window(y)]
        v.window(x) is Some && v.window(y) is Some && x.pid == pid && y.pid == pid && x != y ==> {
            &&& v.window(x)->0.info.sys_id != Some(index_server_id(y))
            &&& v.window(x)->0.info.sys_id is Some ==> v.window(x)->0.info.sys_id != v.window(y)->0.info.sys_id
        }
}

/// What renumbering gives the window `x` of `pid`: its index as WindowServer
/// id, mapped back to it and visible, with the description of its former
/// WindowServer window moved there.
pub open spec fn renumbered(v: ReactorView, r: ReactorView, x: WindowId) -> bool {
    &&& r.window(x) matches Some(st) && st.info.sys_id == Some(index_server_id(x))
    &&& lookup(r.window_ids, index_server_id(x)) == Some(x)
    &&& r.is_visible(index_server_id(x))
    &&& match v.window(x) {
        Some(st0) => match st0.info.sys_id {
            Some(o) => match lookup(v.window_server_info, o) {
                Some(i) => lookup(r.window_server_info, index_server_id(x)) == Some(
                    WindowServerInfo { id: index_server_id(x), ..i },
                ),
                None => true,
            },
            None => true,
        },
        None => true,
    }
}

proof fn lemma_set_insert_contains<K>(s: Seq<K>, k: K)
    ensures
        forall|x: K| #[trigger] set_insert(s, k).contains(x) <==> s.contains(x) || x == k,
{
    assert forall|x: K| #[trigger] set_insert(s, k).contains(x) <==> s.contains(x) || x == k by {
        if !s.contains(k) {
            let t = s.push(k);
            if t.contains(x) {
                let i = choose|i: int| 0 <= i < t.len() && t[i] == x;
                if i < s.len() {
                    assert(s[i] == x);
                }
            }
            if s.contains(x) {
                let i = choose|i: int| 0 <= i < s.len() && s[i] == x;
                assert(t[i] == x);
            }
            if x == k {
                assert(t[s.len() as int] == k);
            }
        }
    }
}

proof fn lemma_renumber_prefix(v: ReactorView, pid: Pid, n: int)
    requires
        v.wf(),
        renumber_safe(v, pid),
        0 <= n <= v.windows.len(),
    ensures
        ({
            let k = entry_keys(v.windows);
            let r = v.renumber_windows(pid, k.take(n));
            &&& forall|x: WindowId| #[trigger] r.window(x) is Some == v.window(x) is Some
            &&& forall|x: WindowId| x.pid != pid ==> #[trigger] r.window(x) == v.window(x)
            &&& forall|j: int| n <= j < k.len() ==> #[trigger] r.window(k[j]) == v.window(k[j])
            &&& forall|j: int|
                n <= j < k.len() && k[j].pid == pid && v.window(k[j])->0.info.sys_id is Some ==> lookup(
                    r.window_server_info,
                    v.window(#[trigger] k[j])->0.info.sys_id->0,
                ) == lookup(v.window_server_info, v.window(k[j])->0.info.sys_id->0)
            &&& forall|j: int| 0 <= j < n && k[j].pid == pid ==> #[trigger] renumbered(v, r, k[j])
        }),
    decreases n,
{
    let k = entry_keys(v.windows);
    assert forall|j: int| 0 <= j < k.len() implies #[trigger] v.window(k[j]) == Some(v.windows[j].1) by {
        crate::store::lemma_distinct_lookup(v.windows, j);
    }
    if n == 0 {
        assert(k.take(0).len() == 0);
    } else {
        lemma_renumber_prefix(v, pid, n - 1);
        let r = v.renumber_windows(pid, k.take(n - 1));
        let w = k[n - 1];
        assert(k.take(n).drop_last() == k.take(n - 1));
        assert(k.take(n).last() == w);
        let r2 = v.renumber_windows(pid, k.take(n));
        assert(r2 == r.renumber_window(pid, w));
        if w.pid == pid {
            let nw = index_server_id(w);
            assert(r.window(w) == v.window(w));
            let st0 = v.window(w)->0;
            let o = st0.info.sys_id;
            let v1 = match o {
                Some(oo) => {
                    let va = ReactorView {
                        window_ids: map_remove(r.window_ids, oo),
                        visible_windows: set_remove(r.visible_windows, oo),
                        ..r
                    };
                    match lookup(r.window_server_info, oo) {
                        Some(info) => ReactorView {
                            window_server_info: map_insert(
                                map_remove(r.window_server_info, oo),
                                nw,
                                WindowServerInfo { id: nw, ..info },
                            ),
                            ..va
                        },
                        None => ReactorView { window_server_info: map_remove(r.window_server_info, oo), ..va },
                    }
                },
                None => r,
            };
            if let Some(oo) = o {
                lemma_map_remove(r.window_ids, oo);
                lemma_filter_contains_iff(r.visible_windows, elem_is_not(oo));
                lemma_map_remove(r.window_server_info, oo);
                if let Some(info) = lookup(r.window_server_info, oo) {
                    lemma_map_insert(map_remove(r.window_server_info, oo), nw, WindowServerInfo { id: nw, ..info });
                }
            }
            assert(v1.windows == r.windows);
            let st = v1.window(w)->0;
            let v2 = v1.with_window(w, WindowState { info: WindowInfo { sys_id: Some(nw), ..st.info }, ..st });
            lemma_map_insert(v1.windows, w, WindowState { info: WindowInfo { sys_id: Some(nw), ..st.info }, ..st });
            lemma_map_insert(v2.window_ids, nw, w);
            lemma_set_insert_contains(v2.visible_windows, nw);
            assert(r2 == ReactorView {
                window_ids: map_insert(v2.window_ids, nw, w),
                visible_windows: set_insert(v2.visible_windows, nw),
                ..v2
            });
            assert forall|j: int| 0 <= j < n && k[j].pid == pid implies #[trigger] renumbered(v, r2, k[j]) by {
                let x = k[j];
                if j < n - 1 {
                    assert(x != w) by {
                        assert(v.windows[j].0 != v.windows[n - 1].0);
                    }
                    assert(renumbered(v, r, x));
                    assert(index_server_id(x) != nw);
                    assert(v.window(x) is Some);
                    assert(o != Some(index_server_id(x)));
                } else {
                    assert(x == w);
                    assert(r.window_server_info == r.window_server_info);
                }
            }
            assert forall|j: int|
                n <= j < k.len() && k[j].pid == pid && v.window(k[j])->0.info.sys_id is Some implies lookup(
                    r2.window_server_info,
                    v.window(#[trigger] k[j])->0.info.sys_id->0,
                ) == lookup(v.window_server_info, v.window(k[j])->0.info.sys_id->0) by {
                let x = k[j];
                assert(x != w) by {
                    assert(v.windows[j].0 != v.windows[n - 1].0);
                }
                assert(v.window(x) is Some);
                let ox = v.window(x)->0.info.sys_id->0;
                assert(ox != nw);
                assert(o != Some(ox));
            }
            assert forall|x: WindowId| #[trigger] r2.window(x) == if x == w {
                Some(WindowState { info: WindowInfo { sys_id: Some(nw), ..st.info }, ..st })
            } else {
                r.window(x)
            } by {
                assert(r2.window(x) == v2.window(x));
                assert(v1.window(x) == r.window(x));
            }
            assert forall|j: int| n <= j < k.len() implies #[trigger] r2.window(k[j]) == v.window(k[j]) by {
                assert(k[j] != w) by {
                    assert(v.windows[j].0 != v.windows[n - 1].0);
                }
                assert(r.window(k[j]) == v.window(k[j]));
            }
            assert forall|x: WindowId| #[trigger] r2.window(x) is Some == v.window(x) is Some by {
                assert(r.window(x) is Some == v.window(x) is Some);
            }
            assert forall|x: WindowId| x.pid != pid implies #[trigger] r2.window(x) == v.window(x) by {
                assert(r.window(x) == v.window(x));
            }
        } else {
            assert forall|j: int| 0 <= j < n && k[j].pid == pid implies #[trigger] renumbered(v, r2, k[j]) by {
                assert(j < n - 1);
            }
            assert forall|j: int| n <= j < k.len() implies #[trigger] r2.window(k[j]) == v.window(k[j]) by {
                assert(r.window(k[j]) == v.window(k[j]));
            }
            assert forall|j: int|
                n <= j < k.len() && k[j].pid == pid && v.window(k[j])->0.info.sys_id is Some implies lookup(
                    r2.window_server_info,
                    v.window(#[trigger] k[j])->0.info.sys_id->0,
                ) == lookup(v.window_server_info, v.window(k[j])->0.info.sys_id->0) by {
                assert(r.window(k[j]) == v.window(k[j]));
            }
        }
    }
}

/// Renumbering the WindowServer ids of `pid`: where no window of `pid` has
/// the index of another as its WindowServer id and no two share one, each
/// window of `pid` ends with its index as WindowServer id, that id maps back
/// to it and is visible, and the description of its former WindowServer
/// window moves to the new id; the windows of other applications are
/// unchanged. (Where one window's id is another's index, the later step
/// unmaps the earlier window's new id.)
pub proof fn lemma_renumbering_gives_index_ids(v: ReactorView, pid: Pid)
    requires
        v.wf(),
        renumber_safe(v, pid),
    ensures
        ({
            let r = v.renumber_windows(pid, entry_keys(v.windows));
            &&& forall|x: WindowId| v.window(x) is Some && x.pid == pid ==> #[trigger] renumbered(v, r, x)
            &&& forall|x: WindowId| x.pid != pid ==> #[trigger] r.window(x) == v.window(x)
            &&& forall|x: WindowId| #[trigger] r.window(x) is Some == v.window(x) is Some
        }),
{
    let k = entry_keys(v.windows);
    lemma_renumber_prefix(v, pid, v.windows.len() as int);
    assert(k.take(v.windows.len() as int) == k);
    let r = v.renumber_windows(pid, k);
    assert forall|x: WindowId| v.window(x) is Some && x.pid == pid implies #[trigger] renumbered(v, r, x) by {
        crate::seq_util::lemma_first_match_some(v.windows, crate::store::key_is::<WindowId, WindowState>(x));
        let e = crate::seq_util::first_match(v.windows, crate::store::key_is::<WindowId, WindowState>(x))->0;
        let j = choose|j: int| 0 <= j < v.windows.len() && v.windows[j] == e;
        assert(k[j] == x);
    }
}


/// A pending appearance of `wid`'s WindowServer window matches `frame`
/// exactly when `wid` is known, has a WindowServer window, a space is found
/// for `frame` (else for the window's own frame), and some pending appearance
/// of `wid`'s application names that WindowServer window on that space at a
/// frame matching `frame`.
pub proof fn lemma_matching_appearance_iff(v: ReactorView, wid: WindowId, frame: Rect)
    ensures
        v.has_matching_pending_native_tab_appearance(wid, frame) <==> ({
            &&& v.window(wid) is Some
            &&& v.window(wid)->0.info.sys_id is Some
            &&& (match v.best_space_for_frame(frame) {
                Some(sp) => Some(sp),
                None => v.best_space_for_frame(v.window(wid)->0.frame_monotonic),
            }) matches Some(sp) && exists|i: int|
                0 <= i < v.tabs.pending_appearances.len() && {
                    let a = #[trigger] v.tabs.pending_appearances[i];
                    &&& a.pid == wid.pid
                    &&& a.wsid == v.window(wid)->0.info.sys_id->0
                    &&& a.space == sp
                    &&& spec_frames_match(a.frame, frame)
                }
        }),
{
    broadcast use vstd::seq_lib::group_filter_ensures;

    let aps = v.tabs.pending_appearances;
    let f = v.tabs.pending_appearances_for_pid(wid.pid);
    lemma_filter_contains_iff(aps, appearance_of_pid(wid.pid));
    if let Some(st) = v.window(wid) {
        if let Some(ws) = st.info.sys_id {
            let space = match v.best_space_for_window(frame) {
                Some(s) => Some(s),
                None => v.best_space_for_frame(st.frame_monotonic),
            };
            if let Some(sp) = space {
                let p = v.appearance_matches(ws, sp, frame);
                if any_match(f, p) {
                    let j = choose|j: int| 0 <= j < f.len() && #[trigger] p(f[j]);
                    assert(f.contains(f[j]));
                    let i = choose|i: int| 0 <= i < aps.len() && aps[i] == f[j];
                    assert(aps[i] == f[j]);
                }
                if exists|i: int|
                    0 <= i < aps.len() && {
                        let a = #[trigger] aps[i];
                        &&& a.pid == wid.pid
                        &&& a.wsid == ws
                        &&& a.space == sp
                        &&& spec_frames_match(a.frame, frame)
                    } {
                    let i = choose|i: int|
                        0 <= i < aps.len() && {
                            let a = #[trigger] aps[i];
                            &&& a.pid == wid.pid
                            &&& a.wsid == ws
                            &&& a.space == sp
                            &&& spec_frames_match(a.frame, frame)
                        };
                    assert(aps.contains(aps[i]));
                    assert(f.contains(aps[i]));
                    let j = choose|j: int| 0 <= j < f.len() && f[j] == aps[i];
                    assert(p(f[j]));
                }
            }
        }
    }
}


/// A filter that keeps nothing leaves out every element.
proof fn lemma_empty_filter_excludes<A>(s: Seq<A>, p: spec_fn(A) -> bool)
    requires
        s.filter(p).len() == 0,
    ensures
        forall|x: A| #[trigger] s.contains(x) ==> !p(x),
{
    lemma_filter_contains_iff(s, p);
    assert forall|x: A| #[trigger] s.contains(x) implies !p(x) by {
        if p(x) {
            assert(s.filter(p).contains(x));
        }
    }
}

/// The state once expired records are purged.
pub open spec fn purged(v: ReactorView) -> ReactorView {
    v.with_tabs(v.tabs.purge_expired(v.now_ms, PENDING_NATIVE_TAB_MAX_AGE_MS))
}

/// While `pid` has no pending destroy or appearance, reconciling it is the
/// adoption pass alone, on the purged state.
proof fn lemma_reconcile_without_records(v: ReactorView, pid: Pid, known_visible: Seq<WindowId>)
    requires
        v.tabs.pending_destroys_for_pid(pid).len() == 0,
        v.tabs.pending_appearances_for_pid(pid).len() == 0,
    ensures
        v.reconcile_native_tabs_for_pid(pid, known_visible) == purged(v).adopt_all(
            known_visible,
            purged(v).active_windows_of(pid, purged(v).visible_windows),
        ),
{
    broadcast use vstd::seq_lib::group_filter_ensures;

    let now = v.now_ms;
    let v0 = purged(v);
    lemma_empty_filter_excludes(v.tabs.pending_destroys, destroy_of_pid(pid));
    lemma_empty_filter_excludes(v.tabs.pending_appearances, appearance_of_pid(pid));
    let d0 = v0.tabs.pending_destroys;
    let a0 = v0.tabs.pending_appearances;
    lemma_filter_contains_iff(v.tabs.pending_destroys, destroy_is_fresh(now, PENDING_NATIVE_TAB_MAX_AGE_MS));
    lemma_filter_contains_iff(v.tabs.pending_appearances, appearance_is_fresh(now, PENDING_NATIVE_TAB_MAX_AGE_MS));
    assert forall|i: int| 0 <= i < d0.len() implies !destroy_of_pid(pid)(#[trigger] d0[i]) by {
        assert(d0.contains(d0[i]));
        assert(v.tabs.pending_destroys.contains(d0[i]));
    }
    assert forall|i: int| 0 <= i < a0.len() implies !appearance_of_pid(pid)(#[trigger] a0[i]) by {
        assert(a0.contains(a0[i]));
        assert(v.tabs.pending_appearances.contains(a0[i]));
    }
    lemma_filter_none(d0, destroy_of_pid(pid));
    lemma_filter_none(a0, appearance_of_pid(pid));
    let sa = v0.tabs.pending_appearances_for_pid(pid);
    let v1 = v0.reconcile_appearances(pid, sa);
    assert(v1 == v0);
    let sd = v1.tabs.pending_destroys_for_pid(pid);
    let v2 = v1.reconcile_destroys(pid, known_visible, sd);
    assert(v2 == v0);
    let v3 = if known_visible.len() == 0 && v2.tabs.pending_destroys_for_pid(pid).len() == 0 {
        v2.clear_stale_pending_native_tab_appearances_for_pid(pid)
    } else {
        v2
    };
    assert(v3 == v0);
}

/// A reconcile of `pid` while it has no pending destroy or appearance, where
/// each WindowServer id maps to a window that records it: for every window
/// `a` of `pid` mapped from a visible WindowServer window that is a tab
/// candidate not hidden behind another tab, every window `c` reported visible
/// that is a hidden tab candidate of the same application at the frame of `a`
/// ends as a hidden tab, and `a` as the tab on screen. (With pending records
/// the earlier passes may switch or destroy `a` first.)
pub proof fn lemma_reconcile_groups_hidden_windows(v: ReactorView, pid: Pid, known_visible: Seq<WindowId>)
    requires
        ids_agree(v),
        v.tabs.pending_destroys_for_pid(pid).len() == 0,
        v.tabs.pending_appearances_for_pid(pid).len() == 0,
    ensures
        forall|a: WindowId, c: WindowId|
            #![trigger adoptable(v, known_visible, a, c)]
            (exists|k: int|
                0 <= k < v.visible_windows.len() && v.window_for_server_id(#[trigger] v.visible_windows[k])
                    == Some(a)) && a.pid == pid && v.window_is_native_tab_candidate(a)
                && !v.is_native_tab_suppressed(a) && adoptable(v, known_visible, a, c) ==> has_role(
                v.reconcile_native_tabs_for_pid(pid, known_visible),
                c,
                NativeTabRole::Suppressed,
            ) && has_role(v.reconcile_native_tabs_for_pid(pid, known_visible), a, NativeTabRole::Active),
{
    let v0 = purged(v);
    lemma_reconcile_without_records(v, pid, known_visible);
    assert(v0.windows == v.windows && v0.window_ids == v.window_ids && v0.visible_windows == v.visible_windows);
    assert(v0.tabs.groups == v.tabs.groups && v0.tabs.memberships == v.tabs.memberships);
    assert(ids_agree(v0)) by {
        assert forall|ws: WindowServerId| #![trigger v0.window_for_server_id(ws)]
            v0.window_for_server_id(ws) is Some implies (v0.window(v0.window_for_server_id(ws)->0) matches Some(st)
                && st.info.sys_id == Some(ws)) by {
            assert(v.window_for_server_id(ws) is Some);
        }
    }
    let w = v.reconcile_native_tabs_for_pid(pid, known_visible);
    assert forall|a: WindowId, c: WindowId|
        #![trigger adoptable(v, known_visible, a, c)]
        (exists|k: int|
            0 <= k < v.visible_windows.len() && v.window_for_server_id(#[trigger] v.visible_windows[k])
                == Some(a)) && a.pid == pid && v.window_is_native_tab_candidate(a)
            && !v.is_native_tab_suppressed(a) && adoptable(v, known_visible, a, c) implies has_role(
            w,
            c,
            NativeTabRole::Suppressed,
        ) && has_role(w, a, NativeTabRole::Active) by {
        let k = choose|k: int|
            0 <= k < v.visible_windows.len() && v.window_for_server_id(#[trigger] v.visible_windows[k]) == Some(a);
        assert(v0.window_for_server_id(v0.visible_windows[k]) == Some(a));
        assert(v0.is_native_tab_suppressed(a) == v.is_native_tab_suppressed(a));
        assert(server_visible(v0, c) == server_visible(v, c));
        assert(adoptable(v0, known_visible, a, c));
        assert(v0.window_is_native_tab_candidate(a));
        lemma_adoption_pair(v0, pid, known_visible, a, c, k);
    }
}


proof fn lemma_adoption_pair(v: ReactorView, pid: Pid, known_visible: Seq<WindowId>, a: WindowId, c: WindowId, k: int)
    requires
        ids_agree(v),
        0 <= k < v.visible_windows.len(),
        v.window_for_server_id(v.visible_windows[k]) == Some(a),
        a.pid == pid,
        v.window_is_native_tab_candidate(a),
        !v.is_native_tab_suppressed(a),
        adoptable(v, known_visible, a, c),
    ensures
        has_role(
            v.adopt_all(known_visible, v.active_windows_of(pid, v.visible_windows)),
            c,
            NativeTabRole::Suppressed,
        ),
        has_role(
            v.adopt_all(known_visible, v.active_windows_of(pid, v.visible_windows)),
            a,
            NativeTabRole::Active,
        ),
{
    lemma_adoption_groups_hidden_windows(v, pid, known_visible);
    assert(adoptable(v, known_visible, a, c));
}

} // verus!
