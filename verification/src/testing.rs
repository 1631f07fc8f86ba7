//! Fixtures for exercising the native-tab logic: a fresh reactor, windows and
//! tabs to create, the renumbering of WindowServer ids that the scenarios rely
//! on, and checks of the states they expect.
use vstd::prelude::*;

use crate::ids::{Pid, Rect, Request, SpaceId, WindowId, WindowInfo, WindowServerId, WindowServerInfo};
use crate::managers::{QuarantineStats, Screen};
use crate::model::{NativeTabRole, WindowState};
use crate::reactor::{Reactor, ReactorView};
use crate::seq_util::{any_match, lemma_first_index_found, lemma_first_index_none};
use crate::store::{keys_with_value, lookup, map_insert, map_remove, set_insert, set_remove};

verus! {

/// The window ids of `s`, in order.
pub open spec fn entry_keys(s: Seq<(WindowId, WindowState)>) -> Seq<WindowId> {
    s.map_values(|e: (WindowId, WindowState)| e.0)
}

/// A reactor with two side-by-side screens and their spaces.
pub struct TwoSpaceFixture {
    pub reactor: Reactor,
    pub screen1: Rect,
    pub screen2: Rect,
    pub space1: SpaceId,
    pub space2: SpaceId,
}

/// A reactor, with no applications or windows, whose screens are a 1000 by
/// 1000 screen at the origin showing space 1 and one to its right showing
/// space 2.
pub fn two_space_fixture() -> (r: TwoSpaceFixture)
    ensures
        r.reactor@.wf(),
        r.screen1 == (Rect { x: 0, y: 0, width: 1000, height: 1000 }),
        r.screen2 == (Rect { x: 1000, y: 0, width: 1000, height: 1000 }),
        r.space1 == (SpaceId { id: 1 }),
        r.space2 == (SpaceId { id: 2 }),
        r.reactor@.screens == seq![
            Screen { frame: r.screen1, space: Some(r.space1) },
            Screen { frame: r.screen2, space: Some(r.space2) },
        ],
        r.reactor@.windows.len() == 0,
        r.reactor@.window_ids.len() == 0,
        r.reactor@.visible_windows.len() == 0,
        r.reactor@.layout.len() == 0,
        r.reactor@.selection.len() == 0,
        r.reactor@.apps.len() == 0,
        r.reactor@.requests.len() == 0,
        r.reactor@.tabs.groups.len() == 0,
        r.reactor@.tabs.pending_destroys.len() == 0,
        r.reactor@.tabs.pending_appearances.len() == 0,
{
    let mut reactor = test_reactor();
    let screen1 = Rect::new(0, 0, 1000, 1000);
    let screen2 = Rect::new(1000, 0, 1000, 1000);
    let space1 = SpaceId::new(1);
    let space2 = SpaceId::new(2);
    reactor.space_manager.screens.push(Screen { frame: screen1, space: Some(space1) });
    reactor.space_manager.screens.push(Screen { frame: screen2, space: Some(space2) });
    proof {
        assert(reactor@.screens =~= seq![
            Screen { frame: screen1, space: Some(space1) },
            Screen { frame: screen2, space: Some(space2) },
        ]);
    }
    TwoSpaceFixture { reactor, screen1, screen2, space1, space2 }
}

/// A standard top-level window, numbered `idx`, with no WindowServer id yet;
/// windows of different numbers have different frames.
pub open spec fn spec_make_window(idx: u32) -> WindowInfo {
    WindowInfo {
        is_standard: true,
        is_root: true,
        is_minimized: false,
        frame: Rect { x: (10 * idx) as i64, y: (10 * idx) as i64, width: 100, height: 100 },
        sys_id: None,
    }
}

impl ReactorView {
    /// The WindowServer id of `wid` becomes its window index: the old id is
    /// unmapped and hidden, its description moves to the new id, and the new
    /// id maps to the window and is visible.
    pub open spec fn renumber_window(self, pid: Pid, wid: WindowId) -> Self {
        if wid.pid != pid {
            self
        } else {
            let new_wsid = WindowServerId { id: wid.idx };
            let old_wsid = match self.window(wid) {
                Some(w) => w.info.sys_id,
                None => None,
            };
            let v1 = match old_wsid {
                Some(o) => {
                    let va = ReactorView {
                        window_ids: map_remove(self.window_ids, o),
                        visible_windows: set_remove(self.visible_windows, o),
                        ..self
                    };
                    match lookup(self.window_server_info, o) {
                        Some(info) => ReactorView {
                            window_server_info: map_insert(
                                map_remove(self.window_server_info, o),
                                new_wsid,
                                WindowServerInfo { id: new_wsid, ..info },
                            ),
                            ..va
                        },
                        None => ReactorView {
                            window_server_info: map_remove(self.window_server_info, o),
                            ..va
                        },
                    }
                },
                None => self,
            };
            let v2 = match v1.window(wid) {
                Some(st) => v1.with_window(
                    wid,
                    WindowState { info: WindowInfo { sys_id: Some(new_wsid), ..st.info }, ..st },
                ),
                None => v1,
            };
            ReactorView {
                window_ids: map_insert(v2.window_ids, new_wsid, wid),
                visible_windows: set_insert(v2.visible_windows, new_wsid),
                ..v2
            }
        }
    }

    pub open spec fn renumber_windows(self, pid: Pid, wids: Seq<WindowId>) -> Self
        decreases wids.len(),
    {
        if wids.len() == 0 {
            self
        } else {
            self.renumber_windows(pid, wids.drop_last()).renumber_window(pid, wids.last())
        }
    }

    /// The tab switch from `old_wid` to `new_wid` on `space` is complete: the
    /// old tab is kept hidden, the new one is its group's tab on screen, and it
    /// alone holds the layout of the space, selected.
    pub open spec fn native_tab_switch_state(self, space: SpaceId, old_wid: WindowId, new_wid: WindowId) -> bool {
        &&& self.window(old_wid) matches Some(o) && o.spec_is_native_tab_suppressed()
        &&& self.window(new_wid) matches Some(n) && n.native_tab matches Some(m) && m.role
            == NativeTabRole::Active
        &&& lookup(self.selection, space) == Some(new_wid)
        &&& keys_with_value(self.layout, space) == seq![new_wid]
    }

    /// The new tab numbered `n` of the application of `old_wid`, at its frame.
    pub open spec fn replacement_info(self, old_wid: WindowId, n: u32) -> WindowInfo {
        WindowInfo { frame: self.window(old_wid)->0.frame_monotonic, ..spec_make_window(n) }
    }

    pub open spec fn replacement_ws_info(self, old_wid: WindowId, n: u32) -> WindowServerInfo {
        WindowServerInfo {
            id: WindowServerId { id: n },
            pid: old_wid.pid,
            layer: 0,
            frame: self.window(old_wid)->0.frame_monotonic,
        }
    }

    /// The switch from `old_wid`, whose WindowServer window is `old_ws_id`, to
    /// its new tab numbered `n`.
    pub open spec fn replace_with_tab(self, space: SpaceId, old_wid: WindowId, old_ws_id: WindowServerId, n: u32) -> (Self, bool) {
        self.after_replacement(
            space,
            old_ws_id,
            WindowId { pid: old_wid.pid, idx: n },
            self.replacement_info(old_wid, n),
            self.replacement_ws_info(old_wid, n),
        )
    }

    /// Window (1, 1) is replaced by the tab (1, 2), which is replaced by the
    /// tab (1, 3); every step must stage a destroy and complete its switch.
    pub open spec fn three_tab_group_steps_succeed(self, space: SpaceId) -> bool {
        let first = WindowId { pid: 1, idx: 1 };
        let second = WindowId { pid: 1, idx: 2 };
        let step1 = self.replace_with_tab(space, first, WindowServerId { id: 1 }, 2);
        &&& self.window(first) is Some
        &&& self.stage_native_tab_destroy(WindowServerId { id: 1 }, space).1
        &&& step1.1
        &&& step1.0.window(second) is Some
        &&& step1.0.stage_native_tab_destroy(WindowServerId { id: 2 }, space).1
        &&& step1.0.replace_with_tab(space, second, WindowServerId { id: 2 }, 3).1
    }

    pub open spec fn three_tab_group(self, space: SpaceId) -> Self {
        let step1 = self.replace_with_tab(space, WindowId { pid: 1, idx: 1 }, WindowServerId { id: 1 }, 2);
        step1.0.replace_with_tab(space, WindowId { pid: 1, idx: 2 }, WindowServerId { id: 2 }, 3).0
    }

    pub open spec fn after_replacement(
        self,
        space: SpaceId,
        old_ws_id: WindowServerId,
        new_wid: WindowId,
        replacement: WindowInfo,
        replacement_ws_info: WindowServerInfo,
    ) -> (Self, bool) {
        let staged = self.stage_native_tab_destroy(old_ws_id, space).0;
        let created = staged.handle_window_created(new_wid, replacement, Some(replacement_ws_info));
        created.note_native_tab_appearance(replacement_ws_info.id, space, replacement_ws_info)
    }
}

/// The request asks the application to move `wid` to `frame`.
pub open spec fn sets_frame(wid: WindowId, frame: Rect) -> spec_fn(Request) -> bool {
    |r: Request|
        match r {
            Request::SetWindowFrame(w, f, _, _) => w == wid && f == frame,
        }
}

/// A reactor with no screens, applications or windows.
pub fn test_reactor() -> (r: Reactor)
    ensures
        r@.wf(),
        r@.windows.len() == 0,
        r@.window_ids.len() == 0,
        r@.visible_windows.len() == 0,
        r@.observed_window_server_ids.len() == 0,
        r@.window_server_info.len() == 0,
        r@.layout.len() == 0,
        r@.selection.len() == 0,
        r@.main_windows.len() == 0,
        r@.transactions.len() == 0,
        r@.skip_layout_for_window is None,
        r@.drag_state is Inactive,
        r@.pending_workspace_mouse_warp is None,
        r@.apps.len() == 0,
        r@.requests.len() == 0,
        r@.screens.len() == 0,
        r@.tabs.groups.len() == 0,
        r@.tabs.memberships.len() == 0,
        r@.tabs.pending_destroys.len() == 0,
        r@.tabs.pending_appearances.len() == 0,
        r@.tabs.pending_frame_targets.len() == 0,
        r@.tabs.transient_empty_visibility.len() == 0,
        r@.tabs.next_group_id == 1,
        r@.quarantine_stats == (QuarantineStats {
            appeared_dropped: 0,
            destroyed_dropped: 0,
            resync_dropped: 0,
        }),
        r@.now_ms == 0,
{
    Reactor::new()
}

/// A standard top-level window, numbered `idx`, with no WindowServer id yet;
/// windows of different numbers have different frames.
pub fn make_window(idx: u32) -> (r: WindowInfo)
    ensures
        r == spec_make_window(idx),
{
    let offset: i64 = 10 * (idx as i64);
    WindowInfo {
        is_standard: true,
        is_root: true,
        is_minimized: false,
        frame: Rect { x: offset, y: offset, width: 100, height: 100 },
        sys_id: None,
    }
}

/// A new tab numbered `new_window_number` of the application of `old_wid`,
/// at the frame of `old_wid`, with its WindowServer description.
pub fn replacement_tab(reactor: &Reactor, old_wid: WindowId, new_window_number: u32) -> (r: (
    WindowId,
    WindowInfo,
    WindowServerInfo,
))
    requires
        reactor@.window(old_wid) is Some,
    ensures
        r.0 == (WindowId { pid: old_wid.pid, idx: new_window_number }),
        r.1 == (WindowInfo {
            frame: reactor@.window(old_wid)->0.frame_monotonic,
            ..spec_make_window(new_window_number)
        }),
        r.2 == (WindowServerInfo {
            id: WindowServerId { id: new_window_number },
            pid: old_wid.pid,
            layer: 0,
            frame: reactor@.window(old_wid)->0.frame_monotonic,
        }),
{
    let mut replacement = make_window(new_window_number);
    let old = reactor.window_manager.windows.get(&old_wid).unwrap();
    replacement.frame = old.frame_monotonic;
    let ws_info = WindowServerInfo {
        id: WindowServerId::new(new_window_number),
        pid: old_wid.pid,
        layer: 0,
        frame: replacement.frame,
    };
    (WindowId::new(old_wid.pid, new_window_number), replacement, ws_info)
}

/// Gives every window of `pid` its window index as WindowServer id, visible.
pub fn rewrite_window_server_ids_for_testing(reactor: &mut Reactor, pid: Pid)
    requires
        old(reactor)@.wf(),
    ensures
        final(reactor)@.wf(),
        final(reactor)@ == old(reactor)@.renumber_windows(pid, entry_keys(old(reactor)@.windows)),
{
    let ghost v0 = reactor@;
    let mut wids: Vec<WindowId> = Vec::new();
    let mut k: usize = 0;
    while k < reactor.window_manager.windows.entries.len()
        invariant
            reactor@ == v0,
            k <= v0.windows.len(),
            wids@ == entry_keys(v0.windows.take(k as int)),
        decreases v0.windows.len() - k,
    {
        proof {
            assert(entry_keys(v0.windows.take(k as int + 1)) =~= entry_keys(v0.windows.take(k as int)).push(
                v0.windows[k as int].0,
            ));
        }
        wids.push(reactor.window_manager.windows.entries[k].0);
        k = k + 1;
    }
    proof {
        assert(v0.windows.take(v0.windows.len() as int) == v0.windows);
    }
    let mut i: usize = 0;
    while i < wids.len()
        invariant
            wids@ == entry_keys(v0.windows),
            i <= wids@.len(),
            reactor@.wf(),
            reactor@ == v0.renumber_windows(pid, wids@.take(i as int)),
        decreases wids@.len() - i,
    {
        let wid = wids[i];
        proof {
            assert(wids@.take(i as int + 1).drop_last() == wids@.take(i as int));
        }
        if wid.pid == pid {
            let new_wsid = WindowServerId::new(wid.idx);
            let old_wsid = match reactor.window_manager.windows.get(&wid) {
                Some(w) => w.info.sys_id,
                None => None,
            };
            if let Some(o) = old_wsid {
                reactor.window_manager.window_ids.remove(&o);
                reactor.window_manager.visible_windows.remove(&o);
                let info = reactor.window_server_info_manager.window_server_info.get(&o);
                reactor.window_server_info_manager.window_server_info.remove(&o);
                if let Some(info) = info {
                    reactor.window_server_info_manager.window_server_info.insert(
                        new_wsid,
                        WindowServerInfo { id: new_wsid, ..info },
                    );
                }
            }
            if let Some(st) = reactor.window_manager.windows.get(&wid) {
                reactor.window_manager.windows.insert(
                    wid,
                    WindowState { info: WindowInfo { sys_id: Some(new_wsid), ..st.info }, ..st },
                );
            }
            reactor.window_manager.window_ids.insert(new_wsid, wid);
            reactor.window_manager.visible_windows.insert(new_wsid);
        }
        i = i + 1;
    }
    proof {
        assert(wids@.take(wids@.len() as int) == wids@);
    }
}

/// Some window of `pid` is in the layout of `space`. The layout slots do not
/// depend on the screen's frame.
pub fn has_windows_in_layout(reactor: &Reactor, space: SpaceId, screen: Rect, pid: Pid) -> (r: bool)
    ensures
        r == exists|i: int|
            0 <= i < keys_with_value(reactor@.layout, space).len() && (#[trigger] keys_with_value(
                reactor@.layout,
                space,
            )[i]).pid == pid,
{
    let windows = reactor.layout_manager.layout_engine.windows_in_active_workspace(space);
    let mut i: usize = 0;
    while i < windows.len()
        invariant
            windows@ == keys_with_value(reactor@.layout, space),
            i <= windows@.len(),
            forall|j: int| 0 <= j < i ==> (#[trigger] windows@[j]).pid != pid,
        decreases windows@.len() - i,
    {
        if windows[i].pid == pid {
            assert(windows@[i as int].pid == pid);
            return true;
        }
        i = i + 1;
    }
    false
}

/// `wid` is in the layout of `space`. The layout slots do not depend on the
/// screen's frame.
pub fn has_window_in_layout(reactor: &Reactor, space: SpaceId, screen: Rect, wid: WindowId) -> (r: bool)
    ensures
        r == keys_with_value(reactor@.layout, space).contains(wid),
{
    let windows = reactor.layout_manager.layout_engine.windows_in_active_workspace(space);
    let mut i: usize = 0;
    while i < windows.len()
        invariant
            windows@ == keys_with_value(reactor@.layout, space),
            i <= windows@.len(),
            forall|j: int| 0 <= j < i ==> windows@[j] != wid,
        decreases windows@.len() - i,
    {
        if windows[i] == wid {
            assert(windows@[i as int] == wid);
            return true;
        }
        i = i + 1;
    }
    false
}

/// The scenario step of a tab switch: the WindowServer window `old_ws_id`
/// goes away on `space`, the new tab is created and its WindowServer window
/// appears. Returns whether the appearance completed the switch.
pub fn create_native_tab_replacement(
    reactor: &mut Reactor,
    space: SpaceId,
    old_ws_id: WindowServerId,
    new_wid: WindowId,
    replacement: WindowInfo,
    replacement_ws_info: WindowServerInfo,
) -> (r: bool)
    requires
        old(reactor)@.wf(),
        old(reactor)@.stage_native_tab_destroy(old_ws_id, space).1,
    ensures
        final(reactor)@.wf(),
        (final(reactor)@, r) == old(reactor)@.after_replacement(
            space,
            old_ws_id,
            new_wid,
            replacement,
            replacement_ws_info,
        ),
{
    let staged = reactor.stage_native_tab_destroy(old_ws_id, space);
    reactor.handle_window_created(new_wid, replacement, Some(replacement_ws_info));
    reactor.note_native_tab_appearance(replacement_ws_info.id, space, replacement_ws_info)
}

/// Window (1, 1) is replaced by a tab (1, 2), which is replaced by a tab
/// (1, 3); returns the three windows.
pub fn create_three_tab_group(reactor: &mut Reactor, space: SpaceId) -> (r: (WindowId, WindowId, WindowId))
    requires
        old(reactor)@.wf(),
        old(reactor)@.three_tab_group_steps_succeed(space),
    ensures
        final(reactor)@.wf(),
        final(reactor)@ == old(reactor)@.three_tab_group(space),
        r == (WindowId { pid: 1, idx: 1 }, WindowId { pid: 1, idx: 2 }, WindowId { pid: 1, idx: 3 }),
{
    let first = WindowId::new(1, 1);
    let (second, second_info, second_ws_info) = replacement_tab(reactor, first, 2);
    let _ = create_native_tab_replacement(
        reactor,
        space,
        WindowServerId::new(1),
        second,
        second_info,
        second_ws_info,
    );
    let (third, third_info, third_ws_info) = replacement_tab(reactor, second, 3);
    let _ = create_native_tab_replacement(
        reactor,
        space,
        WindowServerId::new(2),
        third,
        third_info,
        third_ws_info,
    );
    (first, second, third)
}

/// Whether the tab switch from `old_wid` to `new_wid` on `space` is complete.
pub fn native_tab_switch_state_holds(reactor: &Reactor, space: SpaceId, old_wid: WindowId, new_wid: WindowId) -> (r: bool)
    ensures
        r == reactor@.native_tab_switch_state(space, old_wid, new_wid),
{
    let old_ok = match reactor.window_manager.windows.get(&old_wid) {
        Some(o) => o.is_native_tab_suppressed(),
        None => false,
    };
    let new_ok = match reactor.window_manager.windows.get(&new_wid) {
        Some(n) => match n.native_tab {
            Some(m) => m.role == NativeTabRole::Active,
            None => false,
        },
        None => false,
    };
    let selected = reactor.layout_manager.layout_engine.selected_window(space);
    let windows = reactor.layout_manager.layout_engine.windows_in_active_workspace(space);
    let laid_out = windows.len() == 1 && windows[0] == new_wid;
    proof {
        if laid_out {
            assert(windows@ =~= seq![new_wid]);
        }
    }
    old_ok && new_ok && selected == Some(new_wid) && laid_out
}

/// Whether `wid` is gone and the layout of `space` is empty.
pub fn window_removed_from_layout_holds(reactor: &Reactor, space: SpaceId, wid: WindowId) -> (r: bool)
    ensures
        r == (reactor@.window(wid) is None && keys_with_value(reactor@.layout, space).len() == 0),
{
    !reactor.window_manager.windows.contains_key(&wid)
        && reactor.layout_manager.layout_engine.windows_in_active_workspace(space).len() == 0
}

/// The tab switch from `old_wid` to `new_wid` on `space` is complete: the old
/// tab is hidden, the new one is the active tab, selected and alone in the
/// layout of `space`. Callable only where that holds.
pub fn assert_native_tab_switch_state(reactor: &Reactor, space: SpaceId, old_wid: WindowId, new_wid: WindowId)
    requires
        reactor@.native_tab_switch_state(space, old_wid, new_wid),
{
    let holds = native_tab_switch_state_holds(reactor, space, old_wid, new_wid);
    assert(holds);
}

/// `wid` is gone and the layout of `space` is empty. Callable only where that
/// holds.
pub fn assert_window_removed_from_layout(reactor: &Reactor, space: SpaceId, wid: WindowId)
    requires
        reactor@.window(wid) is None,
        keys_with_value(reactor@.layout, space).len() == 0,
{
    let holds = window_removed_from_layout_holds(reactor, space, wid);
    assert(holds);
}

/// Whether some request asks to move `wid` to `frame`.
pub fn assert_has_set_window_frame_request(requests: &[Request], wid: WindowId, frame: Rect) -> (r: bool)
    ensures
        r == any_match(requests@, sets_frame(wid, frame)),
{
    let ghost p = sets_frame(wid, frame);
    let mut i: usize = 0;
    while i < requests.len()
        invariant
            p == sets_frame(wid, frame),
            i <= requests@.len(),
            forall|j: int| 0 <= j < i ==> !p(#[trigger] requests@[j]),
        decreases requests@.len() - i,
    {
        let hit = match requests[i] {
            Request::SetWindowFrame(w, f, _, _) => w == wid && f == frame,
        };
        if hit {
            proof {
                lemma_first_index_found(requests@, p, i as int);
            }
            return true;
        }
        i = i + 1;
    }
    proof {
        lemma_first_index_none(requests@, p);
    }
    false
}

} // verus!
