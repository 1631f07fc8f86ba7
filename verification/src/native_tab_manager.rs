//! Native macOS tab groups: the windows of one application that share a frame
//! and stand for the tabs of one window, of which only the active tab is on
//! screen. Also the half-observed tab switches: a WindowServer window that went
//! away (a pending destroy) or appeared (a pending appearance) before the
//! accessibility layer said which window it was.
use vstd::prelude::*;

use crate::ids::{Pid, Rect, SpaceId, WindowId, WindowServerId};
use crate::model::{NativeTabMembership, NativeTabRole, WindowState};
use crate::store::{
    distinct_keys, keys_with_value, lemma_filter_keeps_distinct_keys, lemma_map_insert, lookup,
    map_insert, map_remove, set_insert, set_remove, VecMap, VecSet,
};

verus! {

/// One native-tab group.
#[derive(Clone, Copy, Debug, PartialEq, Eq, Structural)]
pub struct NativeTabGroup {
    pub pid: Pid,
    /// The tab on screen.
    pub active: Option<WindowId>,
    /// The frame that every tab of the group shares.
    pub canonical_frame: Rect,
}

/// A WindowServer window of a managed window went away; it may be a tab switch.
#[derive(Clone, Copy, Debug, PartialEq, Eq, Structural)]
pub struct PendingNativeTabDestroy {
    pub window_id: WindowId,
    pub window_server_id: WindowServerId,
    pub space_id: SpaceId,
    pub frame: Rect,
    /// When it was staged, in milliseconds of the reactor's clock.
    pub staged_at: u64,
}

/// A WindowServer window appeared that may be the new tab of a switch.
#[derive(Clone, Copy, Debug, PartialEq, Eq, Structural)]
pub struct PendingNativeTabAppearance {
    pub wsid: WindowServerId,
    pub pid: Pid,
    pub space: SpaceId,
    pub frame: Rect,
    /// When it was staged, in milliseconds of the reactor's clock.
    pub staged_at: u64,
}

pub open spec fn destroy_of_pid(pid: Pid) -> spec_fn(PendingNativeTabDestroy) -> bool {
    |d: PendingNativeTabDestroy| d.window_id.pid == pid
}

pub open spec fn destroy_not_of_window(wid: WindowId) -> spec_fn(PendingNativeTabDestroy) -> bool {
    |d: PendingNativeTabDestroy| d.window_id != wid
}

pub open spec fn appearance_of_pid(pid: Pid) -> spec_fn(PendingNativeTabAppearance) -> bool {
    |a: PendingNativeTabAppearance| a.pid == pid
}

pub open spec fn appearance_not_of(pid: Pid, wsid: WindowServerId) -> spec_fn(
    PendingNativeTabAppearance,
) -> bool {
    |a: PendingNativeTabAppearance| !(a.pid == pid && a.wsid == wsid)
}

/// Staged no longer than `max_age` milliseconds before `now`.
pub open spec fn destroy_is_fresh(now: u64, max_age: u64) -> spec_fn(PendingNativeTabDestroy) -> bool {
    |d: PendingNativeTabDestroy| now <= d.staged_at + max_age
}

pub open spec fn appearance_is_fresh(now: u64, max_age: u64) -> spec_fn(
    PendingNativeTabAppearance,
) -> bool {
    |a: PendingNativeTabAppearance| now <= a.staged_at + max_age
}

/// The state of a window whose membership is cleared.
pub open spec fn without_tab(st: WindowState) -> WindowState {
    WindowState { native_tab: None, ..st }
}

/// What the native-tab manager holds, as sequences in store order.
pub struct NativeTabView {
    pub groups: Seq<(u32, NativeTabGroup)>,
    pub memberships: Seq<(WindowId, u32)>,
    pub pending_destroys: Seq<PendingNativeTabDestroy>,
    pub pending_appearances: Seq<PendingNativeTabAppearance>,
    pub pending_frame_targets: Seq<(WindowId, Rect)>,
    pub transient_empty_visibility: Seq<Pid>,
    pub next_group_id: u32,
}

/// A membership entry whose group belongs to `pid`.
pub open spec fn entry_in_app(groups: Seq<(u32, NativeTabGroup)>, pid: Pid) -> spec_fn(
    (WindowId, u32),
) -> bool {
    |e: (WindowId, u32)| lookup(groups, e.1) matches Some(group) && group.pid == pid
}

pub open spec fn entry_not_in_app(groups: Seq<(u32, NativeTabGroup)>, pid: Pid) -> spec_fn(
    (WindowId, u32),
) -> bool {
    |e: (WindowId, u32)| !entry_in_app(groups, pid)(e)
}

pub open spec fn group_not_of_pid(pid: Pid) -> spec_fn((u32, NativeTabGroup)) -> bool {
    |e: (u32, NativeTabGroup)| e.1.pid != pid
}

pub open spec fn destroy_not_of_pid(pid: Pid) -> spec_fn(PendingNativeTabDestroy) -> bool {
    |d: PendingNativeTabDestroy| d.window_id.pid != pid
}

pub open spec fn appearance_not_of_pid(pid: Pid) -> spec_fn(PendingNativeTabAppearance) -> bool {
    |a: PendingNativeTabAppearance| a.pid != pid
}

/// The window states after the memberships listed in `entries` that point into
/// a group of `pid` were cleared, in order.
pub open spec fn clear_app_tabs(
    windows: Seq<(WindowId, WindowState)>,
    groups: Seq<(u32, NativeTabGroup)>,
    entries: Seq<(WindowId, u32)>,
    pid: Pid,
) -> Seq<(WindowId, WindowState)>
    decreases entries.len(),
{
    if entries.len() == 0 {
        windows
    } else {
        let before = clear_app_tabs(windows, groups, entries.drop_last(), pid);
        let e = entries.last();
        if entry_in_app(groups, pid)(e) && lookup(before, e.0) is Some {
            map_insert(before, e.0, without_tab(lookup(before, e.0)->0))
        } else {
            before
        }
    }
}

impl NativeTabView {
    pub open spec fn wf(self) -> bool {
        &&& distinct_keys(self.groups)
        &&& distinct_keys(self.memberships)
        &&& distinct_keys(self.pending_frame_targets)
    }

    pub open spec fn group_for_window(self, wid: WindowId) -> Option<u32> {
        lookup(self.memberships, wid)
    }

    pub open spec fn group(self, group_id: u32) -> Option<NativeTabGroup> {
        lookup(self.groups, group_id)
    }

    /// The members of a group, in the order in which they joined.
    pub open spec fn members(self, group_id: u32) -> Seq<WindowId> {
        keys_with_value(self.memberships, group_id)
    }

    /// The window belongs to a group whose tab on screen is another window.
    pub open spec fn is_suppressed(self, wid: WindowId) -> bool {
        match self.group_for_window(wid) {
            Some(g) => match self.group(g) {
                Some(group) => group.active != Some(wid),
                None => false,
            },
            None => false,
        }
    }

    pub open spec fn pending_destroys_for_pid(self, pid: Pid) -> Seq<PendingNativeTabDestroy> {
        self.pending_destroys.filter(destroy_of_pid(pid))
    }

    pub open spec fn pending_appearances_for_pid(self, pid: Pid) -> Seq<PendingNativeTabAppearance> {
        self.pending_appearances.filter(appearance_of_pid(pid))
    }

    pub open spec fn has_pending_destroy(self, pid: Pid, wid: WindowId) -> bool {
        exists|i: int|
            0 <= i < self.pending_destroys.len() && #[trigger] self.pending_destroys[i].window_id
                == wid && wid.pid == pid
    }

    pub open spec fn has_pending_appearance(self, pid: Pid, wsid: WindowServerId) -> bool {
        exists|i: int|
            0 <= i < self.pending_appearances.len() && #[trigger] self.pending_appearances[i].pid
                == pid && self.pending_appearances[i].wsid == wsid
    }

    pub open spec fn pending_frame_target(self, wid: WindowId) -> Option<Rect> {
        lookup(self.pending_frame_targets, wid)
    }

    pub open spec fn clear_pending_destroy(self, wid: WindowId) -> Self {
        NativeTabView {
            pending_destroys: self.pending_destroys.filter(destroy_not_of_window(wid)),
            ..self
        }
    }

    pub open spec fn clear_pending_appearance(self, pid: Pid, wsid: WindowServerId) -> Self {
        NativeTabView {
            pending_appearances: self.pending_appearances.filter(appearance_not_of(pid, wsid)),
            ..self
        }
    }

    /// The WindowServer window of `wid` went away on `space`; an earlier record
    /// for `wid` is replaced.
    pub open spec fn stage_destroy(
        self,
        wid: WindowId,
        wsid: WindowServerId,
        space: SpaceId,
        frame: Rect,
        now: u64,
    ) -> Self {
        NativeTabView {
            pending_destroys: self.pending_destroys.filter(destroy_not_of_window(wid)).push(
                PendingNativeTabDestroy {
                    window_id: wid,
                    window_server_id: wsid,
                    space_id: space,
                    frame,
                    staged_at: now,
                },
            ),
            ..self
        }
    }

    /// `wsid` of `pid` appeared on `space`; an earlier record for it is replaced.
    pub open spec fn stage_appearance(
        self,
        wsid: WindowServerId,
        pid: Pid,
        space: SpaceId,
        frame: Rect,
        now: u64,
    ) -> Self {
        NativeTabView {
            pending_appearances: self.pending_appearances.filter(appearance_not_of(pid, wsid)).push(
                PendingNativeTabAppearance { wsid, pid, space, frame, staged_at: now },
            ),
            ..self
        }
    }

    /// Pending destroys and appearances older than `max_age` at `now` are gone.
    pub open spec fn purge_expired(self, now: u64, max_age: u64) -> Self {
        NativeTabView {
            pending_destroys: self.pending_destroys.filter(destroy_is_fresh(now, max_age)),
            pending_appearances: self.pending_appearances.filter(appearance_is_fresh(now, max_age)),
            ..self
        }
    }

    pub open spec fn set_pending_frame_target(self, wid: WindowId, frame: Rect) -> Self {
        NativeTabView {
            pending_frame_targets: map_insert(self.pending_frame_targets, wid, frame),
            ..self
        }
    }

    pub open spec fn note_transient_empty_visibility(self, pid: Pid) -> Self {
        NativeTabView {
            transient_empty_visibility: set_insert(self.transient_empty_visibility, pid),
            ..self
        }
    }

    pub open spec fn clear_transient_empty_visibility(self, pid: Pid) -> Self {
        NativeTabView {
            transient_empty_visibility: set_remove(self.transient_empty_visibility, pid),
            ..self
        }
    }

    /// `anchor` already has a group that exists.
    pub open spec fn has_live_group(self, anchor: WindowId) -> bool {
        self.group_for_window(anchor) matches Some(g) && self.group(g) is Some
    }

    /// The group that `anchor` shares with another window: its own if that
    /// exists, else the next fresh id.
    pub open spec fn group_of_anchor(self, anchor: WindowId) -> u32 {
        if self.has_live_group(anchor) {
            self.group_for_window(anchor)->0
        } else {
            self.next_group_id
        }
    }

    /// `anchor` and `other` in the group of `anchor` (or a new one), with
    /// `active` on screen at `frame`.
    pub open spec fn join(self, anchor: WindowId, other: WindowId, active: WindowId, frame: Rect) -> Self {
        let g = self.group_of_anchor(anchor);
        NativeTabView {
            memberships: map_insert(map_insert(self.memberships, anchor, g), other, g),
            groups: map_insert(
                self.groups,
                g,
                NativeTabGroup { pid: anchor.pid, active: Some(active), canonical_frame: frame },
            ),
            next_group_id: if self.has_live_group(anchor) {
                self.next_group_id
            } else {
                if self.next_group_id < u32::MAX {
                    (self.next_group_id + 1) as u32
                } else {
                    0
                }
            },
            ..self
        }
    }

    /// The group of `wid`, where that group exists.
    pub open spec fn live_group_of(self, wid: WindowId) -> Option<u32> {
        if self.has_live_group(wid) {
            self.group_for_window(wid)
        } else {
            None
        }
    }

    pub open spec fn set_active_member(self, wid: WindowId, frame: Rect) -> Self {
        match self.live_group_of(wid) {
            Some(g) => NativeTabView {
                groups: map_insert(
                    self.groups,
                    g,
                    NativeTabGroup {
                        active: Some(wid),
                        canonical_frame: frame,
                        ..self.group(g)->0
                    },
                ),
                ..self
            },
            None => self,
        }
    }

    /// An active member moved to `frame`: its group's shared frame follows.
    pub open spec fn update_frame(self, frame: Rect, membership: Option<NativeTabMembership>) -> Self {
        match membership {
            Some(m) => if m.role == NativeTabRole::Active && self.group(m.group_id) is Some {
                NativeTabView {
                    groups: map_insert(
                        self.groups,
                        m.group_id,
                        NativeTabGroup { canonical_frame: frame, ..self.group(m.group_id)->0 },
                    ),
                    ..self
                }
            } else {
                self
            },
            None => self,
        }
    }

    /// `wid` leaves its group; the first remaining member takes over as the tab
    /// on screen when `wid` was it (in the group and in its window state); a
    /// group without members is dropped. Returns the new states of the tabs,
    /// of the windows, and the promoted member.
    pub open spec fn remove_window(self, wid: WindowId, windows: Seq<(WindowId, WindowState)>) -> (
        NativeTabView,
        Seq<(WindowId, WindowState)>,
        Option<WindowId>,
    ) {
        let t = NativeTabView {
            pending_frame_targets: map_remove(self.pending_frame_targets, wid),
            ..self
        };
        match self.group_for_window(wid) {
            None => (t, windows, None),
            Some(g) => {
                let u = NativeTabView { memberships: map_remove(self.memberships, wid), ..t };
                match self.group(g) {
                    None => (u, windows, None),
                    Some(group) => {
                        let survivors = u.members(g);
                        if survivors.len() == 0 {
                            (NativeTabView { groups: map_remove(self.groups, g), ..u }, windows, None)
                        } else if group.active == Some(wid) {
                            let promoted = survivors[0];
                            let w = match lookup(windows, promoted) {
                                Some(st) => map_insert(
                                    windows,
                                    promoted,
                                    WindowState {
                                        native_tab: Some(
                                            NativeTabMembership {
                                                group_id: g,
                                                role: NativeTabRole::Active,
                                            },
                                        ),
                                        ..st
                                    },
                                ),
                                None => windows,
                            };
                            (
                                NativeTabView {
                                    groups: map_insert(
                                        self.groups,
                                        g,
                                        NativeTabGroup { active: Some(promoted), ..group },
                                    ),
                                    ..u
                                },
                                w,
                                Some(promoted),
                            )
                        } else {
                            (u, windows, None)
                        }
                    },
                }
            },
        }
    }

    /// Everything about the tabs of `pid` is forgotten: its groups, the
    /// memberships in them (also in the window states), its pending destroys
    /// and appearances, and its transient-empty mark.
    pub open spec fn remove_app(self, pid: Pid, windows: Seq<(WindowId, WindowState)>) -> (
        NativeTabView,
        Seq<(WindowId, WindowState)>,
    ) {
        (
            NativeTabView {
                memberships: self.memberships.filter(entry_not_in_app(self.groups, pid)),
                groups: self.groups.filter(group_not_of_pid(pid)),
                pending_destroys: self.pending_destroys.filter(destroy_not_of_pid(pid)),
                pending_appearances: self.pending_appearances.filter(appearance_not_of_pid(pid)),
                transient_empty_visibility: set_remove(self.transient_empty_visibility, pid),
                ..self
            },
            clear_app_tabs(windows, self.groups, self.memberships, pid),
        )
    }
}

/// Native-tab groups and half-observed tab switches.
pub struct NativeTabManager {
    pub groups: VecMap<u32, NativeTabGroup>,
    /// The group of each grouped window; a group's members are listed in the
    /// order in which they joined.
    pub memberships: VecMap<WindowId, u32>,
    pub pending_destroys: Vec<PendingNativeTabDestroy>,
    pub pending_appearances: Vec<PendingNativeTabAppearance>,
    /// Frames asked of tabs that have not yet been seen to take them.
    pub pending_frame_targets: VecMap<WindowId, Rect>,
    /// Applications that just reported no main window during a tab switch.
    pub transient_empty_visibility: VecSet<Pid>,
    pub next_group_id: u32,
}

impl View for NativeTabManager {
    type V = NativeTabView;

    open spec fn view(&self) -> NativeTabView {
        NativeTabView {
            groups: self.groups.entries@,
            memberships: self.memberships.entries@,
            pending_destroys: self.pending_destroys@,
            pending_appearances: self.pending_appearances@,
            pending_frame_targets: self.pending_frame_targets.entries@,
            transient_empty_visibility: self.transient_empty_visibility.items@,
            next_group_id: self.next_group_id,
        }
    }
}

impl NativeTabManager {
    pub fn new() -> (r: NativeTabManager)
        ensures
            r@.wf(),
            r@.groups.len() == 0,
            r@.memberships.len() == 0,
            r@.pending_destroys.len() == 0,
            r@.pending_appearances.len() == 0,
            r@.pending_frame_targets.len() == 0,
            r@.transient_empty_visibility.len() == 0,
            r@.next_group_id == 1,
    {
        NativeTabManager {
            groups: VecMap::new(),
            memberships: VecMap::new(),
            pending_destroys: Vec::new(),
            pending_appearances: Vec::new(),
            pending_frame_targets: VecMap::new(),
            transient_empty_visibility: VecSet::new(),
            next_group_id: 1,
        }
    }

    pub fn group_for_window(&self, wid: WindowId) -> (r: Option<u32>)
        ensures
            r == self@.group_for_window(wid),
    {
        self.memberships.get(&wid)
    }

    pub fn group(&self, group_id: u32) -> (r: Option<NativeTabGroup>)
        ensures
            r == self@.group(group_id),
    {
        self.groups.get(&group_id)
    }

    pub fn members(&self, group_id: u32) -> (r: Vec<WindowId>)
        ensures
            r@ == self@.members(group_id),
    {
        self.memberships.keys_with(&group_id)
    }

    pub fn is_suppressed(&self, wid: WindowId) -> (r: bool)
        ensures
            r == self@.is_suppressed(wid),
    {
        match self.memberships.get(&wid) {
            Some(g) => match self.groups.get(&g) {
                Some(group) => group.active != Some(wid),
                None => false,
            },
            None => false,
        }
    }

    pub fn pending_destroys_for_pid(&self, pid: Pid) -> (r: Vec<PendingNativeTabDestroy>)
        ensures
            r@ == self@.pending_destroys_for_pid(pid),
    {
        let ghost s = self.pending_destroys@;
        let ghost p = destroy_of_pid(pid);
        let mut r: Vec<PendingNativeTabDestroy> = Vec::new();
        let mut i: usize = 0;
        proof {
            assert(s.take(0).filter(p) =~= r@) by {
                reveal(Seq::filter);
            }
        }
        while i < self.pending_destroys.len()
            invariant
                s == self.pending_destroys@,
                p == destroy_of_pid(pid),
                i <= s.len(),
                r@ == s.take(i as int).filter(p),
            decreases s.len() - i,
        {
            let d = self.pending_destroys[i];
            proof {
                assert(s.take(i as int + 1) == s.take(i as int).push(d));
                s.take(i as int).lemma_filter_push(d, p);
            }
            if d.window_id.pid == pid {
                r.push(d);
            }
            i = i + 1;
        }
        proof {
            assert(s.take(s.len() as int) == s);
        }
        r
    }

    pub fn pending_appearances_for_pid(&self, pid: Pid) -> (r: Vec<PendingNativeTabAppearance>)
        ensures
            r@ == self@.pending_appearances_for_pid(pid),
    {
        let ghost s = self.pending_appearances@;
        let ghost p = appearance_of_pid(pid);
        let mut r: Vec<PendingNativeTabAppearance> = Vec::new();
        let mut i: usize = 0;
        proof {
            assert(s.take(0).filter(p) =~= r@) by {
                reveal(Seq::filter);
            }
        }
        while i < self.pending_appearances.len()
            invariant
                s == self.pending_appearances@,
                p == appearance_of_pid(pid),
                i <= s.len(),
                r@ == s.take(i as int).filter(p),
            decreases s.len() - i,
        {
            let a = self.pending_appearances[i];
            proof {
                assert(s.take(i as int + 1) == s.take(i as int).push(a));
                s.take(i as int).lemma_filter_push(a, p);
            }
            if a.pid == pid {
                r.push(a);
            }
            i = i + 1;
        }
        proof {
            assert(s.take(s.len() as int) == s);
        }
        r
    }

    pub fn has_pending_destroy(&self, pid: Pid, wid: WindowId) -> (r: bool)
        ensures
            r == self@.has_pending_destroy(pid, wid),
    {
        let mut i: usize = 0;
        while i < self.pending_destroys.len()
            invariant
                i <= self.pending_destroys@.len(),
                forall|j: int|
                    0 <= j < i ==> !(#[trigger] self.pending_destroys@[j].window_id == wid
                        && wid.pid == pid),
            decreases self.pending_destroys@.len() - i,
        {
            if self.pending_destroys[i].window_id == wid && wid.pid == pid {
                assert(self@.pending_destroys[i as int].window_id == wid);
                return true;
            }
            i = i + 1;
        }
        false
    }

    pub fn has_pending_appearance(&self, pid: Pid, wsid: WindowServerId) -> (r: bool)
        ensures
            r == self@.has_pending_appearance(pid, wsid),
    {
        let mut i: usize = 0;
        while i < self.pending_appearances.len()
            invariant
                i <= self.pending_appearances@.len(),
                forall|j: int|
                    0 <= j < i ==> !(#[trigger] self.pending_appearances@[j].pid == pid
                        && self.pending_appearances@[j].wsid == wsid),
            decreases self.pending_appearances@.len() - i,
        {
            if self.pending_appearances[i].pid == pid && self.pending_appearances[i].wsid == wsid {
                assert(self@.pending_appearances[i as int].pid == pid);
                return true;
            }
            i = i + 1;
        }
        false
    }

    /// Drops the pending destroy of `wid`.
    pub fn clear_pending_destroy(&mut self, wid: WindowId)
        ensures
            final(self)@ == old(self)@.clear_pending_destroy(wid),
    {
        let ghost s = self.pending_destroys@;
        let ghost p = destroy_not_of_window(wid);
        let mut r: Vec<PendingNativeTabDestroy> = Vec::new();
        let mut i: usize = 0;
        proof {
            assert(s.take(0).filter(p) =~= r@) by {
                reveal(Seq::filter);
            }
        }
        while i < self.pending_destroys.len()
            invariant
                s == self.pending_destroys@,
                p == destroy_not_of_window(wid),
                i <= s.len(),
                r@ == s.take(i as int).filter(p),
            decreases s.len() - i,
        {
            let d = self.pending_destroys[i];
            proof {
                assert(s.take(i as int + 1) == s.take(i as int).push(d));
                s.take(i as int).lemma_filter_push(d, p);
            }
            if d.window_id != wid {
                r.push(d);
            }
            i = i + 1;
        }
        proof {
            assert(s.take(s.len() as int) == s);
        }
        self.pending_destroys = r;
    }

    /// Drops the pending appearance of `wsid` for `pid`.
    pub fn clear_pending_appearance(&mut self, pid: Pid, wsid: WindowServerId)
        ensures
            final(self)@ == old(self)@.clear_pending_appearance(pid, wsid),
    {
        let ghost s = self.pending_appearances@;
        let ghost p = appearance_not_of(pid, wsid);
        let mut r: Vec<PendingNativeTabAppearance> = Vec::new();
        let mut i: usize = 0;
        proof {
            assert(s.take(0).filter(p) =~= r@) by {
                reveal(Seq::filter);
            }
        }
        while i < self.pending_appearances.len()
            invariant
                s == self.pending_appearances@,
                p == appearance_not_of(pid, wsid),
                i <= s.len(),
                r@ == s.take(i as int).filter(p),
            decreases s.len() - i,
        {
            let a = self.pending_appearances[i];
            proof {
                assert(s.take(i as int + 1) == s.take(i as int).push(a));
                s.take(i as int).lemma_filter_push(a, p);
            }
            if !(a.pid == pid && a.wsid == wsid) {
                r.push(a);
            }
            i = i + 1;
        }
        proof {
            assert(s.take(s.len() as int) == s);
        }
        self.pending_appearances = r;
    }

    /// Records that the WindowServer window of `wid` went away on `space`,
    /// replacing an earlier record for `wid`.
    pub fn stage_destroy(
        &mut self,
        wid: WindowId,
        wsid: WindowServerId,
        space: SpaceId,
        frame: Rect,
        now: u64,
    )
        ensures
            final(self)@ == old(self)@.stage_destroy(wid, wsid, space, frame, now),
    {
        self.clear_pending_destroy(wid);
        self.pending_destroys.push(
            PendingNativeTabDestroy {
                window_id: wid,
                window_server_id: wsid,
                space_id: space,
                frame,
                staged_at: now,
            },
        );
    }

    /// Records that `wsid` of `pid` appeared on `space`, replacing an earlier
    /// record for it.
    pub fn stage_appearance(
        &mut self,
        wsid: WindowServerId,
        pid: Pid,
        space: SpaceId,
        frame: Rect,
        now: u64,
    )
        ensures
            final(self)@ == old(self)@.stage_appearance(wsid, pid, space, frame, now),
    {
        self.clear_pending_appearance(pid, wsid);
        self.pending_appearances.push(
            PendingNativeTabAppearance { wsid, pid, space, frame, staged_at: now },
        );
    }

    /// Drops the pending destroys and appearances staged more than `max_age`
    /// milliseconds before `now`.
    pub fn purge_expired_pending_states(&mut self, now: u64, max_age: u64)
        ensures
            final(self)@ == old(self)@.purge_expired(now, max_age),
    {
        let ghost s = self.pending_destroys@;
        let ghost p = destroy_is_fresh(now, max_age);
        let mut r: Vec<PendingNativeTabDestroy> = Vec::new();
        let mut i: usize = 0;
        proof {
            assert(s.take(0).filter(p) =~= r@) by {
                reveal(Seq::filter);
            }
        }
        while i < self.pending_destroys.len()
            invariant
                s == self.pending_destroys@,
                p == destroy_is_fresh(now, max_age),
                i <= s.len(),
                r@ == s.take(i as int).filter(p),
            decreases s.len() - i,
        {
            let d = self.pending_destroys[i];
            proof {
                assert(s.take(i as int + 1) == s.take(i as int).push(d));
                s.take(i as int).lemma_filter_push(d, p);
            }
            if now as u128 <= d.staged_at as u128 + max_age as u128 {
                r.push(d);
            }
            i = i + 1;
        }
        proof {
            assert(s.take(s.len() as int) == s);
        }
        self.pending_destroys = r;

        let ghost t = self.pending_appearances@;
        let ghost q = appearance_is_fresh(now, max_age);
        let mut k: Vec<PendingNativeTabAppearance> = Vec::new();
        let mut j: usize = 0;
        proof {
            assert(t.take(0).filter(q) =~= k@) by {
                reveal(Seq::filter);
            }
        }
        while j < self.pending_appearances.len()
            invariant
                t == self.pending_appearances@,
                q == appearance_is_fresh(now, max_age),
                j <= t.len(),
                k@ == t.take(j as int).filter(q),
            decreases t.len() - j,
        {
            let a = self.pending_appearances[j];
            proof {
                assert(t.take(j as int + 1) == t.take(j as int).push(a));
                t.take(j as int).lemma_filter_push(a, q);
            }
            if now as u128 <= a.staged_at as u128 + max_age as u128 {
                k.push(a);
            }
            j = j + 1;
        }
        proof {
            assert(t.take(t.len() as int) == t);
        }
        self.pending_appearances = k;
    }

    pub fn set_pending_frame_target(&mut self, wid: WindowId, frame: Rect)
        ensures
            old(self)@.wf() ==> final(self)@.wf(),
            final(self)@ == old(self)@.set_pending_frame_target(wid, frame),
    {
        self.pending_frame_targets.insert(wid, frame);
    }

    pub fn pending_frame_target(&self, wid: WindowId) -> (r: Option<Rect>)
        ensures
            r == self@.pending_frame_target(wid),
    {
        self.pending_frame_targets.get(&wid)
    }

    pub fn note_transient_empty_visibility(&mut self, pid: Pid)
        ensures
            final(self)@ == old(self)@.note_transient_empty_visibility(pid),
    {
        self.transient_empty_visibility.insert(pid);
    }

    pub fn clear_transient_empty_visibility(&mut self, pid: Pid)
        ensures
            final(self)@ == old(self)@.clear_transient_empty_visibility(pid),
    {
        self.transient_empty_visibility.remove(&pid);
    }

    /// Puts `anchor` and `other` in the group of `anchor` (a new group if it has
    /// none) with `active` as the tab on screen at `frame`; returns the group.
    fn join(&mut self, anchor: WindowId, other: WindowId, active: WindowId, frame: Rect) -> (r: u32)
        requires
            old(self)@.wf(),
        ensures
            final(self)@.wf(),
            r == old(self)@.group_of_anchor(anchor),
            final(self)@ == old(self)@.join(anchor, other, active, frame),
    {
        let existing = match self.memberships.get(&anchor) {
            Some(g) => if self.groups.contains_key(&g) {
                Some(g)
            } else {
                None
            },
            None => None,
        };
        let group_id = match existing {
            Some(g) => g,
            None => {
                let g = self.next_group_id;
                self.next_group_id = self.next_group_id.wrapping_add(1);
                g
            },
        };
        self.memberships.insert(anchor, group_id);
        self.memberships.insert(other, group_id);
        self.groups.insert(
            group_id,
            NativeTabGroup { pid: anchor.pid, active: Some(active), canonical_frame: frame },
        );
        group_id
    }

    /// `new_wid` replaces `old_wid` as the tab on screen of the group of
    /// `old_wid`, which is created if `old_wid` has none; returns the group.
    pub fn replace_active_member(&mut self, old_wid: WindowId, new_wid: WindowId, frame: Rect) -> (r:
        u32)
        requires
            old(self)@.wf(),
        ensures
            final(self)@.wf(),
            r == old(self)@.group_of_anchor(old_wid),
            final(self)@ == old(self)@.join(old_wid, new_wid, new_wid, frame),
    {
        self.join(old_wid, new_wid, new_wid, frame)
    }

    /// `candidate` joins the group of `active` as a hidden tab; `active` stays
    /// on screen. Returns the group.
    pub fn add_background_member(&mut self, active: WindowId, candidate: WindowId, frame: Rect) -> (r:
        u32)
        requires
            old(self)@.wf(),
        ensures
            final(self)@.wf(),
            r == old(self)@.group_of_anchor(active),
            final(self)@ == old(self)@.join(active, candidate, active, frame),
    {
        self.join(active, candidate, active, frame)
    }

    /// Makes `wid` the tab on screen of its group, at `frame`.
    pub fn set_active_member(&mut self, wid: WindowId, frame: Rect) -> (r: Option<u32>)
        requires
            old(self)@.wf(),
        ensures
            final(self)@.wf(),
            r == old(self)@.live_group_of(wid),
            final(self)@ == old(self)@.set_active_member(wid, frame),
    {
        let g = match self.memberships.get(&wid) {
            Some(g) => g,
            None => return None,
        };
        match self.groups.get(&g) {
            Some(group) => {
                self.groups.insert(
                    g,
                    NativeTabGroup { active: Some(wid), canonical_frame: frame, ..group },
                );
                Some(g)
            },
            None => None,
        }
    }

    /// The tab on screen moved to `frame`: the group's shared frame follows.
    /// Only an active membership whose group exists counts.
    pub fn update_frame(&mut self, wid: WindowId, frame: Rect, membership: Option<NativeTabMembership>)
        requires
            old(self)@.wf(),
        ensures
            final(self)@.wf(),
            final(self)@ == old(self)@.update_frame(frame, membership),
    {
        if let Some(m) = membership {
            if m.role == NativeTabRole::Active {
                if let Some(group) = self.groups.get(&m.group_id) {
                    self.groups.insert(
                        m.group_id,
                        NativeTabGroup { canonical_frame: frame, ..group },
                    );
                }
            }
        }
    }

    /// Takes `wid` out of its group. When it was the tab on screen, the first
    /// remaining member takes its place, in the group and in its window state,
    /// and is returned. A group left without members is dropped.
    pub fn remove_window(&mut self, wid: WindowId, windows: &mut VecMap<WindowId, WindowState>) -> (r:
        Option<WindowId>)
        requires
            old(self)@.wf(),
            old(windows).wf(),
        ensures
            final(self)@.wf(),
            final(windows).wf(),
            (final(self)@, final(windows).entries@, r) == old(self)@.remove_window(
                wid,
                old(windows).entries@,
            ),
    {
        self.pending_frame_targets.remove(&wid);
        let g = match self.memberships.get(&wid) {
            Some(g) => g,
            None => {
                return None;
            },
        };
        self.memberships.remove(&wid);
        let group = match self.groups.get(&g) {
            Some(group) => group,
            None => {
                return None;
            },
        };
        let survivors = self.memberships.keys_with(&g);
        if survivors.len() == 0 {
            self.groups.remove(&g);
            return None;
        }
        if group.active == Some(wid) {
            let promoted = survivors[0];
            self.groups.insert(g, NativeTabGroup { active: Some(promoted), ..group });
            if let Some(st) = windows.get(&promoted) {
                windows.insert(
                    promoted,
                    WindowState {
                        native_tab: Some(
                            NativeTabMembership { group_id: g, role: NativeTabRole::Active },
                        ),
                        ..st
                    },
                );
            }
            return Some(promoted);
        }
        None
    }

    /// Forgets everything about the tabs of application `pid`: its groups, the
    /// memberships of their members (also in the window states), its pending
    /// destroys and appearances, and its transient-empty mark.
    pub fn remove_app(&mut self, pid: Pid, windows: &mut VecMap<WindowId, WindowState>)
        requires
            old(self)@.wf(),
            old(windows).wf(),
        ensures
            final(self)@.wf(),
            final(windows).wf(),
            (final(self)@, final(windows).entries@) == old(self)@.remove_app(
                pid,
                old(windows).entries@,
            ),
    {
        let ghost m = self.memberships.entries@;
        let ghost w0 = windows.entries@;
        let ghost groups0 = self.groups.entries@;
        let ghost keep = entry_not_in_app(groups0, pid);
        let mut kept: Vec<(WindowId, u32)> = Vec::new();
        let mut i: usize = 0;
        proof {
            assert(m.take(0).filter(keep) =~= kept@) by {
                reveal(Seq::filter);
            }
            assert(m.take(0) =~= Seq::<(WindowId, u32)>::empty());
        }
        while i < self.memberships.entries.len()
            invariant
                m == self.memberships.entries@,
                self.groups.entries@ == groups0,
                keep == entry_not_in_app(groups0, pid),
                i <= m.len(),
                kept@ == m.take(i as int).filter(keep),
                windows.wf(),
                windows.entries@ == clear_app_tabs(w0, groups0, m.take(i as int), pid),
            decreases m.len() - i,
        {
            let e = self.memberships.entries[i];
            proof {
                assert(m.take(i as int + 1) == m.take(i as int).push(e));
                assert(m.take(i as int + 1).drop_last() == m.take(i as int));
                m.take(i as int).lemma_filter_push(e, keep);
            }
            let drop = match self.groups.get(&e.1) {
                Some(group) => group.pid == pid,
                None => false,
            };
            if drop {
                if let Some(st) = windows.get(&e.0) {
                    windows.insert(e.0, WindowState { native_tab: None, ..st });
                }
            } else {
                kept.push(e);
            }
            i = i + 1;
        }
        proof {
            assert(m.take(m.len() as int) == m);
            lemma_filter_keeps_distinct_keys(m, keep);
        }
        self.memberships.entries = kept;

        let ghost gs = self.groups.entries@;
        let ghost gkeep = group_not_of_pid(pid);
        let mut gkept: Vec<(u32, NativeTabGroup)> = Vec::new();
        let mut k: usize = 0;
        proof {
            assert(gs.take(0).filter(gkeep) =~= gkept@) by {
                reveal(Seq::filter);
            }
        }
        while k < self.groups.entries.len()
            invariant
                gs == self.groups.entries@,
                gkeep == group_not_of_pid(pid),
                k <= gs.len(),
                gkept@ == gs.take(k as int).filter(gkeep),
            decreases gs.len() - k,
        {
            let e = self.groups.entries[k];
            proof {
                assert(gs.take(k as int + 1) == gs.take(k as int).push(e));
                gs.take(k as int).lemma_filter_push(e, gkeep);
            }
            if e.1.pid != pid {
                gkept.push(e);
            }
            k = k + 1;
        }
        proof {
            assert(gs.take(gs.len() as int) == gs);
            lemma_filter_keeps_distinct_keys(gs, gkeep);
        }
        self.groups.entries = gkept;

        let ghost ds = self.pending_destroys@;
        let ghost dkeep = destroy_not_of_pid(pid);
        let mut dkept: Vec<PendingNativeTabDestroy> = Vec::new();
        let mut a: usize = 0;
        proof {
            assert(ds.take(0).filter(dkeep) =~= dkept@) by {
                reveal(Seq::filter);
            }
        }
        while a < self.pending_destroys.len()
            invariant
                ds == self.pending_destroys@,
                dkeep == destroy_not_of_pid(pid),
                a <= ds.len(),
                dkept@ == ds.take(a as int).filter(dkeep),
            decreases ds.len() - a,
        {
            let d = self.pending_destroys[a];
            proof {
                assert(ds.take(a as int + 1) == ds.take(a as int).push(d));
                ds.take(a as int).lemma_filter_push(d, dkeep);
            }
            if d.window_id.pid != pid {
                dkept.push(d);
            }
            a = a + 1;
        }
        proof {
            assert(ds.take(ds.len() as int) == ds);
        }
        self.pending_destroys = dkept;

        let ghost ap = self.pending_appearances@;
        let ghost akeep = appearance_not_of_pid(pid);
        let mut akept: Vec<PendingNativeTabAppearance> = Vec::new();
        let mut b: usize = 0;
        proof {
            assert(ap.take(0).filter(akeep) =~= akept@) by {
                reveal(Seq::filter);
            }
        }
        while b < self.pending_appearances.len()
            invariant
                ap == self.pending_appearances@,
                akeep == appearance_not_of_pid(pid),
                b <= ap.len(),
                akept@ == ap.take(b as int).filter(akeep),
            decreases ap.len() - b,
        {
            let x = self.pending_appearances[b];
            proof {
                assert(ap.take(b as int + 1) == ap.take(b as int).push(x));
                ap.take(b as int).lemma_filter_push(x, akeep);
            }
            if x.pid != pid {
                akept.push(x);
            }
            b = b + 1;
        }
        proof {
            assert(ap.take(ap.len() as int) == ap);
        }
        self.pending_appearances = akept;
        self.transient_empty_visibility.remove(&pid);
    }
}

} // verus!
