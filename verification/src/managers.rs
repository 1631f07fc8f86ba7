//! The reactor's bookkeeping outside native tabs: windows, WindowServer data,
//! the layout's window slots, frame-write transactions, main windows, drags,
//! the outgoing requests to applications, screens, and display churn.
use vstd::prelude::*;

use crate::ids::{Pid, Rect, Request, SpaceId, TransactionId, WindowId, WindowServerId, WindowServerInfo};
use crate::model::{DragState, WindowState};
use crate::store::{
    keys_with_value, lemma_map_remove, lookup, map_insert, map_rekey, map_remove, VecMap, VecSet,
};

verus! {

/// Windows known to the reactor and how the WindowServer names them.
pub struct WindowManager {
    pub windows: VecMap<WindowId, WindowState>,
    /// WindowServer id of each window that has one.
    pub window_ids: VecMap<WindowServerId, WindowId>,
    /// WindowServer windows currently on screen.
    pub visible_windows: VecSet<WindowServerId>,
    pub observed_window_server_ids: VecSet<WindowServerId>,
}

impl WindowManager {
    pub open spec fn wf(self) -> bool {
        self.windows.wf() && self.window_ids.wf()
    }

    pub fn new() -> (r: WindowManager)
        ensures
            r.wf(),
            r.windows.entries@.len() == 0,
            r.window_ids.entries@.len() == 0,
            r.visible_windows.items@.len() == 0,
            r.observed_window_server_ids.items@.len() == 0,
    {
        WindowManager {
            windows: VecMap::new(),
            window_ids: VecMap::new(),
            visible_windows: VecSet::new(),
            observed_window_server_ids: VecSet::new(),
        }
    }
}

/// What the WindowServer last reported about each of its windows.
pub struct WindowServerInfoManager {
    pub window_server_info: VecMap<WindowServerId, WindowServerInfo>,
}

/// The frame write in flight for a WindowServer window.
#[derive(Clone, Copy, Debug, PartialEq, Eq, Structural)]
pub struct TxRecord {
    pub last_sent: TransactionId,
    pub target: Option<Rect>,
}

/// Frame writes sent to applications, by WindowServer window.
pub struct TransactionManager {
    pub records: VecMap<WindowServerId, TxRecord>,
}

impl TransactionManager {
    pub open spec fn spec_last_sent(self, wsid: WindowServerId) -> TransactionId {
        match self.records.spec_get(wsid) {
            Some(r) => r.last_sent,
            None => TransactionId { id: 0 },
        }
    }

    pub open spec fn spec_target_frame(self, wsid: WindowServerId) -> Option<Rect> {
        match self.records.spec_get(wsid) {
            Some(r) => r.target,
            None => None,
        }
    }

    /// The transaction that follows the last one sent for `wsid`.
    pub open spec fn spec_next_txid(self, wsid: WindowServerId) -> TransactionId {
        let last = self.spec_last_sent(wsid).id;
        TransactionId { id: if last < u64::MAX { (last + 1) as u64 } else { last } }
    }

    pub fn new() -> (r: TransactionManager)
        ensures
            r.records.wf(),
            r.records.entries@.len() == 0,
            forall|w: WindowServerId| r.records.spec_get(w) is None,
    {
        TransactionManager { records: VecMap::new() }
    }

    pub fn get_last_sent_txid(&self, wsid: WindowServerId) -> (r: TransactionId)
        ensures
            r == self.spec_last_sent(wsid),
    {
        match self.records.get(&wsid) {
            Some(r) => r.last_sent,
            None => TransactionId { id: 0 },
        }
    }

    pub fn get_target_frame(&self, wsid: WindowServerId) -> (r: Option<Rect>)
        ensures
            r == self.spec_target_frame(wsid),
    {
        match self.records.get(&wsid) {
            Some(r) => r.target,
            None => None,
        }
    }

    pub fn generate_next_txid(&self, wsid: WindowServerId) -> (r: TransactionId)
        ensures
            r == self.spec_next_txid(wsid),
    {
        self.get_last_sent_txid(wsid).next()
    }

    /// Records that `txid` was sent for `wsid`, asking for `frame`.
    pub fn store_txid(&mut self, wsid: WindowServerId, txid: TransactionId, frame: Rect)
        ensures
            old(self).records.wf() ==> final(self).records.wf(),
            final(self).records.entries@ == map_insert(
                old(self).records.entries@,
                wsid,
                TxRecord { last_sent: txid, target: Some(frame) },
            ),
    {
        self.records.insert(wsid, TxRecord { last_sent: txid, target: Some(frame) });
    }

    /// Moves the record of `old_wsid` to `new_wsid`, replacing any record there.
    pub fn rekey_window(&mut self, old_wsid: WindowServerId, new_wsid: WindowServerId)
        requires
            old(self).records.wf(),
        ensures
            final(self).records.wf(),
            final(self).records.entries@ == tx_rekey(old(self).records.entries@, old_wsid, new_wsid),
    {
        if old_wsid == new_wsid {
            return ;
        }
        if self.records.contains_key(&old_wsid) {
            self.records.remove(&new_wsid);
            proof {
                lemma_map_remove(old(self).records.entries@, new_wsid);
            }
            let _ = self.records.rekey(&old_wsid, new_wsid);
        }
    }

    pub fn remove_for_window(&mut self, wsid: WindowServerId)
        ensures
            old(self).records.wf() ==> final(self).records.wf(),
            final(self).records.entries@ == map_remove(old(self).records.entries@, wsid),
    {
        self.records.remove(&wsid);
    }
}

/// The records after the one of `from` moved to `to`, replacing any there.
pub open spec fn tx_rekey(s: Seq<(WindowServerId, TxRecord)>, from: WindowServerId, to: WindowServerId) -> Seq<
    (WindowServerId, TxRecord),
> {
    if from == to || lookup(s, from) is None {
        s
    } else {
        map_rekey(map_remove(s, to), from, to)
    }
}

/// The main windows after `to` took the place of `from`.
pub open spec fn main_rekey(s: Seq<(Pid, WindowId)>, from: WindowId, to: WindowId) -> Seq<(Pid, WindowId)> {
    if lookup(s, from.pid) == Some(from) {
        map_insert(s, from.pid, to)
    } else {
        s
    }
}

/// The main window of each application.
pub struct MainWindowTracker {
    pub main_windows: VecMap<Pid, WindowId>,
}

impl MainWindowTracker {
    /// Where `old` is the main window of its application, `new` takes its place.
    pub fn rekey_window(&mut self, old_wid: WindowId, new_wid: WindowId)
        ensures
            old(self).main_windows.wf() ==> final(self).main_windows.wf(),
            final(self).main_windows.entries@ == main_rekey(old(self).main_windows.entries@, old_wid, new_wid),
    {
        if let Some(current) = self.main_windows.get(&old_wid.pid) {
            if current == old_wid {
                self.main_windows.insert(old_wid.pid, new_wid);
            }
        }
    }
}

/// The selection after `to` took over the layout slot of `from`.
pub open spec fn selection_rekey(
    assignments: Seq<(WindowId, SpaceId)>,
    selection: Seq<(SpaceId, WindowId)>,
    from: WindowId,
    to: WindowId,
) -> Seq<(SpaceId, WindowId)> {
    let moved = lookup(assignments, from) is Some && lookup(assignments, to) is None;
    let space = lookup(assignments, from)->0;
    if moved && lookup(selection, space) == Some(from) {
        map_insert(selection, space, to)
    } else {
        selection
    }
}

/// The selection after `wid` left the layout: where it was selected, the last
/// window left on its space is selected, or none.
pub open spec fn selection_after_removal(
    assignments: Seq<(WindowId, SpaceId)>,
    selection: Seq<(SpaceId, WindowId)>,
    wid: WindowId,
) -> Seq<(SpaceId, WindowId)> {
    match lookup(assignments, wid) {
        Some(space) => if lookup(selection, space) == Some(wid) {
            let left = keys_with_value(map_remove(assignments, wid), space);
            if left.len() > 0 {
                map_insert(selection, space, left.last())
            } else {
                map_remove(selection, space)
            }
        } else {
            selection
        },
        None => selection,
    }
}

/// The layout's window slots: which space's layout holds each window, in the
/// order in which windows joined, and the selected window of each space.
pub struct LayoutEngine {
    pub assignments: VecMap<WindowId, SpaceId>,
    pub selection: VecMap<SpaceId, WindowId>,
}

impl LayoutEngine {
    pub open spec fn wf(self) -> bool {
        self.assignments.wf() && self.selection.wf()
    }

    pub open spec fn spec_has_window_membership(self, wid: WindowId) -> bool {
        self.assignments.spec_contains_key(wid)
    }

    pub open spec fn spec_windows_in(self, space: SpaceId) -> Seq<WindowId> {
        keys_with_value(self.assignments.entries@, space)
    }

    pub fn new() -> (r: LayoutEngine)
        ensures
            r.wf(),
            r.assignments.entries@.len() == 0,
            r.selection.entries@.len() == 0,
            forall|w: WindowId| !r.spec_has_window_membership(w),
            forall|s: SpaceId| r.selection.spec_get(s) is None,
    {
        LayoutEngine { assignments: VecMap::new(), selection: VecMap::new() }
    }

    pub fn has_window_membership(&self, wid: WindowId) -> (r: bool)
        ensures
            r == self.spec_has_window_membership(wid),
    {
        self.assignments.contains_key(&wid)
    }

    pub fn selected_window(&self, space: SpaceId) -> (r: Option<WindowId>)
        ensures
            r == self.selection.spec_get(space),
    {
        self.selection.get(&space)
    }

    /// The windows in the layout of `space`, in layout order.
    pub fn windows_in_active_workspace(&self, space: SpaceId) -> (r: Vec<WindowId>)
        ensures
            r@ == self.spec_windows_in(space),
    {
        self.assignments.keys_with(&space)
    }

    /// Puts `wid` into the layout of `space` and selects it.
    pub fn add_window(&mut self, space: SpaceId, wid: WindowId)
        requires
            old(self).wf(),
        ensures
            final(self).wf(),
            final(self).assignments.entries@ == map_insert(old(self).assignments.entries@, wid, space),
            final(self).selection.entries@ == map_insert(old(self).selection.entries@, space, wid),
    {
        self.assignments.insert(wid, space);
        self.selection.insert(space, wid);
    }

    /// Gives the layout slot of `old` to `new`; only when `old` has a slot and
    /// `new` has none.
    pub fn rekey_window(&mut self, old_wid: WindowId, new_wid: WindowId) -> (r: bool)
        requires
            old(self).wf(),
        ensures
            final(self).wf(),
            r == (old(self).assignments.spec_get(old_wid) is Some && old(self).assignments.spec_get(
                new_wid,
            ) is None),
            final(self).assignments.entries@ == map_rekey(
                old(self).assignments.entries@,
                old_wid,
                new_wid,
            ),
            final(self).selection.entries@ == selection_rekey(
                old(self).assignments.entries@,
                old(self).selection.entries@,
                old_wid,
                new_wid,
            ),
    {
        let space = self.assignments.get(&old_wid);
        let moved = self.assignments.rekey(&old_wid, new_wid);
        if moved {
            let space = space.unwrap();
            if let Some(sel) = self.selection.get(&space) {
                if sel == old_wid {
                    self.selection.insert(space, new_wid);
                }
            }
        }
        moved
    }

    /// Takes `wid` out of the layout; where it was selected, the last window
    /// left on its space is selected instead.
    pub fn remove_window(&mut self, wid: WindowId)
        requires
            old(self).wf(),
        ensures
            final(self).wf(),
            final(self).assignments.entries@ == map_remove(old(self).assignments.entries@, wid),
            final(self).selection.entries@ == selection_after_removal(
                old(self).assignments.entries@,
                old(self).selection.entries@,
                wid,
            ),
    {
        let slot = self.assignments.get(&wid);
        self.assignments.remove(&wid);
        if let Some(space) = slot {
            if let Some(sel) = self.selection.get(&space) {
                if sel == wid {
                    let left = self.windows_in_active_workspace(space);
                    if left.len() > 0 {
                        self.selection.insert(space, left[left.len() - 1]);
                    } else {
                        self.selection.remove(&space);
                    }
                }
            }
        }
    }
}

/// Owns the layout engine.
pub struct LayoutManager {
    pub layout_engine: LayoutEngine,
}

/// Drag state and the window whose layout a drag holds back.
pub struct DragManager {
    pub skip_layout_for_window: Option<WindowId>,
    pub drag_state: DragState,
}

/// Workspace switching: the window the mouse is to be warped to.
pub struct WorkspaceSwitchManager {
    pub pending_workspace_mouse_warp: Option<WindowId>,
}

/// Running applications, and the requests queued for their threads.
pub struct AppManager {
    pub apps: VecSet<Pid>,
    /// Requests to be delivered to application threads, oldest first.
    pub requests: Vec<(Pid, Request)>,
}

impl AppManager {
    pub fn has_app(&self, pid: Pid) -> (r: bool)
        ensures
            r == self.apps.spec_contains(pid),
    {
        self.apps.contains(&pid)
    }

    /// Hands all queued requests over, oldest first.
    pub fn take_requests(&mut self) -> (r: Vec<(Pid, Request)>)
        ensures
            r@ == old(self).requests@,
            final(self).requests@.len() == 0,
            final(self).apps == old(self).apps,
    {
        let mut out: Vec<(Pid, Request)> = Vec::new();
        std::mem::swap(&mut out, &mut self.requests);
        out
    }
}

/// A display and the space it shows.
#[derive(Clone, Copy, Debug, PartialEq, Eq, Structural)]
pub struct Screen {
    pub frame: Rect,
    pub space: Option<SpaceId>,
}

/// The centre of `f` lies within `screen`.
pub open spec fn screen_holds_center(screen: Rect, f: Rect) -> bool {
    &&& 2 * screen.x <= 2 * f.x + f.width < 2 * screen.x + 2 * screen.width
    &&& 2 * screen.y <= 2 * f.y + f.height < 2 * screen.y + 2 * screen.height
}

pub open spec fn screen_shows(frame: Rect) -> spec_fn(Screen) -> bool {
    |s: Screen| s.space is Some && screen_holds_center(s.frame, frame)
}

/// The screens and their spaces.
pub struct SpaceManager {
    pub screens: Vec<Screen>,
}

impl SpaceManager {
    /// The space of the first screen that holds the centre of `frame`.
    pub open spec fn spec_best_space_for_frame(self, frame: Rect) -> Option<SpaceId> {
        match crate::seq_util::first_match(self.screens@, screen_shows(frame)) {
            Some(s) => s.space,
            None => None,
        }
    }

    pub fn best_space_for_frame(&self, frame: Rect) -> (r: Option<SpaceId>)
        ensures
            r == self.spec_best_space_for_frame(frame),
    {
        let ghost p = screen_shows(frame);
        let mut i: usize = 0;
        while i < self.screens.len()
            invariant
                i <= self.screens@.len(),
                p == screen_shows(frame),
                forall|j: int| 0 <= j < i ==> !p(#[trigger] self.screens@[j]),
            decreases self.screens@.len() - i,
        {
            let s = self.screens[i];
            let cx: i128 = 2 * (frame.x as i128) + frame.width as i128;
            let cy: i128 = 2 * (frame.y as i128) + frame.height as i128;
            let inside = s.space.is_some() && 2 * (s.frame.x as i128) <= cx && cx < 2 * (
            s.frame.x as i128) + 2 * (s.frame.width as i128) && 2 * (s.frame.y as i128) <= cy
                && cy < 2 * (s.frame.y as i128) + 2 * (s.frame.height as i128);
            if inside {
                proof {
                    crate::seq_util::lemma_first_index_found(self.screens@, p, i as int);
                }
                return s.space;
            }
            i = i + 1;
        }
        proof {
            crate::seq_util::lemma_first_index_none(self.screens@, p);
        }
        None
    }
}

/// How many display events were dropped while the display set was settling.
#[derive(Clone, Copy, Debug, PartialEq, Eq, Structural, Default)]
pub struct QuarantineStats {
    pub appeared_dropped: u64,
    pub destroyed_dropped: u64,
    pub resync_dropped: u64,
}

/// Tracks display reconfiguration churn.
pub struct DisplayTopologyManager {
    pub quarantine_stats: QuarantineStats,
}

impl DisplayTopologyManager {
    /// A window-appeared event was dropped; the count saturates.
    pub fn quarantine_appeared(&mut self)
        ensures
            final(self).quarantine_stats == (QuarantineStats {
                appeared_dropped: if old(self).quarantine_stats.appeared_dropped < u64::MAX {
                    (old(self).quarantine_stats.appeared_dropped + 1) as u64
                } else {
                    u64::MAX
                },
                ..old(self).quarantine_stats
            }),
    {
        self.quarantine_stats.appeared_dropped = self.quarantine_stats.appeared_dropped.saturating_add(1);
    }

    /// A window-destroyed event was dropped; the count saturates.
    pub fn quarantine_destroyed(&mut self)
        ensures
            final(self).quarantine_stats == (QuarantineStats {
                destroyed_dropped: if old(self).quarantine_stats.destroyed_dropped < u64::MAX {
                    (old(self).quarantine_stats.destroyed_dropped + 1) as u64
                } else {
                    u64::MAX
                },
                ..old(self).quarantine_stats
            }),
    {
        self.quarantine_stats.destroyed_dropped = self.quarantine_stats.destroyed_dropped.saturating_add(1);
    }

    /// A resynchronisation was dropped; the count saturates.
    pub fn quarantine_resync(&mut self)
        ensures
            final(self).quarantine_stats == (QuarantineStats {
                resync_dropped: if old(self).quarantine_stats.resync_dropped < u64::MAX {
                    (old(self).quarantine_stats.resync_dropped + 1) as u64
                } else {
                    u64::MAX
                },
                ..old(self).quarantine_stats
            }),
    {
        self.quarantine_stats.resync_dropped = self.quarantine_stats.resync_dropped.saturating_add(1);
    }
}

} // verus!
