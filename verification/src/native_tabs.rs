//! Native macOS tabs as the reactor sees them. A tab switch shows up as one
//! window's WindowServer window going away and another's appearing at the same
//! frame; the reactor pairs the two and hands the layout slot, the selection,
//! the pending frame write and the drag state of the old tab to the new one,
//! keeping the old tab as a hidden member of the group.
use vstd::prelude::*;

use crate::ids::{
    frames_match, spec_frames_match, Pid, Quiet, Rect, Request, SpaceId, TransactionId, WindowId,
    WindowInfo, WindowServerId, WindowServerInfo,
};
use crate::managers::{main_rekey, selection_after_removal, selection_rekey, tx_rekey, TxRecord};
use crate::model::{DragSession, DragState, NativeTabMembership, NativeTabRole, WindowFilter, WindowState};
use crate::native_tab_manager::{
    appearance_of_pid, destroy_of_pid, PendingNativeTabAppearance, PendingNativeTabDestroy,
};
use crate::reactor::{Reactor, ReactorView};
use crate::seq_util::{
    any_match, first_match, lemma_first_index_found, lemma_first_index_none, lemma_first_match_some,
};
use crate::store::{lookup, map_insert, map_rekey, map_remove, set_insert, set_remove};

verus! {

/// Whether `wid` is in `s`.
pub fn contains_window(s: &[WindowId], wid: WindowId) -> (r: bool)
    ensures
        r == s@.contains(wid),
{
    let mut i: usize = 0;
    while i < s.len()
        invariant
            i <= s@.len(),
            forall|j: int| 0 <= j < i ==> s@[j] != wid,
        decreases s@.len() - i,
    {
        if s[i] == wid {
            assert(s@[i as int] == wid);
            return true;
        }
        i = i + 1;
    }
    false
}

/// The transaction that follows the last one sent for `wsid`.
pub open spec fn next_txid(transactions: Seq<(WindowServerId, TxRecord)>, wsid: WindowServerId) -> TransactionId {
    let last = match lookup(transactions, wsid) {
        Some(r) => r.last_sent.id,
        None => 0,
    };
    TransactionId { id: if last < u64::MAX { (last + 1) as u64 } else { last } }
}

impl ReactorView {
    // ---- queries -------------------------------------------------------

    pub open spec fn native_tab_group_frame_for(self, wid: WindowId) -> Option<Rect> {
        match self.tabs.group_for_window(wid) {
            Some(g) => match self.tabs.group(g) {
                Some(group) => Some(group.canonical_frame),
                None => None,
            },
            None => None,
        }
    }

    /// The application has a native-tab group, a pending destroy or a pending
    /// appearance.
    pub open spec fn pid_has_native_tab_state(self, pid: Pid) -> bool {
        ||| exists|i: int| 0 <= i < self.tabs.groups.len() && (#[trigger] self.tabs.groups[i]).1.pid == pid
        ||| self.tabs.pending_destroys_for_pid(pid).len() > 0
        ||| self.tabs.pending_appearances_for_pid(pid).len() > 0
    }

    pub open spec fn is_native_tab_suppressed(self, wid: WindowId) -> bool {
        self.tabs.is_suppressed(wid)
    }

    /// A known, standard, top-level window that is not minimized.
    pub open spec fn window_is_native_tab_candidate(self, wid: WindowId) -> bool {
        self.window(wid) matches Some(w) && !w.info.is_minimized && w.info.is_standard
            && w.info.is_root
    }

    /// The visible window `ws` is a manageable window of `pid`, not in
    /// `exclude`, at `frame`.
    pub open spec fn same_pid_frame(self, pid: Pid, frame: Rect, exclude: Seq<WindowId>) -> spec_fn(
        WindowServerId,
    ) -> bool {
        |ws: WindowServerId|
            match self.window_for_server_id(ws) {
                Some(wid) => wid.pid == pid && !exclude.contains(wid) && match self.window(wid) {
                    Some(w) => w.spec_matches_filter(WindowFilter::Manageable) && spec_frames_match(
                        w.frame_monotonic,
                        frame,
                    ),
                    None => false,
                },
                None => false,
            }
    }

    pub open spec fn has_other_visible_same_pid_frame(self, pid: Pid, frame: Rect, exclude: Seq<WindowId>) -> bool {
        any_match(self.visible_windows, self.same_pid_frame(pid, frame, exclude))
    }

    /// The visible window `ws` could be the tab on screen of a group of `pid`
    /// at `frame`: a laid-out candidate that is not hidden.
    pub open spec fn native_tab_peer(self, pid: Pid, frame: Rect, exclude: Seq<WindowId>) -> spec_fn(
        WindowServerId,
    ) -> bool {
        |ws: WindowServerId|
            match self.window_for_server_id(ws) {
                Some(wid) => wid.pid == pid && !exclude.contains(wid) && match self.window(wid) {
                    Some(w) => self.window_is_native_tab_candidate(wid)
                        && !w.spec_is_native_tab_suppressed() && spec_frames_match(
                        w.frame_monotonic,
                        frame,
                    ) && self.has_window_membership(wid),
                    None => false,
                },
                None => false,
            }
    }

    /// The first visible window that could be the tab on screen of a group
    /// of `pid` at `frame`.
    pub open spec fn visible_native_tab_peer_for(self, pid: Pid, frame: Rect, exclude: Seq<WindowId>) -> Option<
        WindowId,
    > {
        match first_match(self.visible_windows, self.native_tab_peer(pid, frame, exclude)) {
            Some(ws) => self.window_for_server_id(ws),
            None => None,
        }
    }

    /// The space where a window at `frame` belongs.
    pub open spec fn best_space_for_window(self, frame: Rect) -> Option<SpaceId> {
        self.best_space_for_frame(frame)
    }

    pub open spec fn appearance_matches(self, wsid: WindowServerId, space: SpaceId, frame: Rect) -> spec_fn(
        PendingNativeTabAppearance,
    ) -> bool {
        |a: PendingNativeTabAppearance| a.wsid == wsid && a.space == space && spec_frames_match(a.frame, frame)
    }

    /// A pending appearance of the WindowServer window of `wid` was staged on
    /// the space of `frame` (or of the window) at `frame`.
    pub open spec fn has_matching_pending_native_tab_appearance(self, wid: WindowId, frame: Rect) -> bool {
        match self.window(wid) {
            Some(w) => match w.info.sys_id {
                Some(wsid) => {
                    let space = match self.best_space_for_window(frame) {
                        Some(s) => Some(s),
                        None => self.best_space_for_frame(w.frame_monotonic),
                    };
                    match space {
                        Some(space) => any_match(
                            self.tabs.pending_appearances_for_pid(wid.pid),
                            self.appearance_matches(wsid, space, frame),
                        ),
                        None => false,
                    }
                },
                None => false,
            },
            None => false,
        }
    }

    /// A visible same-frame sibling of `new` that `new` replaces as the tab on
    /// screen; only when the WindowServer appearance of `new` was seen, and
    /// no other visible window of the application has that frame.
    pub open spec fn visible_native_tab_replacement_peer_for(self, new: WindowId, frame: Rect) -> Option<
        WindowId,
    > {
        if !self.has_matching_pending_native_tab_appearance(new, frame) {
            None
        } else {
            match self.visible_native_tab_peer_for(new.pid, frame, seq![new]) {
                Some(old) => if !self.has_other_visible_same_pid_frame(new.pid, frame, seq![old, new]) {
                    Some(old)
                } else {
                    None
                },
                None => None,
            }
        }
    }

    pub open spec fn pending_replacement(self, pid: Pid, new: WindowId, space: SpaceId, frame: Rect) -> spec_fn(
        PendingNativeTabDestroy,
    ) -> bool {
        |d: PendingNativeTabDestroy|
            d.window_id != new && d.space_id == space && spec_frames_match(d.frame, frame)
                && !self.has_other_visible_same_pid_frame(pid, d.frame, seq![d.window_id, new])
    }

    /// The window whose pending destroy on `space` at `frame` `new` replaces.
    pub open spec fn pending_native_tab_replacement_for(
        self,
        pid: Pid,
        new: WindowId,
        space: SpaceId,
        frame: Rect,
    ) -> Option<WindowId> {
        match first_match(
            self.tabs.pending_destroys_for_pid(pid),
            self.pending_replacement(pid, new, space, frame),
        ) {
            Some(d) => Some(d.window_id),
            None => None,
        }
    }

    /// The tab that `new`, at `frame`, replaces: one with a pending destroy, or
    /// else a visible sibling.
    pub open spec fn native_tab_replacement_candidate_for(self, new: WindowId, frame: Rect) -> Option<
        WindowId,
    > {
        match self.best_space_for_window_id(new) {
            Some(space) => match self.pending_native_tab_replacement_for(new.pid, new, space, frame) {
                Some(old) => Some(old),
                None => self.visible_native_tab_replacement_peer_for(new, frame),
            },
            None => None,
        }
    }

    pub open spec fn grouped_replacement(self, old: WindowId, known_visible: Seq<WindowId>) -> spec_fn(
        WindowId,
    ) -> bool {
        |c: WindowId|
            c != old && known_visible.contains(c) && self.window_is_native_tab_candidate(c)
                && self.window(c) is Some
    }

    /// The first other member of the group of `old` that is known to be
    /// visible and could be the tab on screen.
    pub open spec fn grouped_native_tab_replacement_for(self, old: WindowId, known_visible: Seq<WindowId>) -> Option<
        WindowId,
    > {
        match self.tabs.group_for_window(old) {
            Some(g) => match self.tabs.group(g) {
                Some(_) => first_match(self.tabs.members(g), self.grouped_replacement(old, known_visible)),
                None => None,
            },
            None => None,
        }
    }

    pub open spec fn appearance_of_wsid(wsid: WindowServerId) -> spec_fn(PendingNativeTabAppearance) -> bool {
        |a: PendingNativeTabAppearance| a.wsid == wsid
    }

    /// The WindowServer window of `wid` has a pending appearance.
    pub open spec fn candidate_has_pending_native_tab_appearance(self, wid: WindowId) -> bool {
        self.window(wid) matches Some(w) && w.info.sys_id matches Some(wsid) && any_match(
            self.tabs.pending_appearances_for_pid(wid.pid),
            Self::appearance_of_wsid(wsid),
        )
    }

    pub open spec fn destroy_at(frame: Rect) -> spec_fn(PendingNativeTabDestroy) -> bool {
        |d: PendingNativeTabDestroy| spec_frames_match(d.frame, frame)
    }

    pub open spec fn group_at(pid: Pid, frame: Rect) -> spec_fn((u32, crate::native_tab_manager::NativeTabGroup)) -> bool {
        |e: (u32, crate::native_tab_manager::NativeTabGroup)| e.1.pid == pid && spec_frames_match(e.1.canonical_frame, frame)
    }

    /// A newly created window is held out of the layout when it looks like the
    /// new tab of a switch: a same-frame pending destroy or group of its
    /// application, or a visible sibling it replaces.
    pub open spec fn maybe_hold_native_tab_window_created(self, wid: WindowId) -> bool {
        self.window_is_native_tab_candidate(wid) && match self.window(wid) {
            Some(w) => any_match(
                self.tabs.pending_destroys_for_pid(wid.pid),
                Self::destroy_at(w.frame_monotonic),
            ) || any_match(self.tabs.groups, Self::group_at(wid.pid, w.frame_monotonic))
                || self.visible_native_tab_replacement_peer_for(wid, w.frame_monotonic) is Some,
            None => false,
        }
    }

    // ---- small transitions ---------------------------------------------

    pub open spec fn with_window(self, wid: WindowId, st: WindowState) -> Self {
        ReactorView { windows: map_insert(self.windows, wid, st), ..self }
    }

    pub open spec fn with_tabs(self, tabs: crate::native_tab_manager::NativeTabView) -> Self {
        ReactorView { tabs, ..self }
    }

    pub open spec fn set_native_tab_role(self, wid: WindowId, group_id: u32, role: NativeTabRole) -> Self {
        match self.window(wid) {
            Some(st) => self.with_window(
                wid,
                WindowState { native_tab: Some(NativeTabMembership { group_id, role }), ..st },
            ),
            None => self,
        }
    }

    /// Asks the application of `wid` to move it to `frame`: the frame becomes
    /// the window's pending target, a transaction is recorded for its
    /// WindowServer window, and the request is queued. Nothing happens when the
    /// application is not known.
    pub open spec fn request_native_tab_member_frame_sync(self, wid: WindowId, frame: Rect) -> Self {
        if !self.has_app(wid.pid) {
            self
        } else {
            let v = self.with_tabs(self.tabs.set_pending_frame_target(wid, frame));
            let wsid = match self.window(wid) {
                Some(w) => w.info.sys_id,
                None => None,
            };
            match wsid {
                Some(ws) => {
                    let txid = next_txid(self.transactions, ws);
                    ReactorView {
                        transactions: map_insert(
                            self.transactions,
                            ws,
                            TxRecord { last_sent: txid, target: Some(frame) },
                        ),
                        requests: self.requests.push(
                            (wid.pid, Request::SetWindowFrame(wid, frame, txid, true)),
                        ),
                        ..v
                    }
                },
                None => ReactorView {
                    requests: self.requests.push(
                        (wid.pid, Request::SetWindowFrame(wid, frame, TransactionId { id: 0 }, true)),
                    ),
                    ..v
                },
            }
        }
    }

    pub open spec fn retry_pending_native_tab_frame_target(self, wid: WindowId) -> Self {
        match self.tabs.pending_frame_target(wid) {
            Some(frame) => self.request_native_tab_member_frame_sync(wid, frame),
            None => self,
        }
    }

    /// One member of a group follows the group's frame; the others than the
    /// active one are asked to move there when positions are synchronised.
    pub open spec fn sync_member(self, member: WindowId, active_wid: WindowId, frame: Rect, sync_window_positions: bool) -> Self {
        let v = match self.window(member) {
            Some(st) => self.with_window(
                member,
                WindowState { frame_monotonic: frame, info: WindowInfo { frame, ..st.info }, ..st },
            ),
            None => self,
        };
        if !sync_window_positions || member == active_wid {
            v
        } else {
            v.request_native_tab_member_frame_sync(member, frame)
        }
    }

    pub open spec fn sync_members(
        self,
        members: Seq<WindowId>,
        active_wid: WindowId,
        frame: Rect,
        sync_window_positions: bool,
    ) -> Self
        decreases members.len(),
    {
        if members.len() == 0 {
            self
        } else {
            self.sync_members(members.drop_last(), active_wid, frame, sync_window_positions).sync_member(
                members.last(),
                active_wid,
                frame,
                sync_window_positions,
            )
        }
    }

    /// Every member of the active tab's group takes the tab's frame.
    pub open spec fn sync_native_tab_group_frame(
        self,
        active_wid: WindowId,
        frame: Rect,
        membership: Option<NativeTabMembership>,
        sync_window_positions: bool,
    ) -> Self {
        match membership {
            Some(m) => if m.role != NativeTabRole::Active || self.tabs.group(m.group_id) is None {
                self
            } else {
                self.sync_members(self.tabs.members(m.group_id), active_wid, frame, sync_window_positions)
            },
            None => self,
        }
    }
}

impl Reactor {
    pub fn native_tab_group_frame_for(&self, wid: WindowId) -> (r: Option<Rect>)
        ensures
            r == self@.native_tab_group_frame_for(wid),
    {
        let g = match self.native_tab_manager.group_for_window(wid) {
            Some(g) => g,
            None => return None,
        };
        match self.native_tab_manager.group(g) {
            Some(group) => Some(group.canonical_frame),
            None => None,
        }
    }

    pub fn pid_has_native_tab_state(&self, pid: Pid) -> (r: bool)
        ensures
            r == self@.pid_has_native_tab_state(pid),
    {
        let groups = &self.native_tab_manager.groups.entries;
        let mut i: usize = 0;
        while i < groups.len()
            invariant
                groups@ == self@.tabs.groups,
                i <= groups@.len(),
                forall|j: int| 0 <= j < i ==> (#[trigger] groups@[j]).1.pid != pid,
            decreases groups@.len() - i,
        {
            if groups[i].1.pid == pid {
                assert((groups@[i as int]).1.pid == pid);
                return true;
            }
            i = i + 1;
        }
        !self.native_tab_manager.pending_destroys_for_pid(pid).is_empty()
            || !self.native_tab_manager.pending_appearances_for_pid(pid).is_empty()
    }

    pub fn is_native_tab_suppressed(&self, wid: WindowId) -> (r: bool)
        ensures
            r == self@.is_native_tab_suppressed(wid),
    {
        self.native_tab_manager.is_suppressed(wid)
    }

    pub fn window_is_native_tab_candidate(&self, wid: WindowId) -> (r: bool)
        ensures
            r == self@.window_is_native_tab_candidate(wid),
    {
        match self.window_manager.windows.get(&wid) {
            Some(w) => !w.info.is_minimized && w.info.is_standard && w.info.is_root,
            None => false,
        }
    }

    fn is_same_pid_frame(&self, ws: WindowServerId, pid: Pid, frame: Rect, exclude: &[WindowId]) -> (r: bool)
        ensures
            r == self@.same_pid_frame(pid, frame, exclude@)(ws),
    {
        let wid = match self.window_manager.window_ids.get(&ws) {
            Some(wid) => wid,
            None => return false,
        };
        if wid.pid != pid || contains_window(exclude, wid) {
            return false;
        }
        match self.window_manager.windows.get(&wid) {
            Some(w) => w.matches_filter(WindowFilter::Manageable) && frames_match(w.frame_monotonic, frame),
            None => false,
        }
    }

    /// Another visible manageable window of `pid`, outside `exclude`, has
    /// `frame`.
    pub fn has_other_visible_same_pid_frame(&self, pid: Pid, frame: Rect, exclude: &[WindowId]) -> (r: bool)
        ensures
            r == self@.has_other_visible_same_pid_frame(pid, frame, exclude@),
    {
        let ghost p = self@.same_pid_frame(pid, frame, exclude@);
        let visible = &self.window_manager.visible_windows.items;
        let mut i: usize = 0;
        while i < visible.len()
            invariant
                visible@ == self@.visible_windows,
                p == self@.same_pid_frame(pid, frame, exclude@),
                i <= visible@.len(),
                forall|j: int| 0 <= j < i ==> !p(#[trigger] visible@[j]),
            decreases visible@.len() - i,
        {
            if self.is_same_pid_frame(visible[i], pid, frame, exclude) {
                proof {
                    lemma_first_index_found(visible@, p, i as int);
                }
                return true;
            }
            i = i + 1;
        }
        proof {
            lemma_first_index_none(visible@, p);
        }
        false
    }

    fn is_native_tab_peer(&self, ws: WindowServerId, pid: Pid, frame: Rect, exclude: &[WindowId]) -> (r: bool)
        ensures
            r == self@.native_tab_peer(pid, frame, exclude@)(ws),
    {
        let wid = match self.window_manager.window_ids.get(&ws) {
            Some(wid) => wid,
            None => return false,
        };
        if wid.pid != pid || contains_window(exclude, wid) {
            return false;
        }
        match self.window_manager.windows.get(&wid) {
            Some(w) => self.window_is_native_tab_candidate(wid) && !w.is_native_tab_suppressed()
                && frames_match(w.frame_monotonic, frame)
                && self.layout_manager.layout_engine.has_window_membership(wid),
            None => false,
        }
    }

    /// The first visible window that could be the tab on screen of a group of
    /// `pid` at `frame`, outside `exclude`.
    pub fn visible_native_tab_peer_for(&self, pid: Pid, frame: Rect, exclude: &[WindowId]) -> (r: Option<WindowId>)
        ensures
            r == self@.visible_native_tab_peer_for(pid, frame, exclude@),
    {
        let ghost p = self@.native_tab_peer(pid, frame, exclude@);
        let visible = &self.window_manager.visible_windows.items;
        let mut i: usize = 0;
        while i < visible.len()
            invariant
                visible@ == self@.visible_windows,
                p == self@.native_tab_peer(pid, frame, exclude@),
                i <= visible@.len(),
                forall|j: int| 0 <= j < i ==> !p(#[trigger] visible@[j]),
            decreases visible@.len() - i,
        {
            if self.is_native_tab_peer(visible[i], pid, frame, exclude) {
                proof {
                    lemma_first_index_found(visible@, p, i as int);
                }
                return self.window_manager.window_ids.get(&visible[i]);
            }
            i = i + 1;
        }
        proof {
            lemma_first_index_none(visible@, p);
        }
        None
    }

    pub fn best_space_for_window(&self, frame: Rect) -> (r: Option<SpaceId>)
        ensures
            r == self@.best_space_for_window(frame),
    {
        self.space_manager.best_space_for_frame(frame)
    }

    pub fn best_space_for_window_id(&self, wid: WindowId) -> (r: Option<SpaceId>)
        ensures
            r == self@.best_space_for_window_id(wid),
    {
        match self.window_manager.windows.get(&wid) {
            Some(w) => self.space_manager.best_space_for_frame(w.frame_monotonic),
            None => None,
        }
    }

    #[verifier::loop_isolation(false)]
    pub fn has_matching_pending_native_tab_appearance(&self, wid: WindowId, frame: Rect) -> (r: bool)
        ensures
            r == self@.has_matching_pending_native_tab_appearance(wid, frame),
    {
        let window = match self.window_manager.windows.get(&wid) {
            Some(w) => w,
            None => return false,
        };
        let wsid = match window.info.sys_id {
            Some(ws) => ws,
            None => return false,
        };
        let space = match self.best_space_for_window(frame) {
            Some(s) => s,
            None => match self.space_manager.best_space_for_frame(window.frame_monotonic) {
                Some(s) => s,
                None => return false,
            },
        };
        let pending = self.native_tab_manager.pending_appearances_for_pid(wid.pid);
        let ghost p = self@.appearance_matches(wsid, space, frame);
        let mut i: usize = 0;
        while i < pending.len()
            invariant
                pending@ == self@.tabs.pending_appearances_for_pid(wid.pid),
                p == self@.appearance_matches(wsid, space, frame),
                i <= pending@.len(),
                forall|j: int| 0 <= j < i ==> !p(#[trigger] pending@[j]),
            decreases pending@.len() - i,
        {
            let a = pending[i];
            if a.wsid == wsid && a.space == space && frames_match(a.frame, frame) {
                proof {
                    lemma_first_index_found(pending@, p, i as int);
                }
                return true;
            }
            i = i + 1;
        }
        proof {
            lemma_first_index_none(pending@, p);
        }
        false
    }

    pub fn visible_native_tab_replacement_peer_for(&self, new: WindowId, frame: Rect) -> (r: Option<WindowId>)
        ensures
            r == self@.visible_native_tab_replacement_peer_for(new, frame),
    {
        // A same-frame visible sibling is only a replacement candidate if we also
        // observed the matching WindowServer appearance for `new`.
        if !self.has_matching_pending_native_tab_appearance(new, frame) {
            return None;
        }
        let exclude_new = [new];
        proof {
            assert(exclude_new@ == seq![new]);
        }
        match self.visible_native_tab_peer_for(new.pid, frame, &exclude_new) {
            Some(old) => {
                let exclude_both = [old, new];
                proof {
                    assert(exclude_both@ == seq![old, new]);
                }
                if !self.has_other_visible_same_pid_frame(new.pid, frame, &exclude_both) {
                    Some(old)
                } else {
                    None
                }
            },
            None => None,
        }
    }

    fn is_pending_replacement(&self, d: PendingNativeTabDestroy, pid: Pid, new: WindowId, space: SpaceId, frame: Rect) -> (r: bool)
        ensures
            r == self@.pending_replacement(pid, new, space, frame)(d),
    {
        if d.window_id == new || d.space_id != space || !frames_match(d.frame, frame) {
            return false;
        }
        let exclude = [d.window_id, new];
        proof {
            assert(exclude@ == seq![d.window_id, new]);
        }
        !self.has_other_visible_same_pid_frame(pid, d.frame, &exclude)
    }

    pub fn pending_native_tab_replacement_for(&self, pid: Pid, new: WindowId, space: SpaceId, frame: Rect) -> (r: Option<WindowId>)
        ensures
            r == self@.pending_native_tab_replacement_for(pid, new, space, frame),
    {
        let pending = self.native_tab_manager.pending_destroys_for_pid(pid);
        let ghost p = self@.pending_replacement(pid, new, space, frame);
        let mut i: usize = 0;
        while i < pending.len()
            invariant
                pending@ == self@.tabs.pending_destroys_for_pid(pid),
                p == self@.pending_replacement(pid, new, space, frame),
                i <= pending@.len(),
                forall|j: int| 0 <= j < i ==> !p(#[trigger] pending@[j]),
            decreases pending@.len() - i,
        {
            if self.is_pending_replacement(pending[i], pid, new, space, frame) {
                proof {
                    lemma_first_index_found(pending@, p, i as int);
                }
                return Some(pending[i].window_id);
            }
            i = i + 1;
        }
        proof {
            lemma_first_index_none(pending@, p);
        }
        None
    }

    pub fn native_tab_replacement_candidate_for(&self, new: WindowId, frame: Rect) -> (r: Option<WindowId>)
        ensures
            r == self@.native_tab_replacement_candidate_for(new, frame),
    {
        let space = match self.best_space_for_window_id(new) {
            Some(s) => s,
            None => return None,
        };
        match self.pending_native_tab_replacement_for(new.pid, new, space, frame) {
            Some(old) => Some(old),
            None => self.visible_native_tab_replacement_peer_for(new, frame),
        }
    }

    #[verifier::loop_isolation(false)]
    pub fn grouped_native_tab_replacement_for(&self, old: WindowId, known_visible: &[WindowId]) -> (r: Option<WindowId>)
        ensures
            r == self@.grouped_native_tab_replacement_for(old, known_visible@),
    {
        let g = match self.native_tab_manager.group_for_window(old) {
            Some(g) => g,
            None => return None,
        };
        if self.native_tab_manager.group(g).is_none() {
            return None;
        }
        let members = self.native_tab_manager.members(g);
        let ghost p = self@.grouped_replacement(old, known_visible@);
        let mut i: usize = 0;
        while i < members.len()
            invariant
                members@ == self@.tabs.members(g),
                p == self@.grouped_replacement(old, known_visible@),
                i <= members@.len(),
                forall|j: int| 0 <= j < i ==> !p(#[trigger] members@[j]),
            decreases members@.len() - i,
        {
            let c = members[i];
            if c != old && contains_window(known_visible, c) && self.window_is_native_tab_candidate(c)
                && self.window_manager.windows.contains_key(&c) {
                proof {
                    lemma_first_index_found(members@, p, i as int);
                }
                return Some(c);
            }
            i = i + 1;
        }
        proof {
            lemma_first_index_none(members@, p);
        }
        None
    }

    #[verifier::loop_isolation(false)]
    pub fn candidate_has_pending_native_tab_appearance(&self, wid: WindowId) -> (r: bool)
        ensures
            r == self@.candidate_has_pending_native_tab_appearance(wid),
    {
        let wsid = match self.window_manager.windows.get(&wid) {
            Some(w) => match w.info.sys_id {
                Some(ws) => ws,
                None => return false,
            },
            None => return false,
        };
        let pending = self.native_tab_manager.pending_appearances_for_pid(wid.pid);
        let ghost p = ReactorView::appearance_of_wsid(wsid);
        let mut i: usize = 0;
        while i < pending.len()
            invariant
                pending@ == self@.tabs.pending_appearances_for_pid(wid.pid),
                p == ReactorView::appearance_of_wsid(wsid),
                i <= pending@.len(),
                forall|j: int| 0 <= j < i ==> !p(#[trigger] pending@[j]),
            decreases pending@.len() - i,
        {
            if pending[i].wsid == wsid {
                proof {
                    lemma_first_index_found(pending@, p, i as int);
                }
                return true;
            }
            i = i + 1;
        }
        proof {
            lemma_first_index_none(pending@, p);
        }
        false
    }

    #[verifier::loop_isolation(false)]
    pub fn maybe_hold_native_tab_window_created(&self, wid: WindowId) -> (r: bool)
        ensures
            r == self@.maybe_hold_native_tab_window_created(wid),
    {
        if !self.window_is_native_tab_candidate(wid) {
            return false;
        }
        let window = match self.window_manager.windows.get(&wid) {
            Some(w) => w,
            None => return false,
        };
        let frame = window.frame_monotonic;
        let pending = self.native_tab_manager.pending_destroys_for_pid(wid.pid);
        let ghost p = ReactorView::destroy_at(frame);
        let mut i: usize = 0;
        while i < pending.len()
            invariant
                pending@ == self@.tabs.pending_destroys_for_pid(wid.pid),
                p == ReactorView::destroy_at(frame),
                i <= pending@.len(),
                forall|j: int| 0 <= j < i ==> !p(#[trigger] pending@[j]),
            decreases pending@.len() - i,
        {
            if frames_match(pending[i].frame, frame) {
                proof {
                    lemma_first_index_found(pending@, p, i as int);
                }
                return true;
            }
            i = i + 1;
        }
        proof {
            lemma_first_index_none(pending@, p);
        }
        let groups = &self.native_tab_manager.groups.entries;
        let ghost q = ReactorView::group_at(wid.pid, frame);
        let mut k: usize = 0;
        while k < groups.len()
            invariant
                groups@ == self@.tabs.groups,
                q == ReactorView::group_at(wid.pid, frame),
                k <= groups@.len(),
                forall|j: int| 0 <= j < k ==> !q(#[trigger] groups@[j]),
            decreases groups@.len() - k,
        {
            if groups[k].1.pid == wid.pid && frames_match(groups[k].1.canonical_frame, frame) {
                proof {
                    lemma_first_index_found(groups@, q, k as int);
                }
                return true;
            }
            k = k + 1;
        }
        proof {
            lemma_first_index_none(groups@, q);
        }
        self.visible_native_tab_replacement_peer_for(wid, frame).is_some()
    }

    /// Every pending destroy, of every application.
    pub fn pending_native_tab_destroys(&self) -> (r: Vec<PendingNativeTabDestroy>)
        ensures
            r@ == self@.tabs.pending_destroys,
    {
        self.native_tab_manager.pending_destroys.clone()
    }
}


impl Reactor {
    pub fn set_native_tab_role(&mut self, wid: WindowId, group_id: u32, role: NativeTabRole)
        requires
            old(self)@.wf(),
        ensures
            final(self)@.wf(),
            final(self)@ == old(self)@.set_native_tab_role(wid, group_id, role),
    {
        if let Some(st) = self.window_manager.windows.get(&wid) {
            self.window_manager.windows.insert(
                wid,
                WindowState { native_tab: Some(NativeTabMembership { group_id, role }), ..st },
            );
        }
    }

    /// Asks the application of `wid` to move it to `frame`, recording the
    /// frame as the window's pending target and the write as a transaction of
    /// its WindowServer window.
    pub fn request_native_tab_member_frame_sync(&mut self, wid: WindowId, frame: Rect)
        requires
            old(self)@.wf(),
        ensures
            final(self)@.wf(),
            final(self)@ == old(self)@.request_native_tab_member_frame_sync(wid, frame),
    {
        if !self.app_manager.has_app(wid.pid) {
            return ;
        }
        self.native_tab_manager.set_pending_frame_target(wid, frame);
        let wsid = match self.window_manager.windows.get(&wid) {
            Some(w) => w.info.sys_id,
            None => None,
        };
        let txid = match wsid {
            Some(ws) => {
                let txid = self.transaction_manager.generate_next_txid(ws);
                self.transaction_manager.store_txid(ws, txid, frame);
                txid
            },
            None => TransactionId { id: 0 },
        };
        self.app_manager.requests.push((wid.pid, Request::SetWindowFrame(wid, frame, txid, true)));
    }

    pub fn ensure_active_native_tab_frame(&mut self, wid: WindowId, frame: Rect)
        requires
            old(self)@.wf(),
        ensures
            final(self)@.wf(),
            final(self)@ == old(self)@.request_native_tab_member_frame_sync(wid, frame),
    {
        self.request_native_tab_member_frame_sync(wid, frame);
    }

    /// Asks again for the frame that `wid` was last asked to take, if any.
    pub fn retry_pending_native_tab_frame_target(&mut self, wid: WindowId)
        requires
            old(self)@.wf(),
        ensures
            final(self)@.wf(),
            final(self)@ == old(self)@.retry_pending_native_tab_frame_target(wid),
    {
        let frame = match self.native_tab_manager.pending_frame_target(wid) {
            Some(frame) => frame,
            None => return ,
        };
        self.request_native_tab_member_frame_sync(wid, frame);
    }

    /// When `active_wid` is the tab on screen of its group, every member takes
    /// `frame`; with `sync_window_positions`, the hidden members are asked to
    /// move there too.
    pub fn sync_native_tab_group_frame(
        &mut self,
        active_wid: WindowId,
        frame: Rect,
        membership: Option<NativeTabMembership>,
        sync_window_positions: bool,
    )
        requires
            old(self)@.wf(),
        ensures
            final(self)@.wf(),
            final(self)@ == old(self)@.sync_native_tab_group_frame(
                active_wid,
                frame,
                membership,
                sync_window_positions,
            ),
    {
        let m = match membership {
            Some(m) => m,
            None => return ,
        };
        if m.role != NativeTabRole::Active {
            return ;
        }
        if self.native_tab_manager.group(m.group_id).is_none() {
            return ;
        }
        let members = self.native_tab_manager.members(m.group_id);
        let ghost v0 = self@;
        let mut i: usize = 0;
        while i < members.len()
            invariant
                members@ == v0.tabs.members(m.group_id),
                i <= members@.len(),
                self@.wf(),
                self@ == v0.sync_members(
                    members@.take(i as int),
                    active_wid,
                    frame,
                    sync_window_positions,
                ),
            decreases members@.len() - i,
        {
            let member = members[i];
            proof {
                assert(members@.take(i as int + 1).drop_last() == members@.take(i as int));
            }
            if let Some(st) = self.window_manager.windows.get(&member) {
                self.window_manager.windows.insert(
                    member,
                    WindowState { frame_monotonic: frame, info: WindowInfo { frame, ..st.info }, ..st },
                );
            }
            if sync_window_positions && member != active_wid {
                self.request_native_tab_member_frame_sync(member, frame);
            }
            i = i + 1;
        }
        proof {
            assert(members@.take(members@.len() as int) == members@);
        }
    }
}


/// A drag of `old` continues as a drag of `new`.
pub open spec fn rekey_drag(d: DragState, old_wid: WindowId, new_wid: WindowId) -> DragState {
    match d {
        DragState::Active { session } => DragState::Active {
            session: if session.window == old_wid {
                DragSession { window: new_wid, ..session }
            } else {
                session
            },
        },
        DragState::PendingSwap { session, target } => DragState::PendingSwap {
            session: if session.window == old_wid {
                DragSession { window: new_wid, ..session }
            } else {
                session
            },
            target: if target == old_wid {
                new_wid
            } else {
                target
            },
        },
        DragState::Inactive => DragState::Inactive,
    }
}

pub open spec fn rekey_option(w: Option<WindowId>, old_wid: WindowId, new_wid: WindowId) -> Option<WindowId> {
    if w == Some(old_wid) {
        Some(new_wid)
    } else {
        w
    }
}

impl ReactorView {
    /// A switch from `old_wid` to `new_wid` can happen: `old_wid` is known and
    /// both are candidates.
    pub open spec fn activation_allowed(self, old_wid: WindowId, new_wid: WindowId) -> bool {
        self.window_is_native_tab_candidate(old_wid) && self.window_is_native_tab_candidate(new_wid)
    }

    /// The frame a switch away from `old_wid` settles on: its group's frame,
    /// or its own.
    pub open spec fn activation_frame(self, old_wid: WindowId) -> Rect {
        match self.native_tab_group_frame_for(old_wid) {
            Some(f) => f,
            None => self.window(old_wid)->0.frame_monotonic,
        }
    }

    /// `new_wid` becomes the tab on screen in place of `old_wid`: it takes the
    /// layout slot and selection of `old_wid`, joins (or founds) its group as
    /// the active member while `old_wid` is hidden, takes the group's frame,
    /// becomes main window where `old_wid` was, inherits the frame-write
    /// transaction of `old_wid`, is asked to move to the frame, and takes the
    /// place of `old_wid` in a drag and in a pending mouse warp.
    pub open spec fn activate_native_tab_replacement(self, old_wid: WindowId, new_wid: WindowId) -> Self {
        if !self.activation_allowed(old_wid, new_wid) {
            self
        } else {
            let frame = self.activation_frame(old_wid);
            let old_wsid = self.window(old_wid)->0.info.sys_id;
            let new_wsid = match self.window(new_wid) {
                Some(w) => w.info.sys_id,
                None => None,
            };
            let v1 = ReactorView {
                layout: map_rekey(self.layout, old_wid, new_wid),
                selection: selection_rekey(self.layout, self.selection, old_wid, new_wid),
                ..self
            };
            let g = v1.tabs.group_of_anchor(old_wid);
            let v2 = v1.with_tabs(v1.tabs.join(old_wid, new_wid, new_wid, frame));
            let v3 = v2.set_native_tab_role(old_wid, g, NativeTabRole::Suppressed).set_native_tab_role(
                new_wid,
                g,
                NativeTabRole::Active,
            );
            let v4 = match v3.window(new_wid) {
                Some(st) => v3.with_window(
                    new_wid,
                    WindowState { frame_monotonic: frame, info: WindowInfo { frame, ..st.info }, ..st },
                ),
                None => v3,
            };
            let v5 = ReactorView { main_windows: main_rekey(v4.main_windows, old_wid, new_wid), ..v4 };
            let v6 = match old_wsid {
                Some(o) => match new_wsid {
                    Some(n) => ReactorView { transactions: tx_rekey(v5.transactions, o, n), ..v5 },
                    None => v5,
                },
                None => v5,
            };
            let v7 = v6.request_native_tab_member_frame_sync(new_wid, frame);
            ReactorView {
                skip_layout_for_window: rekey_option(v7.skip_layout_for_window, old_wid, new_wid),
                drag_state: rekey_drag(v7.drag_state, old_wid, new_wid),
                pending_workspace_mouse_warp: rekey_option(
                    v7.pending_workspace_mouse_warp,
                    old_wid,
                    new_wid,
                ),
                ..v7
            }
        }
    }

    /// A switch that, when it happens, also settles the pending destroy of
    /// `old_wid`.
    pub open spec fn try_activate_native_tab_replacement(self, old_wid: WindowId, new_wid: WindowId) -> Self {
        if self.activation_allowed(old_wid, new_wid) {
            let v = self.activate_native_tab_replacement(old_wid, new_wid);
            v.with_tabs(v.tabs.clear_pending_destroy(old_wid))
        } else {
            self
        }
    }
}

impl Reactor {
    /// Switches the tab on screen from `old_wid` to `new_wid`; returns whether
    /// the switch happened.
    pub fn activate_native_tab_replacement(&mut self, old_wid: WindowId, new_wid: WindowId) -> (r: bool)
        requires
            old(self)@.wf(),
        ensures
            final(self)@.wf(),
            r == old(self)@.activation_allowed(old_wid, new_wid),
            final(self)@ == old(self)@.activate_native_tab_replacement(old_wid, new_wid),
    {
        let old_window = match self.window_manager.windows.get(&old_wid) {
            Some(w) => w,
            None => return false,
        };
        let frame = match self.native_tab_group_frame_for(old_wid) {
            Some(f) => f,
            None => old_window.frame_monotonic,
        };
        let old_wsid = old_window.info.sys_id;
        let new_wsid = match self.window_manager.windows.get(&new_wid) {
            Some(w) => w.info.sys_id,
            None => None,
        };
        if !self.window_is_native_tab_candidate(old_wid) || !self.window_is_native_tab_candidate(new_wid) {
            return false;
        }
        let _ = self.layout_manager.layout_engine.rekey_window(old_wid, new_wid);
        let group_id = self.native_tab_manager.replace_active_member(old_wid, new_wid, frame);
        self.set_native_tab_role(old_wid, group_id, NativeTabRole::Suppressed);
        self.set_native_tab_role(new_wid, group_id, NativeTabRole::Active);
        if let Some(st) = self.window_manager.windows.get(&new_wid) {
            self.window_manager.windows.insert(
                new_wid,
                WindowState { frame_monotonic: frame, info: WindowInfo { frame, ..st.info }, ..st },
            );
        }
        self.main_window_tracker.rekey_window(old_wid, new_wid);
        if let Some(o) = old_wsid {
            if let Some(n) = new_wsid {
                self.transaction_manager.rekey_window(o, n);
            }
        }
        self.ensure_active_native_tab_frame(new_wid, frame);

        if self.drag_manager.skip_layout_for_window == Some(old_wid) {
            self.drag_manager.skip_layout_for_window = Some(new_wid);
        }
        let drag = self.drag_manager.drag_state;
        self.drag_manager.drag_state = match drag {
            DragState::Active { session } => DragState::Active {
                session: if session.window == old_wid {
                    DragSession { window: new_wid, ..session }
                } else {
                    session
                },
            },
            DragState::PendingSwap { session, target } => DragState::PendingSwap {
                session: if session.window == old_wid {
                    DragSession { window: new_wid, ..session }
                } else {
                    session
                },
                target: if target == old_wid {
                    new_wid
                } else {
                    target
                },
            },
            DragState::Inactive => DragState::Inactive,
        };
        if self.workspace_switch_manager.pending_workspace_mouse_warp == Some(old_wid) {
            self.workspace_switch_manager.pending_workspace_mouse_warp = Some(new_wid);
        }
        true
    }

    /// Switches from `old_wid` to `new_wid` and, when that happens, drops the
    /// pending destroy of `old_wid`.
    pub fn try_activate_native_tab_replacement(&mut self, old_wid: WindowId, new_wid: WindowId) -> (r: bool)
        requires
            old(self)@.wf(),
        ensures
            final(self)@.wf(),
            r == old(self)@.activation_allowed(old_wid, new_wid),
            final(self)@ == old(self)@.try_activate_native_tab_replacement(old_wid, new_wid),
    {
        if self.activate_native_tab_replacement(old_wid, new_wid) {
            self.native_tab_manager.clear_pending_destroy(old_wid);
            return true;
        }
        false
    }
}


/// A layout event the reactor sends to the layout engine.
#[derive(Clone, Copy, Debug, PartialEq, Eq, Structural)]
pub enum LayoutEvent {
    WindowAdded(SpaceId, WindowId),
}

impl ReactorView {
    /// `wid` joins the layout of `space` and is selected there.
    pub open spec fn add_to_layout(self, space: SpaceId, wid: WindowId) -> Self {
        ReactorView {
            layout: map_insert(self.layout, wid, space),
            selection: map_insert(self.selection, space, wid),
            ..self
        }
    }

    pub open spec fn send_layout_event(self, event: LayoutEvent) -> Self {
        match event {
            LayoutEvent::WindowAdded(space, wid) => self.add_to_layout(space, wid),
        }
    }

    /// The WindowServer window `wsid` went away on `sid`. When it is a tab
    /// candidate's, a pending destroy is staged at the window's frame and the
    /// WindowServer window is no longer visible or described.
    pub open spec fn stage_native_tab_destroy(self, wsid: WindowServerId, sid: SpaceId) -> (Self, bool) {
        match self.window_for_server_id(wsid) {
            Some(wid) => if !self.window_is_native_tab_candidate(wid) {
                (self, false)
            } else {
                let w = self.window(wid)->0;
                (
                    ReactorView {
                        tabs: self.tabs.stage_destroy(wid, wsid, sid, w.frame_monotonic, self.now_ms),
                        visible_windows: set_remove(self.visible_windows, wsid),
                        window_server_info: map_remove(self.window_server_info, wsid),
                        ..self
                    },
                    true,
                )
            },
            None => (self, false),
        }
    }

    pub open spec fn clear_stale_step(self, pid: Pid, a: PendingNativeTabAppearance) -> Self {
        let v = if self.window_for_server_id(a.wsid) is None {
            ReactorView {
                visible_windows: set_remove(self.visible_windows, a.wsid),
                window_server_info: map_remove(self.window_server_info, a.wsid),
                observed_window_server_ids: set_remove(self.observed_window_server_ids, a.wsid),
                ..self
            }
        } else {
            self
        };
        v.with_tabs(v.tabs.clear_pending_appearance(pid, a.wsid))
    }

    pub open spec fn clear_stale_fold(self, pid: Pid, s: Seq<PendingNativeTabAppearance>) -> Self
        decreases s.len(),
    {
        if s.len() == 0 {
            self
        } else {
            self.clear_stale_fold(pid, s.drop_last()).clear_stale_step(pid, s.last())
        }
    }

    /// Every pending appearance of `pid` is dropped; a WindowServer window of
    /// one that never got a window is forgotten (not visible, not described,
    /// not observed).
    pub open spec fn clear_stale_pending_native_tab_appearances_for_pid(self, pid: Pid) -> Self {
        self.clear_stale_fold(pid, self.tabs.pending_appearances_for_pid(pid))
    }

    /// The WindowServer window `wsid` of `info.pid` appeared on `sid`.
    pub open spec fn note_native_tab_appearance(self, wsid: WindowServerId, sid: SpaceId, info: WindowServerInfo) -> (
        Self,
        bool,
    ) {
        let v1 = ReactorView {
            visible_windows: set_insert(self.visible_windows, wsid),
            window_server_info: map_insert(self.window_server_info, wsid, info),
            ..self
        };
        match v1.window_for_server_id(wsid) {
            None => (
                v1.with_tabs(v1.tabs.stage_appearance(wsid, info.pid, sid, info.frame, v1.now_ms)),
                false,
            ),
            Some(wid) => {
                let v2 = v1.with_tabs(v1.tabs.clear_pending_appearance(info.pid, wsid));
                let pending_old = v2.pending_native_tab_replacement_for(info.pid, wid, sid, info.frame);
                if pending_old is Some && v2.activation_allowed(pending_old->0, wid) {
                    (v2.try_activate_native_tab_replacement(pending_old->0, wid), true)
                } else {
                    match v2.tabs.group_for_window(wid) {
                        None => if !v2.has_window_membership(wid) {
                            (
                                v2.with_tabs(
                                    v2.tabs.stage_appearance(wsid, info.pid, sid, info.frame, v2.now_ms),
                                ),
                                false,
                            )
                        } else {
                            (v2, false)
                        },
                        Some(g) => if !v2.is_native_tab_suppressed(wid) {
                            (v2, false)
                        } else {
                            match v2.tabs.group(g) {
                                None => (v2, false),
                                Some(group) => if !spec_frames_match(group.canonical_frame, info.frame) {
                                    (v2, false)
                                } else {
                                    match group.active {
                                        Some(old_active) => (
                                            v2.try_activate_native_tab_replacement(old_active, wid),
                                            v2.activation_allowed(old_active, wid),
                                        ),
                                        None => {
                                            let v3 = v2.with_tabs(v2.tabs.set_active_member(wid, info.frame));
                                            match v2.tabs.live_group_of(wid) {
                                                Some(g2) => (
                                                    v3.set_native_tab_role(wid, g2, NativeTabRole::Active),
                                                    true,
                                                ),
                                                None => (v3, true),
                                            }
                                        },
                                    }
                                },
                            }
                        },
                    }
                }
            },
        }
    }

    /// The destroy of a tab candidate whose WindowServer window went away is
    /// held back until its replacement shows up: its WindowServer id is
    /// forgotten everywhere and the window stays known without one.
    pub open spec fn defer_native_tab_window_destroy(self, wid: WindowId) -> (Self, bool) {
        match self.window(wid) {
            Some(w) => if !self.window_is_native_tab_candidate(wid) || !self.tabs.has_pending_destroy(
                wid.pid,
                wid,
            ) {
                (self, false)
            } else {
                let v = match w.info.sys_id {
                    Some(ws) => ReactorView {
                        transactions: map_remove(self.transactions, ws),
                        window_ids: map_remove(self.window_ids, ws),
                        window_server_info: map_remove(self.window_server_info, ws),
                        visible_windows: set_remove(self.visible_windows, ws),
                        ..self
                    },
                    None => self,
                };
                (v.with_window(wid, WindowState { info: WindowInfo { sys_id: None, ..w.info }, ..w }), true)
            },
            None => (self, false),
        }
    }

    /// `wid` is gone for good: its pending destroy is dropped, it leaves its
    /// group, and a member promoted in its place joins the layout when it is
    /// not there and is effectively manageable.
    pub open spec fn finalize_native_tab_window_destroy(self, wid: WindowId) -> Self {
        let v1 = self.with_tabs(self.tabs.clear_pending_destroy(wid));
        let removed = v1.tabs.remove_window(wid, v1.windows);
        let v2 = ReactorView { tabs: removed.0, windows: removed.1, ..v1 };
        match removed.2 {
            Some(p) => if !v2.has_window_membership(p) {
                match v2.best_space_for_window_id(p) {
                    Some(space) => if (match v2.window(p) {
                        Some(w) => w.spec_matches_filter(WindowFilter::EffectivelyManageable),
                        None => false,
                    }) {
                        v2.send_layout_event(LayoutEvent::WindowAdded(space, p))
                    } else {
                        v2
                    },
                    None => v2,
                }
            } else {
                v2
            },
            None => v2,
        }
    }

    /// The frame of `wid` changed: its group's frame follows when it is the
    /// tab on screen, and with `sync_group` the other members follow too.
    pub open spec fn handle_native_tab_frame_changed(self, wid: WindowId, sync_group: bool) -> Self {
        match self.window(wid) {
            Some(w) => {
                let v = self.with_tabs(self.tabs.update_frame(w.frame_monotonic, w.native_tab));
                if sync_group {
                    v.sync_native_tab_group_frame(wid, w.frame_monotonic, w.native_tab, true)
                } else {
                    v
                }
            },
            None => self,
        }
    }

    pub open spec fn handle_native_tab_app_terminated(self, pid: Pid) -> Self {
        let removed = self.tabs.remove_app(pid, self.windows);
        ReactorView { tabs: removed.0, windows: removed.1, ..self }
    }

    pub open spec fn member_in_layout(self, wid: WindowId) -> spec_fn(WindowId) -> bool {
        |m: WindowId| m != wid && self.has_window_membership(m)
    }

    /// The member that a hidden tab `wid` takes over from: the group's tab on
    /// screen, or else the first other member in the layout.
    pub open spec fn takeover_target(self, wid: WindowId, g: u32, group: crate::native_tab_manager::NativeTabGroup) -> Option<WindowId> {
        match group.active {
            Some(a) => if a != wid {
                Some(a)
            } else {
                first_match(self.tabs.members(g), self.member_in_layout(wid))
            },
            None => first_match(self.tabs.members(g), self.member_in_layout(wid)),
        }
    }

    /// The application `pid` reported `wid` as its main window (or none).
    pub open spec fn handle_native_tab_main_window_changed(self, pid: Pid, wid: Option<WindowId>, quiet: Quiet) -> Self {
        if quiet == Quiet::Yes || !self.pid_has_native_tab_state(pid) {
            self
        } else {
            match wid {
                None => self.with_tabs(self.tabs.note_transient_empty_visibility(pid)),
                Some(w) => {
                    let v1 = self.with_tabs(self.tabs.clear_transient_empty_visibility(pid));
                    if w.pid != pid || !v1.window_is_native_tab_candidate(w) {
                        v1
                    } else {
                        let first = match v1.window(w) {
                            Some(st) => if !v1.is_native_tab_suppressed(w) {
                                v1.native_tab_replacement_candidate_for(w, st.frame_monotonic)
                            } else {
                                None
                            },
                            None => None,
                        };
                        if first is Some && v1.activation_allowed(first->0, w) {
                            v1.try_activate_native_tab_replacement(first->0, w)
                        } else if !v1.is_native_tab_suppressed(w) {
                            v1
                        } else {
                            match v1.tabs.group_for_window(w) {
                                Some(g) => match v1.tabs.group(g) {
                                    Some(group) => match v1.takeover_target(w, g, group) {
                                        Some(a) => v1.try_activate_native_tab_replacement(a, w),
                                        None => v1,
                                    },
                                    None => v1,
                                },
                                None => v1,
                            }
                        }
                    }
                },
            }
        }
    }
}

impl Reactor {
    pub fn send_layout_event(&mut self, event: LayoutEvent)
        requires
            old(self)@.wf(),
        ensures
            final(self)@.wf(),
            final(self)@ == old(self)@.send_layout_event(event),
    {
        match event {
            LayoutEvent::WindowAdded(space, wid) => self.layout_manager.layout_engine.add_window(space, wid),
        }
    }

    /// Stages a pending destroy for the tab candidate behind `wsid`; returns
    /// whether there was one.
    pub fn stage_native_tab_destroy(&mut self, wsid: WindowServerId, sid: SpaceId) -> (r: bool)
        requires
            old(self)@.wf(),
        ensures
            final(self)@.wf(),
            (final(self)@, r) == old(self)@.stage_native_tab_destroy(wsid, sid),
    {
        let wid = match self.window_manager.window_ids.get(&wsid) {
            Some(wid) => wid,
            None => return false,
        };
        if !self.window_is_native_tab_candidate(wid) {
            return false;
        }
        let window = match self.window_manager.windows.get(&wid) {
            Some(w) => w,
            None => return false,
        };
        let now = self.now_ms;
        self.native_tab_manager.stage_destroy(wid, wsid, sid, window.frame_monotonic, now);
        self.window_manager.visible_windows.remove(&wsid);
        self.window_server_info_manager.window_server_info.remove(&wsid);
        true
    }

    pub fn clear_stale_pending_native_tab_appearances_for_pid(&mut self, pid: Pid)
        requires
            old(self)@.wf(),
        ensures
            final(self)@.wf(),
            final(self)@ == old(self)@.clear_stale_pending_native_tab_appearances_for_pid(pid),
    {
        let pending = self.native_tab_manager.pending_appearances_for_pid(pid);
        let ghost v0 = self@;
        let mut i: usize = 0;
        while i < pending.len()
            invariant
                pending@ == v0.tabs.pending_appearances_for_pid(pid),
                i <= pending@.len(),
                self@.wf(),
                self@ == v0.clear_stale_fold(pid, pending@.take(i as int)),
            decreases pending@.len() - i,
        {
            let a = pending[i];
            proof {
                assert(pending@.take(i as int + 1).drop_last() == pending@.take(i as int));
            }
            let has_window_mapping = self.window_manager.window_ids.contains_key(&a.wsid);
            if !has_window_mapping {
                self.window_manager.visible_windows.remove(&a.wsid);
                self.window_server_info_manager.window_server_info.remove(&a.wsid);
                self.window_manager.observed_window_server_ids.remove(&a.wsid);
            }
            self.native_tab_manager.clear_pending_appearance(pid, a.wsid);
            i = i + 1;
        }
        proof {
            assert(pending@.take(pending@.len() as int) == pending@);
        }
    }

    /// The WindowServer window `wsid` of `info.pid` appeared on `sid`. Returns
    /// whether it completed a tab switch.
    pub fn note_native_tab_appearance(&mut self, wsid: WindowServerId, sid: SpaceId, info: WindowServerInfo) -> (r: bool)
        requires
            old(self)@.wf(),
        ensures
            final(self)@.wf(),
            (final(self)@, r) == old(self)@.note_native_tab_appearance(wsid, sid, info),
    {
        self.window_manager.visible_windows.insert(wsid);
        self.window_server_info_manager.window_server_info.insert(wsid, info);
        let now = self.now_ms;

        let wid = match self.window_manager.window_ids.get(&wsid) {
            Some(wid) => wid,
            None => {
                self.native_tab_manager.stage_appearance(wsid, info.pid, sid, info.frame, now);
                return false;
            },
        };
        self.native_tab_manager.clear_pending_appearance(info.pid, wsid);

        if let Some(pending_old) = self.pending_native_tab_replacement_for(info.pid, wid, sid, info.frame) {
            if self.try_activate_native_tab_replacement(pending_old, wid) {
                return true;
            }
        }

        let group_id = match self.native_tab_manager.group_for_window(wid) {
            Some(g) => g,
            None => {
                // don't treat ordinary already-managed same-size windows as tab-switch signals.
                if !self.layout_manager.layout_engine.has_window_membership(wid) {
                    self.native_tab_manager.stage_appearance(wsid, info.pid, sid, info.frame, now);
                }
                return false;
            },
        };
        if !self.is_native_tab_suppressed(wid) {
            return false;
        }
        let group = match self.native_tab_manager.group(group_id) {
            Some(group) => group,
            None => return false,
        };
        if !frames_match(group.canonical_frame, info.frame) {
            return false;
        }

        if let Some(old_active) = group.active {
            return self.try_activate_native_tab_replacement(old_active, wid);
        }

        if let Some(g) = self.native_tab_manager.set_active_member(wid, info.frame) {
            self.set_native_tab_role(wid, g, NativeTabRole::Active);
        }
        true
    }

    /// Holds back the destroy of a tab candidate with a pending destroy;
    /// returns whether it was held back.
    pub fn defer_native_tab_window_destroy(&mut self, wid: WindowId) -> (r: bool)
        requires
            old(self)@.wf(),
        ensures
            final(self)@.wf(),
            (final(self)@, r) == old(self)@.defer_native_tab_window_destroy(wid),
    {
        let window = match self.window_manager.windows.get(&wid) {
            Some(w) => w,
            None => return false,
        };
        if !self.window_is_native_tab_candidate(wid) {
            return false;
        }
        if !self.native_tab_manager.has_pending_destroy(wid.pid, wid) {
            return false;
        }
        if let Some(wsid) = window.info.sys_id {
            self.transaction_manager.remove_for_window(wsid);
            self.window_manager.window_ids.remove(&wsid);
            self.window_server_info_manager.window_server_info.remove(&wsid);
            self.window_manager.visible_windows.remove(&wsid);
        }
        self.window_manager.windows.insert(
            wid,
            WindowState { info: WindowInfo { sys_id: None, ..window.info }, ..window },
        );
        true
    }

    pub fn finalize_native_tab_window_destroy(&mut self, wid: WindowId)
        requires
            old(self)@.wf(),
        ensures
            final(self)@.wf(),
            final(self)@ == old(self)@.finalize_native_tab_window_destroy(wid),
    {
        self.native_tab_manager.clear_pending_destroy(wid);
        if let Some(promoted_wid) = self.native_tab_manager.remove_window(wid, &mut self.window_manager.windows) {
            if !self.layout_manager.layout_engine.has_window_membership(promoted_wid) {
                if let Some(space) = self.best_space_for_window_id(promoted_wid) {
                    let should_dispatch = match self.window_manager.windows.get(&promoted_wid) {
                        Some(window) => window.matches_filter(WindowFilter::EffectivelyManageable),
                        None => false,
                    };
                    if should_dispatch {
                        self.send_layout_event(LayoutEvent::WindowAdded(space, promoted_wid));
                    }
                }
            }
        }
    }

    pub fn handle_native_tab_frame_changed(&mut self, wid: WindowId, sync_group: bool)
        requires
            old(self)@.wf(),
        ensures
            final(self)@.wf(),
            final(self)@ == old(self)@.handle_native_tab_frame_changed(wid, sync_group),
    {
        let window = match self.window_manager.windows.get(&wid) {
            Some(w) => w,
            None => return ,
        };
        let frame = window.frame_monotonic;
        let membership = window.native_tab;
        self.native_tab_manager.update_frame(wid, frame, membership);
        if sync_group {
            self.sync_native_tab_group_frame(wid, frame, membership, true);
        }
    }

    pub fn handle_native_tab_app_terminated(&mut self, pid: Pid)
        requires
            old(self)@.wf(),
        ensures
            final(self)@.wf(),
            final(self)@ == old(self)@.handle_native_tab_app_terminated(pid),
    {
        self.native_tab_manager.remove_app(pid, &mut self.window_manager.windows);
    }

    pub fn handle_native_tab_main_window_changed(&mut self, pid: Pid, wid: Option<WindowId>, quiet: Quiet)
        requires
            old(self)@.wf(),
        ensures
            final(self)@.wf(),
            final(self)@ == old(self)@.handle_native_tab_main_window_changed(pid, wid, quiet),
    {
        if quiet == Quiet::Yes {
            return ;
        }
        if !self.pid_has_native_tab_state(pid) {
            return ;
        }
        let wid = match wid {
            Some(w) => w,
            None => {
                self.native_tab_manager.note_transient_empty_visibility(pid);
                return ;
            },
        };
        self.native_tab_manager.clear_transient_empty_visibility(pid);
        if wid.pid != pid || !self.window_is_native_tab_candidate(wid) {
            return ;
        }
        let first = match self.window_manager.windows.get(&wid) {
            Some(st) => if !self.is_native_tab_suppressed(wid) {
                self.native_tab_replacement_candidate_for(wid, st.frame_monotonic)
            } else {
                None
            },
            None => None,
        };
        if let Some(old_active) = first {
            if self.try_activate_native_tab_replacement(old_active, wid) {
                return ;
            }
        }
        if !self.is_native_tab_suppressed(wid) {
            return ;
        }
        let group_id = match self.native_tab_manager.group_for_window(wid) {
            Some(g) => g,
            None => return ,
        };
        let group = match self.native_tab_manager.group(group_id) {
            Some(group) => group,
            None => return ,
        };
        let target = match group.active {
            Some(a) => if a != wid {
                Some(a)
            } else {
                self.first_member_in_layout(group_id, wid)
            },
            None => self.first_member_in_layout(group_id, wid),
        };
        if let Some(old_active) = target {
            let _ = self.try_activate_native_tab_replacement(old_active, wid);
        }
    }

    fn first_member_in_layout(&self, group_id: u32, wid: WindowId) -> (r: Option<WindowId>)
        ensures
            r == first_match(self@.tabs.members(group_id), self@.member_in_layout(wid)),
    {
        let members = self.native_tab_manager.members(group_id);
        let ghost p = self@.member_in_layout(wid);
        let mut i: usize = 0;
        while i < members.len()
            invariant
                members@ == self@.tabs.members(group_id),
                p == self@.member_in_layout(wid),
                i <= members@.len(),
                forall|j: int| 0 <= j < i ==> !p(#[trigger] members@[j]),
            decreases members@.len() - i,
        {
            let m = members[i];
            if m != wid && self.layout_manager.layout_engine.has_window_membership(m) {
                proof {
                    lemma_first_index_found(members@, p, i as int);
                }
                return Some(m);
            }
            i = i + 1;
        }
        proof {
            lemma_first_index_none(members@, p);
        }
        None
    }
}


/// How long a pending destroy or appearance is kept, in milliseconds.
pub const PENDING_NATIVE_TAB_MAX_AGE_MS: u64 = 3000;

impl ReactorView {
    /// A pending appearance of `pid` whose window is now known completes the
    /// switch from the tab with a matching pending destroy.
    pub open spec fn reconcile_appearance_step(self, pid: Pid, a: PendingNativeTabAppearance) -> Self {
        if !self.tabs.has_pending_appearance(pid, a.wsid) {
            self
        } else {
            match self.window_for_server_id(a.wsid) {
                Some(wid) => if !self.window_is_native_tab_candidate(wid) {
                    self
                } else {
                    match self.pending_native_tab_replacement_for(pid, wid, a.space, a.frame) {
                        Some(old_active) => if self.activation_allowed(old_active, wid) {
                            let v = self.try_activate_native_tab_replacement(old_active, wid);
                            v.with_tabs(v.tabs.clear_pending_appearance(pid, a.wsid))
                        } else {
                            self
                        },
                        None => self,
                    }
                },
                None => self,
            }
        }
    }

    pub open spec fn reconcile_appearances(self, pid: Pid, s: Seq<PendingNativeTabAppearance>) -> Self
        decreases s.len(),
    {
        if s.len() == 0 {
            self
        } else {
            self.reconcile_appearances(pid, s.drop_last()).reconcile_appearance_step(pid, s.last())
        }
    }

    /// A known-visible window that replaces the pending destroy `d`: another
    /// visible candidate of the same application, with a matching pending
    /// appearance, on the same space at the same frame, and no other visible
    /// window of the application there.
    pub open spec fn destroy_replacement(self, d: PendingNativeTabDestroy) -> spec_fn(WindowId) -> bool {
        |c: WindowId|
            c != d.window_id && c.pid == d.window_id.pid && self.window_is_native_tab_candidate(c)
                && match self.window(c) {
                Some(st) => match st.info.sys_id {
                    Some(sys_id) => self.has_matching_pending_native_tab_appearance(c, st.frame_monotonic)
                        && self.is_visible(sys_id) && self.best_space_for_window_id(c) == Some(
                        d.space_id,
                    ) && spec_frames_match(st.frame_monotonic, d.frame)
                        && !self.has_other_visible_same_pid_frame(
                        d.window_id.pid,
                        d.frame,
                        seq![d.window_id, c],
                    ),
                    None => false,
                },
                None => false,
            }
    }

    /// Drops the pending appearance of the WindowServer window of `w`.
    pub open spec fn clear_appearance_of_window(self, pid: Pid, w: WindowId) -> Self {
        match self.window(w) {
            Some(st) => match st.info.sys_id {
                Some(ws) => self.with_tabs(self.tabs.clear_pending_appearance(pid, ws)),
                None => self,
            },
            None => self,
        }
    }

    /// Settles one pending destroy of `pid`: by a switch to a visible
    /// replacement; else, when the window is not known to be visible, by a
    /// switch to a visible member of its group or by destroying it; else, when
    /// its WindowServer window is visible again, by dropping the record.
    pub open spec fn reconcile_destroy_step(self, pid: Pid, known_visible: Seq<WindowId>, d: PendingNativeTabDestroy) -> Self {
        if !self.tabs.has_pending_destroy(pid, d.window_id) {
            self
        } else {
            let replacement = first_match(known_visible, self.destroy_replacement(d));
            if replacement is Some && self.activation_allowed(d.window_id, replacement->0) {
                self.try_activate_native_tab_replacement(d.window_id, replacement->0).clear_appearance_of_window(
                    pid,
                    replacement->0,
                )
            } else if !known_visible.contains(d.window_id) {
                let grouped = self.grouped_native_tab_replacement_for(d.window_id, known_visible);
                if grouped is Some && self.activation_allowed(d.window_id, grouped->0) {
                    let had_appearance = self.candidate_has_pending_native_tab_appearance(grouped->0);
                    let v = self.try_activate_native_tab_replacement(d.window_id, grouped->0);
                    if had_appearance {
                        v.clear_appearance_of_window(pid, grouped->0)
                    } else {
                        v.handle_window_destroyed(d.window_id).0
                    }
                } else {
                    let v = self.with_tabs(self.tabs.clear_pending_destroy(d.window_id));
                    v.handle_window_destroyed(d.window_id).0
                }
            } else if self.is_visible(d.window_server_id) {
                self.with_tabs(self.tabs.clear_pending_destroy(d.window_id))
            } else {
                self
            }
        }
    }

    pub open spec fn reconcile_destroys(self, pid: Pid, known_visible: Seq<WindowId>, s: Seq<PendingNativeTabDestroy>) -> Self
        decreases s.len(),
    {
        if s.len() == 0 {
            self
        } else {
            self.reconcile_destroys(pid, known_visible, s.drop_last()).reconcile_destroy_step(
                pid,
                known_visible,
                s.last(),
            )
        }
    }

    /// The visible windows of `pid` that could be a group's tab on screen, in
    /// visible order.
    pub open spec fn active_windows_of(self, pid: Pid, visible: Seq<WindowServerId>) -> Seq<WindowId>
        decreases visible.len(),
    {
        if visible.len() == 0 {
            Seq::empty()
        } else {
            let rest = self.active_windows_of(pid, visible.drop_last());
            match self.window_for_server_id(visible.last()) {
                Some(w) => if w.pid == pid && self.window_is_native_tab_candidate(w)
                    && !self.is_native_tab_suppressed(w) {
                    rest.push(w)
                } else {
                    rest
                },
                None => rest,
            }
        }
    }

    /// A known-visible candidate `c` whose WindowServer window is not visible
    /// and whose frame is that of the active window `aw` becomes a hidden tab
    /// of the group of `aw`.
    pub open spec fn background_member_step(self, aw: WindowId, frame: crate::ids::Rect, c: WindowId) -> Self {
        if c == aw || c.pid != aw.pid || !self.window_is_native_tab_candidate(c) {
            self
        } else {
            match self.window(c) {
                Some(cst) => if (match cst.info.sys_id {
                    Some(sys_id) => self.is_visible(sys_id),
                    None => false,
                }) || !spec_frames_match(cst.frame_monotonic, frame) {
                    self
                } else {
                    let g = self.tabs.group_of_anchor(aw);
                    self.with_tabs(self.tabs.join(aw, c, aw, frame)).set_native_tab_role(
                        c,
                        g,
                        NativeTabRole::Suppressed,
                    ).set_native_tab_role(aw, g, NativeTabRole::Active)
                },
                None => self,
            }
        }
    }

    pub open spec fn background_members(self, aw: WindowId, frame: crate::ids::Rect, s: Seq<WindowId>) -> Self
        decreases s.len(),
    {
        if s.len() == 0 {
            self
        } else {
            self.background_members(aw, frame, s.drop_last()).background_member_step(aw, frame, s.last())
        }
    }

    pub open spec fn adopt_step(self, known_visible: Seq<WindowId>, aw: WindowId) -> Self {
        match self.window(aw) {
            Some(st) => self.background_members(aw, st.frame_monotonic, known_visible),
            None => self,
        }
    }

    pub open spec fn adopt_all(self, known_visible: Seq<WindowId>, s: Seq<WindowId>) -> Self
        decreases s.len(),
    {
        if s.len() == 0 {
            self
        } else {
            self.adopt_all(known_visible, s.drop_last()).adopt_step(known_visible, s.last())
        }
    }

    /// Settles the half-observed tab switches of `pid` against the windows
    /// known to be visible: expired records go; pending appearances complete
    /// switches; pending destroys are settled one by one; with nothing visible
    /// and no destroy left, stale appearances go; finally, hidden same-frame
    /// windows join the groups of the visible tabs.
    pub open spec fn reconcile_native_tabs_for_pid(self, pid: Pid, known_visible: Seq<WindowId>) -> Self {
        let v0 = self.with_tabs(self.tabs.purge_expired(self.now_ms, PENDING_NATIVE_TAB_MAX_AGE_MS));
        let v1 = v0.reconcile_appearances(pid, v0.tabs.pending_appearances_for_pid(pid));
        let v2 = v1.reconcile_destroys(pid, known_visible, v1.tabs.pending_destroys_for_pid(pid));
        let v3 = if known_visible.len() == 0 && v2.tabs.pending_destroys_for_pid(pid).len() == 0 {
            v2.clear_stale_pending_native_tab_appearances_for_pid(pid)
        } else {
            v2
        };
        v3.adopt_all(known_visible, v3.active_windows_of(pid, v3.visible_windows))
    }
}

impl Reactor {
    fn is_destroy_replacement(&self, c: WindowId, d: PendingNativeTabDestroy) -> (r: bool)
        ensures
            r == self@.destroy_replacement(d)(c),
    {
        if c == d.window_id || c.pid != d.window_id.pid {
            return false;
        }
        if !self.window_is_native_tab_candidate(c) {
            return false;
        }
        let window = match self.window_manager.windows.get(&c) {
            Some(w) => w,
            None => return false,
        };
        let sys_id = match window.info.sys_id {
            Some(s) => s,
            None => return false,
        };
        if !self.has_matching_pending_native_tab_appearance(c, window.frame_monotonic) {
            return false;
        }
        let exclude = [d.window_id, c];
        proof {
            assert(exclude@ == seq![d.window_id, c]);
        }
        self.window_manager.visible_windows.contains(&sys_id) && self.best_space_for_window_id(c)
            == Some(d.space_id) && frames_match(window.frame_monotonic, d.frame)
            && !self.has_other_visible_same_pid_frame(d.window_id.pid, d.frame, &exclude)
    }

    fn destroy_replacement_in(&self, known_visible: &[WindowId], d: PendingNativeTabDestroy) -> (r: Option<WindowId>)
        ensures
            r == first_match(known_visible@, self@.destroy_replacement(d)),
    {
        let ghost p = self@.destroy_replacement(d);
        let mut i: usize = 0;
        while i < known_visible.len()
            invariant
                p == self@.destroy_replacement(d),
                i <= known_visible@.len(),
                forall|j: int| 0 <= j < i ==> !p(#[trigger] known_visible@[j]),
            decreases known_visible@.len() - i,
        {
            if self.is_destroy_replacement(known_visible[i], d) {
                proof {
                    lemma_first_index_found(known_visible@, p, i as int);
                }
                return Some(known_visible[i]);
            }
            i = i + 1;
        }
        proof {
            lemma_first_index_none(known_visible@, p);
        }
        None
    }

    fn clear_appearance_of_window(&mut self, pid: Pid, w: WindowId)
        requires
            old(self)@.wf(),
        ensures
            final(self)@.wf(),
            final(self)@ == old(self)@.clear_appearance_of_window(pid, w),
    {
        if let Some(st) = self.window_manager.windows.get(&w) {
            if let Some(ws) = st.info.sys_id {
                self.native_tab_manager.clear_pending_appearance(pid, ws);
            }
        }
    }

    fn reconcile_destroy(&mut self, pid: Pid, known_visible: &[WindowId], d: PendingNativeTabDestroy)
        requires
            old(self)@.wf(),
        ensures
            final(self)@.wf(),
            final(self)@ == old(self)@.reconcile_destroy_step(pid, known_visible@, d),
    {
        if !self.native_tab_manager.has_pending_destroy(pid, d.window_id) {
            return ;
        }
        if let Some(new_active) = self.destroy_replacement_in(known_visible, d) {
            if self.try_activate_native_tab_replacement(d.window_id, new_active) {
                self.clear_appearance_of_window(pid, new_active);
                return ;
            }
        }
        if !contains_window(known_visible, d.window_id) {
            if let Some(new_active) = self.grouped_native_tab_replacement_for(d.window_id, known_visible) {
                let replacement_has_pending_appearance = self.candidate_has_pending_native_tab_appearance(
                    new_active,
                );
                if self.try_activate_native_tab_replacement(d.window_id, new_active) {
                    if replacement_has_pending_appearance {
                        self.clear_appearance_of_window(pid, new_active);
                    } else {
                        let _ = self.handle_window_destroyed(d.window_id);
                    }
                    return ;
                }
            }
            self.native_tab_manager.clear_pending_destroy(d.window_id);
            let _ = self.handle_window_destroyed(d.window_id);
            return ;
        }
        if self.window_manager.visible_windows.contains(&d.window_server_id) {
            self.native_tab_manager.clear_pending_destroy(d.window_id);
        }
    }

    fn active_windows_for_pid(&self, pid: Pid) -> (r: Vec<WindowId>)
        ensures
            r@ == self@.active_windows_of(pid, self@.visible_windows),
    {
        let visible = &self.window_manager.visible_windows.items;
        let mut r: Vec<WindowId> = Vec::new();
        let mut i: usize = 0;
        while i < visible.len()
            invariant
                visible@ == self@.visible_windows,
                i <= visible@.len(),
                r@ == self@.active_windows_of(pid, visible@.take(i as int)),
            decreases visible@.len() - i,
        {
            proof {
                assert(visible@.take(i as int + 1).drop_last() == visible@.take(i as int));
            }
            if let Some(w) = self.window_manager.window_ids.get(&visible[i]) {
                if w.pid == pid && self.window_is_native_tab_candidate(w) && !self.is_native_tab_suppressed(w) {
                    r.push(w);
                }
            }
            i = i + 1;
        }
        proof {
            assert(visible@.take(visible@.len() as int) == visible@);
        }
        r
    }

    fn add_background_members(&mut self, active_window: WindowId, known_visible: &[WindowId])
        requires
            old(self)@.wf(),
        ensures
            final(self)@.wf(),
            final(self)@ == old(self)@.adopt_step(known_visible@, active_window),
    {
        let active_frame = match self.window_manager.windows.get(&active_window) {
            Some(st) => st.frame_monotonic,
            None => return ,
        };
        let ghost v0 = self@;
        let mut i: usize = 0;
        while i < known_visible.len()
            invariant
                i <= known_visible@.len(),
                self@.wf(),
                self@ == v0.background_members(active_window, active_frame, known_visible@.take(i as int)),
            decreases known_visible@.len() - i,
        {
            let candidate = known_visible[i];
            proof {
                assert(known_visible@.take(i as int + 1).drop_last() == known_visible@.take(i as int));
            }
            if candidate != active_window && candidate.pid == active_window.pid
                && self.window_is_native_tab_candidate(candidate) {
                if let Some(candidate_state) = self.window_manager.windows.get(&candidate) {
                    let sys_visible = match candidate_state.info.sys_id {
                        Some(sys_id) => self.window_manager.visible_windows.contains(&sys_id),
                        None => false,
                    };
                    if !sys_visible && frames_match(candidate_state.frame_monotonic, active_frame) {
                        let group_id = self.native_tab_manager.add_background_member(
                            active_window,
                            candidate,
                            active_frame,
                        );
                        self.set_native_tab_role(candidate, group_id, NativeTabRole::Suppressed);
                        self.set_native_tab_role(active_window, group_id, NativeTabRole::Active);
                    }
                }
            }
            i = i + 1;
        }
        proof {
            assert(known_visible@.take(known_visible@.len() as int) == known_visible@);
        }
    }

    /// Settles the half-observed tab switches of `pid` against the windows
    /// the application reports as visible.
    pub fn reconcile_native_tabs_for_pid(&mut self, pid: Pid, known_visible: &[WindowId])
        requires
            old(self)@.wf(),
        ensures
            final(self)@.wf(),
            final(self)@ == old(self)@.reconcile_native_tabs_for_pid(pid, known_visible@),
    {
        let now = self.now_ms;
        self.native_tab_manager.purge_expired_pending_states(now, PENDING_NATIVE_TAB_MAX_AGE_MS);

        let appearances = self.native_tab_manager.pending_appearances_for_pid(pid);
        let ghost v0 = self@;
        let mut i: usize = 0;
        while i < appearances.len()
            invariant
                appearances@ == v0.tabs.pending_appearances_for_pid(pid),
                i <= appearances@.len(),
                self@.wf(),
                self@ == v0.reconcile_appearances(pid, appearances@.take(i as int)),
            decreases appearances@.len() - i,
        {
            let pending = appearances[i];
            proof {
                assert(appearances@.take(i as int + 1).drop_last() == appearances@.take(i as int));
            }
            if self.native_tab_manager.has_pending_appearance(pid, pending.wsid) {
                if let Some(wid) = self.window_manager.window_ids.get(&pending.wsid) {
                    if self.window_is_native_tab_candidate(wid) {
                        if let Some(old_active) = self.pending_native_tab_replacement_for(
                            pid,
                            wid,
                            pending.space,
                            pending.frame,
                        ) {
                            if self.try_activate_native_tab_replacement(old_active, wid) {
                                self.native_tab_manager.clear_pending_appearance(pid, pending.wsid);
                            }
                        }
                    }
                }
            }
            i = i + 1;
        }
        proof {
            assert(appearances@.take(appearances@.len() as int) == appearances@);
        }

        let destroys = self.native_tab_manager.pending_destroys_for_pid(pid);
        let ghost v1 = self@;
        let mut k: usize = 0;
        while k < destroys.len()
            invariant
                destroys@ == v1.tabs.pending_destroys_for_pid(pid),
                k <= destroys@.len(),
                self@.wf(),
                self@ == v1.reconcile_destroys(pid, known_visible@, destroys@.take(k as int)),
            decreases destroys@.len() - k,
        {
            let pending = destroys[k];
            proof {
                assert(destroys@.take(k as int + 1).drop_last() == destroys@.take(k as int));
            }
            self.reconcile_destroy(pid, known_visible, pending);
            k = k + 1;
        }
        proof {
            assert(destroys@.take(destroys@.len() as int) == destroys@);
        }

        if known_visible.len() == 0 && self.native_tab_manager.pending_destroys_for_pid(pid).len() == 0 {
            self.clear_stale_pending_native_tab_appearances_for_pid(pid);
        }

        let active_windows = self.active_windows_for_pid(pid);
        let ghost v3 = self@;
        let mut a: usize = 0;
        while a < active_windows.len()
            invariant
                active_windows@ == v3.active_windows_of(pid, v3.visible_windows),
                a <= active_windows@.len(),
                self@.wf(),
                self@ == v3.adopt_all(known_visible@, active_windows@.take(a as int)),
            decreases active_windows@.len() - a,
        {
            let active_window = active_windows[a];
            proof {
                assert(active_windows@.take(a as int + 1).drop_last() == active_windows@.take(a as int));
            }
            self.add_background_members(active_window, known_visible);
            a = a + 1;
        }
        proof {
            assert(active_windows@.take(active_windows@.len() as int) == active_windows@);
        }
    }
}

} // verus!
