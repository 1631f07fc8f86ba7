//! Windows coming and going, as far as the native-tab logic needs them: a
//! created window is recorded and laid out unless it looks like the new tab
//! of a switch; a destroyed window is held back while it may be a tab switch,
//! else forgotten everywhere.
use vstd::prelude::*;

use crate::ids::{WindowId, WindowInfo, WindowServerId, WindowServerInfo};
use crate::managers::selection_after_removal;
use crate::model::{WindowFilter, WindowState};
use crate::reactor::{Reactor, ReactorView};
use crate::store::{map_insert, map_remove, set_insert, set_remove};

verus! {

/// The state of a newly created window: manageable when it is a standard,
/// top-level window that is not minimized.
pub open spec fn new_window_state(info: WindowInfo, sys_id: Option<WindowServerId>) -> WindowState {
    WindowState {
        info: WindowInfo { sys_id, ..info },
        frame_monotonic: info.frame,
        is_manageable: info.is_standard && info.is_root && !info.is_minimized,
        ignore_app_rule: false,
        native_tab: None,
    }
}

impl ReactorView {
    /// The state once the created window `wid` is recorded, before it is laid
    /// out.
    pub open spec fn record_created_window(
        self,
        wid: WindowId,
        info: WindowInfo,
        ws_info: Option<WindowServerInfo>,
    ) -> Self {
        let v0 = match ws_info {
            Some(ws) => ReactorView {
                visible_windows: set_insert(self.visible_windows, ws.id),
                window_server_info: map_insert(self.window_server_info, ws.id, ws),
                ..self
            },
            None => self,
        };
        let sys_id = match ws_info {
            Some(ws) => Some(ws.id),
            None => info.sys_id,
        };
        let v1 = match sys_id {
            Some(id) => ReactorView { window_ids: map_insert(v0.window_ids, id, wid), ..v0 },
            None => v0,
        };
        let st = match v1.window(wid) {
            Some(existing) => if existing.native_tab is Some {
                WindowState { info: WindowInfo { sys_id, ..existing.info }, ..existing }
            } else {
                new_window_state(info, sys_id)
            },
            None => new_window_state(info, sys_id),
        };
        v1.with_window(wid, st)
    }

    /// `wid` was created. Its WindowServer window, when given, is visible and
    /// described; the WindowServer id (given, or else the one in `info`) maps
    /// to the window. A window that already belongs to a native-tab
    /// group keeps its state (only its WindowServer id is updated); any other
    /// gets a new state. It joins the layout of its space unless it is held as
    /// the new tab of a switch, is already laid out, or is not effectively
    /// manageable.
    pub open spec fn handle_window_created(
        self,
        wid: WindowId,
        info: WindowInfo,
        ws_info: Option<WindowServerInfo>,
    ) -> Self {
        let v2 = self.record_created_window(wid, info, ws_info);
        let st = v2.window(wid)->0;
        if v2.maybe_hold_native_tab_window_created(wid) || v2.has_window_membership(wid)
            || !st.spec_matches_filter(WindowFilter::EffectivelyManageable) {
            v2
        } else {
            match v2.best_space_for_window_id(wid) {
                Some(space) => v2.add_to_layout(space, wid),
                None => v2,
            }
        }
    }

    /// `wid` was destroyed. Returns the new state and whether the window was
    /// removed: a tab candidate with a pending destroy is held back instead;
    /// otherwise it leaves its group (see `finalize_native_tab_window_destroy`),
    /// its WindowServer window is forgotten, and it leaves the windows and the
    /// layout.
    pub open spec fn handle_window_destroyed(self, wid: WindowId) -> (Self, bool) {
        let deferred = self.defer_native_tab_window_destroy(wid);
        if deferred.1 {
            (deferred.0, false)
        } else {
            match self.window(wid) {
                None => (self, false),
                Some(_) => {
                    let v1 = self.finalize_native_tab_window_destroy(wid);
                    let v2 = match v1.window(wid) {
                        Some(w) => match w.info.sys_id {
                            Some(ws) => ReactorView {
                                window_ids: map_remove(v1.window_ids, ws),
                                visible_windows: set_remove(v1.visible_windows, ws),
                                window_server_info: map_remove(v1.window_server_info, ws),
                                transactions: map_remove(v1.transactions, ws),
                                ..v1
                            },
                            None => v1,
                        },
                        None => v1,
                    };
                    (
                        ReactorView {
                            windows: map_remove(v2.windows, wid),
                            layout: map_remove(v2.layout, wid),
                            selection: selection_after_removal(v2.layout, v2.selection, wid),
                            ..v2
                        },
                        true,
                    )
                },
            }
        }
    }
}

impl Reactor {
    pub fn handle_window_created(&mut self, wid: WindowId, info: WindowInfo, ws_info: Option<WindowServerInfo>)
        requires
            old(self)@.wf(),
        ensures
            final(self)@.wf(),
            final(self)@ == old(self)@.handle_window_created(wid, info, ws_info),
    {
        if let Some(ws) = ws_info {
            self.window_manager.visible_windows.insert(ws.id);
            self.window_server_info_manager.window_server_info.insert(ws.id, ws);
        }
        let sys_id = match ws_info {
            Some(ws) => Some(ws.id),
            None => info.sys_id,
        };
        if let Some(id) = sys_id {
            self.window_manager.window_ids.insert(id, wid);
        }
        let fresh = WindowState {
            info: WindowInfo { sys_id, ..info },
            frame_monotonic: info.frame,
            is_manageable: info.is_standard && info.is_root && !info.is_minimized,
            ignore_app_rule: false,
            native_tab: None,
        };
        let st = match self.window_manager.windows.get(&wid) {
            Some(existing) => if existing.native_tab.is_some() {
                WindowState { info: WindowInfo { sys_id, ..existing.info }, ..existing }
            } else {
                fresh
            },
            None => fresh,
        };
        self.window_manager.windows.insert(wid, st);
        assert(self.window_manager.windows.spec_get(wid) == Some(st));
        if self.maybe_hold_native_tab_window_created(wid)
            || self.layout_manager.layout_engine.has_window_membership(wid)
            || !st.matches_filter(WindowFilter::EffectivelyManageable) {
            return ;
        }
        if let Some(space) = self.best_space_for_window_id(wid) {
            self.layout_manager.layout_engine.add_window(space, wid);
        }
    }

    /// Handles the destruction of `wid`; returns whether the window was removed
    /// (rather than held back as a possible tab switch, or unknown).
    pub fn handle_window_destroyed(&mut self, wid: WindowId) -> (r: bool)
        requires
            old(self)@.wf(),
        ensures
            final(self)@.wf(),
            (final(self)@, r) == old(self)@.handle_window_destroyed(wid),
    {
        if self.defer_native_tab_window_destroy(wid) {
            return false;
        }
        if !self.window_manager.windows.contains_key(&wid) {
            return false;
        }
        self.finalize_native_tab_window_destroy(wid);
        if let Some(w) = self.window_manager.windows.get(&wid) {
            if let Some(ws) = w.info.sys_id {
                self.window_manager.window_ids.remove(&ws);
                self.window_manager.visible_windows.remove(&ws);
                self.window_server_info_manager.window_server_info.remove(&ws);
                self.transaction_manager.remove_for_window(ws);
            }
        }
        self.window_manager.windows.remove(&wid);
        self.layout_manager.layout_engine.remove_window(wid);
        true
    }
}

} // verus!
