//! The reactor: the state it keeps about windows, tabs, the layout, frame
//! writes and applications, and the operations on windows that the native-tab
//! logic builds on.
use vstd::prelude::*;

use crate::ids::{Pid, Rect, Request, SpaceId, WindowId, WindowInfo, WindowServerId, WindowServerInfo};
use crate::managers::{
    AppManager, DisplayTopologyManager, DragManager, LayoutEngine, LayoutManager, MainWindowTracker,
    QuarantineStats, Screen, SpaceManager, TransactionManager, TxRecord, WindowManager,
    WindowServerInfoManager, WorkspaceSwitchManager, screen_shows,
};
use crate::model::{DragState, WindowState};
use crate::native_tab_manager::{NativeTabManager, NativeTabView};
use crate::seq_util::first_match;
use crate::store::{distinct_keys, lookup, VecMap, VecSet};

verus! {

/// Everything the reactor holds, as sequences in store order.
pub struct ReactorView {
    pub windows: Seq<(WindowId, WindowState)>,
    pub window_ids: Seq<(WindowServerId, WindowId)>,
    pub visible_windows: Seq<WindowServerId>,
    pub observed_window_server_ids: Seq<WindowServerId>,
    pub window_server_info: Seq<(WindowServerId, WindowServerInfo)>,
    pub tabs: NativeTabView,
    pub layout: Seq<(WindowId, SpaceId)>,
    pub selection: Seq<(SpaceId, WindowId)>,
    pub main_windows: Seq<(Pid, WindowId)>,
    pub transactions: Seq<(WindowServerId, TxRecord)>,
    pub skip_layout_for_window: Option<WindowId>,
    pub drag_state: DragState,
    pub pending_workspace_mouse_warp: Option<WindowId>,
    pub apps: Seq<Pid>,
    pub requests: Seq<(Pid, Request)>,
    pub screens: Seq<Screen>,
    pub quarantine_stats: QuarantineStats,
    pub now_ms: u64,
}

/// The window manager's reactor.
pub struct Reactor {
    pub window_manager: WindowManager,
    pub window_server_info_manager: WindowServerInfoManager,
    pub native_tab_manager: NativeTabManager,
    pub layout_manager: LayoutManager,
    pub main_window_tracker: MainWindowTracker,
    pub transaction_manager: TransactionManager,
    pub drag_manager: DragManager,
    pub workspace_switch_manager: WorkspaceSwitchManager,
    pub app_manager: AppManager,
    pub space_manager: SpaceManager,
    pub display_topology_manager: DisplayTopologyManager,
    /// The reactor's clock, in milliseconds: whoever drives the reactor sets it
    /// before each call that stages or expires pending native-tab records.
    pub now_ms: u64,
}

impl View for Reactor {
    type V = ReactorView;

    open spec fn view(&self) -> ReactorView {
        ReactorView {
            windows: self.window_manager.windows.entries@,
            window_ids: self.window_manager.window_ids.entries@,
            visible_windows: self.window_manager.visible_windows.items@,
            observed_window_server_ids: self.window_manager.observed_window_server_ids.items@,
            window_server_info: self.window_server_info_manager.window_server_info.entries@,
            tabs: self.native_tab_manager@,
            layout: self.layout_manager.layout_engine.assignments.entries@,
            selection: self.layout_manager.layout_engine.selection.entries@,
            main_windows: self.main_window_tracker.main_windows.entries@,
            transactions: self.transaction_manager.records.entries@,
            skip_layout_for_window: self.drag_manager.skip_layout_for_window,
            drag_state: self.drag_manager.drag_state,
            pending_workspace_mouse_warp: self.workspace_switch_manager.pending_workspace_mouse_warp,
            apps: self.app_manager.apps.items@,
            requests: self.app_manager.requests@,
            screens: self.space_manager.screens@,
            quarantine_stats: self.display_topology_manager.quarantine_stats,
            now_ms: self.now_ms,
        }
    }
}

impl ReactorView {
    /// No store holds a key twice.
    pub open spec fn wf(self) -> bool {
        &&& distinct_keys(self.windows)
        &&& distinct_keys(self.window_ids)
        &&& distinct_keys(self.window_server_info)
        &&& self.tabs.wf()
        &&& distinct_keys(self.layout)
        &&& distinct_keys(self.selection)
        &&& distinct_keys(self.main_windows)
        &&& distinct_keys(self.transactions)
    }

    pub open spec fn window(self, wid: WindowId) -> Option<WindowState> {
        lookup(self.windows, wid)
    }

    pub open spec fn window_for_server_id(self, wsid: WindowServerId) -> Option<WindowId> {
        lookup(self.window_ids, wsid)
    }

    pub open spec fn is_visible(self, wsid: WindowServerId) -> bool {
        self.visible_windows.contains(wsid)
    }

    pub open spec fn has_window_membership(self, wid: WindowId) -> bool {
        lookup(self.layout, wid) is Some
    }

    pub open spec fn has_app(self, pid: Pid) -> bool {
        self.apps.contains(pid)
    }

    /// The space of the first screen that holds the centre of `frame`.
    pub open spec fn best_space_for_frame(self, frame: Rect) -> Option<SpaceId> {
        match first_match(self.screens, screen_shows(frame)) {
            Some(s) => s.space,
            None => None,
        }
    }

    pub open spec fn best_space_for_window_id(self, wid: WindowId) -> Option<SpaceId> {
        match self.window(wid) {
            Some(w) => self.best_space_for_frame(w.frame_monotonic),
            None => None,
        }
    }
}

impl Reactor {
    /// A reactor with no screens, applications or windows.
    pub fn new() -> (r: Reactor)
        ensures
            r@.wf(),
            r@.windows.len() == 0,
            r@.window_ids.len() == 0,
            r@.visible_windows.len() == 0,
            r@.observed_window_server_ids.len() == 0,
            r@.window_server_info.len() == 0,
            r@.layout.len() == 0,
            r@.selection.len() == 0,
            r@.main_windows.len() == 0,
            r@.transactions.len() == 0,
            r@.skip_layout_for_window is None,
            r@.drag_state is Inactive,
            r@.pending_workspace_mouse_warp is None,
            r@.apps.len() == 0,
            r@.requests.len() == 0,
            r@.screens.len() == 0,
            r@.tabs.groups.len() == 0,
            r@.tabs.memberships.len() == 0,
            r@.tabs.pending_destroys.len() == 0,
            r@.tabs.pending_appearances.len() == 0,
            r@.tabs.pending_frame_targets.len() == 0,
            r@.tabs.transient_empty_visibility.len() == 0,
            r@.tabs.next_group_id == 1,
            r@.quarantine_stats == (QuarantineStats {
                appeared_dropped: 0,
                destroyed_dropped: 0,
                resync_dropped: 0,
            }),
            r@.now_ms == 0,
    {
        Reactor {
            window_manager: WindowManager::new(),
            window_server_info_manager: WindowServerInfoManager { window_server_info: VecMap::new() },
            native_tab_manager: NativeTabManager::new(),
            layout_manager: LayoutManager { layout_engine: LayoutEngine::new() },
            main_window_tracker: MainWindowTracker { main_windows: VecMap::new() },
            transaction_manager: TransactionManager::new(),
            drag_manager: DragManager { skip_layout_for_window: None, drag_state: DragState::Inactive },
            workspace_switch_manager: WorkspaceSwitchManager { pending_workspace_mouse_warp: None },
            app_manager: AppManager { apps: VecSet::new(), requests: Vec::new() },
            space_manager: SpaceManager { screens: Vec::new() },
            display_topology_manager: DisplayTopologyManager {
                quarantine_stats: QuarantineStats {
                    appeared_dropped: 0,
                    destroyed_dropped: 0,
                    resync_dropped: 0,
                },
            },
            now_ms: 0,
        }
    }
}

} // verus!
