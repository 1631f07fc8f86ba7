//! The reactor's shared model: commands it accepts, the small state machines it
//! keeps (drag, mission control, menus, workspace switching), and the state it
//! keeps per window.
use vstd::prelude::*;

use crate::ids::{Direction, Pid, Rect, SpaceId, WindowId, WindowInfo, WindowServerId};

verus! {

/// Whether a frame change was asked for by the reactor itself.
#[derive(Debug)]
pub struct Requested(pub bool);

/// A layout command, as far as the reactor forwards it.
#[derive(Clone, Copy, Debug, PartialEq, Eq, Structural)]
pub enum LayoutCommand {
    MoveNode(Direction),
}

/// A command sent to the reactor.
#[derive(Clone, Debug, PartialEq)]
pub enum Command {
    Layout(LayoutCommand),
    Reactor(ReactorCommand),
}

/// Picks a display: by direction, by position from the left, or by UUID.
#[derive(Clone, Debug, PartialEq, Eq)]
pub enum DisplaySelector {
    Direction(Direction),
    Index(usize),
    Uuid(String),
}

/// Commands the reactor handles itself.
#[allow(inconsistent_fields)]
#[derive(Clone, Debug, PartialEq, Eq)]
pub enum ReactorCommand {
    Debug,
    Serialize,
    SaveAndExit,
    SwitchSpace(Direction),
    ToggleSpaceActivated,
    FocusWindow { window_id: WindowId, window_server_id: Option<WindowServerId> },
    ShowMissionControlAll,
    ShowMissionControlCurrent,
    DismissMissionControl,
    MoveMouseToDisplay(DisplaySelector),
    FocusDisplay(DisplaySelector),
    CloseWindow { window_server_id: Option<WindowServerId> },
    MoveWindowToDisplay { selector: DisplaySelector, window_id: Option<u32> },
}

/// A window seen on a fullscreen space.
#[derive(Clone, Copy, Debug)]
pub struct FullscreenWindowTrack {
    pub pid: Pid,
    pub window_id: Option<WindowId>,
    pub last_known_user_space: Option<SpaceId>,
    pub last_seen_fullscreen_space: SpaceId,
}

/// The windows seen on one fullscreen space.
#[derive(Clone, Debug)]
pub struct FullscreenSpaceTrack {
    pub windows: Vec<FullscreenWindowTrack>,
}

impl Default for FullscreenSpaceTrack {
    fn default() -> (r: FullscreenSpaceTrack)
        ensures
            r.windows@.len() == 0,
    {
        FullscreenSpaceTrack { windows: Vec::new() }
    }
}

/// A window being dragged with the mouse.
#[derive(Clone, Copy, Debug)]
pub struct DragSession {
    pub window: WindowId,
    pub last_frame: Rect,
    pub origin_space: Option<SpaceId>,
    pub settled_space: Option<SpaceId>,
    pub layout_dirty: bool,
}

/// Whether a drag is under way, and whether it would swap two windows.
#[derive(Clone, Copy, Debug)]
pub enum DragState {
    Inactive,
    Active { session: DragSession },
    PendingSwap { session: DragSession, target: WindowId },
}

#[derive(Clone, Copy, Debug)]
pub enum MissionControlState {
    Inactive,
    Active,
    Transitioning,
}

#[derive(Clone, Copy, Debug, PartialEq, Eq, Structural)]
pub enum MenuState {
    Closed,
    Open(Pid),
}

#[derive(Clone, Copy, Debug, PartialEq, Eq, Structural)]
pub enum WorkspaceSwitchState {
    Inactive,
    Active,
}

#[derive(Clone, Copy, Debug, PartialEq, Eq, Structural)]
pub enum WorkspaceSwitchOrigin {
    Manual,
    Auto,
}

#[derive(Clone, Copy, Debug, PartialEq, Eq, Structural)]
pub enum StaleCleanupState {
    Enabled,
    Suppressed,
}

#[derive(Clone, Copy, Debug, PartialEq, Eq, Structural)]
pub enum RefocusState {
    Idle,
    Pending(SpaceId),
}

/// The spaces of the screens, as last reported, waiting to be applied.
#[derive(Clone, Debug)]
pub struct PendingSpaceChange {
    pub spaces: Vec<Option<SpaceId>>,
}

/// The role of a window in its native-tab group: the one tab on screen, or a
/// tab hidden behind it.
#[derive(Clone, Copy, Debug, PartialEq, Eq, Structural)]
pub enum NativeTabRole {
    Active,
    Suppressed,
}

/// Which native-tab group a window belongs to, and in which role.
#[derive(Clone, Copy, Debug, PartialEq, Eq, Structural)]
pub struct NativeTabMembership {
    pub group_id: u32,
    pub role: NativeTabRole,
}

/// Which windows a query counts.
#[derive(Clone, Copy, Debug)]
pub enum WindowFilter {
    Manageable,
    EffectivelyManageable,
}

/// What the reactor knows of one window.
#[derive(Clone, Copy, Debug, PartialEq, Eq, Structural)]
pub struct WindowState {
    pub info: WindowInfo,
    /// The last known frame of the window. Always includes the last write.
    ///
    /// This value only updates monotonically with respect to writes; in other
    /// words, we only accept reads when we know they come after the last write.
    pub frame_monotonic: Rect,
    pub is_manageable: bool,
    pub ignore_app_rule: bool,
    pub native_tab: Option<NativeTabMembership>,
}

impl WindowState {
    /// The window is a tab hidden behind the active tab of its group.
    pub open spec fn spec_is_native_tab_suppressed(self) -> bool {
        self.native_tab matches Some(m) && m.role == NativeTabRole::Suppressed
    }

    pub open spec fn spec_is_effectively_manageable(self) -> bool {
        self.is_manageable && !self.ignore_app_rule && !self.spec_is_native_tab_suppressed()
    }

    pub open spec fn spec_matches_filter(self, filter: WindowFilter) -> bool {
        match filter {
            WindowFilter::Manageable => self.is_manageable && !self.spec_is_native_tab_suppressed(),
            WindowFilter::EffectivelyManageable => self.spec_is_effectively_manageable(),
        }
    }

    pub fn is_native_tab_suppressed(&self) -> (r: bool)
        ensures
            r == self.spec_is_native_tab_suppressed(),
    {
        match self.native_tab {
            Some(m) => m.role == NativeTabRole::Suppressed,
            None => false,
        }
    }

    pub fn is_effectively_manageable(&self) -> (r: bool)
        ensures
            r == self.spec_is_effectively_manageable(),
    {
        self.is_manageable && !self.ignore_app_rule && !self.is_native_tab_suppressed()
    }

    pub fn matches_filter(&self, filter: WindowFilter) -> (r: bool)
        ensures
            r == self.spec_matches_filter(filter),
    {
        match filter {
            WindowFilter::Manageable => self.is_manageable && !self.is_native_tab_suppressed(),
            WindowFilter::EffectivelyManageable => self.is_effectively_manageable(),
        }
    }

    /// The state of a newly seen window: its frame is the reported one, it is
    /// not yet manageable and belongs to no native-tab group.
    pub open spec fn spec_from_info(info: WindowInfo) -> WindowState {
        WindowState {
            info,
            frame_monotonic: info.frame,
            is_manageable: false,
            ignore_app_rule: false,
            native_tab: None,
        }
    }
}

impl From<WindowInfo> for WindowState {
    fn from(info: WindowInfo) -> (r: WindowState) {
        WindowState {
            frame_monotonic: info.frame,
            info,
            is_manageable: false,
            ignore_app_rule: false,
            native_tab: None,
        }
    }
}

impl vstd::std_specs::convert::FromSpecImpl<WindowInfo> for WindowState {
    open spec fn obeys_from_spec() -> bool {
        true
    }

    open spec fn from_spec(v: WindowInfo) -> WindowState {
        WindowState::spec_from_info(v)
    }
}

} // verus!
