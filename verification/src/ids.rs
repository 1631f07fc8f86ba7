//! Identifiers and geometry that the reactor's logic reads: windows as the
//! accessibility layer names them, windows as the WindowServer names them,
//! spaces, and window frames.
//!
//! Frames are kept in whole points as integers; the native-tab logic only ever
//! compares them within a tolerance, and that comparison is exact here.
use vstd::prelude::*;

verus! {

/// Process id of an application.
pub type Pid = i32;

/// A window as the accessibility API of its application identifies it.
#[derive(Clone, Copy, Debug, PartialEq, Eq, Structural, Hash, PartialOrd, Ord)]
pub struct WindowId {
    pub pid: Pid,
    pub idx: u32,
}

impl WindowId {
    pub fn new(pid: Pid, idx: u32) -> (r: WindowId)
        ensures
            r.pid == pid,
            r.idx == idx,
    {
        WindowId { pid, idx }
    }
}

/// A window as the WindowServer identifies it.
#[derive(Clone, Copy, Debug, PartialEq, Eq, Structural, Hash, PartialOrd, Ord)]
pub struct WindowServerId {
    pub id: u32,
}

impl WindowServerId {
    pub fn new(id: u32) -> (r: WindowServerId)
        ensures
            r.id == id,
    {
        WindowServerId { id }
    }

    pub fn get(&self) -> (r: u32)
        ensures
            r == self.id,
    {
        self.id
    }
}

/// A macOS space.
#[derive(Clone, Copy, Debug, PartialEq, Eq, Structural, Hash, PartialOrd, Ord)]
pub struct SpaceId {
    pub id: u64,
}

impl SpaceId {
    pub fn new(id: u64) -> (r: SpaceId)
        ensures
            r.id == id,
    {
        SpaceId { id }
    }

    pub fn get(&self) -> (r: u64)
        ensures
            r == self.id,
    {
        self.id
    }
}

/// A window frame in screen points: origin and size.
#[derive(Clone, Copy, Debug, PartialEq, Eq, Structural, Hash)]
pub struct Rect {
    pub x: i64,
    pub y: i64,
    pub width: i64,
    pub height: i64,
}

impl Rect {
    pub fn new(x: i64, y: i64, width: i64, height: i64) -> (r: Rect)
        ensures
            r == (Rect { x, y, width, height }),
    {
        Rect { x, y, width, height }
    }
}

/// How far apart two frames of one native-tab group may be, on each of the
/// origin and size coordinates, and still count as the same frame.
pub const NATIVE_TAB_FRAME_TOLERANCE: i64 = 2;

pub open spec fn within_tolerance(a: i64, b: i64) -> bool {
    -NATIVE_TAB_FRAME_TOLERANCE <= a - b <= NATIVE_TAB_FRAME_TOLERANCE
}

/// Two frames describe the same place on screen, up to the tolerance.
pub open spec fn spec_frames_match(a: Rect, b: Rect) -> bool {
    &&& within_tolerance(a.x, b.x)
    &&& within_tolerance(a.y, b.y)
    &&& within_tolerance(a.width, b.width)
    &&& within_tolerance(a.height, b.height)
}

fn coordinate_within_tolerance(a: i64, b: i64) -> (r: bool)
    ensures
        r == within_tolerance(a, b),
{
    let d: i128 = a as i128 - b as i128;
    -(NATIVE_TAB_FRAME_TOLERANCE as i128) <= d && d <= NATIVE_TAB_FRAME_TOLERANCE as i128
}

/// Whether two frames are the same up to `NATIVE_TAB_FRAME_TOLERANCE` on every
/// coordinate.
pub fn frames_match(a: Rect, b: Rect) -> (r: bool)
    ensures
        r == spec_frames_match(a, b),
{
    coordinate_within_tolerance(a.x, b.x) && coordinate_within_tolerance(a.y, b.y)
        && coordinate_within_tolerance(a.width, b.width) && coordinate_within_tolerance(
        a.height,
        b.height,
    )
}

/// Every frame matches itself, and matching does not depend on the order of
/// the two frames.
pub proof fn lemma_frames_match_reflexive_symmetric(a: Rect, b: Rect)
    ensures
        spec_frames_match(a, a),
        spec_frames_match(a, b) == spec_frames_match(b, a),
{
}

/// Direction of a directional command.
#[derive(Clone, Copy, Debug, PartialEq, Eq, Structural)]
pub enum Direction {
    Left,
    Right,
    Up,
    Down,
}

/// The attributes of a window that the reactor reads.
#[derive(Clone, Copy, Debug, PartialEq, Eq, Structural)]
pub struct WindowInfo {
    pub is_standard: bool,
    pub is_root: bool,
    pub is_minimized: bool,
    pub frame: Rect,
    pub sys_id: Option<WindowServerId>,
}

/// What the WindowServer reports about a window.
#[derive(Clone, Copy, Debug, PartialEq, Eq, Structural)]
pub struct WindowServerInfo {
    pub id: WindowServerId,
    pub pid: Pid,
    pub layer: i32,
    pub frame: Rect,
}

/// Identifies a frame write, so that stale reads can be told from fresh ones.
#[derive(Clone, Copy, Debug, PartialEq, Eq, Structural, Default)]
pub struct TransactionId {
    pub id: u64,
}

impl TransactionId {
    /// The transaction that follows this one; it saturates at the largest id.
    pub fn next(&self) -> (r: TransactionId)
        ensures
            r.id == if self.id < u64::MAX { self.id + 1 } else { self.id as int },
    {
        TransactionId { id: self.id.saturating_add(1) }
    }
}

/// Whether an event is to be acted upon.
#[derive(Clone, Copy, Debug, PartialEq, Eq, Structural)]
pub enum Quiet {
    Yes,
    No,
}

/// A request to an application's thread.
#[derive(Clone, Copy, Debug, PartialEq, Eq, Structural)]
pub enum Request {
    /// Move and resize a window; the flag asks the app to animate nothing.
    SetWindowFrame(WindowId, Rect, TransactionId, bool),
}

} // verus!
