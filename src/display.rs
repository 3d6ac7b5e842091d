use vstd::prelude::*;

verus! {

/// Flag that the operating system sets on the primary monitor.
pub const PRIMARY_MONITOR_FLAG: u32 = 1;

/// A monitor's rectangle in global pixel coordinates.
#[derive(Debug, Clone, Copy, PartialEq, Eq, Structural)]
pub struct DisplayPosition {
    pub left: i32,
    pub top: i32,
    pub right: i32,
    pub bottom: i32,
}

/// One monitor: whether it is the primary one, where it lies, and its size
/// in pixels.
#[derive(Debug, Clone, Copy, PartialEq, Eq, Structural)]
pub struct DisplayInfo {
    pub primary: bool,
    pub position: DisplayPosition,
    pub width: u16,
    pub height: u16,
}

/// Distance between two edges.
pub open spec fn edge_distance(a: i32, b: i32) -> int {
    if a <= b {
        b - a
    } else {
        a - b
    }
}

/// Distance between two edges, computed without overflow.
fn distance(a: i32, b: i32) -> (r: u64)
    ensures
        r == edge_distance(a, b),
{
    if a <= b {
        (b as i64 - a as i64) as u64
    } else {
        (a as i64 - b as i64) as u64
    }
}

impl DisplayInfo {
    /// The display for a monitor rectangle and the flags reported for it. A
    /// rectangle whose width or height does not fit in 16 bits is malformed
    /// and gives `None`.
    pub fn from_monitor(position: DisplayPosition, flags: u32) -> (r: Option<DisplayInfo>)
        ensures
            r is Some <==> edge_distance(position.left, position.right) <= u16::MAX
                && edge_distance(position.top, position.bottom) <= u16::MAX,
            r matches Some(d) ==> {
                &&& d.primary == (flags == PRIMARY_MONITOR_FLAG)
                &&& d.position == position
                &&& d.width == edge_distance(position.left, position.right)
                &&& d.height == edge_distance(position.top, position.bottom)
            },
    {
        let width = distance(position.left, position.right);
        let height = distance(position.top, position.bottom);
        if width > u16::MAX as u64 || height > u16::MAX as u64 {
            return None;
        }
        Some(
            DisplayInfo {
                primary: flags == PRIMARY_MONITOR_FLAG,
                position,
                width: width as u16,
                height: height as u16,
            },
        )
    }
}

} // verus!
