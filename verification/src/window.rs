//! Screen geometry rules of the overlay window that do not depend on the
//! windowing system.

use vstd::prelude::*;

verus! {

/// Screen width assumed when no monitor can be found.
pub const FALLBACK_SCREEN_WIDTH: i64 = 1920;

/// Screen height assumed when no monitor can be found.
pub const FALLBACK_SCREEN_HEIGHT: i64 = 1080;

/// Work-area height assumed when the system reports an empty work area.
pub const FALLBACK_WORK_AREA_HEIGHT: i64 = 1040;

/// Window placement on Windows.
pub struct Win32WindowHelper;

impl Win32WindowHelper {
    /// The size of the work area (the screen without the taskbar) from the
    /// rectangle the system reports: 1920 by 1040 when the rectangle's right
    /// and bottom edges are both 0 (nothing was reported), else its width and
    /// height.
    pub fn work_area_from_rect(left: i32, top: i32, right: i32, bottom: i32) -> (res: (i64, i64))
        ensures
            right == 0 && bottom == 0 ==> res == (FALLBACK_SCREEN_WIDTH, FALLBACK_WORK_AREA_HEIGHT),
            !(right == 0 && bottom == 0) ==> res.0 == right - left && res.1 == bottom - top,
    {
        if right == 0 && bottom == 0 {
            (FALLBACK_SCREEN_WIDTH, FALLBACK_WORK_AREA_HEIGHT)
        } else {
            (right as i64 - left as i64, bottom as i64 - top as i64)
        }
    }
}

} // verus!
