//! Scroll-position bookkeeping around a backfill: older messages are added
//! above the viewport, so the scroll offset moves down by the height they add.
use vstd::prelude::*;

verus! {

/// `x` limited to the offsets a scroll position can take, `0..=i32::MAX`.
pub open spec fn clamp_offset(x: int) -> int {
    if x < 0 {
        0
    } else if x > i32::MAX {
        i32::MAX as int
    } else {
        x
    }
}

/// The scroll offset that keeps the same content in view after the content
/// height went from `old_height` to `new_height` above it.
pub fn preserved_scroll_top(old_top: i32, old_height: i32, new_height: i32) -> (r: i32)
    ensures
        r == clamp_offset(old_top + new_height - old_height),
{
    let x: i64 = old_top as i64 + new_height as i64 - old_height as i64;
    if x < 0 {
        0
    } else if x > i32::MAX as i64 {
        i32::MAX
    } else {
        x as i32
    }
}

} // verus!
