//! Rules for restoring the saved window position.
use vstd::prelude::*;

verus! {

/// Largest horizontal coordinate accepted for a restored window (8K width).
pub const MAX_SCREEN_X: i32 = 7680;

/// Largest vertical coordinate accepted for a restored window (8K height).
pub const MAX_SCREEN_Y: i32 = 4320;

/// A position is on screen when both coordinates are non-negative and
/// within the 8K bounds.
pub open spec fn on_screen(x: int, y: int) -> bool {
    0 <= x <= MAX_SCREEN_X && 0 <= y <= MAX_SCREEN_Y
}

/// Check if a position is within primary monitor bounds.
pub fn is_position_on_screen(x: i32, y: i32) -> (r: bool)
    ensures
        r == on_screen(x as int, y as int),
{
    if x < 0 || y < 0 || x > MAX_SCREEN_X || y > MAX_SCREEN_Y {
        return false;
    }
    true
}

/// What a stored position restores to: both coordinates must be present, each
/// is narrowed to `i32` by truncation, and the result must lie on screen.
pub open spec fn restored_position(x: Option<i64>, y: Option<i64>) -> Option<(i32, i32)> {
    match (x, y) {
        (Some(a), Some(b)) => if on_screen(a as i32 as int, b as i32 as int) {
            Some((a as i32, b as i32))
        } else {
            None
        },
        _ => None,
    }
}

/// Decide the window position to restore from the stored `x` and `y` values
/// (each present only when the store holds an integer that fits in `i64`).
pub fn decode_window_position(x: Option<i64>, y: Option<i64>) -> (r: Option<(i32, i32)>)
    ensures
        r == restored_position(x, y),
{
    match (x, y) {
        (Some(a), Some(b)) => {
            let xi = a as i32;
            let yi = b as i32;
            if is_position_on_screen(xi, yi) {
                Some((xi, yi))
            } else {
                None
            }
        },
        _ => None,
    }
}

/// A stored position whose `x` lies in `0..=7680` and whose `y` lies in
/// `0..=4320` is restored as it was; one whose `y` lies beyond 4320, or whose
/// `x` lies beyond 7680 (within the `i32` range), or either of which is
/// negative, is not: `x` is bounded by the screen width and `y` by its height.
pub proof fn lemma_restore_bounds(a: i64, b: i64)
    ensures
        0 <= a <= 7680 && 0 <= b <= 4320 ==> restored_position(Some(a), Some(b)) == Some(
            (a as i32, b as i32),
        ),
        0 <= a <= 7680 && 4320 < b <= 0x7fff_ffff ==> restored_position(Some(a), Some(b)) is None,
        7680 < a <= 0x7fff_ffff && 0 <= b <= 4320 ==> restored_position(Some(a), Some(b)) is None,
        -0x8000_0000 <= a < 0 && 0 <= b <= 4320 ==> restored_position(Some(a), Some(b)) is None,
        0 <= a <= 7680 && -0x8000_0000 <= b < 0 ==> restored_position(Some(a), Some(b)) is None,
        restored_position(None, Some(b)) is None && restored_position(Some(a), None) is None,
{
}

/// The on-screen test bounds `x` by the width and `y` by the height.
pub proof fn lemma_on_screen_bounds(x: i32, y: i32)
    ensures
        on_screen(x as int, y as int) <==> (0 <= x <= 7680 && 0 <= y <= 4320),
{
}

} // verus!
