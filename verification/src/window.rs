//! Where the small player window goes on the screen.

use vstd::prelude::*;

verus! {

/// The room that is left between the window and the right edge of the screen.
pub const MARGIN_RIGHT: i64 = 20;

/// The room that is left between the window and the lower edge of the screen.
pub const MARGIN_BOTTOM: i64 = 60;

/// The corner of a window of the size `window` that sits in the lower right
/// corner of a screen of the size `screen`, the margins left free. Sizes are
/// width and height.
pub open spec fn lower_right_corner(screen: (u32, u32), window: (u32, u32)) -> (int, int) {
    (screen.0 - window.0 - MARGIN_RIGHT, screen.1 - window.1 - MARGIN_BOTTOM)
}

/// The position of the small player window: the lower right corner of the
/// screen with the margins left free, or `None` where a coordinate is beyond
/// what a position holds.
pub fn mini_player_position(screen: (u32, u32), window: (u32, u32)) -> (position: Option<
    (i32, i32),
>)
    ensures
        match position {
            Some((x, y)) => (x as int, y as int) == lower_right_corner(screen, window),
            None => {
                let (x, y) = lower_right_corner(screen, window);
                x < i32::MIN || x > i32::MAX || y < i32::MIN || y > i32::MAX
            },
        },
{
    let x: i64 = screen.0 as i64 - window.0 as i64 - MARGIN_RIGHT;
    let y: i64 = screen.1 as i64 - window.1 as i64 - MARGIN_BOTTOM;
    if x < i32::MIN as i64 || x > i32::MAX as i64 || y < i32::MIN as i64 || y > i32::MAX as i64 {
        None
    } else {
        Some((x as i32, y as i32))
    }
}

} // verus!
