//! The screen's geometry and the panel's, which is mounted a quarter turn
//! from it.
use vstd::prelude::*;

verus! {

/// Pixels across the screen.
pub const SCREEN_W: i32 = 540;

/// Pixels down the screen.
pub const SCREEN_H: i32 = 960;

/// Pixels that the status bar takes at the top.
pub const STATUS_H: i32 = 55;

/// The margin from the edges of the screen that the case overlaps.
pub const SAFE_MARGIN: i32 = 15;

/// Where the part of the screen that the case leaves free begins.
pub const SAFE_X: i32 = 15;

/// How wide the part of the screen that the case leaves free is.
pub const SAFE_W: i32 = 510;

/// A rectangle of the panel.
#[derive(Clone, Copy, Debug, PartialEq, Eq, Structural)]
pub struct NativeRect {
    pub x: u16,
    pub y: u16,
    pub width: u16,
    pub height: u16,
}

/// Whether a point lies in a box, its left and upper edge included and its
/// right and lower edge not.
pub open spec fn inside(sx: int, sy: int, x: int, y: int, w: int, h: int) -> bool {
    x <= sx < x + w && y <= sy < y + h
}

/// Whether a point lies in a box.
pub fn in_rect(sx: i32, sy: i32, x: i32, y: i32, w: i32, h: i32) -> (r: bool)
    requires
        x + w <= i32::MAX,
        x + w >= i32::MIN,
        y + h <= i32::MAX,
        y + h >= i32::MIN,
    ensures
        r == inside(sx as int, sy as int, x as int, y as int, w as int, h as int),
{
    sx >= x && sx < x + w && sy >= y && sy < y + h
}

/// The point of the screen that a touch of the panel means.
pub fn touch_to_screen(tx: u16, ty: u16) -> (r: (i32, i32))
    ensures
        r.0 == 539 - ty,
        r.1 == tx,
{
    (539 - ty as i32, tx as i32)
}

/// The rectangle of the panel that shows a rectangle of the screen, each
/// number of it cut to sixteen bits.
pub open spec fn native_of(sx: int, sy: int, sw: int, sh: int) -> NativeRect {
    NativeRect {
        x: sy as u16,
        y: (540 - sx - sw) as u16,
        width: sh as u16,
        height: sw as u16,
    }
}

/// The rectangle of the panel that shows a rectangle of the screen.
pub fn screen_to_native_rect(sx: i32, sy: i32, sw: i32, sh: i32) -> (r: NativeRect)
    requires
        i32::MIN <= 540 - sx <= i32::MAX,
        i32::MIN <= 540 - sx - sw <= i32::MAX,
    ensures
        r == native_of(sx as int, sy as int, sw as int, sh as int),
{
    let y: i32 = 540 - sx - sw;
    NativeRect {
        x: sy as u16,
        y: y as u16,
        width: sh as u16,
        height: sw as u16,
    }
}

/// A touch lands in a rectangle of the screen exactly when the panel reported
/// it in the rectangle of the panel that shows it.
pub proof fn law_touch_lands_where_shown(
    tx: u16,
    ty: u16,
    sx: int,
    sy: int,
    sw: int,
    sh: int,
)
    requires
        0 <= sx,
        0 <= sw,
        sx + sw <= SCREEN_W,
        0 <= sy,
        0 <= sh,
        sy + sh <= SCREEN_H,
    ensures
        ({
            let n = native_of(sx, sy, sw, sh);
            inside(539 - ty, tx as int, sx, sy, sw, sh) <==> inside(
                tx as int,
                ty as int,
                n.x as int,
                n.y as int,
                n.width as int,
                n.height as int,
            )
        }),
{
}

} // verus!
