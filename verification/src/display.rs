//! Display geometry: the 360x360 canvas and its usable circular viewport.

use vstd::prelude::*;

verus! {

/// A pixel position on the display canvas.
#[derive(Clone, Copy, Debug, PartialEq, Eq, Structural)]
pub struct DisplayPoint {
    pub x: u16,
    pub y: u16,
}

pub const DISPLAY_WIDTH: u16 = 360;

pub const DISPLAY_HEIGHT: u16 = 360;

pub const SAFE_CENTER_X: u16 = 180;

pub const SAFE_CENTER_Y: u16 = 180;

pub const SAFE_RADIUS: u16 = 160;

/// Whether canvas position `(x, y)` lies inside the safe circle, border included.
pub open spec fn spec_in_safe_circle(x: int, y: int) -> bool {
    (x - 180) * (x - 180) + (y - 180) * (y - 180) <= 160 * 160
}

/// The canvas coordinate a raw coordinate is clamped to.
pub open spec fn spec_clamp_coord(raw: int) -> int {
    if raw < 359 {
        raw
    } else {
        359
    }
}

/// The display point a raw touch sample maps to, if it falls inside the safe circle.
pub open spec fn spec_clamp_and_validate(raw_x: u16, raw_y: u16) -> Option<DisplayPoint> {
    let x = spec_clamp_coord(raw_x as int);
    let y = spec_clamp_coord(raw_y as int);
    if spec_in_safe_circle(x, y) {
        Some(DisplayPoint { x: x as u16, y: y as u16 })
    } else {
        None
    }
}

/// Tests a canvas position against the safe circle.
pub fn in_safe_circle(x: u16, y: u16) -> (inside: bool)
    ensures
        inside == spec_in_safe_circle(x as int, y as int),
{
    let dx: i64 = x as i64 - 180;
    let dy: i64 = y as i64 - 180;
    assert(-180 <= dx <= 65355 && -180 <= dy <= 65355);
    assert(0 <= dx * dx <= 65355 * 65355) by (nonlinear_arith)
        requires
            -180 <= dx <= 65355,
    ;
    assert(0 <= dy * dy <= 65355 * 65355) by (nonlinear_arith)
        requires
            -180 <= dy <= 65355,
    ;
    dx * dx + dy * dy <= 25600
}

/// Projects a raw touch sample onto the canvas and keeps it only when it
/// falls inside the usable circular viewport.
pub fn clamp_and_validate_touch(raw_x: u16, raw_y: u16) -> (point: Option<DisplayPoint>)
    ensures
        point == spec_clamp_and_validate(raw_x, raw_y),
{
    let x: u16 = if raw_x < 359 { raw_x } else { 359 };
    let y: u16 = if raw_y < 359 { raw_y } else { 359 };
    if in_safe_circle(x, y) {
        Some(DisplayPoint { x, y })
    } else {
        None
    }
}

/// Every accepted point lies on the canvas and inside the safe circle.
pub proof fn accepted_point_is_in_safe_circle(raw_x: u16, raw_y: u16)
    ensures
        spec_clamp_and_validate(raw_x, raw_y) matches Some(p) ==> p.x < DISPLAY_WIDTH && p.y
            < DISPLAY_HEIGHT && spec_in_safe_circle(p.x as int, p.y as int),
{
}

} // verus!
