//! Geometry primitives: subpixel units, axis-aligned boxes, clamping, and the
//! static platform rectangle.

use vstd::prelude::*;

verus! {

/// Subpixel units per pixel. Positions and velocities are stored in these
/// units so that fractional per-frame motion (for example a gravity of a
/// quarter of a pixel per frame) is exact integer arithmetic.
pub const SCALE: i64 = 256;

/// A static platform: an axis-aligned rectangle that never moves and is never
/// mutated by gameplay. `x` and `y` are the top-left corner in subpixel
/// units; `width` and `height` are in whole pixels; `color` is packed RGB.
#[derive(Clone, Copy)]
pub struct Platform {
    pub x: i64,
    pub y: i64,
    pub width: u32,
    pub height: u32,
    pub color: u32,
}

impl Platform {
    pub fn new(x: i64, y: i64, width: u32, height: u32, color: u32) -> (p: Platform)
        ensures
            p.x == x,
            p.y == y,
            p.width == width,
            p.height == height,
            p.color == color,
    {
        Platform { x, y, width, height, color }
    }
}

/// Two axis-aligned boxes (top-left corner plus extent, all in subpixel
/// units) overlap with positive area.
pub open spec fn boxes_overlap(
    x1: int, y1: int, w1: int, h1: int,
    x2: int, y2: int, w2: int, h2: int,
) -> bool {
    x1 < x2 + w2 && x1 + w1 > x2 && y1 < y2 + h2 && y1 + h1 > y2
}

/// The box `(x, y)` of extent `w` by `h` (subpixel units, `w` and `h` in
/// pixels converted here) overlaps the platform's box.
pub open spec fn overlaps_platform(x: int, y: int, w_px: int, h_px: int, p: Platform) -> bool {
    boxes_overlap(
        x, y, w_px * SCALE, h_px * SCALE,
        p.x as int, p.y as int, p.width as int * SCALE, p.height as int * SCALE,
    )
}

/// Clamp `v` into `[0, hi]` (the world-bounds rule: below zero snaps to zero,
/// above `hi` snaps to `hi`).
pub open spec fn clamp(v: int, hi: int) -> int {
    if v < 0 {
        0
    } else if v > hi {
        hi
    } else {
        v
    }
}

/// The platform's box lies inside a world of `w_px` by `h_px` pixels.
pub open spec fn platform_in_world(p: Platform, w_px: int, h_px: int) -> bool {
    &&& 0 <= p.x
    &&& p.x + p.width as int * SCALE <= w_px * SCALE
    &&& 0 <= p.y
    &&& p.y + p.height as int * SCALE <= h_px * SCALE
}

/// Every platform of the sequence lies inside the world.
pub open spec fn platforms_in_world(ps: Seq<Platform>, w_px: int, h_px: int) -> bool {
    forall|i: int| 0 <= i < ps.len() ==> platform_in_world(#[trigger] ps[i], w_px, h_px)
}

} // verus!
