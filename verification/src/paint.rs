//! Painting bodies into the row-major pixel buffer. The paint contract:
//! write the body's color into every buffer cell whose pixel coordinates fall
//! within the body's box, clipped to the world — cells outside the buffer are
//! silently skipped, and no out-of-range write ever occurs.

use vstd::prelude::*;
use crate::geom::{Platform, SCALE, platform_in_world, platforms_in_world};
use crate::physics::{Player, COORD_LIMIT, MAX_WORLD_DIM};

verus! {

/// The pixel column (or row) holding a subpixel coordinate: negative
/// coordinates start at zero, others at the coordinate divided by `SCALE`.
pub open spec fn to_px(v: int) -> int {
    if v < 0 {
        0
    } else {
        v / (SCALE as int)
    }
}

/// The body with top-left `(x, y)` (subpixel units) and size `w_px` by `h_px`
/// (pixels) covers the buffer cell at `row`, `col`.
pub open spec fn covers(x: int, y: int, w_px: int, h_px: int, row: int, col: int) -> bool {
    &&& to_px(x) <= col < to_px(x) + w_px
    &&& to_px(y) <= row < to_px(y) + h_px
}

/// The cell of a row-major buffer at `row`, `col`.
pub open spec fn cell(buf: Seq<u32>, world_w: int, row: int, col: int) -> u32 {
    buf[row * world_w + col]
}

/// Distinct in-range (row, col) pairs name distinct row-major cells.
proof fn lemma_row_major_unique(world_w: int, r1: int, c1: int, r2: int, c2: int)
    requires
        0 <= c1 < world_w,
        0 <= c2 < world_w,
        r1 * world_w + c1 == r2 * world_w + c2,
    ensures
        r1 == r2,
        c1 == c2,
{
    assert(r1 == r2 && c1 == c2) by (nonlinear_arith)
        requires
            0 <= c1 < world_w,
            0 <= c2 < world_w,
            r1 * world_w + c1 == r2 * world_w + c2,
    ;
}

/// An in-range (row, col) pair names a cell inside the buffer.
proof fn lemma_row_major_in_range(world_w: int, world_h: int, r: int, c: int)
    requires
        0 <= r < world_h,
        0 <= c < world_w,
    ensures
        0 <= r * world_w + c < world_w * world_h,
{
    assert(0 <= r * world_w + c < world_w * world_h) by (nonlinear_arith)
        requires
            0 <= r < world_h,
            0 <= c < world_w,
    ;
}

/// The buffer `buf` agrees with `orig` overwritten by `color` on the covered
/// cells that lie before `(lim_r, lim_c)` in row-major paint order.
pub open spec fn painted_below(
    buf: Seq<u32>, orig: Seq<u32>,
    x: int, y: int, w_px: int, h_px: int, color: u32,
    world_w: int, world_h: int, lim_r: int, lim_c: int,
) -> bool {
    forall|r: int, c: int|
        0 <= r < world_h && 0 <= c < world_w ==> #[trigger] cell(buf, world_w, r, c) == (if covers(
            x, y, w_px, h_px, r, c,
        ) && (r < lim_r || (r == lim_r && c < lim_c)) {
            color
        } else {
            cell(orig, world_w, r, c)
        })
}

/// Paint a rectangle body into the buffer: every in-bounds covered cell takes
/// `color`, every other cell keeps its value, and the buffer's length never
/// changes (out-of-world parts of the body are skipped, not an error).
pub fn paint_rect(
    buffer: &mut Vec<u32>,
    x: i64,
    y: i64,
    width: u32,
    height: u32,
    color: u32,
    world_w: u32,
    world_h: u32,
)
    requires
        old(buffer)@.len() == world_w as int * world_h as int,
        world_w <= MAX_WORLD_DIM,
        world_h <= MAX_WORLD_DIM,
        width <= MAX_WORLD_DIM,
        height <= MAX_WORLD_DIM,
        -COORD_LIMIT <= x <= COORD_LIMIT,
        -COORD_LIMIT <= y <= COORD_LIMIT,
    ensures
        final(buffer)@.len() == old(buffer)@.len(),
        forall|r: int, c: int|
            0 <= r < world_h as int && 0 <= c < world_w as int ==> #[trigger] cell(
                final(buffer)@, world_w as int, r, c,
            ) == (if covers(x as int, y as int, width as int, height as int, r, c) {
                color
            } else {
                cell(old(buffer)@, world_w as int, r, c)
            }),
{
    let ghost ww: int = world_w as int;
    let ghost wh: int = world_h as int;
    let x0: u64 = if x <= 0 {
        0
    } else {
        (x as u64) / 256
    };
    let y0: u64 = if y <= 0 {
        0
    } else {
        (y as u64) / 256
    };
    proof {
        assert(x0 as int == to_px(x as int));
        assert(y0 as int == to_px(y as int));
    }
    let xe: u64 = x0 + width as u64;
    let ye: u64 = y0 + height as u64;
    let mut r: u64 = y0;
    while r < ye
        invariant
            y0 <= r <= ye,
            xe == x0 + width,
            ye == y0 + height,
            x0 as int == to_px(x as int),
            y0 as int == to_px(y as int),
            x0 <= 0x10000000000000,
            y0 <= 0x10000000000000,
            width <= MAX_WORLD_DIM,
            height <= MAX_WORLD_DIM,
            world_w <= MAX_WORLD_DIM,
            world_h <= MAX_WORLD_DIM,
            ww == world_w as int,
            wh == world_h as int,
            buffer@.len() == ww * wh,
            old(buffer)@.len() == ww * wh,
            painted_below(
                buffer@, old(buffer)@,
                x as int, y as int, width as int, height as int, color,
                ww, wh, r as int, x0 as int,
            ),
        decreases ye - r,
    {
        if r < world_h as u64 {
            proof {
                assert((r as int) * ww + ww <= 0x40000000) by (nonlinear_arith)
                    requires
                        0 <= r < 32768,
                        0 <= ww <= 32768,
                ;
            }
            let row_base: u64 = r * (world_w as u64);
            let mut c: u64 = x0;
            while c < xe
                invariant
                    x0 <= c <= xe,
                    xe == x0 + width,
                    ye == y0 + height,
                    r < world_h as u64,
                    y0 <= r < ye,
                    x0 as int == to_px(x as int),
                    y0 as int == to_px(y as int),
                    x0 <= 0x10000000000000,
                    width <= MAX_WORLD_DIM,
                    height <= MAX_WORLD_DIM,
                    world_w <= MAX_WORLD_DIM,
                    world_h <= MAX_WORLD_DIM,
                    ww == world_w as int,
                    wh == world_h as int,
                    row_base == r as int * ww,
                    row_base + world_w as u64 <= 0x40000000,
                    buffer@.len() == ww * wh,
                    old(buffer)@.len() == ww * wh,
                    painted_below(
                        buffer@, old(buffer)@,
                        x as int, y as int, width as int, height as int, color,
                        ww, wh, r as int, c as int,
                    ),
                decreases xe - c,
            {
                if c < world_w as u64 {
                    proof {
                        lemma_row_major_in_range(ww, wh, r as int, c as int);
                    }
                    let idx: usize = (row_base + c) as usize;
                    let ghost prev: Seq<u32> = buffer@;
                    buffer[idx] = color;
                    proof {
                        assert(covers(
                            x as int, y as int, width as int, height as int, r as int, c as int,
                        ));
                        assert forall|r2: int, c2: int|
                            0 <= r2 < wh && 0 <= c2 < ww implies #[trigger] cell(
                                buffer@, ww, r2, c2,
                            ) == (if covers(
                                x as int, y as int, width as int, height as int, r2, c2,
                            ) && (r2 < r as int || (r2 == r as int && c2 < c as int + 1)) {
                                color
                            } else {
                                cell(old(buffer)@, ww, r2, c2)
                            }) by {
                            lemma_row_major_in_range(ww, wh, r2, c2);
                            assert(cell(prev, ww, r2, c2) == (if covers(
                                x as int, y as int, width as int, height as int, r2, c2,
                            ) && (r2 < r as int || (r2 == r as int && c2 < c as int)) {
                                color
                            } else {
                                cell(old(buffer)@, ww, r2, c2)
                            }));
                            if r2 * ww + c2 == idx as int {
                                lemma_row_major_unique(ww, r2, c2, r as int, c as int);
                            } else {
                                assert(cell(buffer@, ww, r2, c2) == cell(prev, ww, r2, c2));
                            }
                        }
                    }
                } else {
                    proof {
                        assert forall|r2: int, c2: int|
                            0 <= r2 < wh && 0 <= c2 < ww implies #[trigger] cell(
                                buffer@, ww, r2, c2,
                            ) == (if covers(
                                x as int, y as int, width as int, height as int, r2, c2,
                            ) && (r2 < r as int || (r2 == r as int && c2 < c as int + 1)) {
                                color
                            } else {
                                cell(old(buffer)@, ww, r2, c2)
                            }) by {
                            assert(cell(buffer@, ww, r2, c2) == (if covers(
                                x as int, y as int, width as int, height as int, r2, c2,
                            ) && (r2 < r as int || (r2 == r as int && c2 < c as int)) {
                                color
                            } else {
                                cell(old(buffer)@, ww, r2, c2)
                            }));
                        }
                    }
                }
                c = c + 1;
            }
            proof {
                assert forall|r2: int, c2: int|
                    0 <= r2 < wh && 0 <= c2 < ww implies #[trigger] cell(buffer@, ww, r2, c2)
                        == (if covers(x as int, y as int, width as int, height as int, r2, c2)
                        && (r2 < r as int + 1 || (r2 == r as int + 1 && c2 < x0 as int)) {
                        color
                    } else {
                        cell(old(buffer)@, ww, r2, c2)
                    }) by {
                    assert(cell(buffer@, ww, r2, c2) == (if covers(
                        x as int, y as int, width as int, height as int, r2, c2,
                    ) && (r2 < r as int || (r2 == r as int && c2 < xe as int)) {
                        color
                    } else {
                        cell(old(buffer)@, ww, r2, c2)
                    }));
                }
            }
        } else {
            proof {
                assert forall|r2: int, c2: int|
                    0 <= r2 < wh && 0 <= c2 < ww implies #[trigger] cell(buffer@, ww, r2, c2)
                        == (if covers(x as int, y as int, width as int, height as int, r2, c2)
                        && (r2 < r as int + 1 || (r2 == r as int + 1 && c2 < x0 as int)) {
                        color
                    } else {
                        cell(old(buffer)@, ww, r2, c2)
                    }) by {
                    assert(cell(buffer@, ww, r2, c2) == (if covers(
                        x as int, y as int, width as int, height as int, r2, c2,
                    ) && (r2 < r as int || (r2 == r as int && c2 < x0 as int)) {
                        color
                    } else {
                        cell(old(buffer)@, ww, r2, c2)
                    }));
                }
            }
        }
        r = r + 1;
    }
    proof {
        assert forall|r2: int, c2: int|
            0 <= r2 < wh && 0 <= c2 < ww implies #[trigger] cell(buffer@, ww, r2, c2) == (if covers(
                x as int, y as int, width as int, height as int, r2, c2,
            ) {
                color
            } else {
                cell(old(buffer)@, ww, r2, c2)
            }) by {
            assert(cell(buffer@, ww, r2, c2) == (if covers(
                x as int, y as int, width as int, height as int, r2, c2,
            ) && (r2 < r as int || (r2 == r as int && c2 < x0 as int)) {
                color
            } else {
                cell(old(buffer)@, ww, r2, c2)
            }));
        }
    }
}

/// Clear the whole buffer to the background color (zero).
pub fn clear_buffer(buffer: &mut Vec<u32>)
    ensures
        final(buffer)@.len() == old(buffer)@.len(),
        forall|i: int| 0 <= i < final(buffer)@.len() ==> final(buffer)@[i] == 0u32,
{
    let n: usize = buffer.len();
    let mut i: usize = 0;
    while i < n
        invariant
            i <= n,
            buffer@.len() == n,
            old(buffer)@.len() == n,
            forall|k: int| 0 <= k < i as int ==> buffer@[k] == 0u32,
        decreases n - i,
    {
        buffer[i] = 0;
        i = i + 1;
    }
}

impl Player {
    /// Paint this body into the buffer, clipped to the world.
    pub fn paint(&self, buffer: &mut Vec<u32>, world_w: u32, world_h: u32)
        requires
            old(buffer)@.len() == world_w as int * world_h as int,
            world_w <= MAX_WORLD_DIM,
            world_h <= MAX_WORLD_DIM,
            self.width <= MAX_WORLD_DIM,
            self.height <= MAX_WORLD_DIM,
            -COORD_LIMIT <= self.x <= COORD_LIMIT,
            -COORD_LIMIT <= self.y <= COORD_LIMIT,
        ensures
            final(buffer)@.len() == old(buffer)@.len(),
            forall|r: int, c: int|
                0 <= r < world_h as int && 0 <= c < world_w as int ==> #[trigger] cell(
                    final(buffer)@, world_w as int, r, c,
                ) == (if covers(
                    self.x as int, self.y as int, self.width as int, self.height as int, r, c,
                ) {
                    self.color
                } else {
                    cell(old(buffer)@, world_w as int, r, c)
                }),
    {
        paint_rect(buffer, self.x, self.y, self.width, self.height, self.color, world_w, world_h);
    }
}

impl Platform {
    /// Paint this platform into the buffer, clipped to the world.
    pub fn paint(&self, buffer: &mut Vec<u32>, world_w: u32, world_h: u32)
        requires
            old(buffer)@.len() == world_w as int * world_h as int,
            world_w <= MAX_WORLD_DIM,
            world_h <= MAX_WORLD_DIM,
            platform_in_world(*self, world_w as int, world_h as int),
        ensures
            final(buffer)@.len() == old(buffer)@.len(),
            forall|r: int, c: int|
                0 <= r < world_h as int && 0 <= c < world_w as int ==> #[trigger] cell(
                    final(buffer)@, world_w as int, r, c,
                ) == (if covers(
                    self.x as int, self.y as int, self.width as int, self.height as int, r, c,
                ) {
                    self.color
                } else {
                    cell(old(buffer)@, world_w as int, r, c)
                }),
    {
        paint_rect(buffer, self.x, self.y, self.width, self.height, self.color, world_w, world_h);
    }
}

/// The color a cell shows after one whole frame is painted: the last platform
/// in list order that covers it wins; under the platforms lies the player;
/// under everything, the background (zero).
pub open spec fn frame_cell(pl: Player, ps: Seq<Platform>, row: int, col: int) -> u32
    decreases ps.len(),
{
    if ps.len() == 0 {
        if covers(pl.x as int, pl.y as int, pl.width as int, pl.height as int, row, col) {
            pl.color
        } else {
            0u32
        }
    } else {
        let last = ps.last();
        if covers(last.x as int, last.y as int, last.width as int, last.height as int, row, col) {
            last.color
        } else {
            frame_cell(pl, ps.drop_last(), row, col)
        }
    }
}

/// Paint one whole frame: clear the buffer, paint the player, then every
/// platform in list order (later entries overdraw earlier ones).
pub fn render_frame(
    buffer: &mut Vec<u32>,
    player: &Player,
    platforms: &Vec<Platform>,
    world_w: u32,
    world_h: u32,
)
    requires
        old(buffer)@.len() == world_w as int * world_h as int,
        world_w <= MAX_WORLD_DIM,
        world_h <= MAX_WORLD_DIM,
        player.width <= MAX_WORLD_DIM,
        player.height <= MAX_WORLD_DIM,
        -COORD_LIMIT <= player.x <= COORD_LIMIT,
        -COORD_LIMIT <= player.y <= COORD_LIMIT,
        platforms_in_world(platforms@, world_w as int, world_h as int),
    ensures
        final(buffer)@.len() == old(buffer)@.len(),
        forall|r: int, c: int|
            0 <= r < world_h as int && 0 <= c < world_w as int ==> #[trigger] cell(
                final(buffer)@, world_w as int, r, c,
            ) == frame_cell(*player, platforms@, r, c),
{
    let ghost psq: Seq<Platform> = platforms@;
    let ghost ww: int = world_w as int;
    let ghost wh: int = world_h as int;
    clear_buffer(buffer);
    let ghost cleared: Seq<u32> = buffer@;
    player.paint(buffer, world_w, world_h);
    proof {
        assert(psq.take(0) =~= Seq::<Platform>::empty());
        assert forall|r: int, c: int|
            0 <= r < wh && 0 <= c < ww implies #[trigger] cell(buffer@, ww, r, c) == frame_cell(
                *player, psq.take(0), r, c,
            ) by {
            lemma_row_major_in_range(ww, wh, r, c);
            assert(cell(cleared, ww, r, c) == 0u32);
        }
    }
    let n: usize = platforms.len();
    let mut i: usize = 0;
    while i < n
        invariant
            i <= n,
            n == psq.len(),
            platforms@ == psq,
            world_w <= MAX_WORLD_DIM,
            world_h <= MAX_WORLD_DIM,
            ww == world_w as int,
            wh == world_h as int,
            platforms_in_world(psq, ww, wh),
            buffer@.len() == ww * wh,
            old(buffer)@.len() == ww * wh,
            forall|r: int, c: int|
                0 <= r < wh && 0 <= c < ww ==> #[trigger] cell(buffer@, ww, r, c) == frame_cell(
                    *player, psq.take(i as int), r, c,
                ),
        decreases n - i,
    {
        proof {
            assert(platform_in_world(psq[i as int], ww, wh));
        }
        let ghost prev: Seq<u32> = buffer@;
        platforms[i].paint(buffer, world_w, world_h);
        proof {
            let pi = psq[i as int];
            let pfx = psq.take(i as int + 1);
            assert(pfx.last() == pi);
            assert(pfx.drop_last() =~= psq.take(i as int));
            assert forall|r: int, c: int|
                0 <= r < wh && 0 <= c < ww implies #[trigger] cell(buffer@, ww, r, c) == frame_cell(
                    *player, pfx, r, c,
                ) by {
                assert(cell(prev, ww, r, c) == frame_cell(*player, psq.take(i as int), r, c));
                assert(cell(buffer@, ww, r, c) == (if covers(
                    pi.x as int, pi.y as int, pi.width as int, pi.height as int, r, c,
                ) {
                    pi.color
                } else {
                    cell(prev, ww, r, c)
                }));
            }
        }
        i = i + 1;
    }
    proof {
        assert(psq.take(n as int) =~= psq);
    }
}

} // verus!
