//! The player's per-frame physics and collision update, together with the
//! mathematical model (`update_model`) that the executable update is proved
//! equal to. The update runs a fixed, order-sensitive sequence: jump trigger,
//! gravity, horizontal input, horizontal move and resolve, vertical move and
//! resolve; the ordering itself is part of the contract.

use vstd::prelude::*;
use crate::geom::{Platform, SCALE, overlaps_platform, clamp, platforms_in_world};

verus! {

/// Logical input state for one frame, as handed in by the frame loop.
#[derive(Clone, Copy)]
pub struct InputState {
    pub left: bool,
    pub right: bool,
    pub jump: bool,
}

/// Jump-charge state: either no charge is in progress, or one began at the
/// given wall-clock time in milliseconds.
#[derive(Clone, Copy, Debug, PartialEq, Eq, Structural)]
pub enum JumpCharge {
    NotCharging,
    Charging { since_ms: u64 },
}

/// How the jump input produces launch velocity. All magnitudes are in
/// subpixel units per frame; a launch sets `velocity_y` to the negated
/// magnitude (upward).
#[derive(Clone, Copy, PartialEq, Eq, Structural)]
pub enum JumpMode {
    /// Holding jump while grounded launches immediately with `power_mag`.
    Instant { power_mag: u32 },
    /// Holding jump while grounded charges; releasing launches with
    /// `base_mag` scaled by the held time `h` (milliseconds, capped at
    /// `max_hold_ms`): the multiplier grows linearly from 1 at `h = 0` to
    /// `mult_num / mult_den` at `h = max_hold_ms`.
    Charged { base_mag: u32, max_hold_ms: u32, mult_num: u32, mult_den: u32 },
}

/// Which collision policy the vertical resolve applies. A world picks one
/// mode and applies it uniformly.
#[derive(Clone, Copy, PartialEq, Eq, Structural)]
pub enum CollisionMode {
    /// Any overlap of the post-move box with a platform snaps: falling snaps
    /// the bottom edge to the platform's top (landing), rising snaps the top
    /// edge to the platform's bottom.
    SymmetricAabb,
    /// Only a falling body whose bottom edge lies within the platform's
    /// vertical span (and whose horizontal extent overlaps it) lands.
    FallOnly,
}

/// Static world configuration: dimensions in pixels, physics constants in
/// subpixel units, and the motion policy.
#[derive(Clone, Copy)]
pub struct Config {
    pub world_width: u32,
    pub world_height: u32,
    /// Added to `velocity_y` each airborne frame (units per frame squared).
    pub gravity: u32,
    /// Horizontal speed while a direction key is held (units per frame).
    pub move_speed: u32,
    pub jump_mode: JumpMode,
    pub collision_mode: CollisionMode,
    /// The player's ordinary color.
    pub base_color: u32,
    /// The color signalling a fully charged jump (cosmetic only).
    pub charged_color: u32,
}

/// Largest accepted world dimension, in pixels.
pub const MAX_WORLD_DIM: u32 = 32768;

/// Largest accepted physics parameter (gravity, speeds, hold time).
pub const MAX_PARAM: u32 = 1048576;

/// Bound on positions and velocities accepted by `update`; far beyond any
/// reachable value, it only keeps the integer arithmetic in range.
pub const COORD_LIMIT: i64 = 0x4000000000000;

/// Bound on the velocity of any reachable state (see `reachable_wf`).
pub const REACH_VEL_LIMIT: i64 = 0x10000000000;

/// The configuration's parameters are in range: dimensions and constants
/// small enough that every intermediate of the update fits in 64 bits, and
/// the charged-jump multiplier is at least one.
pub open spec fn config_wf(cfg: Config) -> bool {
    &&& 1 <= cfg.world_width <= MAX_WORLD_DIM
    &&& 1 <= cfg.world_height <= MAX_WORLD_DIM
    &&& cfg.gravity <= MAX_PARAM
    &&& cfg.move_speed <= MAX_PARAM
    &&& match cfg.jump_mode {
        JumpMode::Instant { power_mag } => power_mag <= MAX_PARAM,
        JumpMode::Charged { base_mag, max_hold_ms, mult_num, mult_den } => {
            &&& base_mag <= MAX_PARAM
            &&& 1 <= max_hold_ms <= MAX_PARAM
            &&& 1 <= mult_den <= MAX_PARAM
            &&& mult_den <= mult_num <= MAX_PARAM
        },
    }
}

/// The dynamic actor: a rectangle body (position in subpixel units, size in
/// pixels, packed-RGB color) plus vertical velocity, the grounded flag, and
/// the jump-charge state.
#[derive(Clone, Copy)]
pub struct Player {
    pub x: i64,
    pub y: i64,
    pub width: u32,
    pub height: u32,
    pub color: u32,
    pub velocity_y: i64,
    pub on_ground: bool,
    pub jump_charge: JumpCharge,
}

/// The player's mathematical state: unbounded integers for position (subpixel
/// units), size (pixels) and velocity, plus the grounded flag, the charge
/// start time (if charging) and the color.
pub ghost struct PState {
    pub x: int,
    pub y: int,
    pub w: int,
    pub h: int,
    pub color: int,
    pub vy: int,
    pub on_ground: bool,
    pub charge: Option<int>,
}

impl View for Player {
    type V = PState;

    open spec fn view(&self) -> PState {
        PState {
            x: self.x as int,
            y: self.y as int,
            w: self.width as int,
            h: self.height as int,
            color: self.color as int,
            vy: self.velocity_y as int,
            on_ground: self.on_ground,
            charge: match self.jump_charge {
                JumpCharge::NotCharging => None,
                JumpCharge::Charging { since_ms } => Some(since_ms as int),
            },
        }
    }
}

impl Player {
    /// A fresh player: at rest, airborne, not charging.
    pub fn new(x: i64, y: i64, width: u32, height: u32, color: u32) -> (p: Player)
        ensures
            p.x == x,
            p.y == y,
            p.width == width,
            p.height == height,
            p.color == color,
            p.velocity_y == 0,
            !p.on_ground,
            p.jump_charge == JumpCharge::NotCharging,
    {
        Player {
            x,
            y,
            width,
            height,
            color,
            velocity_y: 0,
            on_ground: false,
            jump_charge: JumpCharge::NotCharging,
        }
    }

    /// The player's size fits the world.
    pub open spec fn size_wf(self, cfg: Config) -> bool {
        &&& 1 <= self.width <= cfg.world_width
        &&& 1 <= self.height <= cfg.world_height
    }
}

/// Position and velocity are within `COORD_LIMIT`: the margin under which the
/// update's arithmetic cannot overflow.
pub open spec fn state_bounded(p: PState) -> bool {
    &&& -COORD_LIMIT <= p.x <= COORD_LIMIT
    &&& -COORD_LIMIT <= p.y <= COORD_LIMIT
    &&& -COORD_LIMIT <= p.vy <= COORD_LIMIT
}

/// The player's box lies inside the world: the bounds invariant.
pub open spec fn in_world_bounds(p: PState, cfg: Config) -> bool {
    &&& 0 <= p.x <= (cfg.world_width - p.w) * SCALE
    &&& 0 <= p.y <= (cfg.world_height - p.h) * SCALE
}

/// Every position this platform can snap a body of size `w` by `h` (pixels)
/// to lies inside the world. Platform resolution runs after the world clamp,
/// so the bounds invariant needs this of every platform.
pub open spec fn platform_snap_safe(p: Platform, w: int, h: int, world_w: int, world_h: int) -> bool {
    &&& w * SCALE <= p.x
    &&& p.x + p.width as int * SCALE <= (world_w - w) * SCALE
    &&& h * SCALE <= p.y
    &&& p.y + p.height as int * SCALE <= (world_h - h) * SCALE
}

/// Every platform of the sequence is snap-safe for a body of size `w` by `h`.
pub open spec fn platforms_snap_safe(ps: Seq<Platform>, w: int, h: int, world_w: int, world_h: int) -> bool {
    forall|i: int| 0 <= i < ps.len() ==> platform_snap_safe(#[trigger] ps[i], w, h, world_w, world_h)
}

/// A state the simulation keeps itself in: sized for the world, inside its
/// bounds, with velocity within `REACH_VEL_LIMIT`. `update` preserves this
/// (see `lemma_update_preserves_reachable`).
pub open spec fn reachable_wf(p: PState, cfg: Config) -> bool {
    &&& 1 <= p.w <= cfg.world_width
    &&& 1 <= p.h <= cfg.world_height
    &&& in_world_bounds(p, cfg)
    &&& -REACH_VEL_LIMIT <= p.vy <= REACH_VEL_LIMIT
}

/// Wall-clock time elapsed since a charge began; a clock that went backwards
/// counts as no time elapsed.
pub open spec fn charge_elapsed(now_ms: int, since_ms: int) -> int {
    if now_ms >= since_ms {
        now_ms - since_ms
    } else {
        0
    }
}

/// The held duration that counts toward the charge: capped at `max_hold`.
pub open spec fn hold_capped(elapsed: int, max_hold: int) -> int {
    if elapsed <= max_hold {
        elapsed
    } else {
        max_hold
    }
}

/// Launch-speed magnitude of a charged jump held for `elapsed` milliseconds:
/// `base * (1 + (mult_num/mult_den - 1) * min(elapsed, max_hold) / max_hold)`,
/// evaluated exactly over the integers as one product and one final division.
pub open spec fn charged_mag(base: int, max_hold: int, num: int, den: int, elapsed: int) -> int {
    base * (den * max_hold + (num - den) * hold_capped(elapsed, max_hold)) / (den * max_hold)
}

/// Step 1 of the update: the jump trigger. In instant mode, holding jump
/// while grounded launches at once. In charged mode, holding jump while
/// grounded starts or continues a charge (switching to the charged color once
/// the hold reaches the cap); releasing the jump key while a charge is in
/// progress launches with the charged magnitude, clears the charge and
/// restores the base color.
pub open spec fn jump_step(p: PState, cfg: Config, jump_held: bool, now_ms: int) -> PState {
    match cfg.jump_mode {
        JumpMode::Instant { power_mag } => {
            if jump_held && p.on_ground {
                PState { vy: -(power_mag as int), on_ground: false, ..p }
            } else {
                p
            }
        },
        JumpMode::Charged { base_mag, max_hold_ms, mult_num, mult_den } => {
            if jump_held && p.on_ground {
                let since = match p.charge {
                    Some(s) => s,
                    None => now_ms,
                };
                PState {
                    charge: Some(since),
                    color: if charge_elapsed(now_ms, since) >= max_hold_ms as int {
                        cfg.charged_color as int
                    } else {
                        p.color
                    },
                    ..p
                }
            } else {
                match p.charge {
                    Some(since) => {
                        if !jump_held {
                            PState {
                                vy: -charged_mag(
                                    base_mag as int,
                                    max_hold_ms as int,
                                    mult_num as int,
                                    mult_den as int,
                                    charge_elapsed(now_ms, since),
                                ),
                                on_ground: false,
                                charge: None,
                                color: cfg.base_color as int,
                                ..p
                            }
                        } else {
                            p
                        }
                    },
                    None => p,
                }
            }
        },
    }
}

/// Step 2: gravity. An airborne player's velocity grows by the gravity
/// constant (plain Euler integration, no terminal-velocity cap).
pub open spec fn gravity_step(p: PState, gravity: int) -> PState {
    if !p.on_ground {
        PState { vy: p.vy + gravity, ..p }
    } else {
        p
    }
}

/// Step 3: the horizontal delta. Left and right each contribute the move
/// speed; both held together cancel.
pub open spec fn input_dx(inp: InputState, move_speed: int) -> int {
    (if inp.right { move_speed } else { 0 }) - (if inp.left { move_speed } else { 0 })
}

/// Horizontal resolution against one platform: if the (already moved) box
/// overlaps it, a rightward move snaps the right edge to the platform's left
/// edge, a leftward move snaps the left edge to the platform's right edge.
pub open spec fn resolve_h_one(x: int, y: int, w: int, h: int, dx: int, p: Platform) -> int {
    if overlaps_platform(x, y, w, h, p) {
        if dx > 0 {
            p.x - w * SCALE
        } else if dx < 0 {
            p.x + p.width as int * SCALE
        } else {
            x
        }
    } else {
        x
    }
}

/// Horizontal resolution against every platform, in list order; each test
/// sees the position the previous one left (last overlap wins).
pub open spec fn resolve_h(x: int, y: int, w: int, h: int, dx: int, ps: Seq<Platform>) -> int
    decreases ps.len(),
{
    if ps.len() == 0 {
        x
    } else {
        resolve_h(resolve_h_one(x, y, w, h, dx, ps[0]), y, w, h, dx, ps.drop_first())
    }
}

/// The vertical part of the player's state while the vertical resolve runs.
pub ghost struct VState {
    pub y: int,
    pub vy: int,
    pub on_ground: bool,
}

/// Vertical resolution against one platform. In symmetric mode, any overlap
/// of the current box snaps: falling lands on the platform's top (grounded,
/// velocity zeroed), rising snaps under its bottom (velocity zeroed, not
/// grounded). In fall-only mode, only a falling body whose bottom edge lies
/// within the platform's vertical span lands.
pub open spec fn resolve_v_one(
    x: int, w: int, h: int, dy: int,
    v: VState, p: Platform, mode: CollisionMode,
) -> VState {
    match mode {
        CollisionMode::SymmetricAabb => {
            if overlaps_platform(x, v.y, w, h, p) {
                if dy > 0 {
                    VState { y: p.y - h * SCALE, vy: 0, on_ground: true }
                } else if dy < 0 {
                    VState { y: p.y + p.height as int * SCALE, vy: 0, on_ground: v.on_ground }
                } else {
                    v
                }
            } else {
                v
            }
        },
        CollisionMode::FallOnly => {
            if dy > 0
                && x < p.x + p.width as int * SCALE
                && x + w * SCALE > p.x
                && p.y <= v.y + h * SCALE
                && v.y + h * SCALE <= p.y + p.height as int * SCALE
            {
                VState { y: p.y - h * SCALE, vy: 0, on_ground: true }
            } else {
                v
            }
        },
    }
}

/// Vertical resolution against every platform, in list order (last overlap
/// wins).
pub open spec fn resolve_v(
    x: int, w: int, h: int, dy: int,
    v: VState, ps: Seq<Platform>, mode: CollisionMode,
) -> VState
    decreases ps.len(),
{
    if ps.len() == 0 {
        v
    } else {
        resolve_v(x, w, h, dy, resolve_v_one(x, w, h, dy, v, ps[0], mode), ps.drop_first(), mode)
    }
}

/// The vertical move with the world clamp (step 5 before the platforms):
/// apply `dy`, drop the grounded flag, snap above the top edge to zero
/// (velocity zeroed), snap at or below the bottom edge to the floor (velocity
/// zeroed, grounded) — so a body resting exactly on the floor stays grounded.
pub open spec fn vertical_move(y: int, h: int, dy: int, vy: int, world_h: int) -> VState {
    let moved = y + dy;
    if moved < 0 {
        VState { y: 0, vy: 0, on_ground: false }
    } else if moved + h * SCALE >= world_h * SCALE {
        VState { y: (world_h - h) * SCALE, vy: 0, on_ground: true }
    } else {
        VState { y: moved, vy: vy, on_ground: false }
    }
}

/// The whole per-frame update, as a function: jump trigger, gravity,
/// horizontal input, horizontal move with world clamp and platform resolve,
/// vertical move with world clamp and platform resolve. Size, and the charge
/// and color decided in step 1, carry through unchanged.
pub open spec fn update_model(
    p: PState, cfg: Config, inp: InputState, now_ms: int, ps: Seq<Platform>,
) -> PState {
    let p1 = jump_step(p, cfg, inp.jump, now_ms);
    let p2 = gravity_step(p1, cfg.gravity as int);
    let dx = input_dx(inp, cfg.move_speed as int);
    let dy = p2.vy;
    let xc = clamp(p2.x + dx, (cfg.world_width - p2.w) * SCALE);
    let xr = resolve_h(xc, p2.y, p2.w, p2.h, dx, ps);
    let vm = vertical_move(p2.y, p2.h, dy, p2.vy, cfg.world_height as int);
    let vr = resolve_v(xr, p2.w, p2.h, dy, vm, ps, cfg.collision_mode);
    PState { x: xr, y: vr.y, vy: vr.vy, on_ground: vr.on_ground, ..p2 }
}

impl Player {
    /// One frame of physics: the fixed sequence jump trigger → gravity →
    /// horizontal input → horizontal move and resolve → vertical move and
    /// resolve, exactly as `update_model` states it.
    pub fn update(
        &mut self,
        cfg: &Config,
        inp: InputState,
        now_ms: u64,
        platforms: &Vec<Platform>,
    )
        requires
            config_wf(*cfg),
            old(self).size_wf(*cfg),
            state_bounded(old(self)@),
            platforms_in_world(platforms@, cfg.world_width as int, cfg.world_height as int),
        ensures
            final(self)@ == update_model(old(self)@, *cfg, inp, now_ms as int, platforms@),
    {
        let ghost psq: Seq<Platform> = platforms@;

        // Step 1: jump trigger.
        match cfg.jump_mode {
            JumpMode::Instant { power_mag } => {
                if inp.jump && self.on_ground {
                    self.velocity_y = -(power_mag as i64);
                    self.on_ground = false;
                }
            },
            JumpMode::Charged { base_mag, max_hold_ms, mult_num, mult_den } => {
                if inp.jump && self.on_ground {
                    let since: u64 = match self.jump_charge {
                        JumpCharge::Charging { since_ms } => since_ms,
                        JumpCharge::NotCharging => now_ms,
                    };
                    self.jump_charge = JumpCharge::Charging { since_ms: since };
                    let elapsed: u64 = if now_ms >= since {
                        now_ms - since
                    } else {
                        0
                    };
                    if elapsed >= max_hold_ms as u64 {
                        self.color = cfg.charged_color;
                    }
                } else {
                    match self.jump_charge {
                        JumpCharge::Charging { since_ms } => {
                            if !inp.jump {
                                let since: u64 = since_ms;
                                let elapsed: u64 = if now_ms >= since {
                                    now_ms - since
                                } else {
                                    0
                                };
                                let hold: u64 = if elapsed <= max_hold_ms as u64 {
                                    elapsed
                                } else {
                                    max_hold_ms as u64
                                };
                                proof {
                                    assert((mult_den as u64) * (max_hold_ms as u64) >= 1
                                        && (mult_den as u64) * (max_hold_ms as u64) <= 0x10000000000)
                                        by (nonlinear_arith)
                                        requires
                                            1 <= mult_den <= MAX_PARAM,
                                            1 <= max_hold_ms <= MAX_PARAM,
                                    ;
                                }
                                let den_total: u64 = (mult_den as u64) * (max_hold_ms as u64);
                                proof {
                                    assert((mult_num - mult_den) as u64 * hold <= 0x10000000000)
                                        by (nonlinear_arith)
                                        requires
                                            mult_den <= mult_num <= MAX_PARAM,
                                            hold <= MAX_PARAM,
                                    ;
                                }
                                let scaled: u64 = den_total
                                    + (mult_num as u64 - mult_den as u64) * hold;
                                proof {
                                    assert((base_mag as u64) * scaled <= 0x2000000000000000)
                                        by (nonlinear_arith)
                                        requires
                                            base_mag <= MAX_PARAM,
                                            scaled <= 0x20000000000,
                                    ;
                                }
                                let numer: u64 = (base_mag as u64) * scaled;
                                let mag: u64 = numer / den_total;
                                self.velocity_y = -(mag as i64);
                                self.on_ground = false;
                                self.jump_charge = JumpCharge::NotCharging;
                                self.color = cfg.base_color;
                                proof {
                                    assert(mag as int == charged_mag(
                                        base_mag as int,
                                        max_hold_ms as int,
                                        mult_num as int,
                                        mult_den as int,
                                        charge_elapsed(now_ms as int, since as int),
                                    ));
                                }
                            }
                        },
                        JumpCharge::NotCharging => {},
                    }
                }
            },
        }
        proof {
            assert(self@ == jump_step(old(self)@, *cfg, inp.jump, now_ms as int));
        }
        let ghost p1: PState = self@;

        // Step 2: gravity.
        if !self.on_ground {
            self.velocity_y = self.velocity_y + (cfg.gravity as i64);
        }
        proof {
            assert(self@ == gravity_step(p1, cfg.gravity as int));
        }
        let ghost p2: PState = self@;

        // Step 3: horizontal input.
        let mut dx: i64 = 0;
        if inp.left {
            dx = dx - cfg.move_speed as i64;
        }
        if inp.right {
            dx = dx + cfg.move_speed as i64;
        }
        proof {
            assert(dx as int == input_dx(inp, cfg.move_speed as int));
        }
        let ghost dy_model: int = p2.vy;

        // Step 4: horizontal move, world clamp, platform resolve.
        let w_units: i64 = self.width as i64 * SCALE;
        let h_units: i64 = self.height as i64 * SCALE;
        self.x = self.x + dx;
        let hi: i64 = (cfg.world_width as i64 - self.width as i64) * SCALE;
        if self.x < 0 {
            self.x = 0;
        } else if self.x > hi {
            self.x = hi;
        }
        let ghost xc: int = self.x as int;
        proof {
            assert(xc == clamp(p2.x + dx as int, (cfg.world_width - p2.w) * SCALE));
        }

        proof {
            assert(psq.skip(0) =~= psq);
        }
        let n: usize = platforms.len();
        let mut i: usize = 0;
        while i < n
            invariant
                0 <= i <= n,
                n == psq.len(),
                platforms@ == psq,
                config_wf(*cfg),
                platforms_in_world(psq, cfg.world_width as int, cfg.world_height as int),
                self.y == p2.y,
                self.width as int == p2.w,
                self.height as int == p2.h,
                self.velocity_y as int == p2.vy,
                self.on_ground == p2.on_ground,
                self.color as int == p2.color,
                (match self.jump_charge {
                    JumpCharge::NotCharging => None::<int>,
                    JumpCharge::Charging { since_ms } => Some(since_ms as int),
                }) == p2.charge,
                w_units == p2.w * SCALE,
                h_units == p2.h * SCALE,
                1 <= p2.w <= cfg.world_width,
                1 <= p2.h <= cfg.world_height,
                -(p2.w * SCALE) <= self.x <= cfg.world_width * SCALE,
                resolve_h(xc, p2.y, p2.w, p2.h, dx as int, psq)
                    == resolve_h(self.x as int, p2.y, p2.w, p2.h, dx as int, psq.skip(i as int)),
            decreases n - i,
        {
            let ghost xprev: int = self.x as int;
            let p: Platform = platforms[i];
            proof {
                assert(platforms_in_world(psq, cfg.world_width as int, cfg.world_height as int));
                assert(crate::geom::platform_in_world(psq[i as int], cfg.world_width as int, cfg.world_height as int));
            }
            if self.x < p.x + (p.width as i64) * SCALE
                && self.x + w_units > p.x
                && self.y < p.y + (p.height as i64) * SCALE
                && self.y + h_units > p.y
            {
                if dx > 0 {
                    self.x = p.x - w_units;
                } else if dx < 0 {
                    self.x = p.x + (p.width as i64) * SCALE;
                }
            }
            proof {
                assert(self.x as int == resolve_h_one(xprev, p2.y, p2.w, p2.h, dx as int, psq[i as int]));
                assert(psq.skip(i as int)[0] == psq[i as int]);
                assert(psq.skip(i as int).drop_first() =~= psq.skip(i as int + 1));
                assert(resolve_h(xprev, p2.y, p2.w, p2.h, dx as int, psq.skip(i as int))
                    == resolve_h(self.x as int, p2.y, p2.w, p2.h, dx as int, psq.skip(i as int + 1)));
            }
            i = i + 1;
        }
        proof {
            assert(psq.skip(n as int) =~= Seq::<Platform>::empty());
            assert(self.x as int == resolve_h(xc, p2.y, p2.w, p2.h, dx as int, psq));
        }
        let ghost xr: int = self.x as int;

        // Step 5: vertical move, world clamp, platform resolve.
        let dy: i64 = self.velocity_y;
        self.y = self.y + dy;
        self.on_ground = false;
        let vhi: i64 = (cfg.world_height as i64 - self.height as i64) * SCALE;
        if self.y < 0 {
            self.y = 0;
            self.velocity_y = 0;
        } else if self.y >= vhi {
            self.y = vhi;
            self.velocity_y = 0;
            self.on_ground = true;
        }
        proof {
            assert(VState { y: self.y as int, vy: self.velocity_y as int, on_ground: self.on_ground }
                == vertical_move(p2.y, p2.h, dy_model, p2.vy, cfg.world_height as int));
        }
        let ghost vm: VState = VState {
            y: self.y as int,
            vy: self.velocity_y as int,
            on_ground: self.on_ground,
        };

        proof {
            assert(psq.skip(0) =~= psq);
        }
        let mut j: usize = 0;
        while j < n
            invariant
                0 <= j <= n,
                n == psq.len(),
                platforms@ == psq,
                config_wf(*cfg),
                platforms_in_world(psq, cfg.world_width as int, cfg.world_height as int),
                self.x as int == xr,
                self.width as int == p2.w,
                self.height as int == p2.h,
                self.color as int == p2.color,
                (match self.jump_charge {
                    JumpCharge::NotCharging => None::<int>,
                    JumpCharge::Charging { since_ms } => Some(since_ms as int),
                }) == p2.charge,
                w_units == p2.w * SCALE,
                h_units == p2.h * SCALE,
                1 <= p2.w <= cfg.world_width,
                1 <= p2.h <= cfg.world_height,
                -COORD_LIMIT <= xr <= COORD_LIMIT + cfg.world_width * SCALE,
                -(p2.h * SCALE) <= self.y <= cfg.world_height * SCALE,
                dy as int == dy_model,
                resolve_v(xr, p2.w, p2.h, dy_model, vm, psq, cfg.collision_mode)
                    == resolve_v(
                        xr, p2.w, p2.h, dy_model,
                        VState { y: self.y as int, vy: self.velocity_y as int, on_ground: self.on_ground },
                        psq.skip(j as int),
                        cfg.collision_mode,
                    ),
            decreases n - j,
        {
            let ghost vprev: VState = VState {
                y: self.y as int,
                vy: self.velocity_y as int,
                on_ground: self.on_ground,
            };
            let p: Platform = platforms[j];
            proof {
                assert(crate::geom::platform_in_world(psq[j as int], cfg.world_width as int, cfg.world_height as int));
            }
            match cfg.collision_mode {
                CollisionMode::SymmetricAabb => {
                    if self.x < p.x + (p.width as i64) * SCALE
                        && self.x + w_units > p.x
                        && self.y < p.y + (p.height as i64) * SCALE
                        && self.y + h_units > p.y
                    {
                        if dy > 0 {
                            self.y = p.y - h_units;
                            self.velocity_y = 0;
                            self.on_ground = true;
                        } else if dy < 0 {
                            self.y = p.y + (p.height as i64) * SCALE;
                            self.velocity_y = 0;
                        }
                    }
                },
                CollisionMode::FallOnly => {
                    if dy > 0
                        && self.x < p.x + (p.width as i64) * SCALE
                        && self.x + w_units > p.x
                        && p.y <= self.y + h_units
                        && self.y + h_units <= p.y + (p.height as i64) * SCALE
                    {
                        self.y = p.y - h_units;
                        self.velocity_y = 0;
                        self.on_ground = true;
                    }
                },
            }
            proof {
                let vcur = VState {
                    y: self.y as int,
                    vy: self.velocity_y as int,
                    on_ground: self.on_ground,
                };
                assert(vcur == resolve_v_one(xr, p2.w, p2.h, dy_model, vprev, psq[j as int], cfg.collision_mode));
                assert(psq.skip(j as int)[0] == psq[j as int]);
                assert(psq.skip(j as int).drop_first() =~= psq.skip(j as int + 1));
                assert(resolve_v(xr, p2.w, p2.h, dy_model, vprev, psq.skip(j as int), cfg.collision_mode)
                    == resolve_v(xr, p2.w, p2.h, dy_model, vcur, psq.skip(j as int + 1), cfg.collision_mode));
            }
            j = j + 1;
        }
        proof {
            assert(psq.skip(n as int) =~= Seq::<Platform>::empty());
            assert(self@ == update_model(old(self)@, *cfg, inp, now_ms as int, platforms@));
        }
    }
}

} // verus!
