//! The laws the simulation obeys, proved of `update_model` (which the
//! executable update is proved equal to): the bounds invariant, grounded
//! states have zero velocity, no horizontal input leaves `x` unchanged, a
//! falling body lands exactly on a platform's top, and the charged-jump
//! launch speed is monotone in the held time and capped.

use vstd::prelude::*;
use vstd::arithmetic::div_mod::{
    lemma_div_is_ordered, lemma_div_is_ordered_by_denominator, lemma_div_multiples_vanish,
    lemma_div_pos_is_pos,
};
use vstd::arithmetic::mul::{
    lemma_mul_inequality, lemma_mul_nonnegative, lemma_mul_strictly_positive,
};
use crate::geom::{Platform, SCALE, clamp, overlaps_platform};
use crate::physics::{
    charge_elapsed, charged_mag, config_wf, gravity_step, hold_capped, in_world_bounds, input_dx,
    jump_step, platform_snap_safe, platforms_snap_safe, reachable_wf, resolve_h, resolve_h_one,
    resolve_v, resolve_v_one, update_model, vertical_move, CollisionMode, Config, InputState,
    JumpMode, PState, VState, MAX_PARAM, REACH_VEL_LIMIT,
};

verus! {

/// The charged-jump magnitude is nonnegative and at most `base * num`
/// (reached when the multiplier is fully applied).
pub proof fn lemma_charged_mag_bounds(base: int, max_hold: int, num: int, den: int, elapsed: int)
    requires
        0 <= base,
        1 <= max_hold,
        1 <= den <= num,
        0 <= elapsed,
    ensures
        0 <= charged_mag(base, max_hold, num, den, elapsed),
        charged_mag(base, max_hold, num, den, elapsed) <= base * num,
{
    let hc = hold_capped(elapsed, max_hold);
    let dd = den * max_hold;
    lemma_mul_strictly_positive(den, max_hold);
    let inner = dd + (num - den) * hc;
    lemma_mul_nonnegative(num - den, hc);
    lemma_mul_inequality(hc, max_hold, num - den);
    assert(den * max_hold + (num - den) * max_hold == num * max_hold) by (nonlinear_arith);
    let numer = base * inner;
    lemma_mul_nonnegative(base, inner);
    lemma_mul_inequality(inner, num * max_hold, base);
    assert((num * max_hold) * base == (base * num) * max_hold) by (nonlinear_arith);
    lemma_div_pos_is_pos(numer, dd);
    lemma_mul_inequality(1, den, max_hold);
    lemma_div_is_ordered_by_denominator(numer, max_hold, dd);
    lemma_div_is_ordered(numer, (base * num) * max_hold, max_hold);
    lemma_div_multiples_vanish(base * num, max_hold);
    assert(max_hold * (base * num) == (base * num) * max_hold) by (nonlinear_arith);
}

/// Law (charged jump monotonicity): a longer hold never launches slower, and
/// any hold at or past the cap launches exactly as a hold of `max_hold` does.
pub proof fn lemma_charged_jump_monotone(
    base: int, max_hold: int, num: int, den: int, h1: int, h2: int,
)
    requires
        0 <= base,
        1 <= max_hold,
        1 <= den <= num,
        0 <= h1 <= h2,
    ensures
        charged_mag(base, max_hold, num, den, h1) <= charged_mag(base, max_hold, num, den, h2),
        h1 >= max_hold ==> charged_mag(base, max_hold, num, den, h1) == charged_mag(
            base, max_hold, num, den, max_hold,
        ),
{
    let hc1 = hold_capped(h1, max_hold);
    let hc2 = hold_capped(h2, max_hold);
    let dd = den * max_hold;
    lemma_mul_strictly_positive(den, max_hold);
    lemma_mul_inequality(hc1, hc2, num - den);
    let inner1 = dd + (num - den) * hc1;
    let inner2 = dd + (num - den) * hc2;
    lemma_mul_inequality(inner1, inner2, base);
    assert(inner1 * base == base * inner1) by (nonlinear_arith);
    assert(inner2 * base == base * inner2) by (nonlinear_arith);
    lemma_div_is_ordered(base * inner1, base * inner2, dd);
}

/// Horizontal platform resolution keeps the player inside the world's
/// horizontal bounds when every platform is snap-safe.
pub proof fn lemma_resolve_h_in_bounds(
    x: int, y: int, w: int, h: int, dx: int,
    ps: Seq<Platform>, world_w: int, world_h: int,
)
    requires
        0 <= w,
        0 <= x <= (world_w - w) * SCALE,
        platforms_snap_safe(ps, w, h, world_w, world_h),
    ensures
        0 <= resolve_h(x, y, w, h, dx, ps) <= (world_w - w) * SCALE,
    decreases ps.len(),
{
    if ps.len() == 0 {
    } else {
        let p0 = ps[0];
        assert(platform_snap_safe(p0, w, h, world_w, world_h));
        let x1 = resolve_h_one(x, y, w, h, dx, p0);
        assert(0 <= x1 <= (world_w - w) * SCALE);
        assert(platforms_snap_safe(ps.drop_first(), w, h, world_w, world_h)) by {
            assert forall|k: int| 0 <= k < ps.drop_first().len() implies platform_snap_safe(
                #[trigger] ps.drop_first()[k], w, h, world_w, world_h,
            ) by {
                assert(ps.drop_first()[k] == ps[k + 1]);
            }
        }
        lemma_resolve_h_in_bounds(x1, y, w, h, dx, ps.drop_first(), world_w, world_h);
    }
}

/// Horizontal platform resolution with no horizontal input never moves the
/// player: with `dx == 0` neither snap direction applies.
pub proof fn lemma_resolve_h_no_dx(x: int, y: int, w: int, h: int, ps: Seq<Platform>)
    ensures
        resolve_h(x, y, w, h, 0, ps) == x,
    decreases ps.len(),
{
    if ps.len() == 0 {
    } else {
        assert(resolve_h_one(x, y, w, h, 0, ps[0]) == x);
        lemma_resolve_h_no_dx(x, y, w, h, ps.drop_first());
    }
}

/// Vertical platform resolution preserves: the player stays inside the
/// world's vertical bounds (platforms snap-safe), a grounded result has zero
/// velocity, and the velocity is either zeroed by a snap or untouched.
pub proof fn lemma_resolve_v_props(
    x: int, w: int, h: int, dy: int, v: VState,
    ps: Seq<Platform>, mode: CollisionMode, world_w: int, world_h: int,
)
    requires
        0 <= h,
        0 <= v.y <= (world_h - h) * SCALE,
        v.on_ground ==> v.vy == 0,
        platforms_snap_safe(ps, w, h, world_w, world_h),
    ensures
        ({
            let r = resolve_v(x, w, h, dy, v, ps, mode);
            &&& 0 <= r.y <= (world_h - h) * SCALE
            &&& (r.on_ground ==> r.vy == 0)
            &&& (r.vy == 0 || r.vy == v.vy)
        }),
    decreases ps.len(),
{
    if ps.len() == 0 {
    } else {
        let p0 = ps[0];
        assert(platform_snap_safe(p0, w, h, world_w, world_h));
        let v1 = resolve_v_one(x, w, h, dy, v, p0, mode);
        assert(0 <= v1.y <= (world_h - h) * SCALE);
        assert(platforms_snap_safe(ps.drop_first(), w, h, world_w, world_h)) by {
            assert forall|k: int| 0 <= k < ps.drop_first().len() implies platform_snap_safe(
                #[trigger] ps.drop_first()[k], w, h, world_w, world_h,
            ) by {
                assert(ps.drop_first()[k] == ps[k + 1]);
            }
        }
        lemma_resolve_v_props(x, w, h, dy, v1, ps.drop_first(), mode, world_w, world_h);
    }
}

/// Vertical platform resolution preserves "grounded implies zero velocity",
/// with no other assumptions.
pub proof fn lemma_resolve_v_grounded(
    x: int, w: int, h: int, dy: int, v: VState, ps: Seq<Platform>, mode: CollisionMode,
)
    requires
        v.on_ground ==> v.vy == 0,
    ensures
        ({
            let r = resolve_v(x, w, h, dy, v, ps, mode);
            r.on_ground ==> r.vy == 0
        }),
    decreases ps.len(),
{
    if ps.len() == 0 {
    } else {
        let v1 = resolve_v_one(x, w, h, dy, v, ps[0], mode);
        lemma_resolve_v_grounded(x, w, h, dy, v1, ps.drop_first(), mode);
    }
}

/// Law (grounded states have zero velocity): whatever the starting state, an
/// update that leaves the player grounded leaves its vertical velocity zero.
pub proof fn lemma_grounded_zero_velocity(
    p: PState, cfg: Config, inp: InputState, now_ms: int, ps: Seq<Platform>,
)
    ensures
        ({
            let r = update_model(p, cfg, inp, now_ms, ps);
            r.on_ground ==> r.vy == 0
        }),
{
    let p1 = jump_step(p, cfg, inp.jump, now_ms);
    let p2 = gravity_step(p1, cfg.gravity as int);
    let dx = input_dx(inp, cfg.move_speed as int);
    let xc = clamp(p2.x + dx, (cfg.world_width - p2.w) * SCALE);
    let xr = resolve_h(xc, p2.y, p2.w, p2.h, dx, ps);
    let vm = vertical_move(p2.y, p2.h, p2.vy, p2.vy, cfg.world_height as int);
    assert(vm.on_ground ==> vm.vy == 0);
    lemma_resolve_v_grounded(xr, p2.w, p2.h, p2.vy, vm, ps, cfg.collision_mode);
}

/// Law (bounds invariant): from any reachable state, with snap-safe
/// platforms, one update leaves the player's box inside the world — so by
/// induction every reachable state satisfies `in_world_bounds` — and the
/// resulting state is itself reachable, with the size unchanged.
pub proof fn lemma_update_preserves_reachable(
    p: PState, cfg: Config, inp: InputState, now_ms: int, ps: Seq<Platform>,
)
    requires
        config_wf(cfg),
        reachable_wf(p, cfg),
        platforms_snap_safe(ps, p.w, p.h, cfg.world_width as int, cfg.world_height as int),
    ensures
        ({
            let r = update_model(p, cfg, inp, now_ms, ps);
            &&& reachable_wf(r, cfg)
            &&& in_world_bounds(r, cfg)
            &&& r.w == p.w
            &&& r.h == p.h
        }),
{
    let p1 = jump_step(p, cfg, inp.jump, now_ms);
    match cfg.jump_mode {
        JumpMode::Instant { power_mag } => {
            assert(-REACH_VEL_LIMIT <= p1.vy <= REACH_VEL_LIMIT);
        },
        JumpMode::Charged { base_mag, max_hold_ms, mult_num, mult_den } => {
            if !(inp.jump && p.on_ground) {
                match p.charge {
                    Some(since) => {
                        if !inp.jump {
                            lemma_charged_mag_bounds(
                                base_mag as int,
                                max_hold_ms as int,
                                mult_num as int,
                                mult_den as int,
                                charge_elapsed(now_ms, since),
                            );
                            assert((base_mag as int) * (mult_num as int) <= REACH_VEL_LIMIT)
                                by (nonlinear_arith)
                                requires
                                    0 <= base_mag <= MAX_PARAM,
                                    0 <= mult_num <= MAX_PARAM,
                            ;
                        }
                    },
                    None => {},
                }
            }
            assert(-REACH_VEL_LIMIT <= p1.vy <= REACH_VEL_LIMIT);
        },
    }
    let p2 = gravity_step(p1, cfg.gravity as int);
    assert(-REACH_VEL_LIMIT <= p2.vy <= REACH_VEL_LIMIT + MAX_PARAM);
    let dx = input_dx(inp, cfg.move_speed as int);
    let xc = clamp(p2.x + dx, (cfg.world_width - p2.w) * SCALE);
    assert(0 <= xc <= (cfg.world_width - p2.w) * SCALE);
    lemma_resolve_h_in_bounds(
        xc, p2.y, p2.w, p2.h, dx, ps,
        cfg.world_width as int, cfg.world_height as int,
    );
    let xr = resolve_h(xc, p2.y, p2.w, p2.h, dx, ps);
    let vm = vertical_move(p2.y, p2.h, p2.vy, p2.vy, cfg.world_height as int);
    // If the move neither clamped nor snapped, the distance fallen this frame
    // is bounded by the world height, so the velocity stays in range.
    assert(0 <= vm.y <= (cfg.world_height - p2.h) * SCALE);
    assert(-REACH_VEL_LIMIT <= vm.vy <= REACH_VEL_LIMIT);
    lemma_resolve_v_props(
        xr, p2.w, p2.h, p2.vy, vm, ps, cfg.collision_mode,
        cfg.world_width as int, cfg.world_height as int,
    );
}

/// Law (horizontal idempotence without input): an update without horizontal
/// input never moves the player horizontally — in particular, two updates in
/// a row (resting against a world edge or anywhere in bounds) leave `x`
/// exactly where it was.
pub proof fn lemma_no_horizontal_input_keeps_x(
    p: PState, cfg: Config,
    inp1: InputState, now1: int,
    inp2: InputState, now2: int,
    ps: Seq<Platform>,
)
    requires
        !inp1.left,
        !inp1.right,
        !inp2.left,
        !inp2.right,
        p.w <= cfg.world_width,
        0 <= p.x <= (cfg.world_width - p.w) * SCALE,
    ensures
        update_model(p, cfg, inp1, now1, ps).x == p.x,
        update_model(update_model(p, cfg, inp1, now1, ps), cfg, inp2, now2, ps).x == p.x,
{
    let r1 = update_model(p, cfg, inp1, now1, ps);
    let p2 = gravity_step(jump_step(p, cfg, inp1.jump, now1), cfg.gravity as int);
    assert(input_dx(inp1, cfg.move_speed as int) == 0);
    assert(clamp(p2.x + 0, (cfg.world_width - p2.w) * SCALE) == p.x);
    lemma_resolve_h_no_dx(p.x, p2.y, p2.w, p2.h, ps);
    assert(r1.x == p.x && r1.w == p.w);
    let q2 = gravity_step(jump_step(r1, cfg, inp2.jump, now2), cfg.gravity as int);
    assert(input_dx(inp2, cfg.move_speed as int) == 0);
    assert(clamp(q2.x + 0, (cfg.world_width - q2.w) * SCALE) == p.x);
    lemma_resolve_h_no_dx(p.x, q2.y, q2.w, q2.h, ps);
}

/// Law (landing on a platform, symmetric mode): a falling body whose
/// post-move box overlaps the platform lands exactly on its top, with zero
/// velocity, grounded.
pub proof fn lemma_landing_on_platform(
    x: int, w: int, h: int, dy: int, v: VState, plat: Platform,
)
    requires
        dy > 0,
        overlaps_platform(x, v.y, w, h, plat),
    ensures
        resolve_v(x, w, h, dy, v, seq![plat], CollisionMode::SymmetricAabb) == (VState {
            y: plat.y - h * SCALE,
            vy: 0,
            on_ground: true,
        }),
{
    let s = seq![plat];
    assert(s[0] == plat);
    assert(s.drop_first() =~= Seq::<Platform>::empty());
    let v1 = resolve_v_one(x, w, h, dy, v, plat, CollisionMode::SymmetricAabb);
    assert(v1 == (VState { y: plat.y - h * SCALE, vy: 0, on_ground: true }));
    assert(resolve_v(x, w, h, dy, v, s, CollisionMode::SymmetricAabb) == resolve_v(
        x, w, h, dy, v1, s.drop_first(), CollisionMode::SymmetricAabb,
    ));
    assert(resolve_v(
        x, w, h, dy, v1, Seq::<Platform>::empty(), CollisionMode::SymmetricAabb,
    ) == v1);
}

/// Law (landing on a platform, through the whole update): in a symmetric-mode
/// world with one platform, an update on a falling player whose post-move box
/// (after the world clamp, which must not intervene) overlaps the platform
/// ends with the player exactly on the platform's top, with zero velocity,
/// grounded.
pub proof fn lemma_update_lands_on_platform(
    p: PState, cfg: Config, inp: InputState, now_ms: int, plat: Platform,
)
    requires
        cfg.collision_mode == CollisionMode::SymmetricAabb,
        ({
            let p2 = gravity_step(jump_step(p, cfg, inp.jump, now_ms), cfg.gravity as int);
            let dx = input_dx(inp, cfg.move_speed as int);
            let xr = resolve_h(
                clamp(p2.x + dx, (cfg.world_width - p2.w) * SCALE),
                p2.y, p2.w, p2.h, dx, seq![plat],
            );
            let vm = vertical_move(p2.y, p2.h, p2.vy, p2.vy, cfg.world_height as int);
            &&& p2.vy > 0
            &&& vm.vy == p2.vy
            &&& overlaps_platform(xr, vm.y, p2.w, p2.h, plat)
        }),
    ensures
        ({
            let r = update_model(p, cfg, inp, now_ms, seq![plat]);
            &&& r.y == plat.y - p.h * SCALE
            &&& r.vy == 0
            &&& r.on_ground
        }),
{
    let p2 = gravity_step(jump_step(p, cfg, inp.jump, now_ms), cfg.gravity as int);
    let dx = input_dx(inp, cfg.move_speed as int);
    let xr = resolve_h(
        clamp(p2.x + dx, (cfg.world_width - p2.w) * SCALE),
        p2.y, p2.w, p2.h, dx, seq![plat],
    );
    let vm = vertical_move(p2.y, p2.h, p2.vy, p2.vy, cfg.world_height as int);
    lemma_landing_on_platform(xr, p2.w, p2.h, p2.vy, vm, plat);
}

/// Law (landing on a platform, fall-only mode): a falling body whose bottom
/// edge lies within the platform's vertical span, over the platform
/// horizontally, lands exactly on its top, with zero velocity, grounded.
pub proof fn lemma_landing_fall_only(
    x: int, w: int, h: int, dy: int, v: VState, plat: Platform,
)
    requires
        dy > 0,
        x < plat.x + plat.width as int * SCALE,
        x + w * SCALE > plat.x,
        plat.y <= v.y + h * SCALE,
        v.y + h * SCALE <= plat.y + plat.height as int * SCALE,
    ensures
        resolve_v(x, w, h, dy, v, seq![plat], CollisionMode::FallOnly) == (VState {
            y: plat.y - h * SCALE,
            vy: 0,
            on_ground: true,
        }),
{
    let s = seq![plat];
    assert(s[0] == plat);
    assert(s.drop_first() =~= Seq::<Platform>::empty());
    let v1 = resolve_v_one(x, w, h, dy, v, plat, CollisionMode::FallOnly);
    assert(v1 == (VState { y: plat.y - h * SCALE, vy: 0, on_ground: true }));
    assert(resolve_v(x, w, h, dy, v, s, CollisionMode::FallOnly) == resolve_v(
        x, w, h, dy, v1, s.drop_first(), CollisionMode::FallOnly,
    ));
    assert(resolve_v(x, w, h, dy, v1, Seq::<Platform>::empty(), CollisionMode::FallOnly) == v1);
}

} // verus!
