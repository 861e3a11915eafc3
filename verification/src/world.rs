//! The world: static configuration and platform list plus the player. `new`
//! validates a candidate world (returning `None` exactly when something is
//! out of range), `step` runs one verified physics frame, and `render` paints
//! one whole frame into a caller-owned buffer.

use vstd::prelude::*;
use crate::geom::{Platform, SCALE, platform_in_world, platforms_in_world};
use crate::physics::{
    config_wf, platform_snap_safe, platforms_snap_safe, reachable_wf, update_model, Config,
    InputState, JumpMode, Player, MAX_PARAM, MAX_WORLD_DIM, REACH_VEL_LIMIT,
};
use crate::paint::{cell, frame_cell, render_frame};
use crate::laws::lemma_update_preserves_reachable;

verus! {

/// Candidate world parts are acceptable: the configuration is well formed,
/// the player starts in a reachable state, and every platform lies inside the
/// world and is snap-safe for the player's size.
pub open spec fn world_inputs_ok(config: Config, player: Player, ps: Seq<Platform>) -> bool {
    &&& config_wf(config)
    &&& reachable_wf(player@, config)
    &&& platforms_in_world(ps, config.world_width as int, config.world_height as int)
    &&& platforms_snap_safe(
        ps, player@.w, player@.h, config.world_width as int, config.world_height as int,
    )
}

/// A running world. All fields are set at construction; gameplay only ever
/// mutates the player, through `step`.
pub struct World {
    pub config: Config,
    pub player: Player,
    pub platforms: Vec<Platform>,
}

impl World {
    /// The world's invariant: `new` establishes it, `step` preserves it.
    pub open spec fn wf(self) -> bool {
        world_inputs_ok(self.config, self.player, self.platforms@)
    }

    /// Validate and assemble a world: returns the world exactly when the
    /// configuration, the player's starting state, and every platform are
    /// acceptable (see `world_inputs_ok`), and `None` otherwise.
    pub fn new(config: Config, player: Player, platforms: Vec<Platform>) -> (r: Option<World>)
        ensures
            match r {
                Some(w) => {
                    &&& world_inputs_ok(config, player, platforms@)
                    &&& w.config == config
                    &&& w.player == player
                    &&& w.platforms@ == platforms@
                    &&& w.wf()
                },
                None => !world_inputs_ok(config, player, platforms@),
            },
    {
        let cfg_ok: bool = 1 <= config.world_width && config.world_width <= MAX_WORLD_DIM
            && 1 <= config.world_height && config.world_height <= MAX_WORLD_DIM
            && config.gravity <= MAX_PARAM && config.move_speed <= MAX_PARAM
            && (match config.jump_mode {
            JumpMode::Instant { power_mag } => power_mag <= MAX_PARAM,
            JumpMode::Charged { base_mag, max_hold_ms, mult_num, mult_den } => base_mag
                <= MAX_PARAM && 1 <= max_hold_ms && max_hold_ms <= MAX_PARAM && 1 <= mult_den
                && mult_den <= mult_num && mult_num <= MAX_PARAM,
        });
        if !cfg_ok {
            return None;
        }
        if !(1 <= player.width && player.width <= config.world_width && 1 <= player.height
            && player.height <= config.world_height) {
            return None;
        }
        let hx: i64 = (config.world_width as i64 - player.width as i64) * SCALE;
        let hy: i64 = (config.world_height as i64 - player.height as i64) * SCALE;
        if !(0 <= player.x && player.x <= hx && 0 <= player.y && player.y <= hy
            && -REACH_VEL_LIMIT <= player.velocity_y && player.velocity_y <= REACH_VEL_LIMIT) {
            return None;
        }
        let wsu: i64 = config.world_width as i64 * SCALE;
        let hsu: i64 = config.world_height as i64 * SCALE;
        let pw: i64 = player.width as i64 * SCALE;
        let ph: i64 = player.height as i64 * SCALE;
        let n: usize = platforms.len();
        let mut i: usize = 0;
        while i < n
            invariant
                i <= n,
                n == platforms@.len(),
                wsu == config.world_width as int * SCALE,
                hsu == config.world_height as int * SCALE,
                pw == player@.w * SCALE,
                ph == player@.h * SCALE,
                player.width <= config.world_width,
                player.height <= config.world_height,
                config.world_width <= MAX_WORLD_DIM,
                config.world_height <= MAX_WORLD_DIM,
                forall|k: int|
                    0 <= k < i as int ==> platform_in_world(
                        #[trigger] platforms@[k],
                        config.world_width as int,
                        config.world_height as int,
                    ) && platform_snap_safe(
                        platforms@[k], player@.w, player@.h,
                        config.world_width as int, config.world_height as int,
                    ),
            decreases n - i,
        {
            let p = &platforms[i];
            let pwidth: i64 = p.width as i64 * SCALE;
            let pheight: i64 = p.height as i64 * SCALE;
            let in_world: bool = 0 <= p.x && p.x <= wsu && pwidth <= wsu - p.x && 0 <= p.y && p.y
                <= hsu && pheight <= hsu - p.y;
            if !in_world {
                return None;
            }
            let snap_safe: bool = pw <= p.x && pwidth <= (wsu - pw) - p.x && ph <= p.y && pheight
                <= (hsu - ph) - p.y;
            if !snap_safe {
                return None;
            }
            i = i + 1;
        }
        Some(World { config, player, platforms })
    }

    /// One frame of physics: updates the player exactly as `update_model`
    /// states, leaving the configuration and the platforms untouched and the
    /// world well formed.
    pub fn step(&mut self, input: InputState, now_ms: u64)
        requires
            old(self).wf(),
        ensures
            final(self).wf(),
            final(self).config == old(self).config,
            final(self).platforms@ == old(self).platforms@,
            final(self).player@ == update_model(
                old(self).player@,
                old(self).config,
                input,
                now_ms as int,
                old(self).platforms@,
            ),
    {
        proof {
            lemma_update_preserves_reachable(
                self.player@, self.config, input, now_ms as int, self.platforms@,
            );
        }
        self.player.update(&self.config, input, now_ms, &self.platforms);
    }

    /// The number of cells of this world's pixel buffer.
    pub fn buffer_size(&self) -> (n: usize)
        requires
            self.wf(),
        ensures
            n == self.config.world_width as int * self.config.world_height as int,
    {
        proof {
            assert((self.config.world_width as int) * (self.config.world_height as int)
                <= 0x40000000) by (nonlinear_arith)
                requires
                    0 < self.config.world_width <= 32768,
                    0 < self.config.world_height <= 32768,
            ;
        }
        (self.config.world_width as usize) * (self.config.world_height as usize)
    }

    /// Paint one whole frame of this world into the buffer: background, then
    /// the player, then the platforms in list order.
    pub fn render(&self, buffer: &mut Vec<u32>)
        requires
            self.wf(),
            old(buffer)@.len() == self.config.world_width as int
                * self.config.world_height as int,
        ensures
            final(buffer)@.len() == old(buffer)@.len(),
            forall|r: int, c: int|
                0 <= r < self.config.world_height as int && 0 <= c
                    < self.config.world_width as int ==> #[trigger] cell(
                    final(buffer)@, self.config.world_width as int, r, c,
                ) == frame_cell(self.player, self.platforms@, r, c),
    {
        render_frame(
            buffer,
            &self.player,
            &self.platforms,
            self.config.world_width,
            self.config.world_height,
        );
    }
}

} // verus!
