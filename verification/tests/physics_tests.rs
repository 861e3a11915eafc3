use leap_engine::geom::Platform;
use leap_engine::physics::{
    Config, CollisionMode, InputState, JumpCharge, JumpMode, Player,
};

// Subpixel units per pixel, as the library defines it.
const SCALE: i64 = 256;

const WHITE: u32 = 0xFFFFFF;
const YELLOW: u32 = 0xFFFF00;

// The demo configuration: 1280x720, gravity a quarter pixel per frame, move
// speed two pixels per frame, charged jumps of base seven pixels per frame
// with a 1.1 s hold cap and a 1.8x full-charge multiplier.
fn demo_config() -> Config {
    Config {
        world_width: 1280,
        world_height: 720,
        gravity: 64,
        move_speed: 512,
        jump_mode: JumpMode::Charged {
            base_mag: 1792,
            max_hold_ms: 1100,
            mult_num: 18,
            mult_den: 10,
        },
        collision_mode: CollisionMode::SymmetricAabb,
        base_color: WHITE,
        charged_color: YELLOW,
    }
}

fn no_input() -> InputState {
    InputState { left: false, right: false, jump: false }
}

fn floor_y(cfg: &Config, player: &Player) -> i64 {
    (cfg.world_height as i64 - player.height as i64) * SCALE
}

#[test]
fn falling_overshoot_clamps_to_floor() {
    // From the top with a downward velocity far beyond the world's height,
    // one update clamps to the floor instead of tunneling past it, grounds
    // the player, and zeroes the velocity.
    let cfg = Config { world_height: 400, ..demo_config() };
    let mut p = Player::new(100 * SCALE, 0, 50, 50, WHITE);
    p.velocity_y = 500 * SCALE;
    p.on_ground = false;
    let platforms: Vec<Platform> = Vec::new();
    p.update(&cfg, no_input(), 0, &platforms);
    assert_eq!(p.y, (400 - 50) * SCALE);
    assert!(p.on_ground);
    assert_eq!(p.velocity_y, 0);
}

#[test]
fn grounded_update_has_zero_velocity() {
    // Any update that leaves the player grounded leaves zero velocity.
    let cfg = demo_config();
    let mut p = Player::new(100 * SCALE, 669 * SCALE, 50, 50, WHITE);
    p.velocity_y = 3 * SCALE;
    let platforms: Vec<Platform> = Vec::new();
    p.update(&cfg, no_input(), 0, &platforms);
    assert!(p.on_ground);
    assert_eq!(p.velocity_y, 0);
}

#[test]
fn no_horizontal_input_keeps_x_at_left_edge() {
    let cfg = demo_config();
    let mut p = Player::new(0, 100 * SCALE, 50, 50, WHITE);
    let platforms: Vec<Platform> = Vec::new();
    p.update(&cfg, no_input(), 0, &platforms);
    assert_eq!(p.x, 0);
    p.update(&cfg, no_input(), 0, &platforms);
    assert_eq!(p.x, 0);
}

#[test]
fn no_horizontal_input_keeps_x_at_right_edge() {
    let cfg = demo_config();
    let edge = (1280 - 50) * SCALE;
    let mut p = Player::new(edge, 100 * SCALE, 50, 50, WHITE);
    let platforms: Vec<Platform> = Vec::new();
    p.update(&cfg, no_input(), 0, &platforms);
    assert_eq!(p.x, edge);
    p.update(&cfg, no_input(), 0, &platforms);
    assert_eq!(p.x, edge);
}

#[test]
fn left_input_at_left_edge_clamps_to_zero() {
    let cfg = demo_config();
    let mut p = Player::new(0, 100 * SCALE, 50, 50, WHITE);
    let platforms: Vec<Platform> = Vec::new();
    let inp = InputState { left: true, right: false, jump: false };
    p.update(&cfg, inp, 0, &platforms);
    assert_eq!(p.x, 0);
}

#[test]
fn right_input_at_right_edge_clamps() {
    let cfg = demo_config();
    let edge = (1280 - 50) * SCALE;
    let mut p = Player::new(edge, 100 * SCALE, 50, 50, WHITE);
    let platforms: Vec<Platform> = Vec::new();
    let inp = InputState { left: false, right: true, jump: false };
    p.update(&cfg, inp, 0, &platforms);
    assert_eq!(p.x, edge);
}

#[test]
fn both_directions_cancel() {
    let cfg = demo_config();
    let mut p = Player::new(100 * SCALE, 100 * SCALE, 50, 50, WHITE);
    let platforms: Vec<Platform> = Vec::new();
    let inp = InputState { left: true, right: true, jump: false };
    p.update(&cfg, inp, 0, &platforms);
    assert_eq!(p.x, 100 * SCALE);
}

#[test]
fn falling_lands_exactly_on_platform_top() {
    // A falling player whose post-move box overlaps the platform lands
    // exactly on its top with zero velocity, grounded.
    let cfg = demo_config();
    let platforms = vec![Platform::new(200 * SCALE, 600 * SCALE, 100, 20, 0x0000FF)];
    let mut p = Player::new(200 * SCALE, 140000, 50, 50, WHITE);
    p.velocity_y = 1000;
    p.on_ground = false;
    p.update(&cfg, no_input(), 0, &platforms);
    assert_eq!(p.y, (600 - 50) * SCALE);
    assert_eq!(p.velocity_y, 0);
    assert!(p.on_ground);
}

#[test]
fn rising_snaps_under_platform() {
    // Symmetric mode: a rising player overlapping a platform snaps its top
    // edge to the platform's bottom, zeroing velocity without grounding.
    let cfg = demo_config();
    let platforms = vec![Platform::new(200 * SCALE, 600 * SCALE, 100, 20, 0x0000FF)];
    // Bottom of platform is at 620 px; start just below it moving up.
    let mut p = Player::new(200 * SCALE, 625 * SCALE, 50, 50, WHITE);
    p.velocity_y = -10 * SCALE;
    p.on_ground = false;
    p.update(&cfg, no_input(), 0, &platforms);
    assert_eq!(p.y, (600 + 20) * SCALE);
    assert_eq!(p.velocity_y, 0);
    assert!(!p.on_ground);
}

#[test]
fn moving_right_snaps_to_platform_left_edge() {
    let cfg = demo_config();
    let platforms = vec![Platform::new(200 * SCALE, 600 * SCALE, 100, 20, 0x0000FF)];
    // Grounded flag set so gravity is skipped; vertically overlapping the
    // platform, walking right into it.
    let mut p = Player::new(195 * SCALE, 580 * SCALE, 50, 50, WHITE);
    p.on_ground = true;
    let inp = InputState { left: false, right: true, jump: false };
    p.update(&cfg, inp, 0, &platforms);
    assert_eq!(p.x, (200 - 50) * SCALE);
    assert_eq!(p.y, 580 * SCALE);
    assert!(!p.on_ground);
}

#[test]
fn moving_left_snaps_to_platform_right_edge() {
    let cfg = demo_config();
    let platforms = vec![Platform::new(200 * SCALE, 600 * SCALE, 100, 20, 0x0000FF)];
    let mut p = Player::new(301 * SCALE, 580 * SCALE, 50, 50, WHITE);
    p.on_ground = true;
    let inp = InputState { left: true, right: false, jump: false };
    p.update(&cfg, inp, 0, &platforms);
    assert_eq!(p.x, (200 + 100) * SCALE);
}

#[test]
fn rising_above_top_clamps_to_ceiling() {
    let cfg = demo_config();
    let platforms: Vec<Platform> = Vec::new();
    let mut p = Player::new(100 * SCALE, 2 * SCALE, 50, 50, WHITE);
    p.velocity_y = -1000;
    p.on_ground = false;
    p.update(&cfg, no_input(), 0, &platforms);
    assert_eq!(p.y, 0);
    assert_eq!(p.velocity_y, 0);
    assert!(!p.on_ground);
}

#[test]
fn charge_starts_and_holds_base_color() {
    let cfg = demo_config();
    let platforms: Vec<Platform> = Vec::new();
    let mut p = Player::new(100 * SCALE, (720 - 50) * SCALE, 50, 50, WHITE);
    p.on_ground = true;
    let inp = InputState { left: false, right: false, jump: true };
    p.update(&cfg, inp, 5000, &platforms);
    assert_eq!(p.jump_charge, JumpCharge::Charging { since_ms: 5000 });
    assert_eq!(p.color, WHITE);
    assert_eq!(p.velocity_y, 0);
}

#[test]
fn full_charge_switches_color() {
    // Holding past the cap switches to the charged color (cosmetic only).
    let cfg = demo_config();
    let platforms: Vec<Platform> = Vec::new();
    let mut p = Player::new(100 * SCALE, (720 - 50) * SCALE, 50, 50, WHITE);
    p.on_ground = true;
    p.jump_charge = JumpCharge::Charging { since_ms: 0 };
    let inp = InputState { left: false, right: false, jump: true };
    p.update(&cfg, inp, 2000, &platforms);
    assert_eq!(p.color, YELLOW);
    assert_eq!(p.jump_charge, JumpCharge::Charging { since_ms: 0 });
    assert_eq!(p.velocity_y, 0);
}

#[test]
fn release_launches_with_held_time_power() {
    // Released after 550 ms of an 1100 ms cap: magnitude is
    // 1792 * (11000 + 8*550) / 11000 = 2508 (rounded down), then one frame of
    // gravity applies.
    let cfg = demo_config();
    let platforms: Vec<Platform> = Vec::new();
    let mut p = Player::new(100 * SCALE, (720 - 50) * SCALE, 50, 50, WHITE);
    p.on_ground = true;
    p.color = YELLOW;
    p.jump_charge = JumpCharge::Charging { since_ms: 1000 };
    p.update(&cfg, no_input(), 1550, &platforms);
    assert_eq!(p.velocity_y, -2508 + 64);
    assert!(!p.on_ground);
    assert_eq!(p.jump_charge, JumpCharge::NotCharging);
    assert_eq!(p.color, WHITE);
    assert_eq!(p.y, (720 - 50) * SCALE - 2444);
}

#[test]
fn longer_hold_launches_at_least_as_fast() {
    // Launch magnitudes grow with the held time and cap at the hold limit.
    let cfg = demo_config();
    let platforms: Vec<Platform> = Vec::new();
    let mut mags = Vec::new();
    for hold in [200u64, 800, 1100, 2000] {
        let mut p = Player::new(100 * SCALE, (720 - 50) * SCALE, 50, 50, WHITE);
        p.on_ground = true;
        p.jump_charge = JumpCharge::Charging { since_ms: 0 };
        p.update(&cfg, no_input(), hold, &platforms);
        // Undo the one frame of gravity applied after the launch.
        mags.push(64 - p.velocity_y);
    }
    assert_eq!(mags, vec![2052, 2834, 3225, 3225]);
    assert!(mags[0] <= mags[1] && mags[1] <= mags[2]);
    // Past the cap the launch equals the launch at the cap.
    assert_eq!(mags[2], mags[3]);
}

#[test]
fn instant_mode_launches_immediately() {
    let cfg = Config {
        jump_mode: JumpMode::Instant { power_mag: 1792 },
        ..demo_config()
    };
    let platforms: Vec<Platform> = Vec::new();
    let mut p = Player::new(100 * SCALE, (720 - 50) * SCALE, 50, 50, WHITE);
    p.on_ground = true;
    let inp = InputState { left: false, right: false, jump: true };
    p.update(&cfg, inp, 0, &platforms);
    assert_eq!(p.velocity_y, -1792 + 64);
    assert!(!p.on_ground);
}

#[test]
fn fall_only_mode_ignores_rising_overlap() {
    let cfg = Config { collision_mode: CollisionMode::FallOnly, ..demo_config() };
    let platforms = vec![Platform::new(200 * SCALE, 600 * SCALE, 100, 20, 0x0000FF)];
    let mut p = Player::new(200 * SCALE, 580 * SCALE, 50, 50, WHITE);
    p.velocity_y = -500;
    p.on_ground = false;
    p.update(&cfg, no_input(), 0, &platforms);
    // Rising: no snap in fall-only mode; plain integration.
    assert_eq!(p.y, 580 * SCALE - 500 + 64);
    assert_eq!(p.velocity_y, -500 + 64);
    assert!(!p.on_ground);
}

#[test]
fn fall_only_mode_lands_when_bottom_edge_in_span() {
    let cfg = Config { collision_mode: CollisionMode::FallOnly, ..demo_config() };
    let platforms = vec![Platform::new(200 * SCALE, 600 * SCALE, 100, 20, 0x0000FF)];
    let mut p = Player::new(200 * SCALE, 140000, 50, 50, WHITE);
    p.velocity_y = 1000;
    p.on_ground = false;
    p.update(&cfg, no_input(), 0, &platforms);
    assert_eq!(p.y, (600 - 50) * SCALE);
    assert_eq!(p.velocity_y, 0);
    assert!(p.on_ground);
}

#[test]
fn resting_on_floor_stays_grounded() {
    // Grounded-Idle is stable: a player at rest on the floor stays grounded
    // frame after frame with nothing moving.
    let cfg = demo_config();
    let platforms: Vec<Platform> = Vec::new();
    let mut p = Player::new(100 * SCALE, (720 - 50) * SCALE, 50, 50, WHITE);
    p.on_ground = true;
    for _ in 0..5 {
        p.update(&cfg, no_input(), 0, &platforms);
        assert!(p.on_ground);
        assert_eq!(p.y, (720 - 50) * SCALE);
        assert_eq!(p.velocity_y, 0);
    }
}

#[test]
fn hold_and_release_jump_sequence() {
    // The whole charged-jump state machine: charging while grounded, the
    // charged color once past the cap, and a capped launch on release.
    let cfg = demo_config();
    let platforms: Vec<Platform> = Vec::new();
    let mut p = Player::new(100 * SCALE, (720 - 50) * SCALE, 50, 50, WHITE);
    p.on_ground = true;
    let hold = InputState { left: false, right: false, jump: true };
    let mut t: u64 = 0;
    while t <= 1000 {
        p.update(&cfg, hold, t, &platforms);
        assert_eq!(p.jump_charge, JumpCharge::Charging { since_ms: 0 });
        assert_eq!(p.color, WHITE);
        assert!(p.on_ground);
        t += 100;
    }
    p.update(&cfg, hold, 1150, &platforms);
    assert_eq!(p.color, YELLOW);
    p.update(&cfg, no_input(), 1300, &platforms);
    // Held past the cap: launch magnitude is the capped 1792 * 18 / 10 =
    // 3225, then one frame of gravity applies.
    assert_eq!(p.velocity_y, -3225 + 64);
    assert!(!p.on_ground);
    assert_eq!(p.color, WHITE);
    assert_eq!(p.jump_charge, JumpCharge::NotCharging);
}

#[test]
fn full_size_player_stays_pinned_at_origin() {
    // A player as large as the world has exactly one in-bounds position.
    let cfg = demo_config();
    let platforms: Vec<Platform> = Vec::new();
    let mut p = Player::new(0, 0, 1280, 720, WHITE);
    let inp = InputState { left: false, right: true, jump: false };
    p.update(&cfg, inp, 0, &platforms);
    assert_eq!(p.x, 0);
    assert_eq!(p.y, 0);
    assert!(p.on_ground);
    assert_eq!(p.velocity_y, 0);
}

#[test]
fn out_of_bounds_start_is_clamped_back_in() {
    let cfg = demo_config();
    let platforms: Vec<Platform> = Vec::new();
    let mut p = Player::new(-500 * SCALE, 100 * SCALE, 50, 50, WHITE);
    p.update(&cfg, no_input(), 0, &platforms);
    assert_eq!(p.x, 0);
    let mut q = Player::new(5000 * SCALE, 100 * SCALE, 50, 50, WHITE);
    q.update(&cfg, no_input(), 0, &platforms);
    assert_eq!(q.x, (1280 - 50) * SCALE);
}

#[test]
fn bounds_hold_under_random_walk() {
    // Bounds invariant: whatever inputs are fed, the player's box stays
    // inside the world after every update.
    let cfg = demo_config();
    let platforms = vec![
        Platform::new(200 * SCALE, 600 * SCALE, 100, 20, 0x0000FF),
        Platform::new(300 * SCALE, 500 * SCALE, 100, 20, 0x0000FF),
    ];
    let mut p = Player::new(100 * SCALE, 100 * SCALE, 50, 50, WHITE);
    let mut t: u64 = 0;
    for i in 0..500u64 {
        let inp = InputState {
            left: i % 3 == 0,
            right: i % 5 == 0,
            jump: i % 7 < 3,
        };
        t += 16;
        p.update(&cfg, inp, t, &platforms);
        assert!(p.x >= 0 && p.x <= (1280 - 50) * SCALE);
        assert!(p.y >= 0 && p.y <= (720 - 50) * SCALE);
        if p.on_ground {
            assert_eq!(p.velocity_y, 0);
        }
    }
}
