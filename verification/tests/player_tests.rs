use game_plugin::actions::{Actions, Direction};
use game_plugin::collision::Aabb;
use game_plugin::consts::{ConfigError, SimConfig};
use game_plugin::loading::MapAsset;
use game_plugin::map::{spawn_map, TileMap, TileType};
use game_plugin::math::{Vec2, Vec3};
use game_plugin::physics::{AffectedByGravity, Gravity, Velocity};
use game_plugin::player::{
    anim_player, change_anim, move_player, player_box, register_movement, spawn_player, tick,
    Animation, FinaMovement, Player, PlayerAnim, PlayerBundle, SpriteFrame, TickReport,
};

fn velocity(x: i32, y: i32) -> Velocity {
    Velocity { vel: Vec2 { x, y } }
}

fn input(x: i16, y: i16) -> Actions {
    Actions { player_movement: Direction::new(x, y) }
}

fn no_input() -> Actions {
    Actions { player_movement: None }
}

fn applied(x: i64, y: i64) -> FinaMovement {
    FinaMovement { movement: Vec3 { x, y, z: 0 } }
}

#[test]
fn stock_configuration_is_valid() {
    let cfg = SimConfig::default();
    assert_eq!(cfg.validate(), Ok(()));
    assert_eq!(cfg.horizontal_speed, 150_000);
    assert_eq!(cfg.jump_impulse, 450_000);
    assert_eq!(cfg.gravity, Gravity(50_000));
    assert_eq!((cfg.v_min, cfg.v_max), (-288_000, 2_000_000));
    assert_eq!((cfg.tile_half_w, cfg.tile_half_h), (16_000, 16_000));
    assert_eq!((cfg.arena_half_w, cfg.arena_half_h), (320_000, 320_000));
    assert_eq!((cfg.player_box_half_w, cfg.player_box_half_h), (32_000, 16_000));
    assert_eq!((cfg.player_half_w, cfg.player_half_h), (32_000, 32_000));
}

#[test]
fn negative_speed_is_rejected() {
    let mut cfg = SimConfig::default();
    cfg.horizontal_speed = -1;
    assert_eq!(cfg.validate(), Err(ConfigError::NegativeSpeed));
}

#[test]
fn negative_jump_impulse_is_rejected() {
    let mut cfg = SimConfig::default();
    cfg.jump_impulse = -1;
    assert_eq!(cfg.validate(), Err(ConfigError::NegativeJumpImpulse));
}

#[test]
fn negative_gravity_is_rejected() {
    let mut cfg = SimConfig::default();
    cfg.gravity = Gravity(-1);
    assert_eq!(cfg.validate(), Err(ConfigError::NegativeGravity));
}

#[test]
fn empty_velocity_range_is_rejected() {
    let mut cfg = SimConfig::default();
    cfg.v_min = 5;
    cfg.v_max = 4;
    assert_eq!(cfg.validate(), Err(ConfigError::EmptyVelocityRange));
    cfg.v_max = 5;
    assert_eq!(cfg.validate(), Ok(()));
}

#[test]
fn zero_tile_size_is_rejected() {
    let mut cfg = SimConfig::default();
    cfg.tile_half_w = 0;
    assert_eq!(cfg.validate(), Err(ConfigError::ZeroTileSize));
    let mut cfg = SimConfig::default();
    cfg.tile_half_h = 0;
    assert_eq!(cfg.validate(), Err(ConfigError::ZeroTileSize));
}

#[test]
fn arena_smaller_than_the_player_is_rejected() {
    let mut cfg = SimConfig::default();
    cfg.arena_half_w = cfg.player_half_w - 1;
    assert_eq!(cfg.validate(), Err(ConfigError::ArenaTooSmall));
    let mut cfg = SimConfig::default();
    cfg.arena_half_h = cfg.player_half_h - 1;
    assert_eq!(cfg.validate(), Err(ConfigError::ArenaTooSmall));
    cfg.arena_half_h = cfg.player_half_h;
    assert_eq!(cfg.validate(), Ok(()));
}

#[test]
fn first_broken_rule_is_named() {
    let mut cfg = SimConfig::default();
    cfg.tile_half_w = 0;
    cfg.gravity = Gravity(-3);
    cfg.arena_half_w = 0;
    assert_eq!(cfg.validate(), Err(ConfigError::NegativeGravity));
}

#[test]
fn direction_beyond_full_deflection_is_refused() {
    assert_eq!(Direction::new(1_000, -1_000), Some(Direction { x: 1_000, y: -1_000 }));
    assert_eq!(Direction::new(0, 0), Some(Direction { x: 0, y: 0 }));
    assert_eq!(Direction::new(1_001, 0), None);
    assert_eq!(Direction::new(0, -1_001), None);
    assert_eq!(Direction::new(i16::MIN, i16::MAX), None);
}

#[test]
fn held_axes_give_a_unit_direction() {
    assert_eq!(Direction::from_axes(1, 0), Direction { x: 1_000, y: 0 });
    assert_eq!(Direction::from_axes(-1, 0), Direction { x: -1_000, y: 0 });
    assert_eq!(Direction::from_axes(0, 1), Direction { x: 0, y: 1_000 });
    assert_eq!(Direction::from_axes(0, -1), Direction { x: 0, y: -1_000 });
    assert_eq!(Direction::from_axes(1, 1), Direction { x: 707, y: 707 });
    assert_eq!(Direction::from_axes(-1, 1), Direction { x: -707, y: 707 });
    assert_eq!(Direction::from_axes(i8::MIN, i8::MAX), Direction { x: -707, y: 707 });
    assert_eq!(Direction::from_axes(0, 0), Direction { x: 0, y: 0 });
}

#[test]
fn held_axes_give_the_input_of_a_tick() {
    assert_eq!(Actions::from_axes(0, 0), Actions { player_movement: None });
    assert_eq!(
        Actions::from_axes(-1, 0),
        Actions { player_movement: Some(Direction { x: -1_000, y: 0 }) }
    );
    assert_eq!(
        Actions::from_axes(1, -1),
        Actions { player_movement: Some(Direction { x: 707, y: -707 }) }
    );
}

#[test]
fn no_input_stops_the_horizontal_movement() {
    let cfg = SimConfig::default();
    let mut player = Player { jump_held: true };
    let mut v = velocity(150_000, -800);
    register_movement(&cfg, &no_input(), &mut player, &mut v);
    assert_eq!(v, velocity(0, -800));
    assert_eq!(player, Player { jump_held: false });
}

#[test]
fn horizontal_input_sets_the_horizontal_velocity() {
    let cfg = SimConfig::default();
    let mut player = Player { jump_held: false };
    let mut v = velocity(0, -800);
    register_movement(&cfg, &input(1_000, 0), &mut player, &mut v);
    assert_eq!(v, velocity(150_000, -800));
    register_movement(&cfg, &input(-707, 0), &mut player, &mut v);
    assert_eq!(v, velocity(-106_050, -800));
    register_movement(&cfg, &input(0, 0), &mut player, &mut v);
    assert_eq!(v, velocity(0, -800));
    assert_eq!(player, Player { jump_held: false });
}

#[test]
fn horizontal_velocity_rounds_toward_zero() {
    let mut cfg = SimConfig::default();
    cfg.horizontal_speed = 1_999;
    let mut player = Player { jump_held: false };
    let mut v = velocity(0, 0);
    register_movement(&cfg, &input(1, 0), &mut player, &mut v);
    assert_eq!(v.vel.x, 1);
    register_movement(&cfg, &input(-1, 0), &mut player, &mut v);
    assert_eq!(v.vel.x, -1);
    cfg.horizontal_speed = i32::MAX;
    register_movement(&cfg, &input(-1_000, 0), &mut player, &mut v);
    assert_eq!(v.vel.x, -i32::MAX);
}

#[test]
fn jump_input_sets_the_impulse_once() {
    let cfg = SimConfig::default();
    let mut player = Player { jump_held: false };
    let mut v = velocity(0, -800);
    register_movement(&cfg, &input(0, 1_000), &mut player, &mut v);
    assert_eq!(v, velocity(0, 450_000));
    assert!(player.jump_held);
    v.vel.y = 449_200;
    register_movement(&cfg, &input(0, 1_000), &mut player, &mut v);
    assert_eq!(v, velocity(0, 449_200));
    assert!(player.jump_held);
}

#[test]
fn jump_input_counts_anew_after_its_release() {
    let cfg = SimConfig::default();
    let mut player = Player { jump_held: true };
    let mut v = velocity(0, 10);
    register_movement(&cfg, &input(300, 0), &mut player, &mut v);
    assert_eq!(v, velocity(45_000, 10));
    assert!(!player.jump_held);
    register_movement(&cfg, &input(300, -1), &mut player, &mut v);
    assert_eq!(v, velocity(45_000, 450_000));
    assert!(player.jump_held);
}

#[test]
fn commit_applies_the_displacement() {
    let cfg = SimConfig::default();
    let mut position = Vec3 { x: -100_000, y: 0, z: 2 };
    move_player(&cfg, &mut position, applied(2_400, -12));
    assert_eq!(position, Vec3 { x: -97_600, y: -12, z: 2 });
}

#[test]
fn commit_limits_the_position_to_the_playable_arena() {
    let cfg = SimConfig::default();
    let mut position = Vec3 { x: 287_000, y: 0, z: 2 };
    move_player(&cfg, &mut position, applied(5_000, -400_000));
    assert_eq!(position, Vec3 { x: 288_000, y: -288_000, z: 2 });
    move_player(&cfg, &mut position, applied(i64::MIN, i64::MAX));
    assert_eq!(position, Vec3 { x: -288_000, y: 288_000, z: 2 });
    let mut far = Vec3 { x: i64::MAX, y: i64::MIN, z: -7 };
    move_player(&cfg, &mut far, applied(i64::MAX, i64::MIN));
    assert_eq!(far, Vec3 { x: 288_000, y: -288_000, z: -7 });
}

#[test]
fn commit_of_no_displacement_changes_nothing_inside_the_arena() {
    let cfg = SimConfig::default();
    for (x, y) in [(0, 0), (288_000, -288_000), (-288_000, 288_000), (17, -5)] {
        let mut position = Vec3 { x, y, z: 2 };
        move_player(&cfg, &mut position, applied(0, 0));
        assert_eq!(position, Vec3 { x, y, z: 2 });
    }
}

#[test]
fn commit_ignores_the_depth_of_the_displacement() {
    let cfg = SimConfig::default();
    let mut position = Vec3 { x: 0, y: 0, z: 2 };
    move_player(&cfg, &mut position, FinaMovement { movement: Vec3 { x: 1, y: 1, z: 50 } });
    assert_eq!(position, Vec3 { x: 1, y: 1, z: 2 });
}

#[test]
fn commit_pins_the_player_in_an_arena_of_its_own_size() {
    let mut cfg = SimConfig::default();
    cfg.arena_half_w = cfg.player_half_w;
    cfg.arena_half_h = cfg.player_half_h;
    let mut position = Vec3 { x: 5, y: -5, z: 0 };
    move_player(&cfg, &mut position, applied(100, 100));
    assert_eq!(position, Vec3 { x: 0, y: 0, z: 0 });
}

#[test]
fn player_spawns_at_rest_left_of_the_centre() {
    let bundle = spawn_player();
    assert_eq!(
        bundle,
        PlayerBundle {
            player: Player { jump_held: false },
            position: Vec3 { x: -100_000, y: 0, z: 2 },
            velocity: velocity(0, 0),
            gravity: Some(AffectedByGravity),
            anim: PlayerAnim { anim: Animation::Stay, n_frames: 2 },
            sprite: SpriteFrame { index: 0, flip_x: false },
        }
    );
}

#[test]
fn collision_box_is_centred_on_the_position() {
    let cfg = SimConfig::default();
    let b = player_box(&cfg, &Vec3 { x: -5, y: 9, z: 2 });
    assert_eq!(b, Aabb { center_x: -5, center_y: 9, half_w: 32_000, half_h: 16_000 });
}

#[test]
fn frames_cycle_when_the_timer_has_run_out() {
    let anim = PlayerAnim { anim: Animation::Jump, n_frames: 3 };
    let mut sprite = SpriteFrame { index: 0, flip_x: true };
    let mut seen = Vec::new();
    for _ in 0..7 {
        anim_player(true, &mut sprite, &anim);
        seen.push(sprite.index);
    }
    assert_eq!(seen, vec![1, 2, 0, 1, 2, 0, 1]);
    assert!(sprite.flip_x);
}

#[test]
fn frame_stays_while_the_timer_runs() {
    let anim = PlayerAnim { anim: Animation::Walk, n_frames: 7 };
    let mut sprite = SpriteFrame { index: 4, flip_x: false };
    anim_player(false, &mut sprite, &anim);
    assert_eq!(sprite, SpriteFrame { index: 4, flip_x: false });
}

#[test]
fn frame_beyond_the_cycle_is_brought_back_into_it() {
    let anim = PlayerAnim { anim: Animation::Stay, n_frames: 2 };
    let mut sprite = SpriteFrame { index: 6, flip_x: false };
    anim_player(true, &mut sprite, &anim);
    assert_eq!(sprite.index, 1);
    let single = PlayerAnim { anim: Animation::Stay, n_frames: 1 };
    anim_player(true, &mut sprite, &single);
    assert_eq!(sprite.index, 0);
    let mut last = SpriteFrame { index: u32::MAX, flip_x: false };
    anim_player(true, &mut last, &anim);
    assert_eq!(last.index, 0);
}

#[test]
fn rising_player_switches_to_the_jump_animation() {
    let mut anim = PlayerAnim { anim: Animation::Stay, n_frames: 2 };
    let mut sprite = SpriteFrame { index: 1, flip_x: false };
    let switch = change_anim(&mut anim, &mut sprite, &velocity(-3, 1));
    assert_eq!(switch, Some(Animation::Jump));
    assert_eq!(anim, PlayerAnim { anim: Animation::Jump, n_frames: 3 });
    assert_eq!(sprite, SpriteFrame { index: 0, flip_x: false });
}

#[test]
fn moving_player_switches_to_the_walk_animation() {
    let mut anim = PlayerAnim { anim: Animation::Jump, n_frames: 3 };
    let mut sprite = SpriteFrame { index: 2, flip_x: false };
    let switch = change_anim(&mut anim, &mut sprite, &velocity(5, -800));
    assert_eq!(switch, Some(Animation::Walk));
    assert_eq!(anim, PlayerAnim { anim: Animation::Walk, n_frames: 7 });
    assert_eq!(sprite, SpriteFrame { index: 0, flip_x: true });
}

#[test]
fn resting_player_switches_to_the_stay_animation() {
    let mut anim = PlayerAnim { anim: Animation::Walk, n_frames: 7 };
    let mut sprite = SpriteFrame { index: 5, flip_x: false };
    let switch = change_anim(&mut anim, &mut sprite, &velocity(0, 0));
    assert_eq!(switch, Some(Animation::Stay));
    assert_eq!(anim, PlayerAnim { anim: Animation::Stay, n_frames: 2 });
    assert_eq!(sprite, SpriteFrame { index: 0, flip_x: true });
}

#[test]
fn fitting_animation_keeps_running() {
    for (current, v) in [
        (Animation::Jump, velocity(0, 7)),
        (Animation::Walk, velocity(-7, 0)),
        (Animation::Stay, velocity(0, -7)),
    ] {
        let mut anim = PlayerAnim { anim: current, n_frames: 11 };
        let mut sprite = SpriteFrame { index: 9, flip_x: v.vel.x < 0 };
        let switch = change_anim(&mut anim, &mut sprite, &v);
        assert_eq!(switch, None);
        assert_eq!(anim, PlayerAnim { anim: current, n_frames: 11 });
        assert_eq!(sprite, SpriteFrame { index: 9, flip_x: v.vel.x >= 0 });
    }
}

fn floor_world() -> (SimConfig, TileMap) {
    let mut cfg = SimConfig::default();
    cfg.arena_half_w = 3 * cfg.tile_half_w;
    cfg.arena_half_h = 6 * cfg.tile_half_h;
    cfg.player_half_w = cfg.tile_half_w;
    cfg.player_half_h = cfg.tile_half_h;
    cfg.player_box_half_w = cfg.tile_half_w;
    cfg.player_box_half_h = cfg.tile_half_h;
    cfg.v_min = -2_000_000;
    let rows = vec![
        vec![4, 4, 4],
        vec![0, 0, 0],
        vec![0, 0, 0],
        vec![0, 0, 0],
        vec![0, 0, 0],
        vec![0, 0, 0],
    ];
    let map = spawn_map(Some(&MapAsset { map: rows }), &cfg).unwrap();
    (cfg, map)
}

#[test]
fn tick_runs_gravity_intent_collision_and_commit() {
    let (cfg, map) = floor_world();
    let mut bundle = spawn_player();
    bundle.position = Vec3 { x: 0, y: 0, z: 2 };
    let report = tick(&cfg, &map, &input(1_000, 0), 100, &mut bundle);
    assert_eq!(bundle.velocity, velocity(150_000, -5_000));
    assert_eq!(
        report,
        TickReport {
            intended: Some(Vec3 { x: 15_000, y: -500, z: 0 }),
            applied: Some(Vec3 { x: 15_000, y: -500, z: 0 }),
            blocked_x: false,
            blocked_y: false,
        }
    );
    assert_eq!(bundle.position, Vec3 { x: 15_000, y: -500, z: 2 });
}

#[test]
fn tick_of_a_resting_player_without_gravity_does_nothing() {
    let (cfg, map) = floor_world();
    let mut bundle = spawn_player();
    bundle.gravity = None;
    bundle.position = Vec3 { x: 1_000_000, y: 0, z: 2 };
    let before = bundle;
    let report = tick(&cfg, &map, &no_input(), 16, &mut bundle);
    assert_eq!(
        report,
        TickReport { intended: None, applied: None, blocked_x: false, blocked_y: false }
    );
    assert_eq!(bundle, before);
}

#[test]
fn falling_player_comes_to_rest_above_the_floor() {
    let (cfg, map) = floor_world();
    let mut bundle = spawn_player();
    bundle.position = Vec3 { x: 0, y: 40_000, z: 2 };
    let floor_top = -4 * 16_000;
    let mut stopped = false;
    for _ in 0..2_000 {
        let report = tick(&cfg, &map, &no_input(), 16, &mut bundle);
        assert!(bundle.position.y - 16_000 >= floor_top);
        if report.blocked_y {
            assert_eq!(report.applied, Some(Vec3 { x: 0, y: 0, z: 0 }));
            stopped = true;
        }
    }
    assert!(stopped);
    let box_now = player_box(&cfg, &bundle.position);
    for t in map.tiles() {
        if t.tiletype != TileType::Background {
            assert!(!box_now.overlaps(&t.bounds));
        }
    }
}

#[test]
fn jump_lifts_the_player_once_per_press() {
    let (cfg, map) = floor_world();
    let mut bundle = spawn_player();
    bundle.position = Vec3 { x: 0, y: 0, z: 2 };
    tick(&cfg, &map, &input(0, 1_000), 16, &mut bundle);
    assert_eq!(bundle.velocity, velocity(0, 450_000));
    assert_eq!(bundle.position, Vec3 { x: 0, y: 7_200, z: 2 });
    tick(&cfg, &map, &input(0, 1_000), 16, &mut bundle);
    assert_eq!(bundle.velocity, velocity(0, 449_200));
    assert_eq!(bundle.position, Vec3 { x: 0, y: 7_200 + 7_187, z: 2 });
}

#[test]
fn position_stays_in_the_playable_arena_whatever_the_input() {
    let (cfg, map) = floor_world();
    let limit_x = (cfg.arena_half_w - cfg.player_half_w) as i64;
    let limit_y = (cfg.arena_half_h - cfg.player_half_h) as i64;
    let mut bundle = spawn_player();
    bundle.position = Vec3 { x: 0, y: 0, z: 2 };
    let inputs = [
        input(1_000, 0),
        input(1_000, 1_000),
        input(-1_000, 0),
        no_input(),
        input(-1_000, -1_000),
        input(707, 707),
    ];
    for step in 0..3_000usize {
        let dt = [16u32, 33, 1_000, 0, 250][step % 5];
        tick(&cfg, &map, &inputs[step % inputs.len()], dt, &mut bundle);
        assert!(-limit_x <= bundle.position.x && bundle.position.x <= limit_x);
        assert!(-limit_y <= bundle.position.y && bundle.position.y <= limit_y);
    }
}

#[test]
fn tick_leaves_animation_and_gravity_flag_alone() {
    let (cfg, map) = floor_world();
    let mut bundle = spawn_player();
    bundle.anim = PlayerAnim { anim: Animation::Walk, n_frames: 7 };
    bundle.sprite = SpriteFrame { index: 3, flip_x: true };
    tick(&cfg, &map, &input(-1_000, 500), 16, &mut bundle);
    assert_eq!(bundle.anim, PlayerAnim { anim: Animation::Walk, n_frames: 7 });
    assert_eq!(bundle.sprite, SpriteFrame { index: 3, flip_x: true });
    assert_eq!(bundle.gravity, Some(AffectedByGravity));
}
