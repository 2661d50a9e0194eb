use arena_combat::actors::{
    AttackRate, EnemyBundle, PlayerBundle, Stamina, ENEMY_DAMAGE, PLAYER_SPEED, STAMINA,
};
use arena_combat::debug::{
    shoot_projectile_condition, spawn_enemy_condition, unlock_cursor, unlock_cursor_condition,
    DebugProps, EnableDebugMode, IsDebugMode,
};
use arena_combat::enemy::{reset_hp, tracking, EnemyHp};
use arena_combat::events::{EventBus, EventCursor};
use arena_combat::geometry::{distance_sq, is_within, isqrt, normalize_flat, saturate_i32, Vec3i};
use arena_combat::player::{
    gamepad_movement, keyboard_movement, spawn_player, update_stamina, CameraBasis, MoveKeys,
    StickInput,
};
use arena_combat::projectile::{despawn_projectile, move_projectile, shoot_projectile, FireRate};
use arena_combat::timer::{Timer, TimerMode};
use arena_combat::world::World;

const CAM: CameraBasis = CameraBasis { forward_x: 0, forward_z: -1000, right_x: 1000, right_z: 0 };
const NO_KEYS: MoveKeys = MoveKeys { forward: false, back: false, left: false, right: false, sprint: false };

#[test]
fn repeating_timer_wraps_and_counts() {
    let mut t = Timer::new(1000, TimerMode::Repeating);
    t.tick(400);
    assert!(!t.finished() && !t.just_finished());
    assert_eq!(t.elapsed, 400);
    t.tick(2700);
    assert!(t.finished() && t.just_finished());
    assert_eq!(t.times_finished_this_tick, 3);
    assert_eq!(t.elapsed, 100);
    t.tick(10);
    assert!(!t.finished());
    assert_eq!(t.elapsed, 110);
}

#[test]
fn once_timer_stops_until_reset() {
    let mut t = Timer::new(1500, TimerMode::Once);
    t.tick(2000);
    assert!(t.finished() && t.just_finished());
    assert_eq!(t.elapsed, 1500);
    t.tick(100);
    assert!(t.finished() && !t.just_finished());
    assert_eq!(t.elapsed, 1500);
    t.reset();
    assert!(t.at_start() && !t.finished());
}

#[test]
fn timer_survives_huge_ticks() {
    let mut t = Timer::new(7, TimerMode::Repeating);
    t.tick(3);
    t.tick(u64::MAX);
    let total = 3u128 + u64::MAX as u128;
    assert_eq!(t.times_finished_this_tick as u128, total / 7);
    assert_eq!(t.times_finished_this_tick, 2635249153387078802);
    assert_eq!(t.elapsed as u128, total % 7);
}

#[test]
fn events_live_for_two_ticks() {
    let mut bus: EventBus<u32> = EventBus::new();
    let mut early = EventCursor::new();
    let mut late = EventCursor::new();
    bus.publish(1);
    assert_eq!(bus.drain(&mut early), vec![1]);
    bus.publish(2);
    bus.update();
    // visible during the next tick to a reader that has not seen them
    assert_eq!(bus.drain(&mut late), vec![1, 2]);
    assert_eq!(bus.drain(&mut early), vec![2]);
    bus.update();
    bus.publish(3);
    let mut fresh = EventCursor::new();
    assert_eq!(bus.drain(&mut fresh), vec![3]);
    assert_eq!(bus.drain(&mut early), vec![3]);
    assert!(bus.drain(&mut early).is_empty());
}

#[test]
fn missed_events_are_lost_after_two_ticks() {
    let mut bus: EventBus<u32> = EventBus::new();
    let mut slow = EventCursor::new();
    bus.publish(10);
    bus.update();
    bus.update();
    bus.publish(11);
    assert_eq!(bus.drain(&mut slow), vec![11]);
    assert_eq!(slow.next, 2);
}

#[test]
fn integer_geometry() {
    assert_eq!(isqrt(0), 0);
    assert_eq!(isqrt(15), 3);
    assert_eq!(isqrt(16), 4);
    assert_eq!(isqrt(u128::MAX), u64::MAX as u128);
    let a = Vec3i::new(0, 0, 0);
    let b = Vec3i::new(3, 4, 12);
    assert_eq!(distance_sq(&a, &b), 169);
    assert!(is_within(&a, &b, 14));
    assert!(!is_within(&a, &b, 13));
    assert_eq!(saturate_i32(1 << 40), i32::MAX);
    assert_eq!(saturate_i32(-(1 << 40)), i32::MIN);
    assert_eq!(normalize_flat(3, 4), Vec3i::new(600, 0, 800));
    assert_eq!(normalize_flat(0, -5), Vec3i::new(0, 0, -1000));
    assert_eq!(normalize_flat(0, 0), Vec3i::new(0, 0, 0));
}

#[test]
fn bundles_start_as_specified() {
    let e = EnemyBundle::new(70);
    assert_eq!(e.hp, 70);
    assert_eq!(e.damage, ENEMY_DAMAGE);
    assert_eq!(e.attack_rate, AttackRate::default());
    let p = PlayerBundle::default();
    assert_eq!(p.hp, 100);
    assert_eq!(p.damage, 25);
    assert_eq!(p.stamina, Stamina::new(STAMINA));
    assert_eq!(p.stamina.value, 200_000_000);
    let mut hp = EnemyHp(90);
    reset_hp(&mut hp);
    assert_eq!(hp.0, 50);
}

#[test]
fn keyboard_walks_relative_to_camera() {
    let mut w = World::new();
    spawn_player(&mut w);
    let keys = MoveKeys { forward: true, ..NO_KEYS };
    let face = keyboard_movement(&mut w, keys, CAM, 1000);
    let p = w.player.unwrap();
    assert_eq!(p.position, Vec3i::new(0, 250, -(PLAYER_SPEED as i32)));
    assert_eq!(face, Some(Vec3i::new(0, 0, -1000)));
    assert!(!p.is_sprinting.0);
    let keys = MoveKeys { right: true, sprint: true, ..NO_KEYS };
    keyboard_movement(&mut w, keys, CAM, 100);
    let p = w.player.unwrap();
    assert_eq!(p.position, Vec3i::new(1250, 250, -2500));
    assert!(p.is_sprinting.0);
    assert_eq!(keyboard_movement(&mut w, NO_KEYS, CAM, 100), None);
}

#[test]
fn gamepad_has_a_dead_zone() {
    let mut w = World::new();
    spawn_player(&mut w);
    let small = StickInput { x: 300, y: 300, sprint: false };
    assert_eq!(gamepad_movement(&mut w, small, CAM, 1000), None);
    assert_eq!(w.player.unwrap().position, Vec3i::new(0, 250, 0));
    let full = StickInput { x: 0, y: 1000, sprint: false };
    assert_eq!(gamepad_movement(&mut w, full, CAM, 1000), Some(Vec3i::new(0, 0, -1000)));
    assert_eq!(w.player.unwrap().position, Vec3i::new(0, 250, -2500));
}

#[test]
fn stamina_drains_then_regenerates() {
    let mut w = World::new();
    spawn_player(&mut w);
    let keys = MoveKeys { forward: true, sprint: true, ..NO_KEYS };
    keyboard_movement(&mut w, keys, CAM, 16);
    update_stamina(&mut w, 16);
    let p = w.player.unwrap();
    assert_eq!(p.stamina.value, STAMINA - 100);
    assert!(!p.is_sprinting.0);
    update_stamina(&mut w, 1500);
    assert!(w.player.unwrap().stamina.regen_time.just_finished());
    update_stamina(&mut w, 16);
    assert_eq!(w.player.unwrap().stamina.value, STAMINA - 75);
}

#[test]
fn shooting_follows_the_fire_rate() {
    let mut w = World::new();
    spawn_player(&mut w);
    let mut rate = FireRate::new();
    let face = shoot_projectile(&mut w, &mut rate, true, 0, 1000, 100);
    assert_eq!(face, Some(Vec3i::new(0, 0, -1000)));
    assert_eq!(w.projectiles.len(), 1);
    assert_eq!(w.projectiles[0].direction, Vec3i::new(0, 0, 1000));
    assert!(w.player.unwrap().is_shooting.0);
    assert_eq!(shoot_projectile(&mut w, &mut rate, true, 0, 1000, 40), None);
    assert_eq!(w.projectiles.len(), 1);
    shoot_projectile(&mut w, &mut rate, true, 0, 1000, 10);
    assert_eq!(w.projectiles.len(), 1);
    // the timer crossed its duration on the previous tick
    shoot_projectile(&mut w, &mut rate, true, 0, 1000, 10);
    assert_eq!(w.projectiles.len(), 2);
    shoot_projectile(&mut w, &mut rate, false, 0, 1000, 10);
    assert!(!w.player.unwrap().is_shooting.0);
    assert!(rate.0.at_start());
}

#[test]
fn projectiles_fly_and_leave_the_map() {
    let mut w = World::new();
    w.spawn_projectile_at(Vec3i::new(0, 250, 12000), Vec3i::new(0, 0, -1000));
    move_projectile(&mut w, 100);
    assert_eq!(w.projectiles[0].position, Vec3i::new(0, 250, 14500));
    despawn_projectile(&mut w);
    assert!(w.projectiles[0].doomed);
}

#[test]
fn enemies_walk_toward_the_player() {
    let mut w = World::new();
    spawn_player(&mut w);
    w.spawn_enemy_at(Vec3i::new(3000, 250, 4000), EnemyBundle::new(50));
    tracking(&mut w, 1000);
    assert_eq!(w.enemies[0].position, Vec3i::new(2400, 250, 3200));
}

#[test]
fn debug_switches() {
    let props = DebugProps::default();
    assert!(spawn_enemy_condition(&props, &EnableDebugMode::new(false)));
    assert!(!spawn_enemy_condition(&props, &EnableDebugMode::new(true)));
    let allowed = DebugProps { enemies: true, ..props };
    assert!(spawn_enemy_condition(&allowed, &EnableDebugMode::new(true)));
    assert!(IsDebugMode::new(true).0);
    let mut p = DebugProps::default();
    assert!(unlock_cursor_condition(&p));
    assert!(unlock_cursor(&mut p, true));
    assert!(!unlock_cursor_condition(&p));
    assert!(unlock_cursor(&mut p, false));
    assert!(!unlock_cursor(&mut p, true));
    assert!(shoot_projectile_condition(&EnableDebugMode::new(false), Some(false)));
    assert!(!shoot_projectile_condition(&EnableDebugMode::new(true), Some(false)));
    assert!(shoot_projectile_condition(&EnableDebugMode::new(true), None));
}
