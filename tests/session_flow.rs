use arena_combat::actors::{EnemyBundle, ENEMY_HP};
use arena_combat::geometry::Vec3i;
use arena_combat::player::{CameraBasis, MoveKeys};
use arena_combat::session::{AppState, Session, TickInput};

fn idle() -> TickInput {
    TickInput {
        start: false,
        restart: false,
        keys: MoveKeys { forward: false, back: false, left: false, right: false, sprint: false },
        stick: None,
        camera: CameraBasis { forward_x: 0, forward_z: -1000, right_x: 1000, right_z: 0 },
        trigger: false,
        cursor_toggle: false,
        camera_lock: None,
    }
}

#[test]
fn menu_game_over_menu_cycle() {
    let mut s = Session::new(false);
    assert_eq!(s.state, AppState::MainMenu);
    s.advance(16, idle());
    assert_eq!(s.state, AppState::MainMenu);
    s.advance(16, TickInput { start: true, ..idle() });
    assert_eq!(s.state, AppState::Game);
    assert_eq!(s.world.player.unwrap().hp, 100);
    // an enemy next to the player wears it down until the game ends
    let p = s.world.player.unwrap().position;
    s.world.spawn_enemy_at(Vec3i::new(p.x + 100, p.y, p.z), EnemyBundle::new(1_000_000));
    let mut ticks = 0;
    while s.state == AppState::Game && ticks < 20_000 {
        s.advance(100, idle());
        ticks += 1;
    }
    assert_eq!(s.state, AppState::GameOver);
    assert!(s.world.player.is_none());
    assert!(s.world.enemies.is_empty());
    s.advance(16, idle());
    assert_eq!(s.state, AppState::GameOver);
    s.advance(16, TickInput { restart: true, ..idle() });
    assert_eq!(s.state, AppState::MainMenu);
}

#[test]
fn entering_game_resets_session() {
    let mut s = Session::new(false);
    s.ctx.kills.0 = 42;
    s.ctx.enemy_hp.0 = 90;
    s.advance(16, TickInput { start: true, ..idle() });
    assert_eq!(s.ctx.kills.0, 0);
    assert_eq!(s.ctx.enemy_hp.0, ENEMY_HP);
    assert_eq!(s.ctx.spawn_timer.0.elapsed, 0);
}

#[test]
fn shooting_an_enemy_counts_a_kill() {
    let mut s = Session::new(false);
    s.advance(16, TickInput { start: true, ..idle() });
    let p = s.world.player.unwrap().position;
    s.world.spawn_enemy_at(Vec3i::new(p.x, p.y, p.z - 2000), EnemyBundle::new(25));
    let mut ticks = 0;
    while s.ctx.kills.0 == 0 && ticks < 100 {
        s.advance(10, TickInput { trigger: true, ..idle() });
        ticks += 1;
    }
    assert_eq!(s.ctx.kills.0, 1);
    s.advance(10, idle());
    assert!(s.world.enemies.iter().all(|e| e.hp > 0));
}

#[test]
fn debug_session_without_enemies_spawns_none() {
    let mut s = Session::new(true);
    s.advance(16, TickInput { start: true, ..idle() });
    for _ in 0..2000 {
        s.advance(100, idle());
    }
    assert_eq!(s.state, AppState::Game);
    assert!(s.world.enemies.is_empty());
}

#[test]
fn normal_session_spawns_enemies() {
    let mut s = Session::new(false);
    s.advance(16, TickInput { start: true, ..idle() });
    let mut ticks = 0;
    while s.world.enemies.is_empty() && ticks < 100 {
        s.advance(100, idle());
        ticks += 1;
    }
    assert!(!s.world.enemies.is_empty());
    assert_eq!(s.world.enemies[0].hp, ENEMY_HP);
}

#[test]
fn difficulty_rises_after_the_interval() {
    let mut s = Session::new(false);
    s.advance(16, TickInput { start: true, ..idle() });
    assert_eq!(s.ctx.enemy_hp.0, 50);
    s.difficulty_tick(29_000);
    assert_eq!(s.ctx.enemy_hp.0, 50);
    s.difficulty_tick(2_000);
    assert_eq!(s.ctx.enemy_hp.0, 60);
}

#[test]
fn spawn_tick_uses_the_baseline_at_spawn_time() {
    let mut s = Session::new(false);
    s.advance(16, TickInput { start: true, ..idle() });
    s.spawn_tick(3000);
    assert_eq!(s.world.enemies.len(), 1);
    assert_eq!(s.world.enemies[0].hp, 50);
    s.difficulty_tick(31_000);
    s.spawn_tick(3000);
    assert_eq!(s.world.enemies.len(), 2);
    assert_eq!(s.world.enemies[0].hp, 50);
    assert_eq!(s.world.enemies[1].hp, 60);
}

#[test]
fn resolve_combat_runs_all_steps() {
    let mut s = Session::new(false);
    s.advance(16, TickInput { start: true, ..idle() });
    let p = s.world.player.unwrap().position;
    // one enemy in melee reach, one shot from a projectile
    s.world.spawn_enemy_at(Vec3i::new(p.x + 200, p.y, p.z), EnemyBundle::new(25));
    s.world.spawn_projectile_at(Vec3i::new(p.x + 300, p.y, p.z), Vec3i::new(0, 0, 1000));
    s.resolve_combat(16);
    assert_eq!(s.world.player.unwrap().hp, 90);
    assert_eq!(s.world.enemies[0].hp, 0);
    assert!(s.world.enemies[0].doomed);
    assert!(s.world.projectiles[0].doomed);
    assert_eq!(s.ctx.kills.0, 1);
    s.observe_game_over();
    assert_eq!(s.state, AppState::Game);
}

#[test]
fn observe_game_over_ends_the_game() {
    let mut s = Session::new(false);
    s.advance(16, TickInput { start: true, ..idle() });
    s.game_over.publish(arena_combat::events::GameOver);
    s.observe_game_over();
    assert_eq!(s.state, AppState::GameOver);
    assert!(s.world.player.is_none());
}

#[test]
fn resolve_combat_without_player_does_nothing() {
    let mut s = Session::new(false);
    s.resolve_combat(16);
    assert_eq!(s.state, AppState::MainMenu);
    assert!(s.world.enemies.is_empty());
    assert_eq!(s.hits.event_count(), 0);
}
