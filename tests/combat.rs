use arena_combat::actors::{EnemyBundle, Projectile, ENEMY_HP, MAP_HALF, PLAYER_HP};
use arena_combat::debug::{DebugProps, EnableDebugMode};
use arena_combat::enemy::{
    attack, decrease_hp as enemy_decrease_hp, despawn, increase_hp_over_time, spawn_enemy,
    spawn_enemy_at, EnemyHp, EnemySpawnTimer, RaiseDifficultyTimer, HP_GAIN,
};
use arena_combat::events::{EnemyDeathEv, EventBus, EventCursor, GameOver, HitEv, HitPlayerEv};
use arena_combat::geometry::Vec3i;
use arena_combat::player::{
    decrease_hp as player_decrease_hp, increase_killcount, player_death, reset_killcount,
    spawn_player, KillCount,
};
use arena_combat::projectile::hit_enemy;
use arena_combat::timer::{Timer, TimerMode};
use arena_combat::world::World;

fn world_with_player() -> World {
    let mut w = World::new();
    spawn_player(&mut w);
    w
}

#[test]
fn baseline_scales_new_enemies_only() {
    let mut w = World::new();
    let mut hp = EnemyHp(50);
    let mut difficulty = RaiseDifficultyTimer(Timer::new(30_000, TimerMode::Repeating));
    let mut spawn_timer = EnemySpawnTimer(Timer::new(1000, TimerMode::Repeating));
    // t = 0: an enemy spawns with the starting baseline.
    let first = spawn_enemy_at(&mut w, &mut spawn_timer, &hp, true, 1000, 0, 0);
    assert_eq!(first, Some(0));
    assert_eq!(w.enemies[0].hp, 50);
    // t = 31 s: the baseline has risen once.
    increase_hp_over_time(&mut difficulty, &mut hp, 31_000);
    assert_eq!(hp.0, 50 + HP_GAIN);
    assert_eq!(hp.0, 60);
    let second = spawn_enemy_at(&mut w, &mut spawn_timer, &hp, true, 1000, 100, 100);
    assert_eq!(second, Some(1));
    assert_eq!(w.enemies[1].hp, 60);
    assert_eq!(w.enemies[0].hp, 50);
}

#[test]
fn two_hits_kill_once() {
    let mut w = world_with_player();
    assert_eq!(w.player.unwrap().damage, 25);
    w.spawn_enemy_at(Vec3i::new(5000, 500, 5000), EnemyBundle::new(50));
    let handle = w.enemies[0].handle;
    let mut hits: EventBus<HitEv> = EventBus::new();
    let mut deaths: EventBus<EnemyDeathEv> = EventBus::new();
    let mut reader = EventCursor::new();
    hits.publish(HitEv { dmg: 25, ent: handle });
    hits.publish(HitEv { dmg: 25, ent: handle });
    enemy_decrease_hp(&mut w, &hits, &mut reader, &mut deaths);
    assert_eq!(w.enemies[0].hp, 0);
    let mut death_reader = EventCursor::new();
    assert_eq!(deaths.drain(&mut death_reader), vec![EnemyDeathEv(handle)]);
}

#[test]
fn dead_enemy_does_not_die_again() {
    let mut w = world_with_player();
    w.spawn_enemy_at(Vec3i::new(5000, 500, 5000), EnemyBundle::new(30));
    let handle = w.enemies[0].handle;
    let mut hits: EventBus<HitEv> = EventBus::new();
    let mut deaths: EventBus<EnemyDeathEv> = EventBus::new();
    let mut reader = EventCursor::new();
    for _ in 0..4 {
        hits.publish(HitEv { dmg: 25, ent: handle });
    }
    enemy_decrease_hp(&mut w, &hits, &mut reader, &mut deaths);
    // a later tick brings more hits on the same, already dead, enemy
    hits.update();
    deaths.update();
    hits.publish(HitEv { dmg: 25, ent: handle });
    enemy_decrease_hp(&mut w, &hits, &mut reader, &mut deaths);
    assert_eq!(w.enemies[0].hp, 0);
    let mut death_reader = EventCursor::new();
    assert_eq!(deaths.drain(&mut death_reader).len(), 1);
}

#[test]
fn enemy_health_floors_at_zero() {
    let mut w = world_with_player();
    w.spawn_enemy_at(Vec3i::new(0, 500, 9000), EnemyBundle::new(50));
    w.spawn_enemy_at(Vec3i::new(0, 500, -9000), EnemyBundle::new(50));
    let mut hits: EventBus<HitEv> = EventBus::new();
    let mut deaths: EventBus<EnemyDeathEv> = EventBus::new();
    let mut reader = EventCursor::new();
    hits.publish(HitEv { dmg: u64::MAX, ent: 0 });
    hits.publish(HitEv { dmg: 20, ent: 1 });
    enemy_decrease_hp(&mut w, &hits, &mut reader, &mut deaths);
    assert_eq!(w.enemies[0].hp, 0);
    assert_eq!(w.enemies[1].hp, 30);
}

#[test]
fn player_health_floors_at_zero() {
    let mut w = world_with_player();
    let mut hits: EventBus<HitPlayerEv> = EventBus::new();
    let mut reader = EventCursor::new();
    hits.publish(HitPlayerEv(60));
    hits.publish(HitPlayerEv(60));
    hits.publish(HitPlayerEv(60));
    player_decrease_hp(&mut w, &hits, &mut reader);
    assert_eq!(w.player.unwrap().hp, 0);
}

#[test]
fn player_takes_damage_in_order() {
    let mut w = world_with_player();
    let mut hits: EventBus<HitPlayerEv> = EventBus::new();
    let mut reader = EventCursor::new();
    hits.publish(HitPlayerEv(10));
    hits.publish(HitPlayerEv(15));
    player_decrease_hp(&mut w, &hits, &mut reader);
    assert_eq!(w.player.unwrap().hp, PLAYER_HP - 25);
    // the same events are not applied twice
    player_decrease_hp(&mut w, &hits, &mut reader);
    assert_eq!(w.player.unwrap().hp, 75);
}

#[test]
fn game_over_once_per_zero_crossing() {
    let mut w = world_with_player();
    let mut over: EventBus<GameOver> = EventBus::new();
    let mut hits: EventBus<HitPlayerEv> = EventBus::new();
    let mut reader = EventCursor::new();
    hits.publish(HitPlayerEv(500));
    let before = w.player.unwrap().hp;
    player_decrease_hp(&mut w, &hits, &mut reader);
    player_death(&w, before, &mut over);
    // next tick: still at zero, no second event
    let before = w.player.unwrap().hp;
    player_death(&w, before, &mut over);
    let mut r = EventCursor::new();
    assert_eq!(over.drain(&mut r), vec![GameOver]);
}

#[test]
fn melee_cooldown_three_and_a_half_seconds() {
    let mut w = world_with_player();
    let p = w.player.unwrap().position;
    w.spawn_enemy_at(Vec3i::new(p.x + 300, p.y, p.z), EnemyBundle::new(50));
    assert_eq!(w.enemies[0].damage, 10);
    assert_eq!(w.enemies[0].attack_rate.timer.duration, 1000);
    let mut bus: EventBus<HitPlayerEv> = EventBus::new();
    let mut reader = EventCursor::new();
    let mut strikes = 0;
    let mut ticks = 0;
    while ticks < 35 {
        attack(&mut w, 100, &mut bus);
        let got = bus.drain(&mut reader);
        for ev in &got {
            assert_eq!(ev.0, 10);
        }
        assert!(got.len() <= 1);
        strikes += got.len();
        bus.update();
        ticks += 1;
    }
    assert!(strikes == 3 || strikes == 4);
    assert_eq!(strikes, 4);
}

#[test]
fn melee_out_of_reach_does_nothing() {
    let mut w = world_with_player();
    w.spawn_enemy_at(Vec3i::new(3000, 250, 0), EnemyBundle::new(50));
    let mut bus: EventBus<HitPlayerEv> = EventBus::new();
    attack(&mut w, 100, &mut bus);
    let mut r = EventCursor::new();
    assert!(bus.drain(&mut r).is_empty());
    assert_eq!(w.enemies[0].attack_rate.timer.elapsed, 0);
    assert!(!w.enemies[0].attack_rate.cooling);
}

#[test]
fn one_strike_within_a_cooldown_under_slow_frames() {
    let mut w = world_with_player();
    let p = w.player.unwrap().position;
    w.spawn_enemy_at(Vec3i::new(p.x, p.y, p.z + 200), EnemyBundle::new(50));
    let mut bus: EventBus<HitPlayerEv> = EventBus::new();
    let mut reader = EventCursor::new();
    let mut strikes = 0;
    for dt in [600u64, 300, 99] {
        attack(&mut w, dt, &mut bus);
        strikes += bus.drain(&mut reader).len();
        bus.update();
    }
    assert_eq!(strikes, 1);
    attack(&mut w, 1, &mut bus);
    attack(&mut w, 1, &mut bus);
    strikes += bus.drain(&mut reader).len();
    assert_eq!(strikes, 2);
}

#[test]
fn projectile_hits_every_enemy_in_reach() {
    let mut w = world_with_player();
    w.spawn_enemy_at(Vec3i::new(1000, 500, 1000), EnemyBundle::new(50));
    w.spawn_enemy_at(Vec3i::new(1200, 500, 1000), EnemyBundle::new(50));
    w.spawn_enemy_at(Vec3i::new(-8000, 500, 1000), EnemyBundle::new(50));
    w.spawn_projectile_at(Vec3i::new(1100, 500, 1000), Vec3i::new(0, 0, 1000));
    let mut bus: EventBus<HitEv> = EventBus::new();
    hit_enemy(&mut w, &mut bus);
    let mut r = EventCursor::new();
    let got = bus.drain(&mut r);
    assert_eq!(
        got,
        vec![HitEv { dmg: 25, ent: 0 }, HitEv { dmg: 25, ent: 1 }]
    );
    assert!(w.projectiles[0].doomed);
    w.apply_despawns();
    assert!(w.projectiles.is_empty());
    assert_eq!(w.enemies.len(), 3);
}

#[test]
fn projectile_without_player_is_inert() {
    let mut w = World::new();
    w.spawn_enemy_at(Vec3i::new(0, 500, 0), EnemyBundle::new(50));
    w.spawn_projectile_at(Vec3i::new(0, 500, 0), Vec3i::new(0, 0, 1000));
    let mut bus: EventBus<HitEv> = EventBus::new();
    hit_enemy(&mut w, &mut bus);
    assert_eq!(bus.event_count(), 0);
    assert!(!w.projectiles[0].doomed);
}

#[test]
fn kill_count_adds_deaths_read() {
    let mut kills = KillCount(7);
    let mut deaths: EventBus<EnemyDeathEv> = EventBus::new();
    let mut reader = EventCursor::new();
    deaths.publish(EnemyDeathEv(1));
    deaths.publish(EnemyDeathEv(2));
    deaths.publish(EnemyDeathEv(3));
    increase_killcount(&mut kills, &deaths, &mut reader);
    assert_eq!(kills.0, 10);
    increase_killcount(&mut kills, &deaths, &mut reader);
    assert_eq!(kills.0, 10);
    reset_killcount(&mut kills);
    assert_eq!(kills.0, 0);
}

#[test]
fn kill_count_stops_at_max() {
    let mut kills = KillCount(u64::MAX - 1);
    let mut deaths: EventBus<EnemyDeathEv> = EventBus::new();
    let mut reader = EventCursor::new();
    deaths.publish(EnemyDeathEv(1));
    deaths.publish(EnemyDeathEv(2));
    increase_killcount(&mut kills, &deaths, &mut reader);
    assert_eq!(kills.0, u64::MAX);
}

#[test]
fn deaths_mark_enemies_for_removal() {
    let mut w = world_with_player();
    w.spawn_enemy_at(Vec3i::new(0, 500, 3000), EnemyBundle::new(50));
    w.spawn_enemy_at(Vec3i::new(0, 500, -3000), EnemyBundle::new(50));
    let mut deaths: EventBus<EnemyDeathEv> = EventBus::new();
    let mut reader = EventCursor::new();
    deaths.publish(EnemyDeathEv(1));
    despawn(&mut w, &deaths, &mut reader);
    assert!(!w.enemies[0].doomed);
    assert!(w.enemies[1].doomed);
    assert_eq!(w.enemies.len(), 2);
    w.apply_despawns();
    assert_eq!(w.enemies.len(), 1);
    assert_eq!(w.enemies[0].handle, 0);
}

#[test]
fn spawn_needs_the_timer_edge() {
    let mut w = World::new();
    let hp = EnemyHp(ENEMY_HP);
    let mut t = EnemySpawnTimer(Timer::new(3000, TimerMode::Repeating));
    assert_eq!(spawn_enemy_at(&mut w, &mut t, &hp, true, 2000, 1, 2), None);
    assert!(w.enemies.is_empty());
    assert_eq!(spawn_enemy_at(&mut w, &mut t, &hp, true, 1000, 1, 2), Some(0));
    assert_eq!(w.enemies[0].position, Vec3i::new(1, 500, 2));
    assert_eq!(spawn_enemy_at(&mut w, &mut t, &hp, false, 3000, 1, 2), None);
    assert_eq!(w.enemies.len(), 1);
}

#[test]
fn debug_mode_without_enemies_never_spawns() {
    let mut w = World::new();
    let hp = EnemyHp(ENEMY_HP);
    let mut t = EnemySpawnTimer::new();
    let props = DebugProps { enemies: false, lock_cursor: true };
    let on = EnableDebugMode::new(true);
    for _ in 0..1000 {
        assert_eq!(spawn_enemy(&mut w, &mut t, &hp, &props, &on, 500), None);
    }
    assert!(w.enemies.is_empty());
}

#[test]
fn spawn_positions_are_random_within_the_map() {
    let mut w = World::new();
    let hp = EnemyHp(ENEMY_HP);
    let mut t = EnemySpawnTimer(Timer::new(10, TimerMode::Repeating));
    let props = DebugProps::default();
    let off = EnableDebugMode::new(false);
    for _ in 0..64 {
        assert!(spawn_enemy(&mut w, &mut t, &hp, &props, &off, 10).is_some());
    }
    assert_eq!(w.enemies.len(), 64);
    let mut distinct = false;
    for e in &w.enemies {
        assert!(e.position.x >= -MAP_HALF && e.position.x <= MAP_HALF);
        assert!(e.position.z >= -MAP_HALF && e.position.z <= MAP_HALF);
        assert_eq!(e.position.y, 500);
        assert_eq!(e.hp, ENEMY_HP);
        if e.position.x != -MAP_HALF || e.position.z != -MAP_HALF {
            distinct = true;
        }
    }
    assert!(distinct);
    let first = w.enemies[0].position;
    assert!(w.enemies.iter().any(|e| e.position != first));
}

#[test]
fn removed_projectiles_leave_others() {
    let mut w = World::new();
    w.spawn_projectile_at(Vec3i::new(0, 0, 0), Vec3i::new(1000, 0, 0));
    w.spawn_projectile_at(Vec3i::new(0, 0, 0), Vec3i::new(0, 0, 1000));
    w.projectiles[0] = Projectile { doomed: true, ..w.projectiles[0] };
    w.apply_despawns();
    assert_eq!(w.projectiles.len(), 1);
    assert_eq!(w.projectiles[0].handle, 1);
}

#[test]
fn zero_length_ticks_do_not_repeat_a_strike() {
    let mut w = world_with_player();
    let p = w.player.unwrap().position;
    w.spawn_enemy_at(Vec3i::new(p.x + 100, p.y, p.z), EnemyBundle::new(50));
    let mut bus: EventBus<HitPlayerEv> = EventBus::new();
    let mut reader = EventCursor::new();
    let mut strikes = 0;
    for _ in 0..10 {
        attack(&mut w, 0, &mut bus);
        strikes += bus.drain(&mut reader).len();
        bus.update();
    }
    assert_eq!(strikes, 1);
    assert!(w.enemies[0].attack_rate.cooling);
    attack(&mut w, 1000, &mut bus);
    assert!(!w.enemies[0].attack_rate.cooling);
    attack(&mut w, 0, &mut bus);
    strikes += bus.drain(&mut reader).len();
    assert_eq!(strikes, 2);
}
