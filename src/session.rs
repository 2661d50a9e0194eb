use crate::actors::{
    Enemy, EnemyBundle, Player, Projectile, ENEMY_HP, ENEMY_SPAWN_HEIGHT, FIRE_RATE, MAP_HALF,
};
use crate::debug::{
    shoot_projectile_condition, shooting_permitted, spawn_permitted, unlock_cursor, DebugProps,
    EnableDebugMode,
};
use crate::enemy::{
    after_hits, attack, attacked, baseline_after, deaths_from, decrease_hp as enemy_decrease_hp, despawn,
    doomed_by, enemies_pursued, increase_hp_over_time, reset_hp, spawn_enemy, strikes_of, tracking, EnemyHp,
    EnemySpawnTimer, RaiseDifficultyTimer, DIFFICULTY_INTERVAL, ENEMY_SPAWN_INTERVAL, HP_GAIN,
};
use crate::events::{EnemyDeathEv, EventBus, EventCursor, GameOver, HitEv, HitPlayerEv};
use crate::geometry::Vec3i;
use crate::laws::lemma_hits_keep_enemies;
use crate::player::{
    decrease_hp as player_decrease_hp, gamepad_movement, hp_after, increase_killcount,
    gamepad_moved, keyboard_moved, keyboard_movement, player_death, reset_killcount, spawn_player,
    stamina_updated, update_stamina, CameraBasis, KillCount, MoveKeys, StickInput,
};
use crate::projectile::{
    despawn_projectile, hit_enemy, move_projectile, projectile_hits, projectiles_bounded,
    projectiles_flown, shoot_projectile, shot, spent, FireRate,
};
use crate::timer::{Timer, TimerMode};
use crate::world::{enemy_alive, player_start, projectile_alive, World};
use vstd::prelude::*;

verus! {

/// Where the game flow stands.
#[derive(Clone, Copy, Debug, PartialEq, Eq, Structural)]
pub enum AppState {
    MainMenu,
    Game,
    GameOver,
}

/// Resources that live as long as one game: the kill count, the difficulty
/// baseline and the timers of spawning, difficulty and firing.
#[derive(Clone, Copy, Debug, PartialEq, Eq, Structural)]
pub struct SessionContext {
    pub kills: KillCount,
    pub enemy_hp: EnemyHp,
    pub spawn_timer: EnemySpawnTimer,
    pub difficulty_timer: RaiseDifficultyTimer,
    pub fire_rate: FireRate,
}

impl SessionContext {
    pub open spec fn wf(self) -> bool {
        &&& self.spawn_timer.0.wf()
        &&& self.difficulty_timer.0.wf()
        &&& self.fire_rate.0.wf()
    }

    /// The resources at the start of a game.
    pub open spec fn fresh() -> SessionContext {
        SessionContext {
            kills: KillCount(0),
            enemy_hp: EnemyHp(ENEMY_HP),
            spawn_timer: EnemySpawnTimer(Timer::new_spec(ENEMY_SPAWN_INTERVAL, TimerMode::Repeating)),
            difficulty_timer: RaiseDifficultyTimer(
                Timer::new_spec(DIFFICULTY_INTERVAL, TimerMode::Repeating),
            ),
            fire_rate: FireRate(Timer::new_spec(FIRE_RATE, TimerMode::Repeating)),
        }
    }

    pub fn new() -> (c: SessionContext)
        ensures
            c == SessionContext::fresh(),
            c.wf(),
    {
        let mut kills = KillCount(0);
        reset_killcount(&mut kills);
        let mut enemy_hp = EnemyHp(0);
        reset_hp(&mut enemy_hp);
        SessionContext {
            kills,
            enemy_hp,
            spawn_timer: EnemySpawnTimer::new(),
            difficulty_timer: RaiseDifficultyTimer::new(),
            fire_rate: FireRate::new(),
        }
    }
}

/// What the host hands the simulation each tick.
#[derive(Clone, Copy, Debug, PartialEq, Eq, Structural)]
pub struct TickInput {
    /// Leave the main menu and start a game.
    pub start: bool,
    /// Leave the game-over screen for the main menu.
    pub restart: bool,
    pub keys: MoveKeys,
    /// The gamepad's stick, when a gamepad is connected.
    pub stick: Option<StickInput>,
    pub camera: CameraBasis,
    /// The fire trigger is held.
    pub trigger: bool,
    /// The debug key that toggles the cursor lock was just pressed.
    pub cursor_toggle: bool,
    /// Whether the camera holds the cursor, when there is a camera.
    pub camera_lock: Option<bool>,
}

/// What the simulation hands back to the host after a tick.
#[derive(Clone, Copy, Debug, PartialEq, Eq, Structural)]
pub struct TickOutput {
    /// Direction the player's model should turn to face.
    pub facing: Option<Vec3i>,
    /// The cursor must be released and shown.
    pub release_cursor: bool,
}

/// A whole simulation: game flow, actors, session resources, debug
/// switches, and the event queues with the simulation's own read positions.
pub struct Session {
    pub state: AppState,
    pub world: World,
    pub ctx: SessionContext,
    pub debug_enable: EnableDebugMode,
    pub debug_props: DebugProps,
    pub hits: EventBus<HitEv>,
    pub player_hits: EventBus<HitPlayerEv>,
    pub deaths: EventBus<EnemyDeathEv>,
    pub game_over: EventBus<GameOver>,
    pub hit_reader: EventCursor,
    pub player_hit_reader: EventCursor,
    pub kill_reader: EventCursor,
    pub despawn_reader: EventCursor,
    pub game_over_reader: EventCursor,
}

impl Session {
    pub open spec fn wf(self) -> bool {
        &&& self.world.wf()
        &&& self.ctx.wf()
        &&& self.hits.wf()
        &&& self.player_hits.wf()
        &&& self.deaths.wf()
        &&& self.game_over.wf()
        &&& self.state == AppState::Game ==> self.world.player is Some
        &&& self.state != AppState::Game ==> {
            &&& self.world.player is None
            &&& self.world.enemies@.len() == 0
            &&& self.world.projectiles@.len() == 0
        }
    }

    /// A simulation in the main menu; `debug` is fixed for its whole life.
    pub fn new(debug: bool) -> (s: Session)
        ensures
            s.wf(),
            s.state == AppState::MainMenu,
            s.debug_enable.0 == debug,
            !s.debug_props.enemies && s.debug_props.lock_cursor,
            s.ctx == SessionContext::fresh(),
            s.world.player is None,
            s.world.enemies@.len() == 0,
            s.world.projectiles@.len() == 0,
    {
        Session {
            state: AppState::MainMenu,
            world: World::new(),
            ctx: SessionContext::new(),
            debug_enable: EnableDebugMode::new(debug),
            debug_props: DebugProps::default(),
            hits: EventBus::new(),
            player_hits: EventBus::new(),
            deaths: EventBus::new(),
            game_over: EventBus::new(),
            hit_reader: EventCursor::new(),
            player_hit_reader: EventCursor::new(),
            kill_reader: EventCursor::new(),
            despawn_reader: EventCursor::new(),
            game_over_reader: EventCursor::new(),
        }
    }

    /// Starts a game: fresh session resources, no enemies or projectiles
    /// left from before, and the player at its starting point.
    pub fn enter_game(&mut self)
        requires
            old(self).wf(),
        ensures
            final(self).wf(),
            final(self).state == AppState::Game,
            final(self).ctx == SessionContext::fresh(),
            final(self).world.player == Some(player_start()),
            final(self).world.enemies@ == Seq::<Enemy>::empty(),
            final(self).world.projectiles@ == Seq::<Projectile>::empty(),
            final(self).debug_enable == old(self).debug_enable,
            final(self).debug_props == old(self).debug_props,
            *final(self) == (Session {
                state: AppState::Game,
                world: final(self).world,
                ctx: SessionContext::fresh(),
                ..*old(self)
            }),
    {
        self.world.despawn_game();
        self.ctx = SessionContext::new();
        spawn_player(&mut self.world);
        self.state = AppState::Game;
    }

    /// Ends a game: every actor of it is removed.
    pub fn exit_game(&mut self, next: AppState)
        requires
            old(self).wf(),
            next != AppState::Game,
        ensures
            final(self).wf(),
            final(self).state == next,
            final(self).world.player is None,
            final(self).world.enemies@ == Seq::<Enemy>::empty(),
            final(self).world.projectiles@ == Seq::<Projectile>::empty(),
            final(self).ctx == old(self).ctx,
            final(self).debug_enable == old(self).debug_enable,
            final(self).debug_props == old(self).debug_props,
            *final(self) == (Session { state: next, world: final(self).world, ..*old(self) }),
            final(self).world.next_handle == old(self).world.next_handle,
    {
        self.world.despawn_game();
        self.state = next;
    }

    /// Runs one tick of `dt` milliseconds.
    ///
    /// In the main menu a start signal begins a game; on the game-over screen
    /// a restart signal returns to the main menu. During a game the tick
    /// moves the actors, resolves combat (projectile hits, enemy strikes,
    /// enemy damage and deaths, player damage, kills and removals, player
    /// death), spawns enemies and raises the difficulty, and ends the game
    /// once a `GameOver` event is seen. Removals requested during the tick
    /// take effect at its end, and the event queues then move on.
    pub fn advance(&mut self, dt: u32, input: TickInput) -> (out: TickOutput)
        requires
            old(self).wf(),
        ensures
            final(self).wf(),
            final(self).debug_enable == old(self).debug_enable,
            old(self).state == AppState::MainMenu && input.start ==> {
                &&& final(self).state == AppState::Game
                &&& final(self).ctx == SessionContext::fresh()
                &&& final(self).world.player == Some(player_start())
                &&& final(self).world.enemies@.len() == 0
                &&& final(self).world.projectiles@.len() == 0
                &&& exists|m: Session|
                    #![trigger tick_ended(m, *final(self))]
                    m == (Session {
                        state: AppState::Game,
                        world: m.world,
                        ctx: SessionContext::fresh(),
                        ..*old(self)
                    }) && tick_ended(m, *final(self))
            },
            old(self).state == AppState::MainMenu && !input.start ==> tick_ended(
                *old(self),
                *final(self),
            ),
            old(self).state == AppState::GameOver ==> tick_ended(
                Session {
                    state: if input.restart {
                        AppState::MainMenu
                    } else {
                        AppState::GameOver
                    },
                    ..*old(self)
                },
                *final(self),
            ),
            old(self).state == AppState::Game ==> {
                &&& game_ticked(*old(self), *final(self), dt, input, out)
                &&& final(self).state == AppState::Game || final(self).state == AppState::GameOver
                &&& final(self).ctx.kills.0 >= old(self).ctx.kills.0
                &&& final(self).ctx.enemy_hp.0 >= old(self).ctx.enemy_hp.0
            },
            old(self).state != AppState::Game ==> out == (TickOutput {
                facing: None,
                release_cursor: false,
            }),
            final(self).debug_props.enemies == old(self).debug_props.enemies,
            old(self).debug_enable.0 && !old(self).debug_props.enemies
                ==> final(self).world.enemies@.len() <= old(self).world.enemies@.len(),
    {
        let out = TickOutput { facing: None, release_cursor: false };
        match self.state {
            AppState::MainMenu => {
                if input.start {
                    self.enter_game();
                }
                let ghost m = *self;
                self.end_tick();
                assert(tick_ended(m, *self));
                out
            },
            AppState::GameOver => {
                if input.restart {
                    self.state = AppState::MainMenu;
                }
                self.end_tick();
                out
            },
            AppState::Game => {
                let ghost o = *self;
                let r = self.game_tick(dt, input);
                proof {
                    lemma_game_tick_bounds(o, *self, dt, input, r);
                }
                r
            },
        }
    }

    /// The tick boundary: requested removals take effect and every event
    /// queue moves on by one tick.
    fn end_tick(&mut self)
        requires
            old(self).wf(),
        ensures
            tick_ended(*old(self), *final(self)),
    {
        self.world.apply_despawns();
        self.hits.update();
        self.player_hits.update();
        self.deaths.update();
        self.game_over.update();
    }

    /// Resolves one tick of combat, in this order: projectiles hit the
    /// enemies they touch; enemies in reach strike the player as their
    /// cooldowns allow; hits lower enemy health, with one death for each
    /// enemy whose health reaches zero; strikes lower the player's health,
    /// floored at zero; deaths count as kills and mark their enemies for
    /// removal; and `GameOver` is published when the player's health has
    /// just reached zero. Without a player it does nothing.
    pub fn resolve_combat(&mut self, dt: u64)
        requires
            old(self).wf(),
        ensures
            combat_resolved(*old(self), *final(self), dt),
    {
        if self.world.player.is_none() {
            return ;
        }
        hit_enemy(&mut self.world, &mut self.hits);
        attack(&mut self.world, dt, &mut self.player_hits);
        let ghost before_hits = self.world.enemies@;
        let ghost hit_cursor = self.hit_reader;
        enemy_decrease_hp(&mut self.world, &self.hits, &mut self.hit_reader, &mut self.deaths);
        proof {
            lemma_hits_keep_enemies(before_hits, self.hits.unread_from(hit_cursor.next as int));
        }
        let hp_before = match &self.world.player {
            Some(p) => p.hp,
            None => 0,
        };
        player_decrease_hp(&mut self.world, &self.player_hits, &mut self.player_hit_reader);
        increase_killcount(&mut self.ctx.kills, &self.deaths, &mut self.kill_reader);
        despawn(&mut self.world, &self.deaths, &mut self.despawn_reader);
        player_death(&self.world, hp_before, &mut self.game_over);
    }

    /// Advances the spawn timer; on the tick it fires, and when the debug
    /// gate permits, adds an enemy at a random point of the map whose health
    /// is the current difficulty baseline.
    pub fn spawn_tick(&mut self, dt: u64)
        requires
            old(self).wf(),
            old(self).state == AppState::Game,
        ensures
            spawn_ticked(*old(self), *final(self), dt),
    {
        spawn_enemy(
            &mut self.world,
            &mut self.ctx.spawn_timer,
            &self.ctx.enemy_hp,
            &self.debug_props,
            &self.debug_enable,
            dt,
        );
    }

    /// Advances the difficulty timer; on the tick it fires the baseline
    /// health of new enemies rises by `HP_GAIN`. Enemies already on the map
    /// keep their health.
    pub fn difficulty_tick(&mut self, dt: u64)
        requires
            old(self).wf(),
        ensures
            difficulty_ticked(*old(self), *final(self), dt),
    {
        increase_hp_over_time(&mut self.ctx.difficulty_timer, &mut self.ctx.enemy_hp, dt);
    }

    /// Reads the `GameOver` events not yet seen; when there is one, the game
    /// ends and its actors are removed.
    pub fn observe_game_over(&mut self)
        requires
            old(self).wf(),
            old(self).state == AppState::Game,
        ensures
            game_over_observed(*old(self), *final(self)),
    {
        let ended = self.game_over.drain(&mut self.game_over_reader);
        if ended.len() > 0 {
            self.exit_game(AppState::GameOver);
        }
    }

    /// One tick of a game, the tick boundary included.
    fn game_tick(&mut self, dt: u32, input: TickInput) -> (out: TickOutput)
        requires
            old(self).wf(),
            old(self).state == AppState::Game,
        ensures
            game_ticked(*old(self), *final(self), dt, input, out),
    {
        let ghost o = *self;
        let step = dt as u64;
        let mut release_cursor = false;
        if self.debug_enable.0 {
            release_cursor = unlock_cursor(&mut self.debug_props, input.cursor_toggle);
        }
        let ghost a = *self;
        let r1 = keyboard_movement(&mut self.world, input.keys, input.camera, dt);
        let ghost b = *self;
        let mut facing = r1;
        let mut r2: Option<Vec3i> = None;
        if let Some(stick) = input.stick {
            r2 = gamepad_movement(&mut self.world, stick, input.camera, dt);
            if r2.is_some() {
                facing = r2;
            }
        }
        let ghost c = *self;
        update_stamina(&mut self.world, step);
        let ghost d = *self;
        let mut r3: Option<Vec3i> = None;
        if shoot_projectile_condition(&self.debug_enable, input.camera_lock) {
            r3 = shoot_projectile(
                &mut self.world,
                &mut self.ctx.fire_rate,
                input.trigger,
                back_of(input.camera.forward_x),
                back_of(input.camera.forward_z),
                step,
            );
            if r3.is_some() {
                facing = r3;
            }
        }
        let ghost e = *self;
        move_projectile(&mut self.world, dt);
        let ghost g = *self;
        tracking(&mut self.world, dt);
        let ghost h = *self;
        self.resolve_combat(step);
        let ghost i = *self;
        self.spawn_tick(step);
        let ghost j = *self;
        self.difficulty_tick(step);
        let ghost k = *self;
        despawn_projectile(&mut self.world);
        let ghost l = *self;
        self.observe_game_over();
        let ghost m = *self;
        self.end_tick();
        let out = TickOutput { facing, release_cursor };
        proof {
            assert(game_phases(o, a, b, c, d, e, g, h, i, j, k, l, m, *self, dt, input, r1, r2, r3, out));
        }
        out
    }
}

/// The camera's back component for a forward component `c`.
pub open spec fn back_component(c: i32) -> i32 {
    if c == i32::MIN {
        i32::MAX
    } else {
        (-c) as i32
    }
}

fn back_of(c: i32) -> (r: i32)
    ensures
        r == back_component(c),
{
    if c == i32::MIN {
        i32::MAX
    } else {
        -c
    }
}

/// `later` when it holds a direction, else `earlier`.
pub open spec fn latest(earlier: Option<Vec3i>, later: Option<Vec3i>) -> Option<Vec3i> {
    if later is Some {
        later
    } else {
        earlier
    }
}

/// `f` is `o` with only its actors changed.
pub open spec fn only_world(o: Session, f: Session) -> bool {
    f == (Session { world: f.world, ..o })
}

/// `f` is `o` once requested removals took effect and every event queue
/// moved on by one tick.
pub open spec fn tick_ended(o: Session, f: Session) -> bool {
    &&& f.wf()
    &&& f == (Session {
        world: f.world,
        hits: f.hits,
        player_hits: f.player_hits,
        deaths: f.deaths,
        game_over: f.game_over,
        ..o
    })
    &&& f.world.player == o.world.player
    &&& f.world.next_handle == o.world.next_handle
    &&& f.world.enemies@ == o.world.enemies@.filter(enemy_alive())
    &&& f.world.projectiles@ == o.world.projectiles@.filter(projectile_alive())
    &&& o.hits.moved_on(f.hits)
    &&& o.player_hits.moved_on(f.player_hits)
    &&& o.deaths.moved_on(f.deaths)
    &&& o.game_over.moved_on(f.game_over)
}

/// `f` is `o` after one resolution of combat (see `Session::resolve_combat`).
pub open spec fn combat_resolved(o: Session, f: Session, dt: u64) -> bool {
    &&& f.wf()
    &&& match o.world.player {
        None => f == o,
        Some(p) => {
            let es = o.world.enemies@;
            let struck_now = attacked(es, p.position, dt);
            let hits_read = f.hits.unread_from(o.hit_reader.next as int);
            let hurt = after_hits(struck_now, hits_read);
            let dead = f.deaths.unread_from(o.despawn_reader.next as int);
            let counted = f.deaths.unread_from(o.kill_reader.next as int).len();
            let hp = hp_after(p.hp, f.player_hits.unread_from(o.player_hit_reader.next as int));
            &&& f == (Session {
                world: f.world,
                ctx: f.ctx,
                hits: f.hits,
                player_hits: f.player_hits,
                deaths: f.deaths,
                game_over: f.game_over,
                hit_reader: f.hit_reader,
                player_hit_reader: f.player_hit_reader,
                kill_reader: f.kill_reader,
                despawn_reader: f.despawn_reader,
                ..o
            })
            &&& f.ctx == (SessionContext { kills: f.ctx.kills, ..o.ctx })
            &&& f.world.next_handle == o.world.next_handle
            &&& f.world.enemies@.len() == es.len()
            &&& f.hit_reader.next == f.hits.count()
            &&& f.player_hit_reader.next == f.player_hits.count()
            &&& f.kill_reader.next == f.deaths.count()
            &&& f.despawn_reader.next == f.deaths.count()
            &&& o.hits.sent(f.hits, projectile_hits(es, o.world.projectiles@, p.damage))
            &&& f.world.projectiles@ == spent(es, o.world.projectiles@)
            &&& o.player_hits.sent(f.player_hits, strikes_of(es, p.position))
            &&& o.deaths.sent(f.deaths, deaths_from(struck_now, hits_read))
            &&& f.world.enemies@ == Seq::new(hurt.len(), |i: int| doomed_by(hurt[i], dead))
            &&& f.world.player == Some(Player { hp, ..p })
            &&& f.ctx.kills.0 == if o.ctx.kills.0 + counted > u64::MAX {
                u64::MAX as int
            } else {
                o.ctx.kills.0 + counted
            }
            &&& if p.hp > 0 && hp == 0 {
                o.game_over.sent(f.game_over, seq![GameOver])
            } else {
                f.game_over == o.game_over
            }
        },
    }
}

/// Whether the spawn timer fired in `f` and an enemy could be spawned from `o`.
pub open spec fn spawn_fires(o: Session, f: Session) -> bool {
    &&& f.ctx.spawn_timer.0.times_finished_this_tick > 0
    &&& spawn_permitted(o.debug_props, o.debug_enable)
    &&& o.world.next_handle < u64::MAX
}

/// `f` is `o` after one tick of the spawn timer (see `Session::spawn_tick`).
pub open spec fn spawn_ticked(o: Session, f: Session, dt: u64) -> bool {
    &&& f.wf()
    &&& f == (Session { world: f.world, ctx: f.ctx, ..o })
    &&& f.ctx == (SessionContext {
        spawn_timer: EnemySpawnTimer(o.ctx.spawn_timer.0.after_tick(dt)),
        ..o.ctx
    })
    &&& f.world.player == o.world.player
    &&& f.world.projectiles@ == o.world.projectiles@
    &&& spawn_fires(o, f) ==> f.world.next_handle == o.world.next_handle + 1 && exists|
        x: i32,
        z: i32,
    |
        -MAP_HALF <= x <= MAP_HALF && -MAP_HALF <= z <= MAP_HALF && f.world.enemies@
            == o.world.enemies@.push(
            Enemy::from_bundle(
                o.world.next_handle,
                Vec3i { x, y: ENEMY_SPAWN_HEIGHT, z },
                EnemyBundle::spec_new(o.ctx.enemy_hp.0),
            ),
        )
    &&& !spawn_fires(o, f) ==> f.world.enemies@ == o.world.enemies@ && f.world.next_handle
        == o.world.next_handle
}

/// `f` is `o` after one tick of the difficulty timer.
pub open spec fn difficulty_ticked(o: Session, f: Session, dt: u64) -> bool {
    let t = o.ctx.difficulty_timer.0.after_tick(dt);
    &&& f.wf()
    &&& f == (Session {
        ctx: SessionContext {
            difficulty_timer: RaiseDifficultyTimer(t),
            enemy_hp: EnemyHp(baseline_after(o.ctx.enemy_hp.0, t.times_finished_this_tick > 0)),
            ..o.ctx
        },
        ..o
    })
}

/// `f` is `o` once the unread `GameOver` events were read: the game ends when
/// there is one.
pub open spec fn game_over_observed(o: Session, f: Session) -> bool {
    &&& f.wf()
    &&& f.game_over_reader.next == o.game_over.count()
    &&& if o.game_over.unread_from(o.game_over_reader.next as int).len() > 0 {
        &&& f == (Session {
            state: AppState::GameOver,
            world: f.world,
            game_over_reader: f.game_over_reader,
            ..o
        })
        &&& f.world.player is None
        &&& f.world.enemies@.len() == 0
        &&& f.world.projectiles@.len() == 0
        &&& f.world.next_handle == o.world.next_handle
    } else {
        f == (Session { game_over_reader: f.game_over_reader, ..o })
    }
}

/// The phases of one game tick, from `o` to `f` through the states after
/// each phase: the debug cursor switch, keyboard and gamepad movement,
/// stamina, shooting, projectile flight, enemy pursuit, combat, spawning,
/// difficulty, projectiles leaving the map, the game-over check, and the
/// tick boundary. `r1`, `r2` and `r3` are the directions to face that
/// movement and shooting asked for.
pub open spec fn game_phases(
    o: Session,
    a: Session,
    b: Session,
    c: Session,
    d: Session,
    e: Session,
    g: Session,
    h: Session,
    i: Session,
    j: Session,
    k: Session,
    l: Session,
    m: Session,
    f: Session,
    dt: u32,
    input: TickInput,
    r1: Option<Vec3i>,
    r2: Option<Vec3i>,
    r3: Option<Vec3i>,
    out: TickOutput,
) -> bool {
    &&& if o.debug_enable.0 {
        &&& a == (Session { debug_props: a.debug_props, ..o })
        &&& a.debug_props.enemies == o.debug_props.enemies
        &&& a.debug_props.lock_cursor == (o.debug_props.lock_cursor != input.cursor_toggle)
        &&& out.release_cursor == !a.debug_props.lock_cursor
    } else {
        a == o && !out.release_cursor
    }
    &&& only_world(a, b)
    &&& keyboard_moved(a.world, b.world, input.keys, input.camera, dt, r1)
    &&& match input.stick {
        Some(stick) => only_world(b, c) && gamepad_moved(
            b.world,
            c.world,
            stick,
            input.camera,
            dt,
            r2,
        ),
        None => c == b && r2 is None,
    }
    &&& only_world(c, d)
    &&& stamina_updated(c.world, d.world, dt as u64)
    &&& if shooting_permitted(o.debug_enable, input.camera_lock) {
        &&& e == (Session {
            world: e.world,
            ctx: SessionContext { fire_rate: e.ctx.fire_rate, ..d.ctx },
            ..d
        })
        &&& shot(
            d.world,
            e.world,
            d.ctx.fire_rate,
            e.ctx.fire_rate,
            input.trigger,
            back_component(input.camera.forward_x),
            back_component(input.camera.forward_z),
            dt as u64,
            r3,
        )
    } else {
        e == d && r3 is None
    }
    &&& only_world(e, g)
    &&& projectiles_flown(e.world, g.world, dt)
    &&& only_world(g, h)
    &&& enemies_pursued(g.world, h.world, dt)
    &&& combat_resolved(h, i, dt as u64)
    &&& spawn_ticked(i, j, dt as u64)
    &&& difficulty_ticked(j, k, dt as u64)
    &&& only_world(k, l)
    &&& projectiles_bounded(k.world, l.world)
    &&& game_over_observed(l, m)
    &&& tick_ended(m, f)
    &&& out.facing == latest(latest(r1, r2), r3)
}

/// `f` and `out` are what one game tick makes of `o`: there are states
/// between the phases that each phase's step relates as `game_phases` says.
pub open spec fn game_ticked(o: Session, f: Session, dt: u32, input: TickInput, out: TickOutput) -> bool {
    exists|
        a: Session,
        b: Session,
        c: Session,
        d: Session,
        e: Session,
        g: Session,
        h: Session,
        i: Session,
        j: Session,
        k: Session,
        l: Session,
        m: Session,
        r1: Option<Vec3i>,
        r2: Option<Vec3i>,
        r3: Option<Vec3i>,
    |
        #[trigger] game_phases(o, a, b, c, d, e, g, h, i, j, k, l, m, f, dt, input, r1, r2, r3, out)
}

/// A game tick never lowers the kill count or the baseline, ends in the
/// game or on the game-over screen, and spawns no enemy while the debug
/// gate forbids it.
proof fn lemma_game_tick_bounds(o: Session, f: Session, dt: u32, input: TickInput, out: TickOutput)
    requires
        o.wf(),
        o.state == AppState::Game,
        game_ticked(o, f, dt, input, out),
    ensures
        f.state == AppState::Game || f.state == AppState::GameOver,
        f.ctx.kills.0 >= o.ctx.kills.0,
        f.ctx.enemy_hp.0 >= o.ctx.enemy_hp.0,
        f.debug_enable == o.debug_enable,
        f.debug_props.enemies == o.debug_props.enemies,
        o.debug_enable.0 && !o.debug_props.enemies ==> f.world.enemies@.len()
            <= o.world.enemies@.len(),
{
    let (a, b, c, d, e, g, h, i, j, k, l, m, r1, r2, r3) = choose|
        a: Session,
        b: Session,
        c: Session,
        d: Session,
        e: Session,
        g: Session,
        h: Session,
        i: Session,
        j: Session,
        k: Session,
        l: Session,
        m: Session,
        r1: Option<Vec3i>,
        r2: Option<Vec3i>,
        r3: Option<Vec3i>,
    | #[trigger] game_phases(o, a, b, c, d, e, g, h, i, j, k, l, m, f, dt, input, r1, r2, r3, out);
    if h.world.player is Some {
        lemma_hits_keep_enemies(
            attacked(h.world.enemies@, h.world.player->0.position, dt as u64),
            i.hits.unread_from(h.hit_reader.next as int),
        );
    }
    m.world.enemies@.lemma_filter_len(enemy_alive());
}

} // verus!
