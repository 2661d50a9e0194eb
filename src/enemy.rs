use crate::actors::{
    AttackRate, Enemy, EnemyBundle, ENEMY_HP, ENEMY_REACH, ENEMY_SIZE, ENEMY_SPAWN_HEIGHT, MAP_HALF,
};
use crate::debug::{spawn_enemy_condition, spawn_permitted, DebugProps, EnableDebugMode};
use crate::events::{EnemyDeathEv, EventBus, EventCursor, HitEv, HitPlayerEv};
use crate::geometry::{chase, chased, is_within, within, Vec3i};
use crate::timer::{Timer, TimerMode};
use crate::world::{cooldowns_wf, handles_ordered, World};
use rand::Rng;
use vstd::prelude::*;

verus! {

/// Health gained by newly spawned enemies at every difficulty step.
pub const HP_GAIN: u64 = 10;
/// Time between two difficulty steps.
pub const DIFFICULTY_INTERVAL: u64 = 30_000;
/// Time between two enemy spawns.
pub const ENEMY_SPAWN_INTERVAL: u64 = 3000;

/// Health that newly spawned enemies receive: the difficulty baseline.
#[derive(Clone, Copy, Debug, PartialEq, Eq, Structural)]
pub struct EnemyHp(pub u64);

/// Interval between enemy spawns.
#[derive(Clone, Copy, Debug, PartialEq, Eq, Structural)]
pub struct EnemySpawnTimer(pub Timer);

/// Interval between difficulty steps.
#[derive(Clone, Copy, Debug, PartialEq, Eq, Structural)]
pub struct RaiseDifficultyTimer(pub Timer);

impl EnemySpawnTimer {
    pub fn new() -> (t: EnemySpawnTimer)
        ensures
            t.0 == Timer::new_spec(ENEMY_SPAWN_INTERVAL, TimerMode::Repeating),
            t.0.wf(),
    {
        EnemySpawnTimer(Timer::new(ENEMY_SPAWN_INTERVAL, TimerMode::Repeating))
    }
}

impl RaiseDifficultyTimer {
    pub fn new() -> (t: RaiseDifficultyTimer)
        ensures
            t.0 == Timer::new_spec(DIFFICULTY_INTERVAL, TimerMode::Repeating),
            t.0.wf(),
    {
        RaiseDifficultyTimer(Timer::new(DIFFICULTY_INTERVAL, TimerMode::Repeating))
    }
}

/// Relies on rand's `thread_rng().gen_range(lo..=hi)`: a value drawn
/// uniformly from the inclusive range (it panics only on an empty range).
#[verifier::external_body]
fn random_in(lo: i32, hi: i32) -> (r: i32)
    requires
        lo <= hi,
    ensures
        lo <= r <= hi,
{
    rand::thread_rng().gen_range(lo..=hi)
}

/// Advances the spawn timer; on the tick it fires, and when spawning is
/// permitted, adds an enemy at `(x, ground, z)` whose health is the current
/// baseline. Returns the new enemy's handle.
pub fn spawn_enemy_at(
    world: &mut World,
    spawn_timer: &mut EnemySpawnTimer,
    enemy_hp: &EnemyHp,
    permitted: bool,
    dt: u64,
    x: i32,
    z: i32,
) -> (r: Option<u64>)
    requires
        old(world).wf(),
        old(spawn_timer).0.wf(),
    ensures
        final(world).wf(),
        final(spawn_timer).0.wf(),
        final(spawn_timer).0 == old(spawn_timer).0.after_tick(dt),
        final(world).player == old(world).player,
        final(world).projectiles@ == old(world).projectiles@,
        ({
            let fire = final(spawn_timer).0.times_finished_this_tick > 0 && permitted
                && old(world).next_handle < u64::MAX;
            &&& fire ==> r == Some(old(world).next_handle) && final(world).enemies@ == old(
                world,
            ).enemies@.push(
                Enemy::from_bundle(
                    old(world).next_handle,
                    Vec3i { x, y: ENEMY_SPAWN_HEIGHT, z },
                    EnemyBundle::spec_new(enemy_hp.0),
                ),
            )
            &&& fire ==> final(world).enemies@.last().hp == enemy_hp.0
            &&& fire ==> final(world).next_handle == old(world).next_handle + 1
            &&& !fire ==> r is None && final(world).enemies@ == old(world).enemies@
            &&& !fire ==> final(world).next_handle == old(world).next_handle
        }),
{
    spawn_timer.0.tick(dt);
    if spawn_timer.0.just_finished() && permitted {
        world.spawn_enemy_at(Vec3i::new(x, ENEMY_SPAWN_HEIGHT, z), EnemyBundle::new(enemy_hp.0))
    } else {
        None
    }
}

/// Advances the spawn timer and, on the tick it fires, spawns an enemy at a
/// random point of the map with the current baseline health, unless the
/// debug gate forbids it.
pub fn spawn_enemy(
    world: &mut World,
    spawn_timer: &mut EnemySpawnTimer,
    enemy_hp: &EnemyHp,
    debug_props: &DebugProps,
    debug_enable: &EnableDebugMode,
    dt: u64,
) -> (r: Option<u64>)
    requires
        old(world).wf(),
        old(spawn_timer).0.wf(),
    ensures
        final(world).wf(),
        final(spawn_timer).0.wf(),
        final(spawn_timer).0 == old(spawn_timer).0.after_tick(dt),
        final(world).player == old(world).player,
        final(world).projectiles@ == old(world).projectiles@,
        ({
            let fire = final(spawn_timer).0.times_finished_this_tick > 0 && spawn_permitted(
                *debug_props,
                *debug_enable,
            ) && old(world).next_handle < u64::MAX;
            &&& fire ==> r == Some(old(world).next_handle) && exists|x: i32, z: i32|
                -MAP_HALF <= x <= MAP_HALF && -MAP_HALF <= z <= MAP_HALF
                    && final(world).enemies@ == old(world).enemies@.push(
                    Enemy::from_bundle(
                        old(world).next_handle,
                        Vec3i { x, y: ENEMY_SPAWN_HEIGHT, z },
                        EnemyBundle::spec_new(enemy_hp.0),
                    ),
                )
            &&& fire ==> final(world).enemies@.last().hp == enemy_hp.0
            &&& fire ==> final(world).next_handle == old(world).next_handle + 1
            &&& !fire ==> r is None && final(world).enemies@ == old(world).enemies@
            &&& !fire ==> final(world).next_handle == old(world).next_handle
        }),
{
    let permitted = spawn_enemy_condition(debug_props, debug_enable);
    let x = random_in(-MAP_HALF, MAP_HALF);
    let z = random_in(-MAP_HALF, MAP_HALF);
    spawn_enemy_at(world, spawn_timer, enemy_hp, permitted, dt, x, z)
}

/// The baseline `hp` after a difficulty tick that `fired` or not; it stops
/// at `u64::MAX`.
pub open spec fn baseline_after(hp: u64, fired: bool) -> u64 {
    if !fired {
        hp
    } else if hp + HP_GAIN > u64::MAX {
        u64::MAX
    } else {
        (hp + HP_GAIN) as u64
    }
}

/// Advances the difficulty timer and raises the baseline by `HP_GAIN` on the
/// tick it fires (the baseline stops at `u64::MAX`).
pub fn increase_hp_over_time(timer: &mut RaiseDifficultyTimer, enemy_hp: &mut EnemyHp, dt: u64)
    requires
        old(timer).0.wf(),
    ensures
        final(timer).0.wf(),
        final(timer).0 == old(timer).0.after_tick(dt),
        final(enemy_hp).0 == baseline_after(
            old(enemy_hp).0,
            final(timer).0.times_finished_this_tick > 0,
        ),
{
    timer.0.tick(dt);
    if timer.0.just_finished() {
        enemy_hp.0 = enemy_hp.0.saturating_add(HP_GAIN);
    }
}

/// Puts the baseline back to its starting value.
pub fn reset_hp(enemy_hp: &mut EnemyHp)
    ensures
        final(enemy_hp).0 == ENEMY_HP,
{
    enemy_hp.0 = ENEMY_HP;
}

/// Enemy `e` after walking toward `target` for `dt` milliseconds.
pub open spec fn pursued(e: Enemy, target: Vec3i, dt: u32) -> Enemy {
    Enemy { position: chased(e.position, target, e.speed as int, dt as int), ..e }
}

/// `w1` is `w0` after every enemy walked toward the player for `dt`
/// milliseconds.
pub open spec fn enemies_pursued(w0: World, w1: World, dt: u32) -> bool {
    &&& w1.wf()
    &&& w1.player == w0.player
    &&& w1.projectiles@ == w0.projectiles@
    &&& w1.next_handle == w0.next_handle
    &&& w0.player matches Some(p) ==> w1.enemies@ == Seq::new(
        w0.enemies@.len(),
        |i: int| pursued(w0.enemies@[i], p.position, dt),
    )
    &&& w0.player is None ==> w1.enemies@ == w0.enemies@
}

/// Every enemy walks toward the player. Without a player nothing moves.
pub fn tracking(world: &mut World, dt: u32)
    requires
        old(world).wf(),
    ensures
        enemies_pursued(*old(world), *final(world), dt),
{
    let target = match &world.player {
        Some(p) => p.position,
        None => {
            return ;
        },
    };
    let ghost es = world.enemies@;
    let mut i: usize = 0;
    while i < world.enemies.len()
        invariant
            world.player == old(world).player,
            world.projectiles@ == old(world).projectiles@,
            world.next_handle == old(world).next_handle,
            old(world).wf(),
            es == old(world).enemies@,
            world.enemies@.len() == es.len(),
            0 <= i <= es.len(),
            forall|m: int| 0 <= m < i ==> world.enemies@[m] == pursued(es[m], target, dt),
            forall|m: int| i <= m < es.len() ==> world.enemies@[m] == es[m],
        decreases es.len() - i,
    {
        let e = world.enemies[i];
        let position = chase(&e.position, &target, e.speed, dt);
        world.enemies.set(i, Enemy { position, ..e });
        i = i + 1;
    }
    proof {
        assert forall|m: int| 0 <= m < es.len() implies (#[trigger] world.enemies@[m]).attack_rate.wf() by {
            assert(es[m].attack_rate.wf());
        }
        assert(world.enemies@ =~= Seq::new(es.len(), |m: int| pursued(es[m], target, dt)));
    }
}

/// Distance under which an enemy reaches the player.
pub const MELEE_RANGE: u32 = ENEMY_SIZE + ENEMY_REACH;

/// One tick of an enemy's attack cooldown: the new cooldown, and whether
/// the enemy strikes. It strikes when the player is in reach and the
/// cooldown is idle; a strike starts the cooldown, which then advances
/// every tick (the strike's own tick included) until it elapses and goes
/// back to idle.
pub open spec fn cooldown_step(r: AttackRate, in_range: bool, dt: u64) -> (AttackRate, bool) {
    let fire = in_range && !r.cooling;
    let cooling = r.cooling || fire;
    let t1 = if cooling {
        r.timer.after_tick(dt)
    } else {
        r.timer
    };
    if t1.finished {
        (AttackRate { timer: t1.after_reset(), cooling: false }, fire)
    } else {
        (AttackRate { timer: t1, cooling }, fire)
    }
}

/// A cooldown step keeps the cooldown well formed, and a strike leaves the
/// enemy cooling unless the whole cooldown ran out within the same tick.
pub proof fn lemma_cooldown_step(r: AttackRate, in_range: bool, dt: u64)
    requires
        r.wf(),
    ensures
        cooldown_step(r, in_range, dt).0.wf(),
        cooldown_step(r, in_range, dt).0.timer.duration == r.timer.duration,
        cooldown_step(r, in_range, dt).0.timer.mode == r.timer.mode,
        cooldown_step(r, in_range, dt).1 && dt < r.timer.duration ==> cooldown_step(
            r,
            in_range,
            dt,
        ).0.cooling,
{
    r.timer.lemma_steps_wf(dt);
    r.timer.after_tick(dt).lemma_steps_wf(0);
}

/// Enemy `e` after one attack tick against a player standing at `target`.
pub open spec fn after_attack(e: Enemy, target: Vec3i, dt: u64) -> Enemy {
    Enemy {
        attack_rate: cooldown_step(e.attack_rate, within(e.position, target, MELEE_RANGE), dt).0,
        ..e
    }
}

/// Whether enemy `e` strikes a player standing at `target` this tick.
pub open spec fn strikes(e: Enemy, target: Vec3i) -> bool {
    within(e.position, target, MELEE_RANGE) && !e.attack_rate.cooling
}

/// The strikes of one tick, in the order of the enemies.
pub open spec fn strikes_of(es: Seq<Enemy>, target: Vec3i) -> Seq<HitPlayerEv>
    decreases es.len(),
{
    if es.len() == 0 {
        Seq::empty()
    } else {
        let rest = strikes_of(es.drop_last(), target);
        if strikes(es.last(), target) {
            rest.push(HitPlayerEv(es.last().damage))
        } else {
            rest
        }
    }
}

pub open spec fn attacked(es: Seq<Enemy>, target: Vec3i, dt: u64) -> Seq<Enemy> {
    Seq::new(es.len(), |i: int| after_attack(es[i], target, dt))
}

/// Enemies in reach of the player strike it when their cooldown allows.
/// Without a player nothing happens.
pub fn attack(world: &mut World, dt: u64, hit_player_ev: &mut EventBus<HitPlayerEv>)
    requires
        old(world).wf(),
        old(hit_player_ev).wf(),
    ensures
        final(world).wf(),
        final(world).player == old(world).player,
        final(world).projectiles@ == old(world).projectiles@,
        final(world).next_handle == old(world).next_handle,
        old(world).player matches Some(p) ==> {
            &&& final(world).enemies@ == attacked(old(world).enemies@, p.position, dt)
            &&& forall|i: int|
                0 <= i < old(world).enemies@.len() && strikes(old(world).enemies@[i], p.position)
                    && dt < old(world).enemies@[i].attack_rate.timer.duration
                    ==> (#[trigger] final(world).enemies@[i]).attack_rate.cooling
            &&& old(hit_player_ev).sent(
                *final(hit_player_ev),
                strikes_of(old(world).enemies@, p.position),
            )
        },
        old(world).player is None ==> final(world).enemies@ == old(world).enemies@
            && *final(hit_player_ev) == *old(hit_player_ev),
{
    let target = match &world.player {
        Some(p) => p.position,
        None => {
            return ;
        },
    };
    let ghost es = world.enemies@;
    let ghost bus0 = *hit_player_ev;
    proof {
        bus0.lemma_sent_nothing();
        assert(es.take(0) =~= Seq::<Enemy>::empty());
    }
    let mut i: usize = 0;
    while i < world.enemies.len()
        invariant
            world.player == old(world).player,
            world.projectiles@ == old(world).projectiles@,
            world.next_handle == old(world).next_handle,
            old(world).wf(),
            es == old(world).enemies@,
            world.enemies@.len() == es.len(),
            0 <= i <= es.len(),
            forall|m: int| 0 <= m < i ==> world.enemies@[m] == after_attack(es[m], target, dt),
            forall|m: int| i <= m < es.len() ==> world.enemies@[m] == es[m],
            bus0 == *old(hit_player_ev),
            bus0.wf(),
            bus0.sent(*hit_player_ev, strikes_of(es.take(i as int), target)),
        decreases es.len() - i,
    {
        let e = world.enemies[i];
        let r = e.attack_rate;
        assert(r.wf());
        let mut t = r.timer;
        let in_range = is_within(&e.position, &target, MELEE_RANGE);
        let fire = in_range && !r.cooling;
        let cooling = r.cooling || fire;
        proof {
            assert(es.take(i + 1).drop_last() =~= es.take(i as int));
            assert(es.take(i + 1).last() == e);
        }
        if fire {
            let ghost mid = *hit_player_ev;
            hit_player_ev.publish(HitPlayerEv(e.damage));
            proof {
                bus0.lemma_sent_chain(
                    mid,
                    *hit_player_ev,
                    strikes_of(es.take(i as int), target),
                    seq![HitPlayerEv(e.damage)],
                );
                assert(strikes_of(es.take(i as int), target) + seq![HitPlayerEv(e.damage)]
                    =~= strikes_of(es.take(i + 1), target));
            }
        }
        if cooling {
            t.tick(dt);
        }
        let next = if t.finished() {
            t.reset();
            AttackRate { timer: t, cooling: false }
        } else {
            AttackRate { timer: t, cooling }
        };
        let e2 = Enemy { attack_rate: next, ..e };
        world.enemies.set(i, e2);
        i = i + 1;
    }
    proof {
        assert(es.take(es.len() as int) =~= es);
        assert(world.enemies@ =~= attacked(es, target, dt));
        assert forall|m: int| 0 <= m < es.len() implies (#[trigger] world.enemies@[m]).attack_rate.wf() by {
            lemma_cooldown_step(es[m].attack_rate, within(es[m].position, target, MELEE_RANGE), dt);
        }
    }
}

/// Enemy `e` after hit `ev`: health is lowered by the damage and floored at zero.
pub open spec fn struck(e: Enemy, ev: HitEv) -> Enemy {
    if e.handle == ev.ent {
        Enemy { hp: if e.hp > ev.dmg { (e.hp - ev.dmg) as u64 } else { 0 }, ..e }
    } else {
        e
    }
}

/// Whether hit `ev` takes enemy `e` from some health to none.
pub open spec fn kills(e: Enemy, ev: HitEv) -> bool {
    e.handle == ev.ent && e.hp > 0 && e.hp <= ev.dmg
}

pub open spec fn struck_all(es: Seq<Enemy>, ev: HitEv) -> Seq<Enemy> {
    Seq::new(es.len(), |i: int| struck(es[i], ev))
}

/// The deaths that one hit causes, in the order of the enemies.
pub open spec fn deaths_of(es: Seq<Enemy>, ev: HitEv) -> Seq<EnemyDeathEv>
    decreases es.len(),
{
    if es.len() == 0 {
        Seq::empty()
    } else {
        let rest = deaths_of(es.drop_last(), ev);
        if kills(es.last(), ev) {
            rest.push(EnemyDeathEv(es.last().handle))
        } else {
            rest
        }
    }
}

/// The enemies after the hits of `evs`, applied in order.
pub open spec fn after_hits(es: Seq<Enemy>, evs: Seq<HitEv>) -> Seq<Enemy>
    decreases evs.len(),
{
    if evs.len() == 0 {
        es
    } else {
        struck_all(after_hits(es, evs.drop_last()), evs.last())
    }
}

/// The deaths that the hits of `evs` cause, in order.
pub open spec fn deaths_from(es: Seq<Enemy>, evs: Seq<HitEv>) -> Seq<EnemyDeathEv>
    decreases evs.len(),
{
    if evs.len() == 0 {
        Seq::empty()
    } else {
        deaths_from(es, evs.drop_last()) + deaths_of(after_hits(es, evs.drop_last()), evs.last())
    }
}

proof fn lemma_struck_keeps(es: Seq<Enemy>, ev: HitEv, bound: u64)
    requires
        handles_ordered(es, bound),
        cooldowns_wf(es),
    ensures
        handles_ordered(struck_all(es, ev), bound),
        cooldowns_wf(struck_all(es, ev)),
{
    let s = struck_all(es, ev);
    assert forall|i: int| 0 <= i < s.len() implies (#[trigger] s[i]).attack_rate.wf() by {
        assert(es[i].attack_rate.wf());
    }
}

/// Applies the hits not yet read through `hit_evr`: each lowers the health
/// of the enemy it names, floored at zero, and an enemy whose health
/// reaches zero through a hit gets one death event.
pub fn decrease_hp(
    world: &mut World,
    hits: &EventBus<HitEv>,
    hit_evr: &mut EventCursor,
    death_evw: &mut EventBus<EnemyDeathEv>,
)
    requires
        old(world).wf(),
        hits.wf(),
        old(death_evw).wf(),
    ensures
        final(world).wf(),
        final(world).player == old(world).player,
        final(world).projectiles@ == old(world).projectiles@,
        final(world).next_handle == old(world).next_handle,
        final(hit_evr).next == hits.count(),
        final(world).enemies@ == after_hits(
            old(world).enemies@,
            hits.unread_from(old(hit_evr).next as int),
        ),
        old(death_evw).sent(
            *final(death_evw),
            deaths_from(old(world).enemies@, hits.unread_from(old(hit_evr).next as int)),
        ),
{
    let evs = hits.drain(hit_evr);
    let ghost es = world.enemies@;
    let ghost bus0 = *death_evw;
    proof {
        bus0.lemma_sent_nothing();
        assert(evs@.take(0) =~= Seq::<HitEv>::empty());
    }
    let mut k: usize = 0;
    while k < evs.len()
        invariant
            world.wf(),
            world.player == old(world).player,
            world.projectiles@ == old(world).projectiles@,
            world.next_handle == old(world).next_handle,
            es == old(world).enemies@,
            0 <= k <= evs@.len(),
            world.enemies@ == after_hits(es, evs@.take(k as int)),
            bus0 == *old(death_evw),
            bus0.wf(),
            bus0.sent(*death_evw, deaths_from(es, evs@.take(k as int))),
        decreases evs@.len() - k,
    {
        let ev = evs[k];
        let ghost prev = world.enemies@;
        let ghost sent_before = deaths_from(es, evs@.take(k as int));
        proof {
            assert(evs@.take(k + 1).drop_last() =~= evs@.take(k as int));
            assert(evs@.take(k + 1).last() == ev);
            assert(prev.take(0) =~= Seq::<Enemy>::empty());
            assert(sent_before + deaths_of(prev.take(0), ev) =~= sent_before);
        }
        let mut i: usize = 0;
        while i < world.enemies.len()
            invariant
                world.player == old(world).player,
                world.projectiles@ == old(world).projectiles@,
                world.next_handle == old(world).next_handle,
                handles_ordered(prev, world.next_handle),
                cooldowns_wf(prev),
                world.enemies@.len() == prev.len(),
                0 <= i <= prev.len(),
                forall|m: int| 0 <= m < i ==> world.enemies@[m] == struck(prev[m], ev),
                forall|m: int| i <= m < prev.len() ==> world.enemies@[m] == prev[m],
                bus0 == *old(death_evw),
                bus0.wf(),
                bus0.sent(*death_evw, sent_before + deaths_of(prev.take(i as int), ev)),
            decreases prev.len() - i,
        {
            let e = world.enemies[i];
            proof {
                assert(prev.take(i + 1).drop_last() =~= prev.take(i as int));
                assert(prev.take(i + 1).last() == e);
            }
            if e.handle == ev.ent {
                let hp = e.hp.saturating_sub(ev.dmg);
                if e.hp > 0 && hp == 0 {
                    let ghost mid = *death_evw;
                    death_evw.publish(EnemyDeathEv(e.handle));
                    proof {
                        bus0.lemma_sent_chain(
                            mid,
                            *death_evw,
                            sent_before + deaths_of(prev.take(i as int), ev),
                            seq![EnemyDeathEv(e.handle)],
                        );
                        assert(sent_before + deaths_of(prev.take(i as int), ev) + seq![
                            EnemyDeathEv(e.handle),
                        ] =~= sent_before + deaths_of(prev.take(i + 1), ev));
                    }
                }
                world.enemies.set(i, Enemy { hp, ..e });
            }
            i = i + 1;
        }
        proof {
            assert(world.enemies@ =~= struck_all(prev, ev));
            assert(prev.take(prev.len() as int) =~= prev);
            lemma_struck_keeps(prev, ev, world.next_handle);
        }
        k = k + 1;
    }
    proof {
        assert(evs@.take(evs@.len() as int) =~= evs@);
    }
}

/// Enemy `e` once the deaths of `evs` have been read: marked for removal if
/// one of them names it.
pub open spec fn doomed_by(e: Enemy, evs: Seq<EnemyDeathEv>) -> Enemy {
    Enemy { doomed: e.doomed || evs.contains(EnemyDeathEv(e.handle)), ..e }
}

/// Marks for removal every enemy named by a death not yet read through
/// `death_evr`; the removal itself happens at the end of the tick.
pub fn despawn(world: &mut World, deaths: &EventBus<EnemyDeathEv>, death_evr: &mut EventCursor)
    requires
        old(world).wf(),
        deaths.wf(),
    ensures
        final(world).wf(),
        final(world).player == old(world).player,
        final(world).projectiles@ == old(world).projectiles@,
        final(world).next_handle == old(world).next_handle,
        final(death_evr).next == deaths.count(),
        final(world).enemies@ == Seq::new(
            old(world).enemies@.len(),
            |i: int| doomed_by(old(world).enemies@[i], deaths.unread_from(old(death_evr).next as int)),
        ),
{
    let evs = deaths.drain(death_evr);
    let ghost es = world.enemies@;
    let mut i: usize = 0;
    while i < world.enemies.len()
        invariant
            world.player == old(world).player,
            world.projectiles@ == old(world).projectiles@,
            world.next_handle == old(world).next_handle,
            old(world).wf(),
            es == old(world).enemies@,
            world.enemies@.len() == es.len(),
            0 <= i <= es.len(),
            forall|m: int| 0 <= m < i ==> world.enemies@[m] == doomed_by(es[m], evs@),
            forall|m: int| i <= m < es.len() ==> world.enemies@[m] == es[m],
        decreases es.len() - i,
    {
        let e = world.enemies[i];
        let mut named = false;
        let mut k: usize = 0;
        while k < evs.len()
            invariant
                0 <= k <= evs@.len(),
                named == evs@.take(k as int).contains(EnemyDeathEv(e.handle)),
            decreases evs@.len() - k,
        {
            proof {
                assert(evs@.take(k + 1) =~= evs@.take(k as int).push(evs@[k as int]));
                if evs@.take(k as int).contains(EnemyDeathEv(e.handle)) {
                    let w = choose|w: int| 0 <= w < k && evs@.take(k as int)[w] == EnemyDeathEv(e.handle);
                    assert(evs@.take(k + 1)[w] == EnemyDeathEv(e.handle));
                }
                if evs@[k as int] == EnemyDeathEv(e.handle) {
                    assert(evs@.take(k + 1)[k as int] == EnemyDeathEv(e.handle));
                }
            }
            if evs[k].0 == e.handle {
                named = true;
            }
            k = k + 1;
        }
        proof {
            assert(evs@.take(evs@.len() as int) =~= evs@);
        }
        world.enemies.set(i, Enemy { doomed: e.doomed || named, ..e });
        i = i + 1;
    }
    proof {
        assert forall|m: int| 0 <= m < es.len() implies (#[trigger] world.enemies@[m]).attack_rate.wf() by {
            assert(es[m].attack_rate.wf());
        }
    }
}

} // verus!
