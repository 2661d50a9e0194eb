use crate::actors::{
    Enemy, IsShooting, Player, Projectile, ENEMY_SIZE, FIRE_RATE, MAP_HALF, PROJECTILE_SPEED,
};
use crate::events::{EventBus, HitEv};
use crate::geometry::{
    clamp_unit, flat_unit, is_within, move_coord, moved, normalize_flat, unit_component, within,
    Vec3i,
};
use crate::timer::{Timer, TimerMode};
use crate::world::World;
use vstd::prelude::*;

verus! {

/// The hits that the projectiles of `ps` deal to enemy `e`, in the order of `ps`.
pub open spec fn hits_on(e: Enemy, ps: Seq<Projectile>, dmg: u64) -> Seq<HitEv>
    decreases ps.len(),
{
    if ps.len() == 0 {
        Seq::empty()
    } else {
        let rest = hits_on(e, ps.drop_last(), dmg);
        if within(e.position, ps.last().position, ENEMY_SIZE) {
            rest.push(HitEv { dmg, ent: e.handle })
        } else {
            rest
        }
    }
}

/// All hits of one tick: enemy by enemy, and for each enemy projectile by
/// projectile. A projectile may hit several enemies in the same tick.
pub open spec fn projectile_hits(es: Seq<Enemy>, ps: Seq<Projectile>, dmg: u64) -> Seq<HitEv>
    decreases es.len(),
{
    if es.len() == 0 {
        Seq::empty()
    } else {
        projectile_hits(es.drop_last(), ps, dmg) + hits_on(es.last(), ps, dmg)
    }
}

/// Whether projectile `p` lies within reach of some enemy of `es`.
pub open spec fn touches_any(es: Seq<Enemy>, p: Projectile) -> bool {
    exists|i: int| 0 <= i < es.len() && within(#[trigger] es[i].position, p.position, ENEMY_SIZE)
}

/// The projectiles once every one that touched an enemy is marked for removal.
pub open spec fn spent(es: Seq<Enemy>, ps: Seq<Projectile>) -> Seq<Projectile> {
    Seq::new(
        ps.len(),
        |j: int| Projectile { doomed: ps[j].doomed || touches_any(es, ps[j]), ..ps[j] },
    )
}

/// Detects projectile-enemy contact: for every enemy and every projectile
/// closer than the enemy's size, publishes a hit for the player's damage and
/// marks the projectile for removal. Without a player nothing happens.
pub fn hit_enemy(world: &mut World, hit_evw: &mut EventBus<HitEv>)
    requires
        old(world).wf(),
        old(hit_evw).wf(),
    ensures
        final(world).wf(),
        final(world).player == old(world).player,
        final(world).enemies@ == old(world).enemies@,
        final(world).next_handle == old(world).next_handle,
        old(world).player matches Some(p) ==> {
            &&& final(world).projectiles@ == spent(old(world).enemies@, old(world).projectiles@)
            &&& old(hit_evw).sent(
                *final(hit_evw),
                projectile_hits(old(world).enemies@, old(world).projectiles@, p.damage),
            )
        },
        old(world).player is None ==> final(world).projectiles@ == old(world).projectiles@
            && *final(hit_evw) == *old(hit_evw),
{
    let dmg = match &world.player {
        Some(p) => p.damage,
        None => {
            return ;
        },
    };
    let ghost es = world.enemies@;
    let ghost ps = world.projectiles@;
    let ghost bus0 = *hit_evw;
    proof {
        bus0.lemma_sent_nothing();
        assert(es.take(0) =~= Seq::<Enemy>::empty());
        assert(spent(es.take(0), ps) =~= ps);
    }
    let mut i: usize = 0;
    while i < world.enemies.len()
        invariant
            world.wf(),
            world.player == old(world).player,
            world.enemies@ == es,
            world.next_handle == old(world).next_handle,
            bus0 == *old(hit_evw),
            bus0.wf(),
            0 <= i <= es.len(),
            world.projectiles@ == spent(es.take(i as int), ps),
            bus0.sent(*hit_evw, projectile_hits(es.take(i as int), ps, dmg)),
        decreases es.len() - i,
    {
        let e = world.enemies[i];
        let ghost before = projectile_hits(es.take(i as int), ps, dmg);
        proof {
            assert(ps.take(0) =~= Seq::<Projectile>::empty());
            assert(before + hits_on(e, ps.take(0), dmg) =~= before);
        }
        let mut j: usize = 0;
        while j < world.projectiles.len()
            invariant
                world.wf(),
                world.player == old(world).player,
                world.enemies@ == es,
                world.next_handle == old(world).next_handle,
                bus0 == *old(hit_evw),
                bus0.wf(),
                0 <= i < es.len(),
                e == es[i as int],
                world.projectiles@.len() == ps.len(),
                0 <= j <= ps.len(),
                forall|m: int|
                    0 <= m < j ==> world.projectiles@[m] == spent(es.take(i + 1), ps)[m],
                forall|m: int|
                    j <= m < ps.len() ==> world.projectiles@[m] == spent(es.take(i as int), ps)[m],
                before == projectile_hits(es.take(i as int), ps, dmg),
                bus0.sent(*hit_evw, before + hits_on(e, ps.take(j as int), dmg)),
            decreases ps.len() - j,
        {
            let p = world.projectiles[j];
            let near = is_within(&e.position, &p.position, ENEMY_SIZE);
            proof {
                assert(ps.take(j + 1).drop_last() =~= ps.take(j as int));
                let a = es.take(i as int);
                let b = es.take(i + 1);
                assert(b[i as int] == e);
                if touches_any(a, ps[j as int]) {
                    let k = choose|k: int|
                        0 <= k < a.len() && within(#[trigger] a[k].position, ps[j as int].position, ENEMY_SIZE);
                    assert(b[k] == a[k]);
                }
                if near {
                    assert(touches_any(b, ps[j as int]));
                } else {
                    assert forall|k: int| 0 <= k < b.len() implies !within(
                        #[trigger] b[k].position,
                        ps[j as int].position,
                        ENEMY_SIZE,
                    ) || touches_any(a, ps[j as int]) by {
                        if k < i {
                            assert(a[k] == b[k]);
                        }
                    }
                }
            }
            if near {
                let ghost mid = *hit_evw;
                let ev = HitEv { dmg, ent: e.handle };
                hit_evw.publish(ev);
                proof {
                    bus0.lemma_sent_chain(
                        mid,
                        *hit_evw,
                        before + hits_on(e, ps.take(j as int), dmg),
                        seq![ev],
                    );
                    assert(before + hits_on(e, ps.take(j as int), dmg) + seq![ev] =~= before
                        + hits_on(e, ps.take(j + 1), dmg));
                }
                let q = Projectile { doomed: true, ..p };
                world.projectiles.set(j, q);
            } else {
                proof {
                    assert(hits_on(e, ps.take(j + 1), dmg) == hits_on(e, ps.take(j as int), dmg));
                }
            }
            j = j + 1;
        }
        proof {
            assert(es.take(i + 1).drop_last() =~= es.take(i as int));
            assert(world.projectiles@ =~= spent(es.take(i + 1), ps));
            assert(ps.take(ps.len() as int) =~= ps);
        }
        i = i + 1;
    }
    proof {
        assert(es.take(es.len() as int) =~= es);
    }
}

/// The delay between two shots.
#[derive(Clone, Copy, Debug, PartialEq, Eq, Structural)]
pub struct FireRate(pub Timer);

impl FireRate {
    pub fn new() -> (f: FireRate)
        ensures
            f.0 == Timer::new_spec(FIRE_RATE, TimerMode::Repeating),
            f.0.wf(),
    {
        FireRate(Timer::new(FIRE_RATE, TimerMode::Repeating))
    }
}

/// Direction of a shot taken with the camera's back direction `(x, z)`: the
/// horizontal part, scaled to 1000.
pub open spec fn shot_direction(back_x: i32, back_z: i32) -> Vec3i {
    flat_unit(clamp_unit(back_x), clamp_unit(back_z))
}

/// Whether the delay since the last shot allows another one.
pub open spec fn ready(t: Timer) -> bool {
    t.finished || t.elapsed == 0
}

/// `w1` and `f1` are `w0` and the fire-rate timer `f0` after one tick of the
/// trigger; `r` is the direction the player turns to face.
pub open spec fn shot(
    w0: World,
    w1: World,
    f0: FireRate,
    f1: FireRate,
    trigger: bool,
    back_x: i32,
    back_z: i32,
    dt: u64,
    r: Option<Vec3i>,
) -> bool {
    &&& w1.wf()
    &&& f1.0.wf()
    &&& w1.enemies@ == w0.enemies@
    &&& match w0.player {
        None => w1 == w0 && f1 == f0 && r is None,
        Some(p) => if !trigger {
            &&& f1.0 == f0.0.after_reset()
            &&& w1.player == Some(Player { is_shooting: IsShooting(false), ..p })
            &&& w1.projectiles@ == w0.projectiles@
            &&& r is None
            &&& w1.next_handle == w0.next_handle
        } else if ready(f0.0) && w0.next_handle < u64::MAX {
            let d = shot_direction(back_x, back_z);
            &&& f1.0 == f0.0.after_tick(dt)
            &&& w1.player == Some(Player { is_shooting: IsShooting(true), ..p })
            &&& w1.projectiles@ == w0.projectiles@.push(
                Projectile {
                    handle: w0.next_handle,
                    position: p.position,
                    direction: d,
                    doomed: false,
                },
            )
            &&& r == Some(Vec3i { x: -d.x as i32, y: 0, z: -d.z as i32 })
            &&& w1.next_handle == w0.next_handle + 1
        } else {
            &&& f1.0 == f0.0.after_tick(dt)
            &&& w1.player == w0.player
            &&& w1.projectiles@ == w0.projectiles@
            &&& r is None
            &&& w1.next_handle == w0.next_handle
        },
    }
}

/// While the trigger is held, fires a projectile from the player's position
/// whenever the fire rate allows and advances the fire-rate timer; when the
/// trigger is released, resets the timer. Returns the direction the player
/// should turn to face after a shot: the shot's opposite.
pub fn shoot_projectile(
    world: &mut World,
    fire_rate: &mut FireRate,
    trigger: bool,
    back_x: i32,
    back_z: i32,
    dt: u64,
) -> (r: Option<Vec3i>)
    requires
        old(world).wf(),
        old(fire_rate).0.wf(),
    ensures
        shot(*old(world), *final(world), *old(fire_rate), *final(fire_rate), trigger, back_x, back_z, dt, r),
{
    let p = match world.player {
        Some(p) => p,
        None => {
            return None;
        },
    };
    if !trigger {
        fire_rate.0.reset();
        world.player = Some(Player { is_shooting: IsShooting(false), ..p });
        return None;
    }
    let mut face: Option<Vec3i> = None;
    if (fire_rate.0.finished() || fire_rate.0.at_start()) && world.next_handle < u64::MAX {
        let d = normalize_flat(unit_component(back_x) as i64, unit_component(back_z) as i64);
        world.spawn_projectile_at(p.position, d);
        world.player = Some(Player { is_shooting: IsShooting(true), ..p });
        face = Some(Vec3i::new(-d.x, 0, -d.z));
    }
    fire_rate.0.tick(dt);
    face
}

/// Projectile `q` after flying for `dt` milliseconds, opposite to its
/// direction (the camera's back), at the projectile speed.
pub open spec fn flown(q: Projectile, dt: u32) -> Projectile {
    Projectile {
        position: Vec3i {
            x: moved(q.position.x, -clamp_unit(q.direction.x), PROJECTILE_SPEED as int, dt as int),
            y: moved(q.position.y, -clamp_unit(q.direction.y), PROJECTILE_SPEED as int, dt as int),
            z: moved(q.position.z, -clamp_unit(q.direction.z), PROJECTILE_SPEED as int, dt as int),
        },
        ..q
    }
}

/// `w1` is `w0` after every projectile flew for `dt` milliseconds.
pub open spec fn projectiles_flown(w0: World, w1: World, dt: u32) -> bool {
    &&& w1.wf()
    &&& w1.player == w0.player
    &&& w1.enemies@ == w0.enemies@
    &&& w1.next_handle == w0.next_handle
    &&& w1.projectiles@ == Seq::new(
        w0.projectiles@.len(),
        |j: int| flown(w0.projectiles@[j], dt),
    )
}

/// Every projectile flies on for `dt` milliseconds.
pub fn move_projectile(world: &mut World, dt: u32)
    requires
        old(world).wf(),
    ensures
        projectiles_flown(*old(world), *final(world), dt),
{
    let ghost ps = world.projectiles@;
    let mut j: usize = 0;
    while j < world.projectiles.len()
        invariant
            world.wf(),
            world.player == old(world).player,
            world.enemies@ == old(world).enemies@,
            world.next_handle == old(world).next_handle,
            ps == old(world).projectiles@,
            world.projectiles@.len() == ps.len(),
            0 <= j <= ps.len(),
            forall|m: int| 0 <= m < j ==> world.projectiles@[m] == flown(ps[m], dt),
            forall|m: int| j <= m < ps.len() ==> world.projectiles@[m] == ps[m],
        decreases ps.len() - j,
    {
        let q = world.projectiles[j];
        let s = PROJECTILE_SPEED as u64;
        let x = move_coord(q.position.x, -unit_component(q.direction.x), s, dt);
        let y = move_coord(q.position.y, -unit_component(q.direction.y), s, dt);
        let z = move_coord(q.position.z, -unit_component(q.direction.z), s, dt);
        world.projectiles.set(j, Projectile { position: Vec3i::new(x, y, z), ..q });
        j = j + 1;
    }
    proof {
        assert(world.projectiles@ =~= Seq::new(ps.len(), |j: int| flown(ps[j], dt)));
    }
}

/// Whether a point lies beyond the map's edge.
pub open spec fn off_map(v: Vec3i) -> bool {
    v.x > MAP_HALF || v.x < -MAP_HALF || v.z > MAP_HALF || v.z < -MAP_HALF
}

/// `w1` is `w0` with every projectile that left the map marked for removal.
pub open spec fn projectiles_bounded(w0: World, w1: World) -> bool {
    &&& w1.wf()
    &&& w1.player == w0.player
    &&& w1.enemies@ == w0.enemies@
    &&& w1.next_handle == w0.next_handle
    &&& w1.projectiles@ == Seq::new(
        w0.projectiles@.len(),
        |j: int|
            Projectile {
                doomed: w0.projectiles@[j].doomed || off_map(
                    w0.projectiles@[j].position,
                ),
                ..w0.projectiles@[j]
            },
    )
}

/// Marks for removal every projectile that has left the map.
pub fn despawn_projectile(world: &mut World)
    requires
        old(world).wf(),
    ensures
        projectiles_bounded(*old(world), *final(world)),
{
    let ghost ps = world.projectiles@;
    let mut j: usize = 0;
    while j < world.projectiles.len()
        invariant
            world.wf(),
            world.player == old(world).player,
            world.enemies@ == old(world).enemies@,
            world.next_handle == old(world).next_handle,
            ps == old(world).projectiles@,
            world.projectiles@.len() == ps.len(),
            0 <= j <= ps.len(),
            forall|m: int|
                0 <= m < j ==> world.projectiles@[m] == (Projectile {
                    doomed: ps[m].doomed || off_map(ps[m].position),
                    ..ps[m]
                }),
            forall|m: int| j <= m < ps.len() ==> world.projectiles@[m] == ps[m],
        decreases ps.len() - j,
    {
        let q = world.projectiles[j];
        let out = q.position.x > MAP_HALF || q.position.x < -MAP_HALF || q.position.z > MAP_HALF
            || q.position.z < -MAP_HALF;
        world.projectiles.set(j, Projectile { doomed: q.doomed || out, ..q });
        j = j + 1;
    }
    proof {
        assert(world.projectiles@ =~= Seq::new(
            ps.len(),
            |j: int| (Projectile { doomed: ps[j].doomed || off_map(ps[j].position), ..ps[j] }),
        ));
    }
}

} // verus!
