use crate::actors::{
    IsSprinting, Player, PlayerBundle, Stamina, PLAYER_SPAWN_HEIGHT, SPRINT_SPEED, STAMINA_DRAIN,
    STAMINA_REGEN_AMOUNT,
};
use crate::events::{EnemyDeathEv, EventBus, EventCursor, GameOver, HitPlayerEv};
use crate::geometry::{clamp_unit, flat_unit, move_coord, moved, normalize_flat, unit_component, Vec3i};
use crate::world::{player_start, World};
use vstd::prelude::*;

verus! {

/// Enemies killed in the current session.
#[derive(Clone, Copy, Debug, PartialEq, Eq, Structural)]
pub struct KillCount(pub u64);

/// Puts the player on the map with its starting components.
pub fn spawn_player(world: &mut World)
    requires
        old(world).wf(),
    ensures
        final(world).wf(),
        final(world).player == Some(player_start()),
        final(world).enemies@ == old(world).enemies@,
        final(world).projectiles@ == old(world).projectiles@,
        final(world).next_handle == old(world).next_handle,
{
    let b = PlayerBundle::default();
    world.player = Some(
        Player {
            position: Vec3i::new(0, PLAYER_SPAWN_HEIGHT, 0),
            damage: b.damage,
            hp: b.hp,
            is_sprinting: b.is_sprinting,
            is_shooting: b.is_shooting,
            stamina: b.stamina,
            speed: b.speed,
        },
    );
}

/// Sets the kill count back to zero.
pub fn reset_killcount(kills: &mut KillCount)
    ensures
        final(kills).0 == 0,
{
    kills.0 = 0;
}

/// The kill count `k` after `n` more kills; it stops at `u64::MAX`.
pub open spec fn kills_after(k: u64, n: nat) -> u64 {
    if k + n > u64::MAX {
        u64::MAX
    } else {
        (k + n) as u64
    }
}

/// Counts one kill for every death not yet read through `enemy_death_evr`
/// (the count stops at `u64::MAX`).
pub fn increase_killcount(
    kills: &mut KillCount,
    deaths: &EventBus<EnemyDeathEv>,
    enemy_death_evr: &mut EventCursor,
)
    requires
        deaths.wf(),
    ensures
        final(enemy_death_evr).next == deaths.count(),
        final(kills).0 == kills_after(
            old(kills).0,
            deaths.unread_from(old(enemy_death_evr).next as int).len(),
        ),
{
    let evs = deaths.drain(enemy_death_evr);
    let n = evs.len() as u64;
    kills.0 = kills.0.saturating_add(n);
}

/// Health left after the hits of `evs`, each taken in turn and floored at zero.
pub open spec fn hp_after(hp: u64, evs: Seq<HitPlayerEv>) -> u64
    decreases evs.len(),
{
    if evs.len() == 0 {
        hp
    } else {
        let h = hp_after(hp, evs.drop_last());
        if h > evs.last().0 {
            (h - evs.last().0) as u64
        } else {
            0
        }
    }
}

/// Applies to the player the hits not yet read through `evr`, flooring its
/// health at zero. Without a player the hits are read and dropped.
pub fn decrease_hp(world: &mut World, hits: &EventBus<HitPlayerEv>, evr: &mut EventCursor)
    requires
        old(world).wf(),
        hits.wf(),
    ensures
        final(world).wf(),
        final(evr).next == hits.count(),
        final(world).enemies@ == old(world).enemies@,
        final(world).projectiles@ == old(world).projectiles@,
        final(world).next_handle == old(world).next_handle,
        match old(world).player {
            Some(p) => final(world).player == Some(
                Player { hp: hp_after(p.hp, hits.unread_from(old(evr).next as int)), ..p },
            ),
            None => final(world).player is None,
        },
{
    let evs = hits.drain(evr);
    match world.player {
        Some(p) => {
            let mut hp = p.hp;
            let mut k: usize = 0;
            while k < evs.len()
                invariant
                    0 <= k <= evs@.len(),
                    hp == hp_after(p.hp, evs@.take(k as int)),
                decreases evs@.len() - k,
            {
                proof {
                    assert(evs@.take(k + 1).drop_last() =~= evs@.take(k as int));
                }
                if hp > 0 {
                    hp = hp.saturating_sub(evs[k].0);
                }
                k = k + 1;
            }
            proof {
                assert(evs@.take(evs@.len() as int) =~= evs@);
            }
            world.player = Some(Player { hp, ..p });
        },
        None => {},
    }
}

/// Publishes `GameOver` when the player's health went from `hp_before`, above
/// zero, to zero.
pub fn player_death(world: &World, hp_before: u64, game_over_evw: &mut EventBus<GameOver>)
    requires
        old(game_over_evw).wf(),
    ensures
        (world.player matches Some(p) && hp_before > 0 && p.hp == 0) ==> old(game_over_evw).sent(
            *final(game_over_evw),
            seq![GameOver],
        ),
        !(world.player matches Some(p) && hp_before > 0 && p.hp == 0) ==> *final(game_over_evw)
            == *old(game_over_evw),
{
    if let Some(p) = &world.player {
        if hp_before > 0 && p.hp == 0 {
            game_over_evw.publish(GameOver);
        }
    }
}

/// One tick of stamina: sprinting drains it and restarts the regeneration
/// delay; once the delay has run out it comes back a little each tick up to
/// its ceiling; otherwise the delay runs. The sprint flag is then cleared.
pub open spec fn stamina_step(s: Stamina, sprinting: bool, dt: u64) -> Stamina {
    if sprinting {
        Stamina {
            value: if s.value > STAMINA_DRAIN { (s.value - STAMINA_DRAIN) as u64 } else { 0 },
            regen_time: s.regen_time.after_reset(),
            ..s
        }
    } else if s.regen_time.times_finished_this_tick > 0 && s.value < s.max {
        Stamina {
            value: if s.value + STAMINA_REGEN_AMOUNT > u64::MAX {
                u64::MAX
            } else {
                (s.value + STAMINA_REGEN_AMOUNT) as u64
            },
            ..s
        }
    } else if s.value < s.max {
        Stamina { regen_time: s.regen_time.after_tick(dt), ..s }
    } else {
        s
    }
}

/// `w1` is `w0` after one tick of stamina upkeep.
pub open spec fn stamina_updated(w0: World, w1: World, dt: u64) -> bool {
    &&& w1.wf()
    &&& w1.enemies@ == w0.enemies@
    &&& w1.projectiles@ == w0.projectiles@
    &&& w1.next_handle == w0.next_handle
    &&& match w0.player {
        Some(p) => w1.player == Some(
            Player {
                stamina: stamina_step(p.stamina, p.is_sprinting.0, dt),
                is_sprinting: IsSprinting(false),
                ..p
            },
        ),
        None => w1.player is None,
    }
}

/// Drains or regenerates the player's stamina for one tick.
pub fn update_stamina(world: &mut World, dt: u64)
    requires
        old(world).wf(),
    ensures
        stamina_updated(*old(world), *final(world), dt),
{
    if let Some(p) = world.player {
        let mut s = p.stamina;
        if p.is_sprinting.0 {
            s.value = s.value.saturating_sub(STAMINA_DRAIN);
            s.regen_time.reset();
        } else if s.regen_time.just_finished() && s.value < s.max {
            s.value = s.value.saturating_add(STAMINA_REGEN_AMOUNT);
        } else if s.value < s.max {
            s.regen_time.tick(dt);
        }
        world.player = Some(Player { stamina: s, is_sprinting: IsSprinting(false), ..p });
    }
}

/// Keys held this tick.
#[derive(Clone, Copy, Debug, PartialEq, Eq, Structural)]
pub struct MoveKeys {
    pub forward: bool,
    pub back: bool,
    pub left: bool,
    pub right: bool,
    pub sprint: bool,
}

/// The camera's forward and right directions, horizontal parts of unit
/// vectors scaled to 1000.
#[derive(Clone, Copy, Debug, PartialEq, Eq, Structural)]
pub struct CameraBasis {
    pub forward_x: i32,
    pub forward_z: i32,
    pub right_x: i32,
    pub right_z: i32,
}

/// `v` when `on`, else zero.
pub open spec fn when(on: bool, v: int) -> int {
    if on {
        v
    } else {
        0
    }
}

/// Horizontal walking direction for the held keys: the sum of the camera's
/// forward, back, left and right directions that are held.
pub open spec fn key_direction(keys: MoveKeys, cam: CameraBasis) -> (int, int) {
    let fx = clamp_unit(cam.forward_x);
    let fz = clamp_unit(cam.forward_z);
    let rx = clamp_unit(cam.right_x);
    let rz = clamp_unit(cam.right_z);
    (
        when(keys.forward, fx) - when(keys.back, fx) - when(keys.left, rx) + when(keys.right, rx),
        when(keys.forward, fz) - when(keys.back, fz) - when(keys.left, rz) + when(keys.right, rz),
    )
}

/// Player `p` after walking along `(dx, dz)` for `dt` milliseconds; sprinting
/// multiplies the speed while stamina is left, and sets the sprint flag.
pub open spec fn walked(p: Player, dx: int, dz: int, sprint: bool, dt: u32) -> Player {
    let fast = sprint && p.stamina.value > 0;
    let speed = if fast {
        p.speed * SPRINT_SPEED
    } else {
        p.speed as int
    };
    Player {
        position: Vec3i {
            x: moved(p.position.x, dx, speed, dt as int),
            y: p.position.y,
            z: moved(p.position.z, dz, speed, dt as int),
        },
        is_sprinting: IsSprinting(p.is_sprinting.0 || fast),
        ..p
    }
}

fn walk(p: Player, dx: i32, dz: i32, sprint: bool, dt: u32) -> (r: Player)
    requires
        -1_000_000 <= dx <= 1_000_000,
        -1_000_000 <= dz <= 1_000_000,
    ensures
        r == walked(p, dx as int, dz as int, sprint, dt),
{
    let fast = sprint && p.stamina.value > 0;
    let speed: u64 = if fast {
        p.speed as u64 * SPRINT_SPEED as u64
    } else {
        p.speed as u64
    };
    let x = move_coord(p.position.x, dx, speed, dt);
    let z = move_coord(p.position.z, dz, speed, dt);
    Player {
        position: Vec3i::new(x, p.position.y, z),
        is_sprinting: IsSprinting(p.is_sprinting.0 || fast),
        ..p
    }
}

/// `w1` is `w0` after the player walked along the held keys; `r` is the
/// direction the player turns to face.
pub open spec fn keyboard_moved(
    w0: World,
    w1: World,
    keys: MoveKeys,
    cam: CameraBasis,
    dt: u32,
    r: Option<Vec3i>,
) -> bool {
    &&& w1.wf()
    &&& w1.enemies@ == w0.enemies@
    &&& w1.projectiles@ == w0.projectiles@
    &&& w1.next_handle == w0.next_handle
    &&& match w0.player {
        Some(p) => {
            let (dx, dz) = key_direction(keys, cam);
            &&& w1.player == Some(walked(p, dx, dz, keys.sprint, dt))
            &&& r == if (dx != 0 || dz != 0) && !p.is_shooting.0 {
                Some(Vec3i { x: dx as i32, y: 0, z: dz as i32 })
            } else {
                None::<Vec3i>
            }
        },
        None => w1.player is None && r is None,
    }
}

/// Moves the player along the held keys, relative to the camera. Returns the
/// direction the player should turn to face: the walking direction, when it
/// is not zero and the player is not shooting.
pub fn keyboard_movement(
    world: &mut World,
    keys: MoveKeys,
    cam: CameraBasis,
    dt: u32,
) -> (r: Option<Vec3i>)
    requires
        old(world).wf(),
    ensures
        keyboard_moved(*old(world), *final(world), keys, cam, dt, r),
{
    match world.player {
        Some(p) => {
            let fx = unit_component(cam.forward_x);
            let fz = unit_component(cam.forward_z);
            let rx = unit_component(cam.right_x);
            let rz = unit_component(cam.right_z);
            let mut dx: i32 = 0;
            let mut dz: i32 = 0;
            if keys.forward {
                dx = dx + fx;
                dz = dz + fz;
            }
            if keys.back {
                dx = dx - fx;
                dz = dz - fz;
            }
            if keys.left {
                dx = dx - rx;
                dz = dz - rz;
            }
            if keys.right {
                dx = dx + rx;
                dz = dz + rz;
            }
            let q = walk(p, dx, dz, keys.sprint, dt);
            world.player = Some(q);
            if (dx != 0 || dz != 0) && !p.is_shooting.0 {
                Some(Vec3i::new(dx, 0, dz))
            } else {
                None
            }
        },
        None => None,
    }
}

/// A gamepad's left stick and sprint trigger this tick; stick axes scaled
/// to 1000.
#[derive(Clone, Copy, Debug, PartialEq, Eq, Structural)]
pub struct StickInput {
    pub x: i32,
    pub y: i32,
    pub sprint: bool,
}

/// Whether the stick is pushed past half of its travel.
pub open spec fn stick_engaged(s: StickInput) -> bool {
    clamp_unit(s.x) * clamp_unit(s.x) + clamp_unit(s.y) * clamp_unit(s.y) > 250_000
}

/// Walking direction for the stick: the camera's forward direction times the
/// stick's y plus its right direction times the stick's x, scaled to 1000;
/// zero while the stick rests near the centre.
pub open spec fn stick_direction(s: StickInput, cam: CameraBasis) -> Vec3i {
    if stick_engaged(s) {
        let sx = clamp_unit(s.x);
        let sy = clamp_unit(s.y);
        flat_unit(
            clamp_unit(cam.forward_x) * sy + clamp_unit(cam.right_x) * sx,
            clamp_unit(cam.forward_z) * sy + clamp_unit(cam.right_z) * sx,
        )
    } else {
        Vec3i { x: 0, y: 0, z: 0 }
    }
}

/// `w1` is `w0` after the player walked along the stick; `r` is the
/// direction the player turns to face.
pub open spec fn gamepad_moved(
    w0: World,
    w1: World,
    stick: StickInput,
    cam: CameraBasis,
    dt: u32,
    r: Option<Vec3i>,
) -> bool {
    &&& w1.wf()
    &&& w1.enemies@ == w0.enemies@
    &&& w1.projectiles@ == w0.projectiles@
    &&& w1.next_handle == w0.next_handle
    &&& match w0.player {
        Some(p) => {
            let d = stick_direction(stick, cam);
            &&& w1.player == Some(walked(p, d.x as int, d.z as int, stick.sprint, dt))
            &&& r == if d.x != 0 || d.z != 0 {
                Some(d)
            } else {
                None::<Vec3i>
            }
        },
        None => w1.player is None && r is None,
    }
}

/// Moves the player along the stick, relative to the camera. Returns the
/// direction the player should turn to face, when it is not zero.
pub fn gamepad_movement(
    world: &mut World,
    stick: StickInput,
    cam: CameraBasis,
    dt: u32,
) -> (r: Option<Vec3i>)
    requires
        old(world).wf(),
    ensures
        gamepad_moved(*old(world), *final(world), stick, cam, dt, r),
{
    match world.player {
        Some(p) => {
            let sx = unit_component(stick.x);
            let sy = unit_component(stick.y);
            let fx = unit_component(cam.forward_x);
            let fz = unit_component(cam.forward_z);
            let rx = unit_component(cam.right_x);
            let rz = unit_component(cam.right_z);
            let mut d = Vec3i::new(0, 0, 0);
            assert(0 <= sx * sx <= 1_000_000) by (nonlinear_arith)
                requires
                    -1000 <= sx <= 1000,
            ;
            assert(0 <= sy * sy <= 1_000_000) by (nonlinear_arith)
                requires
                    -1000 <= sy <= 1000,
            ;
            let sq = sx as i64 * sx as i64 + sy as i64 * sy as i64;
            if sq > 250_000 {
                assert(-1_000_000 <= fx * sy <= 1_000_000) by (nonlinear_arith)
                    requires
                        -1000 <= fx <= 1000,
                        -1000 <= sy <= 1000,
                ;
                assert(-1_000_000 <= rx * sx <= 1_000_000) by (nonlinear_arith)
                    requires
                        -1000 <= rx <= 1000,
                        -1000 <= sx <= 1000,
                ;
                assert(-1_000_000 <= fz * sy <= 1_000_000) by (nonlinear_arith)
                    requires
                        -1000 <= fz <= 1000,
                        -1000 <= sy <= 1000,
                ;
                assert(-1_000_000 <= rz * sx <= 1_000_000) by (nonlinear_arith)
                    requires
                        -1000 <= rz <= 1000,
                        -1000 <= sx <= 1000,
                ;
                let jx = fx as i64 * sy as i64 + rx as i64 * sx as i64;
                let jz = fz as i64 * sy as i64 + rz as i64 * sx as i64;
                d = normalize_flat(jx, jz);
            }
            let q = walk(p, d.x, d.z, stick.sprint, dt);
            world.player = Some(q);
            if d.x != 0 || d.z != 0 {
                Some(d)
            } else {
                None
            }
        },
        None => None,
    }
}

} // verus!
