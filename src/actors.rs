use crate::geometry::Vec3i;
use crate::timer::{Timer, TimerMode};
use vstd::prelude::*;

verus! {

/// Side of the square map.
pub const MAP_SIZE: i32 = 25000;
/// Half of the map's side: positions on the map lie within this of the origin.
pub const MAP_HALF: i32 = 12500;

pub const PLAYER_HP: u64 = 100;
pub const PLAYER_DAMAGE: u64 = 25;
/// Walking speed, in millimetres per second.
pub const PLAYER_SPEED: u32 = 2500;
/// Factor applied to the walking speed while sprinting.
pub const SPRINT_SPEED: u32 = 5;
pub const PLAYER_SIZE: i32 = 500;
/// Height of the player's centre when it enters the map.
pub const PLAYER_SPAWN_HEIGHT: i32 = 250;
/// Stamina ceiling, in thousandths of a point.
pub const STAMINA: u64 = 200_000_000;
/// Time without sprinting before stamina comes back.
pub const STAMINA_REGEN_TIME: u64 = 1500;
/// Stamina regained per tick, in thousandths of a point.
pub const STAMINA_REGEN_AMOUNT: u64 = 25;
/// Stamina spent per tick of sprinting, in thousandths of a point.
pub const STAMINA_DRAIN: u64 = 100;

pub const ENEMY_HP: u64 = 50;
pub const ENEMY_DAMAGE: u64 = 10;
pub const ENEMY_SIZE: u32 = 500;
/// Extra reach of an enemy's melee attack beyond its size.
pub const ENEMY_REACH: u32 = 100;
/// Enemy walking speed, in millimetres per second.
pub const ENEMY_SPEED: u32 = 1000;
/// Cooldown between two attacks of one enemy.
pub const ENEMY_ATTACK_RATE: u64 = 1000;
/// Height of an enemy's centre when it enters the map.
pub const ENEMY_SPAWN_HEIGHT: i32 = 500;

/// Projectile speed, in millimetres per second.
pub const PROJECTILE_SPEED: u32 = 25000;
/// Time between two shots while the trigger is held.
pub const FIRE_RATE: u64 = 150;

/// An enemy's attack cooldown. A strike sets `cooling`; the timer then runs
/// until it elapses, which clears `cooling` and resets the timer.
#[derive(Clone, Copy, Debug, PartialEq, Eq, Structural)]
pub struct AttackRate {
    pub timer: Timer,
    pub cooling: bool,
}

impl AttackRate {
    /// The timer is well formed and never left in the finished state, and
    /// an idle cooldown has no time on it.
    pub open spec fn wf(self) -> bool {
        &&& self.timer.wf()
        &&& !self.timer.finished
        &&& !self.cooling ==> self.timer.elapsed == 0
    }

    pub open spec fn spec_default() -> AttackRate {
        AttackRate { timer: Timer::new_spec(ENEMY_ATTACK_RATE, TimerMode::Repeating), cooling: false }
    }
}

impl Default for AttackRate {
    fn default() -> (a: AttackRate)
        ensures
            a.wf(),
            a == AttackRate::spec_default(),
    {
        AttackRate { timer: Timer::new(ENEMY_ATTACK_RATE, TimerMode::Repeating), cooling: false }
    }
}

/// What a new enemy starts with.
#[derive(Clone, Copy, Debug, PartialEq, Eq, Structural)]
pub struct EnemyBundle {
    pub attack_rate: AttackRate,
    pub damage: u64,
    pub hp: u64,
    pub speed: u32,
}

impl EnemyBundle {
    pub open spec fn spec_new(hp: u64) -> EnemyBundle {
        EnemyBundle {
            attack_rate: AttackRate::spec_default(),
            damage: ENEMY_DAMAGE,
            hp,
            speed: ENEMY_SPEED,
        }
    }

    pub fn new(hp: u64) -> (b: EnemyBundle)
        ensures
            b == EnemyBundle::spec_new(hp),
            b.attack_rate.wf(),
    {
        EnemyBundle { attack_rate: AttackRate::default(), damage: ENEMY_DAMAGE, hp, speed: ENEMY_SPEED }
    }
}

/// A live enemy.
#[derive(Clone, Copy, Debug, PartialEq, Eq, Structural)]
pub struct Enemy {
    pub handle: u64,
    pub position: Vec3i,
    pub hp: u64,
    pub damage: u64,
    pub speed: u32,
    pub attack_rate: AttackRate,
    /// Removal has been requested; it takes effect at the end of the tick.
    pub doomed: bool,
}

impl Enemy {
    pub open spec fn from_bundle(handle: u64, position: Vec3i, b: EnemyBundle) -> Enemy {
        Enemy {
            handle,
            position,
            hp: b.hp,
            damage: b.damage,
            speed: b.speed,
            attack_rate: b.attack_rate,
            doomed: false,
        }
    }
}

/// The player's stamina, in thousandths of a point, and the delay before
/// it regenerates.
#[derive(Clone, Copy, Debug, PartialEq, Eq, Structural)]
pub struct Stamina {
    pub max: u64,
    pub regen_time: Timer,
    pub value: u64,
}

impl Stamina {
    pub fn new(max: u64) -> (s: Stamina)
        ensures
            s.max == max,
            s.value == max,
            s.regen_time == Timer::new_spec(STAMINA_REGEN_TIME, TimerMode::Once),
            s.regen_time.wf(),
    {
        Stamina { max, regen_time: Timer::new(STAMINA_REGEN_TIME, TimerMode::Once), value: max }
    }
}

#[derive(Clone, Copy, Debug, PartialEq, Eq, Structural)]
pub struct IsSprinting(pub bool);

#[derive(Clone, Copy, Debug, PartialEq, Eq, Structural)]
pub struct IsShooting(pub bool);

/// What the player starts a session with.
#[derive(Clone, Copy, Debug, PartialEq, Eq, Structural)]
pub struct PlayerBundle {
    pub damage: u64,
    pub hp: u64,
    pub is_sprinting: IsSprinting,
    pub is_shooting: IsShooting,
    pub stamina: Stamina,
    pub speed: u32,
}

impl PlayerBundle {
    pub open spec fn spec_default() -> PlayerBundle {
        PlayerBundle {
            damage: PLAYER_DAMAGE,
            hp: PLAYER_HP,
            is_sprinting: IsSprinting(false),
            is_shooting: IsShooting(false),
            stamina: Stamina {
                max: STAMINA,
                regen_time: Timer::new_spec(STAMINA_REGEN_TIME, TimerMode::Once),
                value: STAMINA,
            },
            speed: PLAYER_SPEED,
        }
    }
}

impl Default for PlayerBundle {
    fn default() -> (b: PlayerBundle)
        ensures
            b == PlayerBundle::spec_default(),
    {
        PlayerBundle {
            damage: PLAYER_DAMAGE,
            hp: PLAYER_HP,
            is_sprinting: IsSprinting(false),
            is_shooting: IsShooting(false),
            stamina: Stamina::new(STAMINA),
            speed: PLAYER_SPEED,
        }
    }
}

/// The player's actor.
#[derive(Clone, Copy, Debug, PartialEq, Eq, Structural)]
pub struct Player {
    pub position: Vec3i,
    pub damage: u64,
    pub hp: u64,
    pub is_sprinting: IsSprinting,
    pub is_shooting: IsShooting,
    pub stamina: Stamina,
    pub speed: u32,
}

impl Player {
    pub open spec fn wf(self) -> bool {
        self.stamina.regen_time.wf()
    }

    pub open spec fn from_bundle(position: Vec3i, b: PlayerBundle) -> Player {
        Player {
            position,
            damage: b.damage,
            hp: b.hp,
            is_sprinting: b.is_sprinting,
            is_shooting: b.is_shooting,
            stamina: b.stamina,
            speed: b.speed,
        }
    }
}

/// A projectile in flight; `direction` is a horizontal unit vector scaled
/// to 1000 and does not change after the shot.
#[derive(Clone, Copy, Debug, PartialEq, Eq, Structural)]
pub struct Projectile {
    pub handle: u64,
    pub position: Vec3i,
    pub direction: Vec3i,
    /// Removal has been requested; it takes effect at the end of the tick.
    pub doomed: bool,
}

} // verus!
