use crate::actors::{Enemy, EnemyBundle, Player, PlayerBundle, Projectile, PLAYER_SPAWN_HEIGHT};
use crate::geometry::Vec3i;
use vstd::prelude::*;

verus! {

broadcast use vstd::seq_lib::group_filter_ensures;

/// The live actors of a session. Enemies and projectiles are named by
/// handles that are never reused; enemies are kept in the order in which
/// they were created, so their handles increase along the list.
pub struct World {
    pub player: Option<Player>,
    pub enemies: Vec<Enemy>,
    pub projectiles: Vec<Projectile>,
    pub next_handle: u64,
}

/// Enemies whose removal has not been requested.
pub open spec fn enemy_alive() -> spec_fn(Enemy) -> bool {
    |e: Enemy| !e.doomed
}

/// Projectiles whose removal has not been requested.
pub open spec fn projectile_alive() -> spec_fn(Projectile) -> bool {
    |p: Projectile| !p.doomed
}

/// Handles increase along the list and stay below `bound`.
pub open spec fn handles_ordered(s: Seq<Enemy>, bound: u64) -> bool {
    &&& forall|i: int, j: int| 0 <= i < j < s.len() ==> s[i].handle < s[j].handle
    &&& forall|i: int| 0 <= i < s.len() ==> s[i].handle < bound
}

/// Every enemy's attack cooldown is a well-formed timer.
pub open spec fn cooldowns_wf(s: Seq<Enemy>) -> bool {
    forall|i: int| 0 <= i < s.len() ==> (#[trigger] s[i]).attack_rate.wf()
}

pub open spec fn player_start() -> Player {
    Player::from_bundle(Vec3i { x: 0, y: PLAYER_SPAWN_HEIGHT, z: 0 }, PlayerBundle::spec_default())
}

impl World {
    pub open spec fn wf(self) -> bool {
        &&& handles_ordered(self.enemies@, self.next_handle)
        &&& cooldowns_wf(self.enemies@)
        &&& (self.player matches Some(p) ==> p.wf())
    }

    pub fn new() -> (w: World)
        ensures
            w.wf(),
            w.player is None,
            w.enemies@ == Seq::<Enemy>::empty(),
            w.projectiles@ == Seq::<Projectile>::empty(),
            w.next_handle == 0,
    {
        World { player: None, enemies: Vec::new(), projectiles: Vec::new(), next_handle: 0 }
    }

    /// Adds an enemy made from `bundle` at `position`; returns its handle, or
    /// `None` when every handle has been used.
    pub fn spawn_enemy_at(&mut self, position: Vec3i, bundle: EnemyBundle) -> (r: Option<u64>)
        requires
            old(self).wf(),
            bundle.attack_rate.wf(),
        ensures
            final(self).wf(),
            final(self).player == old(self).player,
            final(self).projectiles@ == old(self).projectiles@,
            old(self).next_handle == u64::MAX ==> r is None && final(self).enemies@ == old(
                self,
            ).enemies@ && final(self).next_handle == old(self).next_handle,
            old(self).next_handle < u64::MAX ==> final(self).next_handle == old(self).next_handle + 1,
            old(self).next_handle < u64::MAX ==> r == Some(old(self).next_handle)
                && final(self).enemies@ == old(self).enemies@.push(
                Enemy::from_bundle(old(self).next_handle, position, bundle),
            ),
    {
        if self.next_handle == u64::MAX {
            return None;
        }
        let handle = self.next_handle;
        let e = Enemy {
            handle,
            position,
            hp: bundle.hp,
            damage: bundle.damage,
            speed: bundle.speed,
            attack_rate: bundle.attack_rate,
            doomed: false,
        };
        self.enemies.push(e);
        self.next_handle = handle + 1;
        Some(handle)
    }

    /// Adds a projectile at `position` flying along `direction`; returns its
    /// handle, or `None` when every handle has been used.
    pub fn spawn_projectile_at(&mut self, position: Vec3i, direction: Vec3i) -> (r: Option<u64>)
        requires
            old(self).wf(),
        ensures
            final(self).wf(),
            final(self).player == old(self).player,
            final(self).enemies@ == old(self).enemies@,
            old(self).next_handle == u64::MAX ==> r is None && final(self).projectiles@ == old(
                self,
            ).projectiles@ && final(self).next_handle == old(self).next_handle,
            old(self).next_handle < u64::MAX ==> final(self).next_handle == old(self).next_handle + 1,
            old(self).next_handle < u64::MAX ==> r == Some(old(self).next_handle)
                && final(self).projectiles@ == old(self).projectiles@.push(
                Projectile { handle: old(self).next_handle, position, direction, doomed: false },
            ),
    {
        if self.next_handle == u64::MAX {
            return None;
        }
        let handle = self.next_handle;
        self.projectiles.push(Projectile { handle, position, direction, doomed: false });
        self.next_handle = handle + 1;
        Some(handle)
    }

    /// Removes every actor whose removal was requested.
    pub fn apply_despawns(&mut self)
        requires
            old(self).wf(),
        ensures
            final(self).wf(),
            final(self).player == old(self).player,
            final(self).next_handle == old(self).next_handle,
            final(self).enemies@ == old(self).enemies@.filter(enemy_alive()),
            final(self).projectiles@ == old(self).projectiles@.filter(projectile_alive()),
    {
        let ghost es = self.enemies@;
        let mut kept: Vec<Enemy> = Vec::new();
        let mut i: usize = 0;
        while i < self.enemies.len()
            invariant
                self.enemies@ == es,
                handles_ordered(es, self.next_handle),
                cooldowns_wf(es),
                0 <= i <= es.len(),
                kept@ == es.subrange(0, i as int).filter(enemy_alive()),
                handles_ordered(kept@, self.next_handle),
                cooldowns_wf(kept@),
                i == 0 ==> kept@.len() == 0,
                i > 0 ==> forall|k: int| 0 <= k < kept@.len() ==> kept@[k].handle <= es[i - 1].handle,
            decreases es.len() - i,
        {
            let e = self.enemies[i];
            proof {
                assert(es.subrange(0, i + 1) =~= es.subrange(0, i as int).push(e));
                es.subrange(0, i as int).lemma_filter_push(e, enemy_alive());
            }
            if !e.doomed {
                kept.push(e);
            }
            i = i + 1;
        }
        proof {
            assert(es.subrange(0, es.len() as int) =~= es);
        }
        self.enemies = kept;
        let ghost ps = self.projectiles@;
        let mut flying: Vec<Projectile> = Vec::new();
        let mut j: usize = 0;
        while j < self.projectiles.len()
            invariant
                self.projectiles@ == ps,
                0 <= j <= ps.len(),
                flying@ == ps.subrange(0, j as int).filter(projectile_alive()),
            decreases ps.len() - j,
        {
            let p = self.projectiles[j];
            proof {
                assert(ps.subrange(0, j + 1) =~= ps.subrange(0, j as int).push(p));
                ps.subrange(0, j as int).lemma_filter_push(p, projectile_alive());
            }
            if !p.doomed {
                flying.push(p);
            }
            j = j + 1;
        }
        proof {
            assert(ps.subrange(0, ps.len() as int) =~= ps);
        }
        self.projectiles = flying;
    }

    /// Removes every actor: the player, all enemies and all projectiles.
    pub fn despawn_game(&mut self)
        requires
            old(self).wf(),
        ensures
            final(self).wf(),
            final(self).player is None,
            final(self).enemies@ == Seq::<Enemy>::empty(),
            final(self).projectiles@ == Seq::<Projectile>::empty(),
            final(self).next_handle == old(self).next_handle,
    {
        self.player = None;
        self.enemies = Vec::new();
        self.projectiles = Vec::new();
    }
}

} // verus!
