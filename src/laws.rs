//! Properties of the simulation that hold over every input, proved from the
//! specifications of the individual steps.
use crate::actors::{AttackRate, Enemy, EnemyBundle};
use crate::debug::{spawn_permitted, DebugProps, EnableDebugMode};
use crate::enemy::{
    after_hits, baseline_after, cooldown_step, HP_GAIN, deaths_from, deaths_of, kills, lemma_cooldown_step, struck,
};
use crate::events::{EnemyDeathEv, HitEv, HitPlayerEv};
use crate::geometry::Vec3i;
use crate::player::{hp_after, kills_after};
use crate::world::handles_ordered;
use crate::timer::{Timer, TimerMode};
use vstd::arithmetic::div_mod::{lemma_div_plus_one, lemma_fundamental_div_mod};
use vstd::prelude::*;

verus! {

/// Total damage carried by a sequence of player hits.
pub open spec fn total_damage(evs: Seq<HitPlayerEv>) -> int
    decreases evs.len(),
{
    if evs.len() == 0 {
        0
    } else {
        total_damage(evs.drop_last()) + evs.last().0
    }
}

/// Damage that a sequence of hits deals to the enemy with handle `h`.
pub open spec fn damage_to(h: u64, evs: Seq<HitEv>) -> int
    decreases evs.len(),
{
    if evs.len() == 0 {
        0
    } else {
        damage_to(h, evs.drop_last()) + if evs.last().ent == h {
            evs.last().dmg as int
        } else {
            0
        }
    }
}

/// `hp - dmg`, or zero when the damage reaches the health.
pub open spec fn floored(hp: int, dmg: int) -> int {
    if dmg >= hp {
        0
    } else {
        hp - dmg
    }
}

/// How many deaths of `ds` name handle `h`.
pub open spec fn deaths_named(ds: Seq<EnemyDeathEv>, h: u64) -> nat
    decreases ds.len(),
{
    if ds.len() == 0 {
        0
    } else {
        deaths_named(ds.drop_last(), h) + if ds.last().0 == h {
            1nat
        } else {
            0nat
        }
    }
}

/// The player's health after any hits is its health less the total
/// damage, floored at zero: it never goes below zero and never wraps.
pub proof fn lemma_player_hp_floor(hp: u64, evs: Seq<HitPlayerEv>)
    ensures
        hp_after(hp, evs) == floored(hp as int, total_damage(evs)),
    decreases evs.len(),
{
    if evs.len() > 0 {
        lemma_player_hp_floor(hp, evs.drop_last());
        lemma_total_damage_nonneg(evs.drop_last());
    }
}

proof fn lemma_total_damage_nonneg(evs: Seq<HitPlayerEv>)
    ensures
        total_damage(evs) >= 0,
    decreases evs.len(),
{
    if evs.len() > 0 {
        lemma_total_damage_nonneg(evs.drop_last());
    }
}

proof fn lemma_damage_to_nonneg(h: u64, evs: Seq<HitEv>)
    ensures
        damage_to(h, evs) >= 0,
    decreases evs.len(),
{
    if evs.len() > 0 {
        lemma_damage_to_nonneg(h, evs.drop_last());
    }
}

/// Hits keep the list of enemies, their handles and everything but their
/// health, which never rises.
pub proof fn lemma_hits_keep_enemies(es: Seq<Enemy>, evs: Seq<HitEv>)
    ensures
        after_hits(es, evs).len() == es.len(),
        forall|i: int|
            0 <= i < es.len() ==> (#[trigger] after_hits(es, evs)[i]) == (Enemy {
                hp: after_hits(es, evs)[i].hp,
                ..es[i]
            }) && after_hits(es, evs)[i].hp <= es[i].hp,
    decreases evs.len(),
{
    if evs.len() > 0 {
        lemma_hits_keep_enemies(es, evs.drop_last());
        let prev = after_hits(es, evs.drop_last());
        assert forall|i: int| 0 <= i < es.len() implies (#[trigger] after_hits(es, evs)[i]) == (
        Enemy { hp: after_hits(es, evs)[i].hp, ..es[i] }) && after_hits(es, evs)[i].hp
            <= es[i].hp by {
            assert(after_hits(es, evs)[i] == struck(prev[i], evs.last()));
            assert(prev[i] == (Enemy { hp: prev[i].hp, ..es[i] }));
        }
    }
}

/// Every enemy's health after any hits is its health less the damage dealt
/// to its handle, floored at zero.
pub proof fn lemma_enemy_hp_floor(es: Seq<Enemy>, evs: Seq<HitEv>, i: int)
    requires
        0 <= i < es.len(),
    ensures
        after_hits(es, evs)[i].hp == floored(es[i].hp as int, damage_to(es[i].handle, evs)),
    decreases evs.len(),
{
    lemma_hits_keep_enemies(es, evs);
    if evs.len() > 0 {
        lemma_enemy_hp_floor(es, evs.drop_last(), i);
        lemma_damage_to_nonneg(es[i].handle, evs.drop_last());
        lemma_hits_keep_enemies(es, evs.drop_last());
        let prev = after_hits(es, evs.drop_last());
        assert(after_hits(es, evs)[i] == struck(prev[i], evs.last()));
    }
}

proof fn lemma_deaths_named_add(a: Seq<EnemyDeathEv>, b: Seq<EnemyDeathEv>, h: u64)
    ensures
        deaths_named(a + b, h) == deaths_named(a, h) + deaths_named(b, h),
    decreases b.len(),
{
    if b.len() == 0 {
        assert(a + b =~= a);
    } else {
        lemma_deaths_named_add(a, b.drop_last(), h);
        assert((a + b).drop_last() =~= a + b.drop_last());
    }
}

/// A hit causes no death for a handle that no enemy of `s` carries.
proof fn lemma_deaths_of_absent(s: Seq<Enemy>, ev: HitEv, h: u64)
    requires
        forall|k: int| 0 <= k < s.len() ==> s[k].handle != h,
    ensures
        deaths_named(deaths_of(s, ev), h) == 0,
    decreases s.len(),
{
    if s.len() > 0 {
        lemma_deaths_of_absent(s.drop_last(), ev, h);
        let rest = deaths_of(s.drop_last(), ev);
        if kills(s.last(), ev) {
            assert(rest.push(EnemyDeathEv(s.last().handle)).drop_last() =~= rest);
        }
    }
}

/// With distinct handles, a hit causes one death for the enemy at `i` when
/// it kills that enemy, and none otherwise.
proof fn lemma_deaths_of_one(s: Seq<Enemy>, ev: HitEv, i: int)
    requires
        0 <= i < s.len(),
        forall|a: int, b: int| 0 <= a < b < s.len() ==> s[a].handle != s[b].handle,
    ensures
        deaths_named(deaths_of(s, ev), s[i].handle) == if kills(s[i], ev) {
            1nat
        } else {
            0nat
        },
    decreases s.len(),
{
    let h = s[i].handle;
    let init = s.drop_last();
    let rest = deaths_of(init, ev);
    if i == s.len() - 1 {
        lemma_deaths_of_absent(init, ev, h);
    } else {
        lemma_deaths_of_one(init, ev, i);
    }
    if kills(s.last(), ev) {
        assert(rest.push(EnemyDeathEv(s.last().handle)).drop_last() =~= rest);
    }
}

/// Exactly one death is published for an enemy whose health crosses zero
/// under a run of hits, and none for any other enemy: an enemy already at
/// zero health never dies twice.
pub proof fn lemma_one_death_per_enemy(es: Seq<Enemy>, evs: Seq<HitEv>, bound: u64, i: int)
    requires
        handles_ordered(es, bound),
        0 <= i < es.len(),
    ensures
        deaths_named(deaths_from(es, evs), es[i].handle) == if es[i].hp > 0 && after_hits(
            es,
            evs,
        )[i].hp == 0 {
            1nat
        } else {
            0nat
        },
    decreases evs.len(),
{
    lemma_hits_keep_enemies(es, evs);
    if evs.len() > 0 {
        let prev_evs = evs.drop_last();
        let ev = evs.last();
        let cur = after_hits(es, prev_evs);
        lemma_one_death_per_enemy(es, prev_evs, bound, i);
        lemma_hits_keep_enemies(es, prev_evs);
        assert forall|a: int, b: int| 0 <= a < b < cur.len() implies cur[a].handle
            != cur[b].handle by {
            assert(cur[a].handle == es[a].handle);
            assert(cur[b].handle == es[b].handle);
        }
        lemma_deaths_of_one(cur, ev, i);
        lemma_deaths_named_add(deaths_from(es, prev_evs), deaths_of(cur, ev), es[i].handle);
        assert(after_hits(es, evs)[i] == struck(cur[i], ev));
    }
}

/// Hits read in two batches leave the enemies as the two batches read at
/// once, and cause the same deaths in the same order.
pub proof fn lemma_hits_compose(es: Seq<Enemy>, a: Seq<HitEv>, b: Seq<HitEv>)
    ensures
        after_hits(es, a + b) == after_hits(after_hits(es, a), b),
        deaths_from(es, a + b) == deaths_from(es, a) + deaths_from(after_hits(es, a), b),
    decreases b.len(),
{
    if b.len() == 0 {
        assert(a + b =~= a);
        assert(deaths_from(es, a) + deaths_from(after_hits(es, a), b) =~= deaths_from(es, a));
    } else {
        lemma_hits_compose(es, a, b.drop_last());
        assert((a + b).drop_last() =~= a + b.drop_last());
        assert((a + b).last() == b.last());
        let mid = after_hits(es, a);
        assert(deaths_from(es, a + b) =~= deaths_from(es, a) + deaths_from(mid, b.drop_last())
            + deaths_of(after_hits(mid, b.drop_last()), b.last()));
        assert(deaths_from(es, a) + deaths_from(mid, b) =~= deaths_from(es, a) + deaths_from(
            mid,
            b.drop_last(),
        ) + deaths_of(after_hits(mid, b.drop_last()), b.last()));
    }
}

/// An enemy that starts with some health dies exactly once under a run of
/// hits when the damage aimed at it reaches its health, and never otherwise.
pub proof fn lemma_death_iff_damage(es: Seq<Enemy>, evs: Seq<HitEv>, bound: u64, i: int)
    requires
        handles_ordered(es, bound),
        0 <= i < es.len(),
    ensures
        deaths_named(deaths_from(es, evs), es[i].handle) == if es[i].hp > 0 && damage_to(
            es[i].handle,
            evs,
        ) >= es[i].hp {
            1nat
        } else {
            0nat
        },
{
    lemma_one_death_per_enemy(es, evs, bound, i);
    lemma_enemy_hp_floor(es, evs, i);
}

/// Over two ticks of hits (and so over any number of them), an enemy dies at
/// most once in all: exactly once when the damage aimed at it over both
/// ticks reaches its starting health.
pub proof fn lemma_one_death_across_ticks(
    es: Seq<Enemy>,
    first: Seq<HitEv>,
    second: Seq<HitEv>,
    bound: u64,
    i: int,
)
    requires
        handles_ordered(es, bound),
        0 <= i < es.len(),
    ensures
        deaths_named(
            deaths_from(es, first) + deaths_from(after_hits(es, first), second),
            es[i].handle,
        ) == if es[i].hp > 0 && damage_to(es[i].handle, first + second) >= es[i].hp {
            1nat
        } else {
            0nat
        },
{
    lemma_hits_compose(es, first, second);
    lemma_death_iff_damage(es, first + second, bound, i);
}

/// Kills counted in two batches are counted as one batch; the count never
/// goes down, and below `u64::MAX` it is the old count plus the kills.
pub proof fn lemma_kills_add(k: u64, n1: nat, n2: nat)
    ensures
        kills_after(kills_after(k, n1), n2) == kills_after(k, n1 + n2),
        kills_after(k, n1) >= k,
        kills_after(k, 0) == k,
        k + n1 <= u64::MAX ==> kills_after(k, n1) == k + n1,
{
}

/// Total time of a run of ticks.
pub open spec fn run_time(steps: Seq<(bool, u64)>) -> int
    decreases steps.len(),
{
    if steps.len() == 0 {
        0
    } else {
        steps[0].1 + run_time(steps.drop_first())
    }
}

/// Strikes of one enemy over a run of ticks, each tick saying whether the
/// player is in reach and how much time passed.
pub open spec fn strikes_over(r: AttackRate, steps: Seq<(bool, u64)>) -> nat
    decreases steps.len(),
{
    if steps.len() == 0 {
        0
    } else {
        let (r1, fire) = cooldown_step(r, steps[0].0, steps[0].1);
        strikes_over(r1, steps.drop_first()) + if fire {
            1nat
        } else {
            0nat
        }
    }
}

/// Time that a cooling enemy must still wait before it may strike again.
pub open spec fn cooldown_debt(r: AttackRate) -> int {
    if r.cooling {
        r.timer.duration - r.timer.elapsed
    } else {
        0
    }
}

proof fn lemma_run_time_nonneg(steps: Seq<(bool, u64)>)
    ensures
        run_time(steps) >= 0,
    decreases steps.len(),
{
    if steps.len() > 0 {
        lemma_run_time_nonneg(steps.drop_first());
    }
}

/// Every strike is paid for with a whole cooldown: over any run of ticks,
/// the strikes times the cooldown are at most the run's time plus one
/// cooldown, less what the enemy still owes at the start.
pub proof fn lemma_strikes_paid(r: AttackRate, steps: Seq<(bool, u64)>)
    requires
        r.wf(),
    ensures
        strikes_over(r, steps) * r.timer.duration <= run_time(steps) + r.timer.duration
            - cooldown_debt(r),
    decreases steps.len(),
{
    if steps.len() > 0 {
        let rest = steps.drop_first();
        let in_range = steps[0].0;
        let dt = steps[0].1;
        let (r1, fire) = cooldown_step(r, in_range, dt);
        lemma_cooldown_step(r, in_range, dt);
        lemma_strikes_paid(r1, rest);
        lemma_run_time_nonneg(rest);
        let c = r.timer.duration as int;
        let n = strikes_over(r1, rest) as int;
        assert(r1.timer.duration == c);
        assert(run_time(steps) == dt + run_time(rest));
        let m = strikes_over(r, steps) as int;
        assert(m == n + if fire { 1int } else { 0int });
        assert(fire ==> m * c == n * c + c) by (nonlinear_arith)
            requires
                fire ==> m == n + 1,
        ;
        assert(!fire ==> m * c == n * c) by (nonlinear_arith)
            requires
                !fire ==> m == n,
        ;
        if r.cooling || fire {
            let total = r.timer.elapsed + dt;
            if total < c {
                assert(r1.cooling && r1.timer.elapsed == total);
                assert(cooldown_debt(r1) == c - total);
            } else {
                assert(!r1.cooling);
                assert(cooldown_debt(r1) == 0);
            }
            assert(m * c <= run_time(steps) + c - cooldown_debt(r));
        } else {
            assert(r1 == r);
            assert(m * c <= run_time(steps) + c - cooldown_debt(r));
        }
    } else {
        assert(strikes_over(r, steps) == 0);
        assert(0 * r.timer.duration == 0);
    }
}

/// However long an enemy stays in reach, over a run of ticks lasting `T` it
/// strikes at most `T / C + 1` times, `C` being its cooldown: at most once per
/// cooldown interval, whatever the length of each tick.
pub proof fn lemma_strikes_per_cooldown(r: AttackRate, steps: Seq<(bool, u64)>)
    requires
        r.wf(),
    ensures
        strikes_over(r, steps) <= run_time(steps) / (r.timer.duration as int) + 1,
{
    lemma_strikes_paid(r, steps);
    lemma_run_time_nonneg(steps);
    let c = r.timer.duration as int;
    let t = run_time(steps);
    let n = strikes_over(r, steps) as int;
    lemma_fundamental_div_mod(t, c);
    assert(n <= t / c + 1) by (nonlinear_arith)
        requires
            n * c <= t + c,
            c > 0,
            t == c * (t / c) + t % c,
            0 <= t % c < c,
            n >= 0,
    ;
}

/// In any run of ticks shorter than its cooldown, an enemy strikes at most
/// once, even when it stays in reach on every tick.
pub proof fn lemma_one_strike_per_cooldown(r: AttackRate, steps: Seq<(bool, u64)>)
    requires
        r.wf(),
        run_time(steps) < r.timer.duration,
    ensures
        strikes_over(r, steps) <= 1,
{
    lemma_strikes_paid(r, steps);
    let c = r.timer.duration as int;
    let n = strikes_over(r, steps) as int;
    assert(n <= 1) by (nonlinear_arith)
        requires
            n * c < c + c,
            c > 0,
            n >= 0,
    ;
}

/// Total time of a run of ticks given by their lengths.
pub open spec fn total_time(dts: Seq<u64>) -> int
    decreases dts.len(),
{
    if dts.len() == 0 {
        0
    } else {
        dts[0] + total_time(dts.drop_first())
    }
}

/// The difficulty timer and baseline after a run of difficulty ticks.
pub open spec fn difficulty_run(t: Timer, hp: u64, dts: Seq<u64>) -> (Timer, u64)
    decreases dts.len(),
{
    if dts.len() == 0 {
        (t, hp)
    } else {
        let t1 = t.after_tick(dts[0]);
        difficulty_run(t1, baseline_after(hp, t1.times_finished_this_tick > 0), dts.drop_first())
    }
}

/// With ticks shorter than its interval, a repeating difficulty timer raises
/// the baseline once for every whole interval of time run, counting the time
/// already on the timer: a run of `T` from a fresh timer with interval `C`
/// raises it `T / C` times.
pub proof fn lemma_difficulty_run(t: Timer, hp: u64, dts: Seq<u64>)
    requires
        t.wf(),
        t.mode == TimerMode::Repeating,
        forall|k: int| 0 <= k < dts.len() ==> #[trigger] dts[k] < t.duration,
        hp + HP_GAIN * ((t.elapsed + total_time(dts)) / (t.duration as int)) <= u64::MAX,
    ensures
        difficulty_run(t, hp, dts).1 == hp + HP_GAIN * ((t.elapsed + total_time(dts)) / (
        t.duration as int)),
    decreases dts.len(),
{
    let c = t.duration as int;
    if dts.len() == 0 {
        let e = t.elapsed as int;
        assert(e / c == 0) by (nonlinear_arith)
            requires
                0 <= e < c,
        ;
    } else {
        let dt = dts[0];
        let rest = dts.drop_first();
        let t1 = t.after_tick(dt);
        t.lemma_steps_wf(dt);
        lemma_total_time_nonneg(rest);
        assert forall|k: int| 0 <= k < rest.len() implies #[trigger] rest[k] < t1.duration by {
            assert(rest[k] == dts[k + 1]);
        }
        let total = t.elapsed as int + dt as int;
        let x = total + total_time(rest);
        assert(total_time(dts) == dt + total_time(rest));
        if total < c {
            assert(t1.elapsed == total && t1.times_finished_this_tick == 0);
            lemma_difficulty_run(t1, hp, rest);
        } else {
            lemma_fundamental_div_mod(total, c);
            assert(total / c == 1 && total % c == total - c) by (nonlinear_arith)
                requires
                    c <= total < c + c,
                    total == c * (total / c) + total % c,
                    0 <= total % c < c,
            ;
            assert(t1.elapsed == total - c && t1.times_finished_this_tick == 1);
            lemma_div_plus_one(x - c, c);
            assert(x / c >= 1);
            assert(hp + HP_GAIN <= u64::MAX);
            lemma_difficulty_run(t1, (hp + HP_GAIN) as u64, rest);
        }
    }
}

proof fn lemma_total_time_nonneg(dts: Seq<u64>)
    ensures
        total_time(dts) >= 0,
    decreases dts.len(),
{
    if dts.len() > 0 {
        lemma_total_time_nonneg(dts.drop_first());
    }
}

/// A newly spawned enemy starts with the baseline it was made with; the
/// enemy's record holds no link to the baseline, so later baseline changes
/// leave it as it is.
pub proof fn lemma_spawn_takes_baseline(handle: u64, position: Vec3i, baseline: u64)
    ensures
        Enemy::from_bundle(handle, position, EnemyBundle::spec_new(baseline)).hp == baseline,
{
}

/// Outside debug mode enemies may always spawn; in debug mode with the
/// enemies switch off they never may.
pub proof fn lemma_debug_gate(debug_props: DebugProps, debug_enable: EnableDebugMode)
    ensures
        !debug_enable.0 ==> spawn_permitted(debug_props, debug_enable),
        debug_enable.0 && !debug_props.enemies ==> !spawn_permitted(debug_props, debug_enable),
{
}

} // verus!
