use vstd::prelude::*;

use crate::geometry::{Arena, Point, Pos};
use crate::movement::{arena_ok, enemy_points, Enemy};
use crate::tuning::{ENEMY_HALF, MAX_DT, SPAWN_PERIOD};

verus! {

/// A repeating countdown: it fires once each time the time fed to it
/// reaches its period, at most once per frame.
#[derive(Clone, Copy, Debug, PartialEq, Eq, Structural)]
pub struct SpawnTimer {
    pub period: u64,
    pub elapsed: u64,
}

/// What a timer becomes after a frame of `dt` microseconds, and whether it
/// fired. Time past the period carries over, but only one period is
/// counted per frame.
pub open spec fn ticked(t: SpawnTimer, dt: int) -> (SpawnTimer, bool) {
    let e = t.elapsed + dt;
    if e >= t.period {
        (SpawnTimer { period: t.period, elapsed: (e % (t.period as int)) as u64 }, true)
    } else {
        (SpawnTimer { period: t.period, elapsed: e as u64 }, false)
    }
}

impl SpawnTimer {
    /// A usable timer has a positive period no longer than `MAX_DT`, and has
    /// not yet reached it.
    pub open spec fn wf(self) -> bool {
        0 < self.period <= MAX_DT && self.elapsed < self.period
    }

    /// A timer with the given period that has just started.
    pub fn new(period: u64) -> (r: SpawnTimer)
        requires
            0 < period <= MAX_DT,
        ensures
            r == (SpawnTimer { period, elapsed: 0 }),
            r.wf(),
    {
        SpawnTimer { period, elapsed: 0 }
    }

    /// Feeds a frame of `dt` microseconds to the timer; returns whether it
    /// fired during that frame.
    pub fn tick(&mut self, dt: u64) -> (fired: bool)
        requires
            old(self).wf(),
            dt <= MAX_DT,
        ensures
            (*final(self), fired) == ticked(*old(self), dt as int),
            final(self).wf(),
    {
        let e: u64 = self.elapsed + dt;
        if e >= self.period {
            self.elapsed = e % self.period;
            true
        } else {
            self.elapsed = e;
            false
        }
    }
}

impl Default for SpawnTimer {
    /// The enemy spawn timer: every two seconds.
    fn default() -> (r: SpawnTimer)
        ensures
            r == (SpawnTimer { period: SPAWN_PERIOD, elapsed: 0 }),
    {
        SpawnTimer::new(SPAWN_PERIOD)
    }
}

/// The sum of a list of frame lengths.
pub open spec fn total(dts: Seq<u64>) -> int
    decreases dts.len(),
{
    if dts.len() == 0 {
        0
    } else {
        dts[0] + total(dts.drop_first())
    }
}

/// How many times a timer fires over a list of frames.
pub open spec fn fire_count(t: SpawnTimer, dts: Seq<u64>) -> nat
    decreases dts.len(),
{
    if dts.len() == 0 {
        0
    } else {
        let s = ticked(t, dts[0] as int);
        (if s.1 {
            1nat
        } else {
            0nat
        }) + fire_count(s.0, dts.drop_first())
    }
}

proof fn lemma_total_nonneg(dts: Seq<u64>)
    ensures
        total(dts) >= 0,
    decreases dts.len(),
{
    if dts.len() > 0 {
        lemma_total_nonneg(dts.drop_first());
    }
}

proof fn lemma_no_fire_before_period(t: SpawnTimer, dts: Seq<u64>)
    requires
        t.wf(),
        t.elapsed + total(dts) < t.period,
    ensures
        fire_count(t, dts) == 0,
    decreases dts.len(),
{
    if dts.len() > 0 {
        lemma_total_nonneg(dts.drop_first());
        let s = ticked(t, dts[0] as int);
        lemma_no_fire_before_period(s.0, dts.drop_first());
    }
}

proof fn lemma_fires_at_period(t: SpawnTimer, dts: Seq<u64>)
    requires
        t.wf(),
        t.elapsed + total(dts) == t.period,
    ensures
        fire_count(t, dts) == 1,
    decreases dts.len(),
{
    if dts.len() > 0 {
        lemma_total_nonneg(dts.drop_first());
        let s = ticked(t, dts[0] as int);
        if s.1 {
            assert(t.elapsed + dts[0] == t.period);
            assert(s.0.elapsed == 0) by {
                vstd::arithmetic::div_mod::lemma_mod_self_0(t.period as int);
            }
            lemma_no_fire_before_period(s.0, dts.drop_first());
        } else {
            lemma_fires_at_period(s.0, dts.drop_first());
        }
    }
}

/// A timer that has just started, fed frames whose lengths add up to
/// exactly its period, however they are split, fires exactly once.
pub proof fn fires_once_per_period(t: SpawnTimer, dts: Seq<u64>)
    requires
        t.wf(),
        t.elapsed == 0,
        total(dts) == t.period,
    ensures
        fire_count(t, dts) == 1,
{
    lemma_fires_at_period(t, dts);
}

/// How far from the centre an enemy may spawn on the x axis, so that it
/// lies wholly inside the arena.
pub open spec fn spawn_reach(a: Arena) -> int {
    a.half_w - ENEMY_HALF
}

/// Where an enemy appears: at the given x, just above the top edge.
pub open spec fn spawn_point(a: Arena, x: int) -> Point {
    (x, a.half_h + ENEMY_HALF)
}

/// Relies on `rand::rng()` and `rand::RngExt::random_range`, which for an
/// inclusive range `lo..=hi` with `lo <= hi` returns a value of that range
/// (it panics only on an empty range).
#[verifier::external_body]
fn random_in(lo: i64, hi: i64) -> (r: i64)
    requires
        lo <= hi,
    ensures
        lo <= r <= hi,
{
    rand::RngExt::random_range(&mut rand::rng(), lo..=hi)
}

/// Draws the x coordinate of a new enemy, uniformly over the positions
/// where it lies wholly inside the arena.
pub fn random_spawn_x(arena: Arena) -> (r: i64)
    requires
        arena.wf(),
    ensures
        -spawn_reach(arena) <= r <= spawn_reach(arena),
{
    let reach = arena.half_w - ENEMY_HALF;
    random_in(-reach, reach)
}

/// Advances the spawn timer by a frame; when it fires and the arena is
/// known, adds an enemy at `spawn_x` just above the top edge.
pub fn enemy_spawner(
    timer: &mut SpawnTimer,
    enemies: &mut Vec<Enemy>,
    dt: u64,
    arena: Option<Arena>,
    spawn_x: i64,
) -> (spawned: bool)
    requires
        old(timer).wf(),
        dt <= MAX_DT,
        arena_ok(arena),
        arena matches Some(a) ==> -spawn_reach(a) <= spawn_x <= spawn_reach(a),
    ensures
        *final(timer) == ticked(*old(timer), dt as int).0,
        final(timer).wf(),
        spawned == (ticked(*old(timer), dt as int).1 && arena is Some),
        enemy_points(final(enemies)@) == if spawned {
            enemy_points(old(enemies)@).push(spawn_point(arena->0, spawn_x as int))
        } else {
            enemy_points(old(enemies)@)
        },
{
    let fired = timer.tick(dt);
    if fired {
        if let Some(a) = arena {
            let ghost before = enemies@;
            let e = Enemy { pos: Pos { x: spawn_x, y: a.half_h + ENEMY_HALF } };
            enemies.push(e);
            assert(enemy_points(enemies@) =~= enemy_points(before).push(e@));
            return true;
        }
    }
    false
}

} // verus!
