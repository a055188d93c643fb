use vstd::prelude::*;

use crate::spawn::total;
use crate::geometry::{clamp, clamp_spec, in_world, in_world_or_below, Arena, Point, Pos};
use crate::tuning::{
    ARENA_LIMIT, BULLET_SPEED, ENEMY_HALF, ENEMY_SPEED, FALLBACK_HALF_H, MAX_DT, PLAYER_HALF,
    PLAYER_SPEED, WORLD_LIMIT,
};

verus! {

/// The keys of one frame: the four movement keys as held, `fire` (the
/// Enter key) and `retry` (the R key) as pressed since the previous frame.
#[derive(Clone, Copy, Debug, PartialEq, Eq, Structural)]
pub struct Input {
    pub up: bool,
    pub down: bool,
    pub left: bool,
    pub right: bool,
    pub fire: bool,
    pub retry: bool,
}

/// The player's ship.
#[derive(Clone, Copy, Debug, PartialEq, Eq, Structural)]
pub struct Player {
    pub pos: Pos,
}

/// A bullet flying upward.
#[derive(Clone, Copy, Debug, PartialEq, Eq, Structural)]
pub struct Bullet {
    pub pos: Pos,
}

/// An enemy descending toward the bottom edge.
#[derive(Clone, Copy, Debug, PartialEq, Eq, Structural)]
pub struct Enemy {
    pub pos: Pos,
}

impl View for Player {
    type V = Point;

    open spec fn view(&self) -> Point {
        self.pos@
    }
}

impl View for Bullet {
    type V = Point;

    open spec fn view(&self) -> Point {
        self.pos@
    }
}

impl View for Enemy {
    type V = Point;

    open spec fn view(&self) -> Point {
        self.pos@
    }
}

/// The positions of a list of bullets.
pub open spec fn bullet_points(bs: Seq<Bullet>) -> Seq<Point> {
    bs.map_values(|b: Bullet| b@)
}

/// The positions of a list of enemies.
pub open spec fn enemy_points(es: Seq<Enemy>) -> Seq<Point> {
    es.map_values(|e: Enemy| e@)
}

/// Whether every point of a list lies within the world's limit.
pub open spec fn all_in_world(ps: Seq<Point>) -> bool {
    forall|i: int| 0 <= i < ps.len() ==> #[trigger] in_world(ps[i])
}

/// One axis of the direction: +1, -1, or 0 when neither or both keys are held.
pub open spec fn axis(neg: bool, pos: bool) -> int {
    (if pos { 1int } else { 0int }) - (if neg { 1int } else { 0int })
}

pub open spec fn dir_x(input: Input) -> int {
    axis(input.left, input.right)
}

pub open spec fn dir_y(input: Input) -> int {
    axis(input.down, input.up)
}

/// Whether `d` is `m / sqrt(2)` rounded down: the per-axis share of a
/// distance `m` travelled along a diagonal.
pub open spec fn is_diag_share(m: int, d: int) -> bool {
    0 <= d && 2 * (d * d) <= m * m && m * m < 2 * ((d + 1) * (d + 1))
}

/// `m / sqrt(2)` rounded down, built up one unit of `m` at a time.
pub open spec fn diag_share(m: nat) -> nat
    decreases m,
{
    if m == 0 {
        0
    } else {
        let d = diag_share((m - 1) as nat);
        if 2 * ((d + 1) * (d + 1)) <= m * m {
            d + 1
        } else {
            d
        }
    }
}

proof fn lemma_diag_share(m: nat)
    ensures
        is_diag_share(m as int, diag_share(m) as int),
    decreases m,
{
    if m > 0 {
        let k = (m - 1) as nat;
        lemma_diag_share(k);
        let d = diag_share(k) as int;
        let mi = m as int;
        if 2 * ((d + 1) * (d + 1)) <= mi * mi {
            assert(mi * mi < 2 * ((d + 2) * (d + 2))) by (nonlinear_arith)
                requires
                    0 <= d,
                    mi >= 1,
                    (mi - 1) * (mi - 1) < 2 * ((d + 1) * (d + 1)),
            {
                assert(mi - 1 < 2 * d + 2) by (nonlinear_arith)
                    requires
                        0 <= d,
                        mi >= 1,
                        (mi - 1) * (mi - 1) < 2 * ((d + 1) * (d + 1)),
                {
                    if mi - 1 >= 2 * d + 2 {
                        assert((mi - 1) * (mi - 1) >= (2 * d + 2) * (2 * d + 2));
                    }
                }
            }
        } else {
            assert(2 * (d * d) <= mi * mi) by (nonlinear_arith)
                requires
                    mi >= 1,
                    2 * (d * d) <= (mi - 1) * (mi - 1),
            ;
        }
    }
}

proof fn lemma_diag_share_unique(m: int, d1: int, d2: int)
    requires
        is_diag_share(m, d1),
        is_diag_share(m, d2),
    ensures
        d1 == d2,
{
    if d1 < d2 {
        assert((d1 + 1) * (d1 + 1) <= d2 * d2) by (nonlinear_arith)
            requires
                0 <= d1 < d2,
        ;
    } else if d2 < d1 {
        assert((d2 + 1) * (d2 + 1) <= d1 * d1) by (nonlinear_arith)
            requires
                0 <= d2 < d1,
        ;
    }
}

/// The largest distance the player can cover in one frame.
pub const MAX_STEP: u64 = 1_080_000_000_000;

/// `m / sqrt(2)` rounded down, by bisection.
pub fn diagonal_share(m: u64) -> (r: u64)
    requires
        m <= MAX_STEP,
    ensures
        r == diag_share(m as nat),
        is_diag_share(m as int, r as int),
{
    assert((m as int) * (m as int) <= MAX_STEP * MAX_STEP) by (nonlinear_arith)
        requires
            0 <= m <= MAX_STEP,
    ;
    let mm: u128 = (m as u128) * (m as u128);
    let mut lo: u64 = 0;
    let mut hi: u64 = m + 1;
    assert(mm < 2 * ((hi as int) * (hi as int))) by (nonlinear_arith)
        requires
            hi == m + 1,
            mm == m * m,
            m >= 0,
    ;
    while hi - lo > 1
        invariant
            lo < hi <= m + 1,
            m <= MAX_STEP,
            mm == m * m,
            2 * ((lo as int) * (lo as int)) <= mm,
            mm < 2 * ((hi as int) * (hi as int)),
        decreases hi - lo,
    {
        let mid: u64 = lo + (hi - lo) / 2;
        assert((mid as int) * (mid as int) <= (MAX_STEP + 1) * (MAX_STEP + 1)) by (nonlinear_arith)
            requires
                0 <= mid <= MAX_STEP + 1,
        ;
        let sq: u128 = (mid as u128) * (mid as u128);
        if 2 * sq <= mm {
            lo = mid;
        } else {
            hi = mid;
        }
    }
    proof {
        lemma_diag_share(m as nat);
        lemma_diag_share_unique(m as int, lo as int, diag_share(m as nat) as int);
    }
    lo
}

/// How far the player moves along each axis it moves on, in a frame of
/// `dt` microseconds: the full distance when it moves along one axis, the
/// distance over `sqrt(2)` (rounded down) when it moves diagonally.
pub open spec fn step_len(input: Input, dt: u64) -> int {
    let m = PLAYER_SPEED * dt;
    if dir_x(input) != 0 && dir_y(input) != 0 {
        diag_share(m as nat) as int
    } else {
        m
    }
}

/// The player's displacement in one frame, before clamping.
pub open spec fn displacement(input: Input, dt: u64) -> Point {
    (dir_x(input) * step_len(input, dt), dir_y(input) * step_len(input, dt))
}

/// How far from the centre the player's centre may go on the x axis: inside
/// the arena where it is known, else the world's limit.
pub open spec fn player_reach_x(arena: Option<Arena>) -> int {
    match arena {
        Some(a) => a.half_w - PLAYER_HALF,
        None => WORLD_LIMIT as int,
    }
}

pub open spec fn player_reach_y(arena: Option<Arena>) -> int {
    match arena {
        Some(a) => a.half_h - PLAYER_HALF,
        None => WORLD_LIMIT as int,
    }
}

/// Where the player stands after a frame: moved by its displacement, then
/// kept inside the arena.
pub open spec fn moved_player(p: Point, input: Input, dt: u64, arena: Option<Arena>) -> Point {
    let d = displacement(input, dt);
    let rx = player_reach_x(arena);
    let ry = player_reach_y(arena);
    (clamp_spec(p.0 + d.0, -rx, rx), clamp_spec(p.1 + d.1, -ry, ry))
}

/// Usable arena bounds, where they are known.
pub open spec fn arena_ok(arena: Option<Arena>) -> bool {
    arena matches Some(a) ==> a.wf()
}

/// Moves the player by the held keys for a frame of `dt` microseconds and
/// keeps its box inside the arena.
pub fn player_movement(player: Player, input: Input, dt: u64, arena: Option<Arena>) -> (r: Player)
    requires
        in_world(player@),
        dt <= MAX_DT,
        arena_ok(arena),
    ensures
        r@ == moved_player(player@, input, dt, arena),
        in_world(r@),
        arena matches Some(a) ==> {
            &&& -(a.half_w - PLAYER_HALF) <= r.pos.x <= a.half_w - PLAYER_HALF
            &&& -(a.half_h - PLAYER_HALF) <= r.pos.y <= a.half_h - PLAYER_HALF
        },
{
    let dx: i64 = (if input.right { 1i64 } else { 0i64 }) - (if input.left { 1i64 } else { 0i64 });
    let dy: i64 = (if input.up { 1i64 } else { 0i64 }) - (if input.down { 1i64 } else { 0i64 });
    assert(PLAYER_SPEED * dt <= MAX_STEP) by (nonlinear_arith)
        requires
            dt <= MAX_DT,
    ;
    let m: u64 = (PLAYER_SPEED as u64) * dt;
    let len: u64 = if dx != 0 && dy != 0 {
        diagonal_share(m)
    } else {
        m
    };
    proof {
        if dx != 0 && dy != 0 {
            assert(len <= m) by (nonlinear_arith)
                requires
                    is_diag_share(m as int, len as int),
                    m >= 0,
            {
                if len > m {
                    assert(len * len > m * m);
                }
            }
        }
    }
    let step: i64 = len as i64;
    assert(dx == dir_x(input) && dy == dir_y(input));
    assert(step == step_len(input, dt));
    let x: i64 = if dx > 0 {
        player.pos.x + step
    } else if dx < 0 {
        player.pos.x - step
    } else {
        player.pos.x
    };
    let y: i64 = if dy > 0 {
        player.pos.y + step
    } else if dy < 0 {
        player.pos.y - step
    } else {
        player.pos.y
    };
    assert(x == player@.0 + displacement(input, dt).0);
    assert(y == player@.1 + displacement(input, dt).1);
    let (rx, ry): (i64, i64) = match arena {
        Some(a) => (a.half_w - PLAYER_HALF, a.half_h - PLAYER_HALF),
        None => (WORLD_LIMIT, WORLD_LIMIT),
    };
    Player { pos: Pos { x: clamp(x, -rx, rx), y: clamp(y, -ry, ry) } }
}

/// The y coordinate of the arena's top edge; the bottom edge is its
/// opposite. Where the bounds are unknown a fixed height stands in.
pub open spec fn top_edge(arena: Option<Arena>) -> int {
    match arena {
        Some(a) => a.half_h as int,
        None => FALLBACK_HALF_H as int,
    }
}

/// A bullet after a frame of `dt` microseconds.
pub open spec fn bullet_moved(b: Point, dt: u64) -> Point {
    (b.0, b.1 + BULLET_SPEED * dt)
}

/// Bullets after a frame: each moved up, and those past the top edge gone;
/// the others keep their order.
pub open spec fn advance_bullets(bs: Seq<Point>, dt: u64, top: int) -> Seq<Point>
    decreases bs.len(),
{
    if bs.len() == 0 {
        seq![]
    } else {
        let rest = advance_bullets(bs.drop_last(), dt, top);
        let b = bullet_moved(bs.last(), dt);
        if b.1 > top {
            rest
        } else {
            rest.push(b)
        }
    }
}

/// Moves every bullet up for a frame and drops those that left through the
/// top edge.
pub fn bullet_movement(bullets: &Vec<Bullet>, dt: u64, arena: Option<Arena>) -> (r: Vec<Bullet>)
    requires
        all_in_world(bullet_points(bullets@)),
        dt <= MAX_DT,
        arena_ok(arena),
    ensures
        bullet_points(r@) == advance_bullets(bullet_points(bullets@), dt, top_edge(arena)),
        all_in_world(bullet_points(r@)),
{
    let top: i64 = match arena {
        Some(a) => a.half_h,
        None => FALLBACK_HALF_H,
    };
    let ghost pts = bullet_points(bullets@);
    let mut out: Vec<Bullet> = Vec::new();
    let mut i: usize = 0;
    while i < bullets.len()
        invariant
            i <= bullets.len(),
            pts == bullet_points(bullets@),
            all_in_world(pts),
            dt <= MAX_DT,
            top == top_edge(arena),
            top <= ARENA_LIMIT,
            bullet_points(out@) == advance_bullets(pts.take(i as int), dt, top as int),
            all_in_world(bullet_points(out@)),
        decreases bullets.len() - i,
    {
        let b = bullets[i];
        assert(in_world(pts[i as int]));
        let y: i64 = b.pos.y + BULLET_SPEED * (dt as i64);
        assert(pts.take(i + 1).drop_last() =~= pts.take(i as int));
        assert(pts.take(i + 1).last() == b@);
        if y <= top {
            let ghost before = out@;
            out.push(Bullet { pos: Pos { x: b.pos.x, y } });
            assert(bullet_points(out@) =~= bullet_points(before).push((b.pos.x as int, y as int)));
        }
        i = i + 1;
    }
    assert(pts.take(bullets.len() as int) =~= pts);
    out
}

/// Adds a bullet at the player's position when the fire key was pressed
/// this frame and there is a player.
pub fn shoot_bullet(bullets: &mut Vec<Bullet>, input: Input, player: Option<Player>)
    ensures
        bullet_points(final(bullets)@) == (if input.fire && player is Some {
            bullet_points(old(bullets)@).push(player->0@)
        } else {
            bullet_points(old(bullets)@)
        }),
{
    if input.fire {
        if let Some(p) = player {
            let ghost before = bullets@;
            bullets.push(Bullet { pos: p.pos });
            assert(bullet_points(bullets@) =~= bullet_points(before).push(p@));
        }
    }
}

/// An enemy after a frame of `dt` microseconds.
pub open spec fn enemy_moved(e: Point, dt: u64) -> Point {
    (e.0, e.1 - ENEMY_SPEED * dt)
}

/// Enemies after a frame: each moved down, in the same order.
pub open spec fn advance_enemies(es: Seq<Point>, dt: u64) -> Seq<Point> {
    es.map_values(|e: Point| enemy_moved(e, dt))
}

/// Moves every enemy down for a frame.
pub fn enemy_movement(enemies: &Vec<Enemy>, dt: u64) -> (r: Vec<Enemy>)
    requires
        all_in_world(enemy_points(enemies@)),
        dt <= MAX_DT,
    ensures
        enemy_points(r@) == advance_enemies(enemy_points(enemies@), dt),
        forall|i: int| 0 <= i < r@.len() ==> #[trigger] in_world_or_below(r@[i]@),
{
    let ghost pts = enemy_points(enemies@);
    let mut out: Vec<Enemy> = Vec::new();
    let mut i: usize = 0;
    while i < enemies.len()
        invariant
            i <= enemies.len(),
            pts == enemy_points(enemies@),
            all_in_world(pts),
            dt <= MAX_DT,
            enemy_points(out@) == advance_enemies(pts.take(i as int), dt),
            forall|k: int| 0 <= k < out@.len() ==> #[trigger] in_world_or_below(out@[k]@),
        decreases enemies.len() - i,
    {
        let e = enemies[i];
        assert(in_world(pts[i as int]));
        let y: i64 = e.pos.y - ENEMY_SPEED * (dt as i64);
        let ghost before = out@;
        out.push(Enemy { pos: Pos { x: e.pos.x, y } });
        assert(enemy_points(out@) =~= enemy_points(before).push(enemy_moved(pts[i as int], dt)));
        assert(advance_enemies(pts.take(i + 1), dt) =~= advance_enemies(pts.take(i as int), dt).push(
            enemy_moved(pts[i as int], dt),
        ));
        i = i + 1;
    }
    assert(pts.take(enemies.len() as int) =~= pts);
    out
}

/// Whether an enemy has passed the bottom edge: its top edge lies strictly
/// below the arena's bottom edge.
pub open spec fn escaped(e: Point, top: int) -> bool {
    e.1 + ENEMY_HALF < -top
}

/// Whether some enemy of the list has passed the bottom edge.
pub open spec fn any_escaped(es: Seq<Point>, top: int) -> bool {
    exists|i: int| 0 <= i < es.len() && #[trigger] escaped(es[i], top)
}

/// Detects an enemy that slipped past the bottom edge, which ends the game.
pub fn enemy_escaped(enemies: &Vec<Enemy>, arena: Option<Arena>) -> (r: bool)
    requires
        forall|i: int| 0 <= i < enemies@.len() ==> #[trigger] in_world_or_below(enemies@[i]@),
        arena_ok(arena),
    ensures
        r == any_escaped(enemy_points(enemies@), top_edge(arena)),
        !r ==> all_in_world(enemy_points(enemies@)),
{
    let top: i64 = match arena {
        Some(a) => a.half_h,
        None => FALLBACK_HALF_H,
    };
    let ghost pts = enemy_points(enemies@);
    let mut i: usize = 0;
    while i < enemies.len()
        invariant
            i <= enemies.len(),
            pts == enemy_points(enemies@),
            forall|k: int| 0 <= k < enemies@.len() ==> #[trigger] in_world_or_below(enemies@[k]@),
            top == top_edge(arena),
            ENEMY_HALF <= top <= ARENA_LIMIT,
            forall|k: int| 0 <= k < i ==> !#[trigger] escaped(pts[k], top as int),
            forall|k: int| 0 <= k < i ==> #[trigger] in_world(pts[k]),
        decreases enemies.len() - i,
    {
        let e = enemies[i];
        assert(in_world_or_below(enemies@[i as int]@));
        if e.pos.y + ENEMY_HALF < -top {
            assert(escaped(pts[i as int], top as int));
            return true;
        }
        i = i + 1;
    }
    false
}

/// Moving diagonally, the player covers the same distance on each axis,
/// and that distance is the straight-line distance `speed * dt` over
/// `sqrt(2)`, rounded down: `d` with `2 d^2 <= m^2 < 2 (d + 1)^2`.
pub proof fn diagonal_step_is_distance_over_root_two(input: Input, dt: u64)
    requires
        dir_x(input) != 0,
        dir_y(input) != 0,
    ensures
        ({
            let d = displacement(input, dt);
            let m = PLAYER_SPEED * dt;
            &&& d.0 == d.1 || d.0 == -d.1
            &&& is_diag_share(m, if d.0 >= 0 { d.0 } else { -d.0 })
        }),
{
    let m = PLAYER_SPEED * dt;
    lemma_diag_share(m as nat);
    let k = diag_share(m as nat) as int;
    assert(step_len(input, dt) == k);
    let d = displacement(input, dt);
    let sx = dir_x(input);
    let sy = dir_y(input);
    assert(sx == 1 || sx == -1);
    assert(sy == 1 || sy == -1);
    assert(d.0 == sx * k && d.1 == sy * k);
    assert((d.0 == k || d.0 == -k) && (d.1 == k || d.1 == -k)) by (nonlinear_arith)
        requires
            sx == 1 || sx == -1,
            sy == 1 || sy == -1,
            d.0 == sx * k,
            d.1 == sy * k,
    ;
}

/// A bullet list after several frames, each with the given length.
pub open spec fn fly(bs: Seq<Point>, dts: Seq<u64>, top: int) -> Seq<Point>
    decreases dts.len(),
{
    if dts.len() == 0 {
        bs
    } else {
        fly(advance_bullets(bs, dts[0], top), dts.drop_first(), top)
    }
}

proof fn lemma_fly_empty(dts: Seq<u64>, top: int)
    ensures
        fly(seq![], dts, top) == Seq::<Point>::empty(),
    decreases dts.len(),
{
    if dts.len() > 0 {
        assert(advance_bullets(seq![], dts[0], top) == Seq::<Point>::empty());
        lemma_fly_empty(dts.drop_first(), top);
    }
}

/// A bullet fired at `(x, y)` that is still present after frames lasting
/// `t` microseconds in all stands at `(x, y + BULLET_SPEED * t)`.
pub proof fn bullet_flies_straight_up(b: Point, dts: Seq<u64>, top: int)
    ensures
        fly(seq![b], dts, top).len() <= 1,
        fly(seq![b], dts, top).len() == 1 ==> fly(seq![b], dts, top)[0] == (
            b.0,
            b.1 + BULLET_SPEED * total(dts),
        ),
    decreases dts.len(),
{
    if dts.len() > 0 {
        let one = seq![b];
        assert(one.drop_last() =~= seq![]);
        assert(advance_bullets(seq![], dts[0], top) == Seq::<Point>::empty());
        let nb = bullet_moved(b, dts[0]);
        if nb.1 > top {
            assert(advance_bullets(one, dts[0], top) =~= seq![]);
            lemma_fly_empty(dts.drop_first(), top);
        } else {
            assert(advance_bullets(one, dts[0], top) =~= seq![nb]);
            bullet_flies_straight_up(nb, dts.drop_first(), top);
        }
    }
}

} // verus!
