use vstd::prelude::*;

use crate::geometry::{boxes_overlap, in_world, in_world_or_below, overlaps, Point};
use crate::movement::{bullet_points, enemy_points, Bullet, Enemy};
use crate::tuning::{BULLET_HALF_H, BULLET_HALF_W, ENEMY_HALF};

verus! {

/// Whether a bullet's box and an enemy's box overlap.
pub open spec fn hits(b: Point, e: Point) -> bool {
    boxes_overlap(
        b,
        BULLET_HALF_W as int,
        BULLET_HALF_H as int,
        e,
        ENEMY_HALF as int,
        ENEMY_HALF as int,
    )
}

/// `j` is the first enemy of `es` that the bullet at `b` overlaps.
pub open spec fn is_first_hit(b: Point, es: Seq<Point>, j: int) -> bool {
    &&& 0 <= j < es.len()
    &&& hits(b, es[j])
    &&& forall|k: int| 0 <= k < j ==> !#[trigger] hits(b, es[k])
}

/// The index of the first enemy that the bullet overlaps, or -1 where it
/// overlaps none.
pub open spec fn first_hit(b: Point, es: Seq<Point>) -> int {
    if exists|j: int| is_first_hit(b, es, j) {
        choose|j: int| is_first_hit(b, es, j)
    } else {
        -1
    }
}

/// The outcome of one frame's collisions: the bullets that hit nothing, the
/// enemies that were not hit, and the number of bullet-enemy pairs removed.
/// Bullets are taken in order; each removes the first enemy still present
/// that it overlaps, and then tests no other.
pub open spec fn resolve(bs: Seq<Point>, es: Seq<Point>) -> (Seq<Point>, Seq<Point>, nat)
    decreases bs.len(),
{
    if bs.len() == 0 {
        (seq![], es, 0)
    } else {
        let prev = resolve(bs.drop_last(), es);
        let b = bs.last();
        let j = first_hit(b, prev.1);
        if j >= 0 {
            (prev.0, prev.1.remove(j), prev.2 + 1)
        } else {
            (prev.0.push(b), prev.1, prev.2)
        }
    }
}

/// Every removed pair takes exactly one bullet and one enemy: the number of
/// pairs equals both the number of bullets and the number of enemies that
/// collisions removed.
pub proof fn each_hit_removes_one_pair(bs: Seq<Point>, es: Seq<Point>)
    ensures
        resolve(bs, es).0.len() + resolve(bs, es).2 == bs.len(),
        resolve(bs, es).1.len() + resolve(bs, es).2 == es.len(),
    decreases bs.len(),
{
    if bs.len() > 0 {
        each_hit_removes_one_pair(bs.drop_last(), es);
        let prev = resolve(bs.drop_last(), es);
        let j = first_hit(bs.last(), prev.1);
        if j >= 0 {
            assert(is_first_hit(bs.last(), prev.1, j));
        }
    }
}

/// Tests a bullet against an enemy.
pub fn bullet_hits_enemy(b: &Bullet, e: &Enemy) -> (r: bool)
    requires
        in_world(b@),
        in_world_or_below(e@),
    ensures
        r == hits(b@, e@),
{
    overlaps(b.pos, BULLET_HALF_W, BULLET_HALF_H, e.pos, ENEMY_HALF, ENEMY_HALF)
}

/// Finds the first enemy that a bullet overlaps.
fn find_hit(b: &Bullet, enemies: &Vec<Enemy>) -> (r: Option<usize>)
    requires
        in_world(b@),
        forall|i: int| 0 <= i < enemies@.len() ==> #[trigger] in_world_or_below(enemies@[i]@),
    ensures
        r matches Some(j) ==> j == first_hit(b@, enemy_points(enemies@)),
        r is None ==> first_hit(b@, enemy_points(enemies@)) == -1,
{
    let ghost pts = enemy_points(enemies@);
    let mut j: usize = 0;
    while j < enemies.len()
        invariant
            j <= enemies.len(),
            pts == enemy_points(enemies@),
            in_world(b@),
            forall|i: int| 0 <= i < enemies@.len() ==> #[trigger] in_world_or_below(enemies@[i]@),
            forall|k: int| 0 <= k < j ==> !#[trigger] hits(b@, pts[k]),
        decreases enemies.len() - j,
    {
        assert(in_world_or_below(enemies@[j as int]@));
        if bullet_hits_enemy(b, &enemies[j]) {
            assert(is_first_hit(b@, pts, j as int));
            let ghost c = first_hit(b@, pts);
            assert(is_first_hit(b@, pts, c));
            assert(!(c < j) && !(j < c)) by {
                if c < j {
                    assert(!hits(b@, pts[c]));
                }
                if j < c {
                    assert(!hits(b@, pts[j as int]));
                }
            }
            return Some(j);
        }
        j = j + 1;
    }
    assert(!exists|c: int| is_first_hit(b@, pts, c));
    None
}

/// Removes every bullet that overlaps an enemy together with the first enemy
/// it overlaps, and adds one to the score for each such pair (the score
/// stops at `u64::MAX`).
pub fn check_collisions(bullets: &mut Vec<Bullet>, enemies: &mut Vec<Enemy>, score: &mut u64)
    requires
        forall|i: int| 0 <= i < old(bullets)@.len() ==> #[trigger] in_world(old(bullets)@[i]@),
        forall|i: int|
            0 <= i < old(enemies)@.len() ==> #[trigger] in_world_or_below(old(enemies)@[i]@),
    ensures
        ({
            let r = resolve(bullet_points(old(bullets)@), enemy_points(old(enemies)@));
            &&& bullet_points(final(bullets)@) == r.0
            &&& enemy_points(final(enemies)@) == r.1
            &&& *final(score) == if *old(score) + r.2 <= u64::MAX {
                *old(score) + r.2
            } else {
                u64::MAX as int
            }
        }),
        forall|i: int| 0 <= i < final(bullets)@.len() ==> #[trigger] in_world(final(bullets)@[i]@),
        forall|i: int|
            0 <= i < final(enemies)@.len() ==> #[trigger] in_world_or_below(final(enemies)@[i]@),
{
    let ghost bs = bullet_points(bullets@);
    let ghost es = enemy_points(enemies@);
    let ghost score0 = *score as int;
    let ghost mut hits_so_far: nat = 0;
    let mut kept: Vec<Bullet> = Vec::new();
    let mut i: usize = 0;
    while i < bullets.len()
        invariant
            i <= bullets.len(),
            bs == bullet_points(bullets@),
            forall|k: int| 0 <= k < bullets@.len() ==> #[trigger] in_world(bullets@[k]@),
            forall|k: int| 0 <= k < kept@.len() ==> #[trigger] in_world(kept@[k]@),
            forall|k: int| 0 <= k < enemies@.len() ==> #[trigger] in_world_or_below(enemies@[k]@),
            resolve(bs.take(i as int), es) == (bullet_points(kept@), enemy_points(enemies@), hits_so_far),
            *score == if score0 + hits_so_far <= u64::MAX {
                score0 + hits_so_far
            } else {
                u64::MAX as int
            },
        decreases bullets.len() - i,
    {
        let b = bullets[i];
        assert(in_world(bullets@[i as int]@));
        assert(bs.take(i + 1).drop_last() =~= bs.take(i as int));
        assert(bs.take(i + 1).last() == b@);
        let ghost before_e = enemies@;
        let ghost before_k = kept@;
        match find_hit(&b, enemies) {
            Some(j) => {
                enemies.remove(j);
                assert(enemy_points(enemies@) =~= enemy_points(before_e).remove(j as int));
                assert forall|k: int| 0 <= k < enemies@.len() implies #[trigger] in_world_or_below(
                    enemies@[k]@,
                ) by {
                    if k < j {
                        assert(enemies@[k] == before_e[k]);
                    } else {
                        assert(enemies@[k] == before_e[k + 1]);
                    }
                }
                proof {
                    hits_so_far = hits_so_far + 1;
                }
                *score = score.saturating_add(1);
            },
            None => {
                kept.push(b);
                assert(bullet_points(kept@) =~= bullet_points(before_k).push(b@));
            },
        }
        i = i + 1;
    }
    assert(bs.take(bullets.len() as int) =~= bs);
    *bullets = kept;
}

} // verus!
