use vstd::prelude::*;

use crate::tuning::{ARENA_LIMIT, ENEMY_HALF, PLAYER_HALF, WORLD_LIMIT};

verus! {

/// A point of the arena as mathematical integers: `(x, y)`, origin at the
/// centre, `y` growing upward.
pub type Point = (int, int);

/// A position in micro-pixels.
#[derive(Clone, Copy, Debug, PartialEq, Eq, Structural)]
pub struct Pos {
    pub x: i64,
    pub y: i64,
}

impl View for Pos {
    type V = Point;

    open spec fn view(&self) -> Point {
        (self.x as int, self.y as int)
    }
}

/// Whether a point lies within the world's coordinate limit.
pub open spec fn in_world(p: Point) -> bool {
    -WORLD_LIMIT <= p.0 <= WORLD_LIMIT && -WORLD_LIMIT <= p.1 <= WORLD_LIMIT
}

/// Whether a point lies within twice the world's limit: where entities may
/// stand for the rest of a frame after they moved.
pub open spec fn near_world(p: Point) -> bool {
    -2 * WORLD_LIMIT <= p.0 <= 2 * WORLD_LIMIT && -2 * WORLD_LIMIT <= p.1 <= 2 * WORLD_LIMIT
}

/// Whether a point lies within the world's limit, or below it by at most
/// that limit again: where a descending enemy may stand after it moved.
pub open spec fn in_world_or_below(p: Point) -> bool {
    -WORLD_LIMIT <= p.0 <= WORLD_LIMIT && -2 * WORLD_LIMIT <= p.1 <= WORLD_LIMIT
}

/// The visible arena, by its half extents in micro-pixels.
#[derive(Clone, Copy, Debug, PartialEq, Eq, Structural)]
pub struct Arena {
    pub half_w: i64,
    pub half_h: i64,
}

impl Arena {
    /// An arena is usable when the player and an enemy fit in it, and it is
    /// no larger than `ARENA_LIMIT` in either direction.
    pub open spec fn wf(self) -> bool {
        PLAYER_HALF <= self.half_w <= ARENA_LIMIT && PLAYER_HALF <= self.half_h <= ARENA_LIMIT
            && ENEMY_HALF <= self.half_w
    }

    /// Builds the arena of a viewport of the given size in micro-pixels,
    /// or `None` where the viewport cannot hold the player or is too large.
    pub fn from_size(width: i64, height: i64) -> (r: Option<Arena>)
        ensures
            r == (if PLAYER_HALF <= width / 2 <= ARENA_LIMIT && PLAYER_HALF <= height / 2
                <= ARENA_LIMIT && width >= 0 && height >= 0 {
                Some(Arena { half_w: (width / 2) as i64, half_h: (height / 2) as i64 })
            } else {
                None
            }),
            r matches Some(a) ==> a.wf(),
    {
        if width < 0 || height < 0 {
            return None;
        }
        let half_w = width / 2;
        let half_h = height / 2;
        if PLAYER_HALF <= half_w && half_w <= ARENA_LIMIT && PLAYER_HALF <= half_h && half_h
            <= ARENA_LIMIT {
            Some(Arena { half_w, half_h })
        } else {
            None
        }
    }
}

/// `v` limited to the closed interval `[lo, hi]`.
pub open spec fn clamp_spec(v: int, lo: int, hi: int) -> int {
    if v < lo {
        lo
    } else if v > hi {
        hi
    } else {
        v
    }
}

/// Limits `v` to the closed interval `[lo, hi]`.
pub fn clamp(v: i64, lo: i64, hi: i64) -> (r: i64)
    requires
        lo <= hi,
    ensures
        r == clamp_spec(v as int, lo as int, hi as int),
        lo <= r <= hi,
{
    if v < lo {
        lo
    } else if v > hi {
        hi
    } else {
        v
    }
}

/// Whether two axis-aligned boxes, given by centres and half extents,
/// overlap: every edge lies strictly beyond the other box's opposite edge,
/// so boxes that only touch do not overlap.
pub open spec fn boxes_overlap(a: Point, a_hw: int, a_hh: int, b: Point, b_hw: int, b_hh: int) -> bool {
    &&& a.0 - a_hw < b.0 + b_hw
    &&& a.0 + a_hw > b.0 - b_hw
    &&& a.1 - a_hh < b.1 + b_hh
    &&& a.1 + a_hh > b.1 - b_hh
}

/// Tests two boxes near the world for overlap.
pub fn overlaps(a: Pos, a_hw: i64, a_hh: i64, b: Pos, b_hw: i64, b_hh: i64) -> (r: bool)
    requires
        near_world(a@),
        near_world(b@),
        0 <= a_hw <= ARENA_LIMIT,
        0 <= a_hh <= ARENA_LIMIT,
        0 <= b_hw <= ARENA_LIMIT,
        0 <= b_hh <= ARENA_LIMIT,
    ensures
        r == boxes_overlap(a@, a_hw as int, a_hh as int, b@, b_hw as int, b_hh as int),
{
    a.x - a_hw < b.x + b_hw && a.x + a_hw > b.x - b_hw && a.y - a_hh < b.y + b_hh && a.y + a_hh
        > b.y - b_hh
}

/// Boxes whose edges only touch do not overlap: where the right edge of one
/// equals the left edge of the other, or the top edge of one equals the
/// bottom edge of the other, no collision is reported.
pub proof fn touching_boxes_do_not_overlap(
    a: Point,
    a_hw: int,
    a_hh: int,
    b: Point,
    b_hw: int,
    b_hh: int,
)
    requires
        a.0 + a_hw == b.0 - b_hw || b.0 + b_hw == a.0 - a_hw || a.1 + a_hh == b.1 - b_hh || b.1
            + b_hh == a.1 - a_hh,
    ensures
        !boxes_overlap(a, a_hw, a_hh, b, b_hw, b_hh),
{
}

} // verus!
