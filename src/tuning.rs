use vstd::prelude::*;

verus! {

/// Player speed, in pixels per second (equivalently micro-pixels per microsecond).
pub const PLAYER_SPEED: i64 = 300;

/// Bullet speed (upward), in pixels per second.
pub const BULLET_SPEED: i64 = 600;

/// Enemy speed (downward), in pixels per second.
pub const ENEMY_SPEED: i64 = 200;

/// Half of the player's square side (50 px).
pub const PLAYER_HALF: i64 = 25_000_000;

/// Half of the bullet's width (10 px).
pub const BULLET_HALF_W: i64 = 5_000_000;

/// Half of the bullet's height (20 px).
pub const BULLET_HALF_H: i64 = 10_000_000;

/// Half of the enemy's square side (50 px).
pub const ENEMY_HALF: i64 = 25_000_000;

/// Vertical position at which the player appears when a game starts.
pub const PLAYER_START_Y: i64 = -250_000_000;

/// Time between two enemy spawns: two seconds.
pub const SPAWN_PERIOD: u64 = 2_000_000;

/// Half height of the arena assumed by bullets and enemies when the real
/// bounds are not known for a frame.
pub const FALLBACK_HALF_H: i64 = 400_000_000;

/// The longest frame the simulation accepts in one step: one hour.
pub const MAX_DT: u64 = 3_600_000_000;

/// The largest half extent of an arena (a billion pixels).
pub const ARENA_LIMIT: i64 = 1_000_000_000_000_000;

/// Every live entity keeps both coordinates within this distance of the origin.
pub const WORLD_LIMIT: i64 = 1_000_000_000_000_000_000;

} // verus!
