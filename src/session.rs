use vstd::prelude::*;

use crate::collision::{check_collisions, resolve};
use crate::geometry::{in_world, in_world_or_below, Arena, Point, Pos};
use crate::movement::{
    advance_bullets, advance_enemies, all_in_world, any_escaped, arena_ok, bullet_movement,
    bullet_points, enemy_escaped, enemy_movement, enemy_points, moved_player, player_movement,
    shoot_bullet, top_edge, Bullet, Enemy, Input, Player,
};
use crate::spawn::{enemy_spawner, random_spawn_x, spawn_point, spawn_reach, ticked, SpawnTimer};
use crate::tuning::{MAX_DT, PLAYER_HALF, PLAYER_START_Y, SPAWN_PERIOD};

verus! {

/// The screen the game is on.
#[derive(Clone, Copy, Debug, PartialEq, Eq, Structural)]
pub enum GameState {
    Title,
    Game,
    GameOver,
}

/// Everything one run of the game owns: the screen, the score, the live
/// entities, and the enemy spawn timer.
pub struct Session {
    pub state: GameState,
    pub score: u64,
    pub player: Option<Player>,
    pub bullets: Vec<Bullet>,
    pub enemies: Vec<Enemy>,
    pub spawn_timer: SpawnTimer,
}

/// A session as mathematical values.
pub struct SessionView {
    pub state: GameState,
    pub score: int,
    pub player: Option<Point>,
    pub bullets: Seq<Point>,
    pub enemies: Seq<Point>,
    pub timer: SpawnTimer,
}

impl View for Session {
    type V = SessionView;

    open spec fn view(&self) -> SessionView {
        SessionView {
            state: self.state,
            score: self.score as int,
            player: match self.player {
                Some(p) => Some(p@),
                None => None,
            },
            bullets: bullet_points(self.bullets@),
            enemies: enemy_points(self.enemies@),
            timer: self.spawn_timer,
        }
    }
}

/// An x coordinate at which an enemy may spawn, where the arena is known.
pub open spec fn spawn_ok(arena: Option<Arena>, x: int) -> bool {
    arena matches Some(a) ==> -spawn_reach(a) <= x <= spawn_reach(a)
}

/// `a + b`, stopping at `u64::MAX`.
pub open spec fn saturating_sum(a: int, b: int) -> int {
    if a + b <= u64::MAX {
        a + b
    } else {
        u64::MAX as int
    }
}

/// A session as a game starts: score zero, one player at its starting
/// place, no bullet, no enemy, the spawn timer restarted.
pub open spec fn started(s: SessionView) -> SessionView {
    SessionView {
        state: GameState::Game,
        score: 0,
        player: Some((0, PLAYER_START_Y as int)),
        bullets: seq![],
        enemies: seq![],
        timer: SpawnTimer { period: s.timer.period, elapsed: 0 },
    }
}

/// One frame of play, in the fixed order: the player moves, bullets move
/// and leave through the top, a bullet is fired, enemies move, the spawn
/// timer may add an enemy at `x`, collisions are resolved, and finally an
/// enemy past the bottom edge ends the game, which removes every entity
/// and keeps the score.
pub open spec fn play(s: SessionView, input: Input, dt: u64, arena: Option<Arena>, x: int) -> SessionView {
    let player = match s.player {
        Some(p) => Some(moved_player(p, input, dt, arena)),
        None => None,
    };
    let moved = advance_bullets(s.bullets, dt, top_edge(arena));
    let bullets = if input.fire && player is Some {
        moved.push(player->0)
    } else {
        moved
    };
    let t = ticked(s.timer, dt as int);
    let enemies = if t.1 && arena is Some {
        advance_enemies(s.enemies, dt).push(spawn_point(arena->0, x))
    } else {
        advance_enemies(s.enemies, dt)
    };
    let r = resolve(bullets, enemies);
    let score = saturating_sum(s.score, r.2 as int);
    if any_escaped(r.1, top_edge(arena)) {
        SessionView {
            state: GameState::GameOver,
            score,
            player: None,
            bullets: seq![],
            enemies: seq![],
            timer: t.0,
        }
    } else {
        SessionView { state: GameState::Game, score, player, bullets: r.0, enemies: r.1, timer: t.0 }
    }
}

/// What a frame does on each screen: on the title screen Enter starts a
/// game; on the game-over screen Enter goes back to the title and R starts
/// a new game; during a game the frame is played.
pub open spec fn step_spec(
    s: SessionView,
    input: Input,
    dt: u64,
    arena: Option<Arena>,
    x: int,
) -> SessionView {
    match s.state {
        GameState::Title => if input.fire {
            started(s)
        } else {
            s
        },
        GameState::GameOver => if input.fire {
            SessionView { state: GameState::Title, ..s }
        } else if input.retry {
            started(s)
        } else {
            s
        },
        GameState::Game => play(s, input, dt, arena, x),
    }
}

/// After every frame of play in an arena whose bounds are known, the
/// player's box lies wholly inside the arena.
pub proof fn player_stays_in_arena(s: SessionView, input: Input, dt: u64, a: Arena, x: int)
    requires
        a.wf(),
    ensures
        play(s, input, dt, Some(a), x).player matches Some(p) ==> {
            &&& -(a.half_w - PLAYER_HALF) <= p.0 <= a.half_w - PLAYER_HALF
            &&& -(a.half_h - PLAYER_HALF) <= p.1 <= a.half_h - PLAYER_HALF
        },
{
}

impl Session {
    /// The invariant of a session: the timer is usable, every entity lies
    /// within the world, and there is exactly one player during a game and
    /// no entity at all on the other screens.
    pub open spec fn wf(&self) -> bool {
        &&& self.spawn_timer.wf()
        &&& self.player matches Some(p) ==> in_world(p@)
        &&& all_in_world(bullet_points(self.bullets@))
        &&& all_in_world(enemy_points(self.enemies@))
        &&& self.state == GameState::Game ==> self.player is Some
        &&& self.state != GameState::Game ==> {
            &&& self.player is None
            &&& self.bullets@.len() == 0
            &&& self.enemies@.len() == 0
        }
    }

    /// A session on the title screen, with an enemy every two seconds once
    /// a game starts.
    pub fn new() -> (r: Session)
        ensures
            r.wf(),
            r@.state == GameState::Title,
            r@.score == 0,
            r@.player is None,
            r@.bullets.len() == 0,
            r@.enemies.len() == 0,
            r@.timer == (SpawnTimer { period: SPAWN_PERIOD, elapsed: 0 }),
    {
        let r = Session {
            state: GameState::Title,
            score: 0,
            player: None,
            bullets: Vec::new(),
            enemies: Vec::new(),
            spawn_timer: SpawnTimer::default(),
        };
        assert(bullet_points(r.bullets@) =~= seq![]);
        assert(enemy_points(r.enemies@) =~= seq![]);
        r
    }

    /// Starts a game: resets the score, removes what is left of an earlier
    /// game, places the player and restarts the spawn timer.
    pub fn setup_player(&mut self)
        requires
            old(self).wf(),
        ensures
            final(self)@ == started(old(self)@),
            final(self).wf(),
    {
        self.state = GameState::Game;
        self.score = 0;
        self.player = Some(Player { pos: Pos { x: 0, y: PLAYER_START_Y } });
        self.bullets = Vec::new();
        self.enemies = Vec::new();
        self.spawn_timer = SpawnTimer::new(self.spawn_timer.period);
        assert(bullet_points(self.bullets@) =~= seq![]);
        assert(enemy_points(self.enemies@) =~= seq![]);
    }

    /// The title screen: Enter starts a game.
    pub fn title_update(&mut self, input: Input)
        requires
            old(self).wf(),
            old(self).state == GameState::Title,
        ensures
            final(self)@ == (if input.fire {
                started(old(self)@)
            } else {
                old(self)@
            }),
            final(self).wf(),
    {
        if input.fire {
            self.setup_player();
        }
    }

    /// The game-over screen: Enter goes back to the title, R starts a new
    /// game.
    pub fn gameover_update(&mut self, input: Input)
        requires
            old(self).wf(),
            old(self).state == GameState::GameOver,
        ensures
            final(self)@ == (if input.fire {
                SessionView { state: GameState::Title, ..old(self)@ }
            } else if input.retry {
                started(old(self)@)
            } else {
                old(self)@
            }),
            final(self).wf(),
    {
        if input.fire {
            self.state = GameState::Title;
        } else if input.retry {
            self.setup_player();
        }
    }

    /// Plays one frame of `dt` microseconds; `spawn_x` is where an enemy
    /// appears if the spawn timer fires.
    pub fn game_update(&mut self, input: Input, dt: u64, arena: Option<Arena>, spawn_x: i64)
        requires
            old(self).wf(),
            old(self).state == GameState::Game,
            dt <= MAX_DT,
            arena_ok(arena),
            spawn_ok(arena, spawn_x as int),
        ensures
            final(self)@ == play(old(self)@, input, dt, arena, spawn_x as int),
            final(self).wf(),
    {
        let ghost s0 = self@;
        let player = match self.player {
            Some(p) => Some(player_movement(p, input, dt, arena)),
            None => None,
        };
        let ghost player_v: Option<Point> = match player {
            Some(p) => Some(p@),
            None => None,
        };
        assert(player_v == match s0.player {
            Some(p) => Some(moved_player(p, input, dt, arena)),
            None => None::<Point>,
        });
        let mut bullets = bullet_movement(&self.bullets, dt, arena);
        shoot_bullet(&mut bullets, input, player);
        assert forall|i: int| 0 <= i < bullets@.len() implies #[trigger] in_world(bullets@[i]@) by {
            assert(in_world(bullet_points(bullets@)[i]));
        }
        let mut enemies = enemy_movement(&self.enemies, dt);
        let ghost moved_e = enemies@;
        let spawned = enemy_spawner(&mut self.spawn_timer, &mut enemies, dt, arena, spawn_x);
        assert forall|i: int| 0 <= i < enemies@.len() implies #[trigger] in_world_or_below(
            enemies@[i]@,
        ) by {
            if i < moved_e.len() {
                assert(enemies@[i]@ == enemy_points(enemies@)[i]);
                assert(enemy_points(enemies@)[i] == enemy_points(moved_e)[i]);
                assert(in_world_or_below(moved_e[i]@));
            } else {
                assert(enemy_points(enemies@).len() == enemies@.len());
                assert(enemy_points(moved_e).len() == moved_e.len());
                assert(spawned);
                assert(enemies@[i]@ == enemy_points(enemies@)[i]);
                assert(enemy_points(enemies@)[i] == spawn_point(arena->0, spawn_x as int));
            }
        }
        let mut score = self.score;
        check_collisions(&mut bullets, &mut enemies, &mut score);
        self.score = score;
        if enemy_escaped(&enemies, arena) {
            self.state = GameState::GameOver;
            self.player = None;
            self.bullets = Vec::new();
            self.enemies = Vec::new();
            assert(bullet_points(self.bullets@) =~= seq![]);
            assert(enemy_points(self.enemies@) =~= seq![]);
        } else {
            self.player = player;
            self.bullets = bullets;
            self.enemies = enemies;
            assert forall|i: int| 0 <= i < bullet_points(self.bullets@).len() implies #[trigger] in_world(
                bullet_points(self.bullets@)[i],
            ) by {
                assert(in_world(self.bullets@[i]@));
            }
        }
    }

    /// Runs one frame on whichever screen the session is on, with `spawn_x`
    /// as the place of an enemy that spawns during it.
    pub fn step(&mut self, input: Input, dt: u64, arena: Option<Arena>, spawn_x: i64)
        requires
            old(self).wf(),
            dt <= MAX_DT,
            arena_ok(arena),
            spawn_ok(arena, spawn_x as int),
        ensures
            final(self)@ == step_spec(old(self)@, input, dt, arena, spawn_x as int),
            final(self).wf(),
    {
        match self.state {
            GameState::Title => self.title_update(input),
            GameState::GameOver => self.gameover_update(input),
            GameState::Game => self.game_update(input, dt, arena, spawn_x),
        }
    }

    /// Runs one frame; where an enemy is due, its x is drawn at random over
    /// the places where it fits wholly inside the arena.
    pub fn update(&mut self, input: Input, dt: u64, arena: Option<Arena>)
        requires
            old(self).wf(),
            dt <= MAX_DT,
            arena_ok(arena),
        ensures
            exists|x: int|
                spawn_ok(arena, x) && final(self)@ == step_spec(old(self)@, input, dt, arena, x),
            final(self).wf(),
    {
        let mut spawn_x: i64 = 0;
        if let Some(a) = arena {
            if self.state == GameState::Game && self.spawn_timer.elapsed + dt
                >= self.spawn_timer.period {
                spawn_x = random_spawn_x(a);
            }
        }
        self.step(input, dt, arena, spawn_x);
        assert(spawn_ok(arena, spawn_x as int));
    }
}

} // verus!
