use space_battle::collision::{bullet_hits_enemy, check_collisions};
use space_battle::geometry::{clamp, Arena, Pos};
use space_battle::movement::{
    bullet_movement, diagonal_share, enemy_escaped, enemy_movement, player_movement, shoot_bullet,
    Bullet, Enemy, Input, Player,
};
use space_battle::session::{GameState, Session};
use space_battle::spawn::{enemy_spawner, random_spawn_x, SpawnTimer};
use space_battle::tuning::{ENEMY_HALF, PLAYER_HALF, PLAYER_START_Y, SPAWN_PERIOD};

const PX: i64 = 1_000_000;

fn none() -> Input {
    Input { up: false, down: false, left: false, right: false, fire: false, retry: false }
}

fn fire() -> Input {
    Input { fire: true, ..none() }
}

fn arena_800_600() -> Arena {
    Arena { half_w: 400 * PX, half_h: 300 * PX }
}

fn at(x: i64, y: i64) -> Pos {
    Pos { x, y }
}

fn started_session() -> Session {
    let mut s = Session::new();
    s.step(fire(), 0, Some(arena_800_600()), 0);
    assert_eq!(s.state, GameState::Game);
    s
}

#[test]
fn new_session_is_on_title_screen() {
    let s = Session::new();
    assert_eq!(s.state, GameState::Title);
    assert_eq!(s.score, 0);
    assert!(s.player.is_none());
    assert!(s.bullets.is_empty());
    assert!(s.enemies.is_empty());
    assert_eq!(s.spawn_timer, SpawnTimer { period: SPAWN_PERIOD, elapsed: 0 });
}

#[test]
fn title_waits_for_enter() {
    let mut s = Session::new();
    s.step(Input { up: true, retry: true, ..none() }, 16_000, None, 0);
    assert_eq!(s.state, GameState::Title);
}

#[test]
fn enter_on_title_starts_a_game() {
    let s = started_session();
    assert_eq!(s.score, 0);
    assert_eq!(s.player, Some(Player { pos: at(0, PLAYER_START_Y) }));
    assert!(s.bullets.is_empty());
    assert!(s.enemies.is_empty());
}

#[test]
fn player_moves_right_at_its_speed() {
    let mut s = started_session();
    s.step(Input { right: true, ..none() }, 100_000, Some(arena_800_600()), 0);
    assert_eq!(s.player.unwrap().pos, at(30 * PX, -250 * PX));
}

#[test]
fn opposite_keys_cancel() {
    let p = Player { pos: at(0, 0) };
    let input = Input { left: true, right: true, up: true, ..none() };
    let r = player_movement(p, input, 1_000_000, None);
    assert_eq!(r.pos, at(0, 300 * PX));
}

#[test]
fn player_is_clamped_inside_arena() {
    let a = arena_800_600();
    let p = Player { pos: at(0, 0) };
    let r = player_movement(p, Input { right: true, down: true, ..none() }, 3_600_000_000, Some(a));
    assert_eq!(r.pos, at(a.half_w - PLAYER_HALF, -(a.half_h - PLAYER_HALF)));
    let r = player_movement(p, Input { left: true, up: true, ..none() }, 10_000_000, Some(a));
    assert_eq!(r.pos, at(-375 * PX, 275 * PX));
}

#[test]
fn player_within_bounds_every_frame() {
    let a = arena_800_600();
    let mut s = started_session();
    let keys = [
        Input { left: true, ..none() },
        Input { up: true, left: true, ..none() },
        Input { up: true, ..none() },
        Input { right: true, down: true, ..none() },
    ];
    for k in 0..40 {
        s.step(keys[k % 4], 700_000, Some(a), 0);
        if s.state != GameState::Game {
            break;
        }
        let p = s.player.unwrap().pos;
        assert!(-a.half_w + PLAYER_HALF <= p.x && p.x <= a.half_w - PLAYER_HALF);
        assert!(-a.half_h + PLAYER_HALF <= p.y && p.y <= a.half_h - PLAYER_HALF);
    }
}

#[test]
fn player_unclamped_without_arena() {
    let p = Player { pos: at(0, 0) };
    let r = player_movement(p, Input { right: true, ..none() }, 10_000_000, None);
    assert_eq!(r.pos, at(3_000 * PX, 0));
}

#[test]
fn diagonal_share_values() {
    assert_eq!(diagonal_share(0), 0);
    assert_eq!(diagonal_share(1), 0);
    assert_eq!(diagonal_share(2), 1);
    assert_eq!(diagonal_share(10), 7);
    assert_eq!(diagonal_share(300_000_000), 212_132_034);
}

#[test]
fn diagonal_move_divides_by_root_two() {
    let p = Player { pos: at(0, 0) };
    let dt: u64 = 1_000_000;
    let r = player_movement(p, Input { up: true, right: true, ..none() }, dt, None);
    assert_eq!(r.pos, at(212_132_034, 212_132_034));
    let m = 300.0 * dt as f64;
    let expected = m / 2f64.sqrt();
    assert!((r.pos.x as f64 - expected).abs() < 1.0);
    let r = player_movement(p, Input { down: true, left: true, ..none() }, dt, None);
    assert_eq!(r.pos, at(-212_132_034, -212_132_034));
}

#[test]
fn fired_bullet_starts_at_player() {
    let mut s = started_session();
    s.step(fire(), 0, Some(arena_800_600()), 0);
    assert_eq!(s.bullets, vec![Bullet { pos: at(0, PLAYER_START_Y) }]);
}

#[test]
fn no_bullet_without_player() {
    let mut bullets: Vec<Bullet> = Vec::new();
    shoot_bullet(&mut bullets, fire(), None);
    assert!(bullets.is_empty());
    shoot_bullet(&mut bullets, none(), Some(Player { pos: at(1, 2) }));
    assert!(bullets.is_empty());
    shoot_bullet(&mut bullets, fire(), Some(Player { pos: at(1, 2) }));
    assert_eq!(bullets, vec![Bullet { pos: at(1, 2) }]);
}

#[test]
fn bullet_travels_straight_up() {
    let a = arena_800_600();
    let mut s = started_session();
    s.step(fire(), 0, Some(a), 0);
    let dts: [u64; 3] = [10_000, 250_000, 40_000];
    for dt in dts {
        s.step(none(), dt, Some(a), 0);
    }
    let t: i64 = 300_000;
    assert_eq!(s.bullets, vec![Bullet { pos: at(0, PLAYER_START_Y + 600 * t) }]);
}

#[test]
fn bullet_past_top_is_removed() {
    let a = arena_800_600();
    let bullets = vec![Bullet { pos: at(0, 290 * PX) }, Bullet { pos: at(5, 0) }];
    let r = bullet_movement(&bullets, 20_000, Some(a));
    assert_eq!(r, vec![Bullet { pos: at(5, 12 * PX) }]);
    // with unknown bounds the top edge is taken at 400 px
    let r = bullet_movement(&bullets, 20_000, None);
    assert_eq!(r, vec![Bullet { pos: at(0, 302 * PX) }, Bullet { pos: at(5, 12 * PX) }]);
}

#[test]
fn bullet_exactly_at_top_stays() {
    let bullets = vec![Bullet { pos: at(0, 300 * PX - 600) }];
    let r = bullet_movement(&bullets, 1, Some(arena_800_600()));
    assert_eq!(r, vec![Bullet { pos: at(0, 300 * PX) }]);
}

#[test]
fn enemies_move_down() {
    let enemies = vec![Enemy { pos: at(3, 100 * PX) }];
    let r = enemy_movement(&enemies, 500_000);
    assert_eq!(r, vec![Enemy { pos: at(3, 0) }]);
}

#[test]
fn overlap_is_strict() {
    let b = Bullet { pos: at(0, 0) };
    // right edge of the bullet at 5 px, left edge of the enemy at 5 px
    assert!(!bullet_hits_enemy(&b, &Enemy { pos: at(30 * PX, 0) }));
    assert!(bullet_hits_enemy(&b, &Enemy { pos: at(30 * PX - 1, 0) }));
    assert!(!bullet_hits_enemy(&b, &Enemy { pos: at(-30 * PX, 0) }));
    // top edge of the bullet at 10 px, bottom edge of the enemy at 10 px
    assert!(!bullet_hits_enemy(&b, &Enemy { pos: at(0, 35 * PX) }));
    assert!(bullet_hits_enemy(&b, &Enemy { pos: at(0, 35 * PX - 1) }));
    assert!(!bullet_hits_enemy(&b, &Enemy { pos: at(0, -35 * PX) }));
    assert!(bullet_hits_enemy(&b, &Enemy { pos: at(29 * PX, -34 * PX) }));
}

#[test]
fn one_point_per_pair() {
    let mut bullets = vec![Bullet { pos: at(0, 0) }, Bullet { pos: at(200 * PX, 0) }];
    let mut enemies = vec![
        Enemy { pos: at(200 * PX, 10 * PX) },
        Enemy { pos: at(-200 * PX, 0) },
        Enemy { pos: at(0, 20 * PX) },
    ];
    let mut score: u64 = 7;
    check_collisions(&mut bullets, &mut enemies, &mut score);
    assert_eq!(score, 9);
    assert!(bullets.is_empty());
    assert_eq!(enemies, vec![Enemy { pos: at(-200 * PX, 0) }]);
}

#[test]
fn bullet_removes_one_enemy_only() {
    let mut bullets = vec![Bullet { pos: at(0, 0) }];
    let mut enemies = vec![Enemy { pos: at(10 * PX, 0) }, Enemy { pos: at(-10 * PX, 0) }];
    let mut score: u64 = 0;
    check_collisions(&mut bullets, &mut enemies, &mut score);
    assert_eq!(score, 1);
    assert!(bullets.is_empty());
    assert_eq!(enemies.len(), 1);
}

#[test]
fn two_bullets_one_enemy() {
    let mut bullets = vec![Bullet { pos: at(0, 0) }, Bullet { pos: at(1, 0) }];
    let mut enemies = vec![Enemy { pos: at(0, 0) }];
    let mut score: u64 = 0;
    check_collisions(&mut bullets, &mut enemies, &mut score);
    assert_eq!(score, 1);
    assert_eq!(bullets, vec![Bullet { pos: at(1, 0) }]);
    assert!(enemies.is_empty());
}

#[test]
fn score_stops_at_max() {
    let mut bullets = vec![Bullet { pos: at(0, 0) }];
    let mut enemies = vec![Enemy { pos: at(0, 0) }];
    let mut score: u64 = u64::MAX;
    check_collisions(&mut bullets, &mut enemies, &mut score);
    assert_eq!(score, u64::MAX);
    assert!(enemies.is_empty());
}

#[test]
fn shot_enemy_scores_in_session() {
    let a = arena_800_600();
    let mut s = started_session();
    // enemy box spans -255..-205 px, bullet box -260..-240 px
    s.enemies.push(Enemy { pos: at(0, -230 * PX) });
    s.step(fire(), 0, Some(a), 0);
    assert_eq!(s.score, 1);
    assert!(s.bullets.is_empty());
    assert!(s.enemies.is_empty());
    assert_eq!(s.state, GameState::Game);
}

#[test]
fn enemy_reaching_bottom_ends_game() {
    let a = arena_800_600();
    let mut s = Session::new();
    s.state = GameState::Game;
    s.score = 5;
    s.player = Some(Player { pos: at(0, PLAYER_START_Y) });
    // spawned just above the top edge
    s.enemies.push(Enemy { pos: at(0, a.half_h + ENEMY_HALF) });
    // distance to cover: 2 * (300 + 25) px at 200 px/s, that is 3.25 s
    for _ in 0..13 {
        s.step(none(), 250_000, Some(a), 0);
        assert_eq!(s.state, GameState::Game);
    }
    // its top edge now lies exactly on the bottom edge
    assert_eq!(s.enemies[0].pos, at(0, -a.half_h - ENEMY_HALF));
    s.step(none(), 1, Some(a), 0);
    assert_eq!(s.state, GameState::GameOver);
    assert_eq!(s.score, 5);
    assert!(s.player.is_none());
    assert!(s.bullets.is_empty());
    assert!(s.enemies.is_empty());
}

#[test]
fn escape_check_is_strict() {
    let a = arena_800_600();
    let on_edge = vec![Enemy { pos: at(0, -325 * PX) }];
    assert!(!enemy_escaped(&on_edge, Some(a)));
    let below = vec![Enemy { pos: at(0, 0) }, Enemy { pos: at(0, -325 * PX - 1) }];
    assert!(enemy_escaped(&below, Some(a)));
    // unknown bounds: bottom edge at -400 px
    assert!(!enemy_escaped(&below, None));
}

#[test]
fn retry_after_game_over() {
    let a = arena_800_600();
    let mut s = started_session();
    s.step(fire(), 0, Some(a), 0);
    s.enemies.push(Enemy { pos: at(0, -200 * PX) });
    s.enemies.push(Enemy { pos: at(100 * PX, -330 * PX) });
    s.step(none(), 100_000, Some(a), 0);
    assert_eq!(s.state, GameState::GameOver);
    s.step(Input { retry: true, ..none() }, 16_000, Some(a), 0);
    assert_eq!(s.state, GameState::Game);
    assert_eq!(s.score, 0);
    assert_eq!(s.player, Some(Player { pos: at(0, PLAYER_START_Y) }));
    assert!(s.bullets.is_empty());
    assert!(s.enemies.is_empty());
    assert_eq!(s.spawn_timer.elapsed, 0);
}

#[test]
fn retry_resets_score() {
    let a = arena_800_600();
    let mut s = Session::new();
    s.state = GameState::GameOver;
    s.score = 12;
    s.step(Input { retry: true, ..none() }, 0, Some(a), 0);
    assert_eq!(s.state, GameState::Game);
    assert_eq!(s.score, 0);
}

#[test]
fn enter_on_game_over_goes_to_title() {
    let mut s = Session::new();
    s.state = GameState::GameOver;
    s.score = 3;
    s.step(Input { fire: true, retry: true, ..none() }, 0, None, 0);
    assert_eq!(s.state, GameState::Title);
    assert_eq!(s.score, 3);
    s.step(none(), 0, None, 0);
    assert_eq!(s.state, GameState::Title);
}

#[test]
fn timer_fires_once_over_split_period() {
    let mut t = SpawnTimer::new(2_000_000);
    let mut fired = 0;
    for dt in [500_000u64, 700_000, 800_000] {
        if t.tick(dt) {
            fired += 1;
        }
    }
    assert_eq!(fired, 1);
    assert_eq!(t.elapsed, 0);
    assert!(!t.tick(0));
    assert!(!t.tick(1_999_999));
    assert!(t.tick(1));
}

#[test]
fn timer_fires_at_most_once_per_frame() {
    let mut t = SpawnTimer::new(2_000_000);
    assert!(t.tick(5_000_000));
    assert_eq!(t.elapsed, 1_000_000);
    assert!(!t.tick(999_999));
    assert!(t.tick(1));
}

#[test]
fn default_timer_period_is_two_seconds() {
    let t = SpawnTimer::default();
    assert_eq!(t, SpawnTimer { period: 2_000_000, elapsed: 0 });
}

#[test]
fn spawner_places_enemy_above_top() {
    let a = arena_800_600();
    let mut t = SpawnTimer::new(2_000_000);
    let mut enemies: Vec<Enemy> = Vec::new();
    assert!(!enemy_spawner(&mut t, &mut enemies, 1_999_999, Some(a), 17));
    assert!(enemies.is_empty());
    assert!(enemy_spawner(&mut t, &mut enemies, 1, Some(a), 17));
    assert_eq!(enemies, vec![Enemy { pos: at(17, 325 * PX) }]);
}

#[test]
fn spawner_skips_without_arena_but_advances() {
    let mut t = SpawnTimer::new(2_000_000);
    let mut enemies: Vec<Enemy> = Vec::new();
    assert!(!enemy_spawner(&mut t, &mut enemies, 2_500_000, None, 0));
    assert!(enemies.is_empty());
    assert_eq!(t.elapsed, 500_000);
}

#[test]
fn session_spawns_every_period() {
    let a = arena_800_600();
    let mut s = started_session();
    s.step(none(), 1_000_000, Some(a), 5);
    assert!(s.enemies.is_empty());
    s.step(none(), 1_000_000, Some(a), -5);
    assert_eq!(s.enemies, vec![Enemy { pos: at(-5, 325 * PX) }]);
    s.step(none(), 500_000, Some(a), 0);
    assert_eq!(s.enemies, vec![Enemy { pos: at(-5, 225 * PX) }]);
}

#[test]
fn random_spawn_x_stays_inside_and_varies() {
    let a = arena_800_600();
    let reach = a.half_w - ENEMY_HALF;
    let mut seen = Vec::new();
    for _ in 0..32 {
        let x = random_spawn_x(a);
        assert!(-reach <= x && x <= reach);
        seen.push(x);
    }
    assert!(seen.iter().any(|x| *x != seen[0]));
    let narrow = Arena { half_w: ENEMY_HALF, half_h: 300 * PX };
    assert_eq!(random_spawn_x(narrow), 0);
}

#[test]
fn update_spawns_inside_arena() {
    let a = arena_800_600();
    let mut s = started_session();
    s.update(none(), 2_000_000, Some(a));
    assert_eq!(s.enemies.len(), 1);
    let e = s.enemies[0].pos;
    assert!(-375 * PX <= e.x && e.x <= 375 * PX);
    assert_eq!(e.y, 325 * PX);
}

#[test]
fn arena_from_viewport_size() {
    assert_eq!(Arena::from_size(800 * PX, 600 * PX), Some(arena_800_600()));
    assert_eq!(Arena::from_size(801, 600 * PX), None);
    assert_eq!(Arena::from_size(-800 * PX, 600 * PX), None);
    assert_eq!(Arena::from_size(50 * PX, 50 * PX), Some(Arena { half_w: 25 * PX, half_h: 25 * PX }));
}

#[test]
fn clamp_values() {
    assert_eq!(clamp(5, 0, 3), 3);
    assert_eq!(clamp(-5, 0, 3), 0);
    assert_eq!(clamp(2, 0, 3), 2);
}
