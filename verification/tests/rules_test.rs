use rust_webgpu_game::levels::level_layout;
use rust_webgpu_game::rules::{bottom_action, BottomAction};
use rust_webgpu_game::rules::{
    launch_action, multiball_sources, HitKind, LaunchAction, Rules, MAX_LIVES, RNG_SEED,
};
use rust_webgpu_game::types::{GameState, Powerup, Sfx};

fn xorshift(mut x: u32) -> u32 {
    x ^= x << 13;
    x ^= x >> 17;
    x ^= x << 5;
    x
}

fn first_breakable(r: &Rules) -> usize {
    r.bricks.iter().position(|b| b.alive && !b.unbreakable).unwrap()
}

#[test]
fn a_new_game() {
    let r = Rules::new();
    assert_eq!(r.state, GameState::Ready);
    assert_eq!(r.score, 0);
    assert_eq!(r.lives, MAX_LIVES);
    assert_eq!(r.lives, 6);
    assert_eq!(r.level, 1);
    assert_eq!(r.combo, 0);
    assert!(!r.immortal);
    assert_eq!(r.bricks.len(), level_layout(1).len());
    assert_eq!(r.rng_state, RNG_SEED);
}

#[test]
fn cracking_and_breaking_score_with_the_combo() {
    let mut r = Rules::new();
    // Level 1 top row bricks have three hit points.
    let hit = r.damage_brick(0);
    assert_eq!(hit.kind, HitKind::Cracked);
    assert_eq!(r.combo, 1);
    assert_eq!(r.score, 3);
    assert_eq!(r.bricks[0].hp, 2);
    r.damage_brick(0);
    assert_eq!(r.combo, 2);
    assert_eq!(r.score, 3 + 6);
    let hit = r.damage_brick(0);
    assert_eq!(hit.kind, HitKind::Destroyed);
    assert_eq!(r.combo, 3);
    assert_eq!(r.score, 3 + 6 + 30);
    assert!(!r.bricks[0].alive);
    assert_eq!(r.bricks[0].hp, 0);
    // A destroyed brick ignores further hits.
    let again = r.damage_brick(0);
    assert_eq!(again.kind, HitKind::Ignored);
    assert_eq!(r.score, 39);
    assert_eq!(r.damage_brick(100_000).kind, HitKind::Ignored);
    let sfx = r.drain_sfx();
    assert_eq!(sfx[0], Sfx::Brick);
    assert_eq!(sfx[1], Sfx::Brick);
    assert_eq!(*sfx.last().unwrap(), Sfx::Shatter);
    assert!(r.drain_sfx().is_empty());
}

#[test]
fn combo_stops_at_eight_and_resets_on_the_paddle() {
    let mut r = Rules::new();
    for i in 0..12 {
        r.damage_brick(i);
        r.drain_sfx();
    }
    assert_eq!(r.combo, 8);
    r.paddle_bounce();
    assert_eq!(r.combo, 0);
    assert_eq!(r.drain_sfx(), vec![Sfx::Paddle]);
}

#[test]
fn drops_follow_the_generator() {
    let mut r = Rules::new();
    let mut s = RNG_SEED;
    for _ in 0..50 {
        let got = r.maybe_drop();
        s = xorshift(s);
        let k = s >> 8;
        let expected = if k as f32 / 16_777_216.0 > 0.28 {
            None
        } else {
            s = xorshift(s);
            let v = (s >> 8) as f32 / 16_777_216.0;
            Some(if v < 0.12 {
                Powerup::ExtraLife
            } else if v < 0.30 {
                Powerup::Multiball
            } else if v < 0.46 {
                Powerup::Expand
            } else if v < 0.62 {
                Powerup::Laser
            } else if v < 0.80 {
                Powerup::Pierce
            } else {
                Powerup::Slow
            })
        };
        assert_eq!(got, expected);
        assert_eq!(r.rng_state, s);
    }
}

#[test]
fn next_rand_gives_the_top_24_bits() {
    let mut r = Rules::new();
    let k = r.next_rand();
    assert_eq!(k, xorshift(RNG_SEED) >> 8);
    assert!(k < 1 << 24);
}

#[test]
fn clearing_a_level_moves_on_and_the_last_one_wins() {
    let mut r = Rules::new();
    r.goto_level(3);
    assert_eq!(r.level, 3);
    assert_eq!(r.state, GameState::Ready);
    let n = r.bricks.len();
    let mut cleared = false;
    let mut guard = 0;
    while !cleared && guard < 10_000 {
        guard += 1;
        let bi = r.bricks.iter().position(|b| b.alive && !b.unbreakable).unwrap();
        let hit = r.damage_brick(bi);
        r.drain_sfx();
        cleared = hit.cleared;
        assert!(bi < n);
    }
    assert!(cleared);
    assert_eq!(r.level, 4);
    assert_eq!(r.state, GameState::Ready);
    assert_eq!(r.combo, 0);
    r.goto_level(9);
    assert_eq!(r.level, 5);
    let score = r.score;
    loop {
        let bi = first_breakable(&r);
        let hit = r.damage_brick(bi);
        if hit.cleared {
            break;
        }
        r.drain_sfx();
    }
    assert_eq!(r.state, GameState::Win);
    assert_eq!(r.level, 5);
    assert!(r.score > score);
    assert!(r.drain_sfx().contains(&Sfx::Win));
}

#[test]
fn goto_level_clamps() {
    let mut r = Rules::new();
    r.goto_level(0);
    assert_eq!(r.level, 1);
    r.goto_level(42);
    assert_eq!(r.level, 5);
}

#[test]
fn goto_level_keeps_score_and_lives() {
    let mut r = Rules::new();
    let bi = first_breakable(&r);
    r.damage_brick(bi);
    r.lose_last_ball();
    r.toggle_immortal();
    let (score, lives) = (r.score, r.lives);
    assert!(score > 0);
    assert_eq!(lives, 5);
    r.goto_level(3);
    assert_eq!(r.score, score);
    assert_eq!(r.lives, lives);
    assert!(r.immortal);
    assert_eq!(r.level, 3);
    assert_eq!(r.combo, 0);
    assert_eq!(r.state, GameState::Ready);
    assert_eq!(r.bricks, level_layout(3));
}

#[test]
fn unbreakable_bricks_only_flash() {
    let mut r = Rules::new();
    r.goto_level(4);
    let bi = r.bricks.iter().position(|b| b.unbreakable).unwrap();
    let before = r.bricks[bi];
    let hit = r.damage_brick(bi);
    assert_eq!(hit.kind, HitKind::Unbreakable);
    assert_eq!(r.bricks[bi], before);
    assert_eq!(r.score, 0);
    assert_eq!(r.combo, 0);
    assert_eq!(r.drain_sfx(), vec![Sfx::Wall]);
}

#[test]
fn losing_balls_ends_the_game() {
    let mut r = Rules::new();
    r.launch();
    assert_eq!(r.state, GameState::Playing);
    for lives in (1..6).rev() {
        r.lose_last_ball();
        assert_eq!(r.lives, lives);
        assert_eq!(r.state, GameState::Ready);
        r.drain_sfx();
    }
    r.lose_last_ball();
    assert_eq!(r.lives, 0);
    assert_eq!(r.state, GameState::GameOver);
    r.lose_last_ball();
    assert_eq!(r.lives, 0);
    assert_eq!(r.state, GameState::GameOver);
    assert_eq!(r.overlay_msg(), "GAME OVER  —  tap to retry");
    assert_eq!(launch_action(r.state, true), LaunchAction::Restart);
    r.restart();
    assert_eq!(r.lives, 6);
    assert_eq!(r.score, 0);
    assert_eq!(r.state, GameState::Ready);
}

#[test]
fn practice_mode_revives_a_lost_game() {
    let mut r = Rules::new();
    for _ in 0..6 {
        r.lose_last_ball();
    }
    assert_eq!(r.state, GameState::GameOver);
    assert!(r.toggle_immortal());
    assert!(r.immortal);
    assert_eq!(r.state, GameState::Ready);
    assert_eq!(r.lives, 1);
    assert_eq!(r.overlay_msg(), "PRACTICE  —  tap / space to launch");
    assert!(!r.toggle_immortal());
    assert!(!r.immortal);
    assert_eq!(r.overlay_msg(), "TAP / SPACE  —  launch");
}

#[test]
fn extra_lives_stop_at_nine() {
    let mut r = Rules::new();
    for _ in 0..10 {
        r.apply_powerup(Powerup::ExtraLife);
        r.drain_sfx();
    }
    assert_eq!(r.lives, 9);
    r.apply_powerup(Powerup::Slow);
    assert_eq!(r.lives, 9);
    assert_eq!(r.drain_sfx(), vec![Sfx::Pickup]);
}

#[test]
fn sound_caps() {
    let mut r = Rules::new();
    for _ in 0..5 {
        r.push_sfx(Sfx::Wall);
    }
    assert_eq!(r.sfx.items.len(), 3);
    for s in [Sfx::Paddle, Sfx::Brick, Sfx::Shatter, Sfx::Pickup, Sfx::Laser, Sfx::LifeLost] {
        for _ in 0..3 {
            r.push_sfx(s);
        }
    }
    assert_eq!(r.sfx.items.len(), 16);
    r.push_sfx(Sfx::Win);
    assert_eq!(r.sfx.items.len(), 16);
}

#[test]
fn overlay_lines() {
    let mut r = Rules::new();
    assert_eq!(r.overlay_msg(), "TAP / SPACE  —  launch");
    r.launch();
    assert_eq!(r.overlay_msg(), "");
    assert_eq!(r.drain_sfx(), vec![Sfx::Launch]);
}

#[test]
fn launch_actions() {
    assert_eq!(launch_action(GameState::Ready, true), LaunchAction::Launch);
    assert_eq!(launch_action(GameState::Ready, false), LaunchAction::Nothing);
    assert_eq!(launch_action(GameState::Playing, true), LaunchAction::Nothing);
    assert_eq!(launch_action(GameState::Win, true), LaunchAction::Restart);
    assert_eq!(launch_action(GameState::GameOver, false), LaunchAction::Nothing);
}

#[test]
fn multiball_fills_up_to_three() {
    assert_eq!(multiball_sources(0), Vec::<usize>::new());
    assert_eq!(multiball_sources(1), vec![0, 0]);
    assert_eq!(multiball_sources(2), vec![0]);
    assert_eq!(multiball_sources(3), Vec::<usize>::new());
    assert_eq!(multiball_sources(7), Vec::<usize>::new());
}

#[test]
fn a_hit_may_take_the_score_to_the_top() {
    let mut r = Rules::new();
    let bi = first_breakable(&r);
    assert!(r.bricks[bi].hp > 1);
    r.score = u32::MAX - 3;
    let hit = r.damage_brick(bi);
    assert_eq!(hit.kind, HitKind::Cracked);
    assert_eq!(r.score, u32::MAX);
}

#[test]
fn pause_sends_a_running_game_back_to_ready() {
    let mut r = Rules::new();
    r.pause();
    assert_eq!(r.state, GameState::Ready);
    r.launch();
    assert_eq!(r.state, GameState::Playing);
    r.pause();
    assert_eq!(r.state, GameState::Ready);
    assert_eq!(r.drain_sfx(), vec![Sfx::Launch]);
}

#[test]
fn practice_mode_keeps_every_ball() {
    assert_eq!(bottom_action(true, true, true), BottomAction::Bounce);
    assert_eq!(bottom_action(true, true, false), BottomAction::Bounce);
    assert_eq!(bottom_action(false, true, true), BottomAction::Remove);
    assert_eq!(bottom_action(false, true, false), BottomAction::Keep);
    assert_eq!(bottom_action(false, false, false), BottomAction::Keep);
    assert_eq!(bottom_action(true, false, false), BottomAction::Keep);
}

#[test]
fn running_out_of_balls_costs_a_life() {
    let mut r = Rules::new();
    r.launch();
    r.balls_gone(2);
    assert_eq!(r.lives, MAX_LIVES);
    assert_eq!(r.state, GameState::Playing);
    r.balls_gone(0);
    assert_eq!(r.lives, MAX_LIVES - 1);
    assert_eq!(r.state, GameState::Ready);
    r.balls_gone(0);
    assert_eq!(r.lives, MAX_LIVES - 1);
}
