//! The rules of Crystal Arkanoid: state, score, lives, levels, combo, brick
//! hit points, power-up drops and the sounds the rules ask for.
//!
//! Positions, speeds and timers are real-valued and live with the physics
//! outside this module; everything countable is decided here.
use crate::levels::{
    brick_of, layout_upto, level_layout, spec_level_cell, spec_level_layout, BrickCell, MAX_LEVEL,
};
use crate::rng::{next_state, unit_bits, xorshift32};
use crate::sfx::{pushed, SfxQueue};
use crate::types::{GameState, Powerup, Sfx};
use vstd::prelude::*;

verus! {

/// Lives at the start of a game.
pub const MAX_LIVES: u32 = 6;

/// Extra-life power-ups raise the lives up to this many.
pub const MAX_STORED_LIVES: u32 = 9;

/// The combo multiplier stops growing here.
pub const MAX_COMBO: u32 = 8;

/// At most this many balls are in play.
pub const MAX_BALLS: usize = 3;

/// Seed of the Arkanoid random generator.
pub const RNG_SEED: u32 = 0x1234_5678;

/// At most this many copies of one sound effect wait per frame.
pub const SFX_SAME: usize = 3;

/// At most this many sound effects wait per frame.
pub const SFX_LEN: usize = 16;

/// Points for a destroyed brick, per combo step.
pub const DESTROY_POINTS: u32 = 10;

/// Points for a cracked brick, per combo step.
pub const CRACK_POINTS: u32 = 3;

/// The countable part of an Arkanoid game.
pub struct Rules {
    pub state: GameState,
    pub score: u32,
    pub lives: u32,
    pub level: u32,
    pub combo: u32,
    pub immortal: bool,
    pub bricks: Vec<BrickCell>,
    pub rng_state: u32,
    pub sfx: SfxQueue,
}

/// Mathematical model of `Rules`.
pub struct RulesModel {
    pub state: GameState,
    pub score: u32,
    pub lives: u32,
    pub level: u32,
    pub combo: u32,
    pub immortal: bool,
    pub bricks: Seq<BrickCell>,
    pub rng_state: u32,
    pub sfx: Seq<Sfx>,
}

impl View for Rules {
    type V = RulesModel;

    open spec fn view(&self) -> RulesModel {
        RulesModel {
            state: self.state,
            score: self.score,
            lives: self.lives,
            level: self.level,
            combo: self.combo,
            immortal: self.immortal,
            bricks: self.bricks@,
            rng_state: self.rng_state,
            sfx: self.sfx.items@,
        }
    }
}

/// What a hit did to a brick.
#[derive(Clone, Copy, Debug, PartialEq, Eq, Structural)]
pub enum HitKind {
    /// No living brick at that index.
    Ignored,
    /// The brick is unbreakable; it only flashes.
    Unbreakable,
    /// The brick lost a hit point and stands.
    Cracked,
    /// The brick lost its last hit point.
    Destroyed,
}

/// The outcome of damaging a brick.
#[derive(Clone, Copy, Debug, PartialEq, Eq, Structural)]
pub struct BrickHit {
    pub kind: HitKind,
    /// The power-up that falls from a destroyed brick, if any.
    pub drop: Option<Powerup>,
    /// The hit left no breakable brick standing and the level ended.
    pub cleared: bool,
}

/// What a launch request does in a given state.
#[derive(Clone, Copy, Debug, PartialEq, Eq, Structural)]
pub enum LaunchAction {
    Nothing,
    Launch,
    Restart,
}

/// Levels outside 1..=MAX_LEVEL are moved to the nearest end.
pub open spec fn clamp_level(level: u32) -> u32 {
    if level < 1 {
        1
    } else if level > MAX_LEVEL {
        MAX_LEVEL
    } else {
        level
    }
}

pub open spec fn min_u32(a: u32, b: u32) -> u32 {
    if a <= b {
        a
    } else {
        b
    }
}

/// Queue an effect with the Arkanoid caps.
pub open spec fn push_sfx_spec(m: RulesModel, s: Sfx) -> RulesModel {
    RulesModel { sfx: pushed(m.sfx, s, SFX_SAME, SFX_LEN), ..m }
}

/// A power-up drops when the 24-bit sample is at most 0.28 * 2^24
/// (the drop chance, as an `f32`, is 4697620.5 / 2^24).
pub open spec fn drops(k: u32) -> bool {
    k <= 4697620
}

/// The kind of a dropped power-up from a 24-bit sample: 12% extra life,
/// 18% multiball, 16% expand, 16% laser, 18% pierce, 20% slow (thresholds
/// as `f32` values times 2^24).
pub open spec fn drop_kind(k: u32) -> Powerup {
    if k < 2013266 {
        Powerup::ExtraLife
    } else if k < 5033165 {
        Powerup::Multiball
    } else if k < 7717520 {
        Powerup::Expand
    } else if k < 10401874 {
        Powerup::Laser
    } else if k < 13421773 {
        Powerup::Pierce
    } else {
        Powerup::Slow
    }
}

/// Draws for a power-up: one sample decides whether one drops, a second one its kind.
pub open spec fn maybe_drop_spec(m: RulesModel) -> (RulesModel, Option<Powerup>) {
    let s1 = xorshift32(m.rng_state);
    if !drops(s1 / 256) {
        (RulesModel { rng_state: s1, ..m }, None)
    } else {
        let s2 = xorshift32(s1);
        (RulesModel { rng_state: s2, ..m }, Some(drop_kind(s2 / 256)))
    }
}

/// Loading a level: the layout of the clamped level, combo reset.
pub open spec fn load_level_spec(m: RulesModel, level: u32) -> RulesModel {
    RulesModel {
        level: clamp_level(level),
        combo: 0,
        bricks: spec_level_layout(clamp_level(level)),
        ..m
    }
}

/// Every brick left is destroyed or unbreakable.
pub open spec fn all_clear(bricks: Seq<BrickCell>) -> bool {
    forall|i: int| 0 <= i < bricks.len() ==> !(#[trigger] bricks[i]).alive || bricks[i].unbreakable
}

/// The last breakable brick fell: the last level wins, otherwise the next one starts.
pub open spec fn on_level_clear_spec(m: RulesModel) -> RulesModel {
    let m0 = RulesModel { combo: 0, ..m };
    if m.level >= MAX_LEVEL {
        push_sfx_spec(RulesModel { state: GameState::Win, ..m0 }, Sfx::Win)
    } else {
        RulesModel { state: GameState::Ready, ..load_level_spec(m0, (m.level + 1) as u32) }
    }
}

/// The combo after one more brick hit.
pub open spec fn next_combo(combo: u32) -> u32 {
    min_u32((combo + 1) as u32, MAX_COMBO)
}

/// One hit on brick `bi`, before the level-clear check.
pub open spec fn hit_spec(m: RulesModel, bi: int) -> (RulesModel, HitKind, Option<Powerup>) {
    if bi < 0 || bi >= m.bricks.len() || !m.bricks[bi].alive {
        (m, HitKind::Ignored, None)
    } else if m.bricks[bi].unbreakable {
        (push_sfx_spec(m, Sfx::Wall), HitKind::Unbreakable, None)
    } else {
        let b = m.bricks[bi];
        let hp: u8 = if b.hp > 0 {
            (b.hp - 1) as u8
        } else {
            0
        };
        let combo = next_combo(m.combo);
        if hp == 0 {
            let m1 = RulesModel {
                bricks: m.bricks.update(bi, BrickCell { hp: 0, alive: false, ..b }),
                combo,
                score: (m.score + DESTROY_POINTS * combo) as u32,
                ..m
            };
            let (m2, drop) = maybe_drop_spec(m1);
            (push_sfx_spec(m2, Sfx::Shatter), HitKind::Destroyed, drop)
        } else {
            let m1 = RulesModel {
                bricks: m.bricks.update(bi, BrickCell { hp, ..b }),
                combo,
                score: (m.score + CRACK_POINTS * combo) as u32,
                ..m
            };
            (push_sfx_spec(m1, Sfx::Brick), HitKind::Cracked, None)
        }
    }
}

/// Damaging brick `bi`: the hit, then the level ends when no breakable brick stands.
pub open spec fn damage_spec(m: RulesModel, bi: int) -> (RulesModel, BrickHit) {
    let (m1, kind, drop) = hit_spec(m, bi);
    if (kind == HitKind::Cracked || kind == HitKind::Destroyed) && all_clear(m1.bricks) {
        (on_level_clear_spec(m1), BrickHit { kind, drop, cleared: true })
    } else {
        (m1, BrickHit { kind, drop, cleared: false })
    }
}

/// Losing the last ball in play costs a life; without lives the game is over.
pub open spec fn lose_last_ball_spec(m: RulesModel) -> RulesModel {
    let lives: u32 = if m.lives > 0 {
        (m.lives - 1) as u32
    } else {
        0
    };
    let m1 = push_sfx_spec(RulesModel { combo: 0, ..m }, Sfx::LifeLost);
    RulesModel {
        lives,
        state: if lives == 0 {
            GameState::GameOver
        } else {
            GameState::Ready
        },
        ..m1
    }
}

/// A fresh game at level 1; the random generator and the sound queue carry on.
pub open spec fn restart_spec(m: RulesModel) -> RulesModel {
    RulesModel {
        score: 0,
        lives: MAX_LIVES,
        state: GameState::Ready,
        ..load_level_spec(m, 1)
    }
}

/// Practice mode on or off; turning it on after a lost game revives it with at least one life.
pub open spec fn toggle_immortal_spec(m: RulesModel) -> RulesModel {
    let immortal = !m.immortal;
    if immortal && m.state == GameState::GameOver {
        RulesModel {
            immortal,
            state: GameState::Ready,
            lives: if m.lives == 0 {
                1
            } else {
                m.lives
            },
            ..m
        }
    } else {
        RulesModel { immortal, ..m }
    }
}

/// Catching a power-up; an extra life is capped at `MAX_STORED_LIVES`.
pub open spec fn apply_powerup_spec(m: RulesModel, kind: Powerup) -> RulesModel {
    let m1 = push_sfx_spec(m, Sfx::Pickup);
    if kind == Powerup::ExtraLife {
        RulesModel { lives: min_u32((m.lives + 1) as u32, MAX_STORED_LIVES), ..m1 }
    } else {
        m1
    }
}

/// What a launch request does: launch from `Ready`, restart after the end of a game.
pub open spec fn launch_action_spec(state: GameState, launch: bool) -> LaunchAction {
    if !launch {
        LaunchAction::Nothing
    } else {
        match state {
            GameState::Ready => LaunchAction::Launch,
            GameState::Playing => LaunchAction::Nothing,
            GameState::GameOver | GameState::Win => LaunchAction::Restart,
        }
    }
}

/// The state of a new game.
pub open spec fn new_spec() -> RulesModel {
    RulesModel {
        state: GameState::Ready,
        score: 0,
        lives: MAX_LIVES,
        level: 1,
        combo: 0,
        immortal: false,
        bricks: spec_level_layout(1),
        rng_state: RNG_SEED,
        sfx: Seq::empty(),
    }
}

/// The invariant of the rules.
pub open spec fn model_wf(m: RulesModel) -> bool {
    &&& 1 <= m.level <= MAX_LEVEL
    &&& m.lives <= MAX_STORED_LIVES
    &&& m.combo <= MAX_COMBO
    &&& m.sfx.len() <= SFX_LEN
    &&& forall|s: Sfx| #[trigger] crate::sfx::count_of(m.sfx, s) <= SFX_SAME
}

/// The points a hit on brick `bi` adds: ten per combo step for a brick it
/// breaks, three per combo step for one it cracks, none otherwise.
pub open spec fn hit_points(m: RulesModel, bi: int) -> int {
    if bi < 0 || bi >= m.bricks.len() || !m.bricks[bi].alive || m.bricks[bi].unbreakable {
        0
    } else if m.bricks[bi].hp <= 1 {
        DESTROY_POINTS * next_combo(m.combo)
    } else {
        CRACK_POINTS * next_combo(m.combo)
    }
}

/// The score has room for the points a hit on brick `bi` adds.
pub open spec fn score_has_room(m: RulesModel, bi: int) -> bool {
    m.score + hit_points(m, bi) <= u32::MAX
}

/// The overlay line shown for a state.
pub open spec fn overlay_msg_spec(state: GameState, immortal: bool) -> Seq<char> {
    match state {
        GameState::Ready => if immortal {
            "PRACTICE  —  tap / space to launch"@
        } else {
            "TAP / SPACE  —  launch"@
        },
        GameState::Playing => ""@,
        GameState::GameOver => "GAME OVER  —  tap to retry"@,
        GameState::Win => "YOU WIN  —  tap to play again"@,
    }
}

/// What a launch request does in `state`.
pub fn launch_action(state: GameState, launch: bool) -> (a: LaunchAction)
    ensures
        a == launch_action_spec(state, launch),
{
    if !launch {
        return LaunchAction::Nothing;
    }
    match state {
        GameState::Ready => LaunchAction::Launch,
        GameState::Playing => LaunchAction::Nothing,
        GameState::GameOver | GameState::Win => LaunchAction::Restart,
    }
}

impl Rules {
    /// The invariant: the queue keeps its Arkanoid caps and the model invariant holds.
    pub open spec fn wf(&self) -> bool {
        &&& self.sfx.wf()
        &&& self.sfx.max_same == SFX_SAME
        &&& self.sfx.max_len == SFX_LEN
        &&& model_wf(self@)
    }

    /// A new game: ready at level 1 with six lives.
    pub fn new() -> (r: Rules)
        ensures
            r.wf(),
            r@ == new_spec(),
    {
        Rules {
            state: GameState::Ready,
            score: 0,
            lives: MAX_LIVES,
            level: 1,
            combo: 0,
            immortal: false,
            bricks: level_layout(1),
            rng_state: RNG_SEED,
            sfx: SfxQueue::new(SFX_SAME, SFX_LEN),
        }
    }

    /// Queues a sound effect (at most three of a kind and sixteen in all).
    pub fn push_sfx(&mut self, s: Sfx)
        requires
            old(self).wf(),
        ensures
            final(self).wf(),
            final(self)@ == push_sfx_spec(old(self)@, s),
    {
        self.sfx.push(s);
    }

    /// Hands the queued sound effects to the audio backend.
    pub fn drain_sfx(&mut self) -> (out: Vec<Sfx>)
        requires
            old(self).wf(),
        ensures
            final(self).wf(),
            out@ == old(self)@.sfx,
            final(self)@ == (RulesModel { sfx: Seq::empty(), ..old(self)@ }),
    {
        self.sfx.drain()
    }

    /// Advances the generator and returns the top 24 bits of the new state,
    /// the numerator of a uniform sample over [0, 1) with denominator 2^24.
    pub fn next_rand(&mut self) -> (k: u32)
        requires
            old(self).wf(),
        ensures
            final(self).wf(),
            final(self)@ == (RulesModel { rng_state: xorshift32(old(self).rng_state), ..old(self)@ }),
            k == xorshift32(old(self).rng_state) / 256,
            k < 16777216,
    {
        self.rng_state = next_state(self.rng_state);
        unit_bits(self.rng_state)
    }

    /// Draws for a power-up from a destroyed brick.
    pub fn maybe_drop(&mut self) -> (drop: Option<Powerup>)
        requires
            old(self).wf(),
        ensures
            final(self).wf(),
            (final(self)@, drop) == maybe_drop_spec(old(self)@),
    {
        let k = self.next_rand();
        if k > 4697620 {
            return None;
        }
        let r = self.next_rand();
        let kind = if r < 2013266 {
            Powerup::ExtraLife
        } else if r < 5033165 {
            Powerup::Multiball
        } else if r < 7717520 {
            Powerup::Expand
        } else if r < 10401874 {
            Powerup::Laser
        } else if r < 13421773 {
            Powerup::Pierce
        } else {
            Powerup::Slow
        };
        Some(kind)
    }

    /// Loads the bricks of a level (clamped to 1..=MAX_LEVEL) and resets the combo.
    pub fn load_level(&mut self, level: u32)
        requires
            old(self).wf(),
        ensures
            final(self).wf(),
            final(self)@ == load_level_spec(old(self)@, level),
    {
        let lv: u32 = if level < 1 {
            1
        } else if level > MAX_LEVEL {
            MAX_LEVEL
        } else {
            level
        };
        self.level = lv;
        self.combo = 0;
        self.bricks = level_layout(lv);
    }

    /// Jumps to a level; score and lives stay.
    pub fn goto_level(&mut self, level: u32)
        requires
            old(self).wf(),
        ensures
            final(self).wf(),
            final(self)@ == (RulesModel { state: GameState::Ready, ..load_level_spec(old(self)@, level) }),
    {
        self.load_level(level);
        self.state = GameState::Ready;
    }

    /// The balls leave the paddle.
    pub fn launch(&mut self)
        requires
            old(self).wf(),
        ensures
            final(self).wf(),
            final(self)@ == (RulesModel { state: GameState::Playing, ..push_sfx_spec(old(self)@, Sfx::Launch) }),
    {
        self.state = GameState::Playing;
        self.push_sfx(Sfx::Launch);
    }

    /// Pauses a running game (Escape): the rally stops, score, lives and
    /// bricks stay, and the game waits on the paddle to be launched again.
    pub fn pause(&mut self)
        requires
            old(self).wf(),
        ensures
            final(self).wf(),
            final(self)@ == (RulesModel {
                state: if old(self).state == GameState::Playing {
                    GameState::Ready
                } else {
                    old(self).state
                },
                ..old(self)@
            }),
    {
        if self.state == GameState::Playing {
            self.state = GameState::Ready;
        }
    }

    /// The overlay line for the current state.
    pub fn overlay_msg(&self) -> (msg: &'static str)
        ensures
            msg@ == overlay_msg_spec(self.state, self.immortal),
    {
        match self.state {
            GameState::Ready => if self.immortal {
                "PRACTICE  —  tap / space to launch"
            } else {
                "TAP / SPACE  —  launch"
            },
            GameState::Playing => "",
            GameState::GameOver => "GAME OVER  —  tap to retry",
            GameState::Win => "YOU WIN  —  tap to play again",
        }
    }

    /// Turns practice mode on or off; returns whether a lost game came back to life.
    pub fn toggle_immortal(&mut self) -> (revived: bool)
        requires
            old(self).wf(),
        ensures
            final(self).wf(),
            final(self)@ == toggle_immortal_spec(old(self)@),
            revived == (!old(self).immortal && old(self).state == GameState::GameOver),
    {
        self.immortal = !self.immortal;
        if self.immortal && self.state == GameState::GameOver {
            self.state = GameState::Ready;
            if self.lives == 0 {
                self.lives = 1;
            }
            return true;
        }
        false
    }

    /// The last ball fell out: a life is lost.
    pub fn lose_last_ball(&mut self)
        requires
            old(self).wf(),
        ensures
            final(self).wf(),
            final(self)@ == lose_last_ball_spec(old(self)@),
    {
        self.combo = 0;
        self.push_sfx(Sfx::LifeLost);
        if self.lives > 0 {
            self.lives = self.lives - 1;
        }
        if self.lives == 0 {
            self.state = GameState::GameOver;
        } else {
            self.state = GameState::Ready;
        }
    }

    /// The end of a step with `balls_left` balls in play: a running game
    /// that has none left loses its last ball; otherwise nothing changes.
    pub fn balls_gone(&mut self, balls_left: usize)
        requires
            old(self).wf(),
        ensures
            final(self).wf(),
            final(self)@ == balls_gone_spec(old(self)@, balls_left as int),
    {
        if self.state == GameState::Playing && balls_left == 0 {
            self.lose_last_ball();
        }
    }

    /// A new game from level 1 with full lives.
    pub fn restart(&mut self)
        requires
            old(self).wf(),
        ensures
            final(self).wf(),
            final(self)@ == restart_spec(old(self)@),
    {
        self.score = 0;
        self.lives = MAX_LIVES;
        self.state = GameState::Ready;
        self.load_level(1);
    }

    /// The ball bounced off the paddle: the combo starts over.
    pub fn paddle_bounce(&mut self)
        requires
            old(self).wf(),
        ensures
            final(self).wf(),
            final(self)@ == push_sfx_spec(RulesModel { combo: 0, ..old(self)@ }, Sfx::Paddle),
    {
        self.combo = 0;
        self.push_sfx(Sfx::Paddle);
    }

    /// A caught power-up.
    pub fn apply_powerup(&mut self, kind: Powerup)
        requires
            old(self).wf(),
        ensures
            final(self).wf(),
            final(self)@ == apply_powerup_spec(old(self)@, kind),
    {
        self.push_sfx(Sfx::Pickup);
        if kind == Powerup::ExtraLife {
            self.lives = if self.lives + 1 <= MAX_STORED_LIVES {
                self.lives + 1
            } else {
                MAX_STORED_LIVES
            };
        }
    }

    /// Whether every brick is destroyed or unbreakable.
    pub fn level_is_clear(&self) -> (clear: bool)
        ensures
            clear == all_clear(self.bricks@),
    {
        let mut i: usize = 0;
        while i < self.bricks.len()
            invariant
                i <= self.bricks@.len(),
                forall|j: int|
                    0 <= j < i ==> !(#[trigger] self.bricks@[j]).alive
                        || self.bricks@[j].unbreakable,
            decreases self.bricks@.len() - i,
        {
            if self.bricks[i].alive && !self.bricks[i].unbreakable {
                return false;
            }
            i = i + 1;
        }
        true
    }

    /// The last breakable brick of the level fell.
    pub fn on_level_clear(&mut self)
        requires
            old(self).wf(),
        ensures
            final(self).wf(),
            final(self)@ == on_level_clear_spec(old(self)@),
    {
        self.combo = 0;
        if self.level >= MAX_LEVEL {
            self.state = GameState::Win;
            self.push_sfx(Sfx::Win);
        } else {
            self.load_level(self.level + 1);
            self.state = GameState::Ready;
        }
    }

    fn hit(&mut self, bi: usize) -> (res: (HitKind, Option<Powerup>))
        requires
            old(self).wf(),
            score_has_room(old(self)@, bi as int),
        ensures
            final(self).wf(),
            (final(self)@, res.0, res.1) == hit_spec(old(self)@, bi as int),
    {
        if bi >= self.bricks.len() || !self.bricks[bi].alive {
            return (HitKind::Ignored, None);
        }
        if self.bricks[bi].unbreakable {
            self.push_sfx(Sfx::Wall);
            return (HitKind::Unbreakable, None);
        }
        let b = self.bricks[bi];
        let hp: u8 = if b.hp > 0 {
            b.hp - 1
        } else {
            0
        };
        self.combo = if self.combo + 1 <= MAX_COMBO {
            self.combo + 1
        } else {
            MAX_COMBO
        };
        if hp == 0 {
            self.bricks[bi] = BrickCell { hp: 0, alive: false, ..b };
            self.score = self.score + DESTROY_POINTS * self.combo;
            let drop = self.maybe_drop();
            self.push_sfx(Sfx::Shatter);
            (HitKind::Destroyed, drop)
        } else {
            self.bricks[bi] = BrickCell { hp, ..b };
            self.score = self.score + CRACK_POINTS * self.combo;
            self.push_sfx(Sfx::Brick);
            (HitKind::Cracked, None)
        }
    }

    /// Damages brick `bi` (a ball or a laser hit it).
    pub fn damage_brick(&mut self, bi: usize) -> (hit: BrickHit)
        requires
            old(self).wf(),
            score_has_room(old(self)@, bi as int),
        ensures
            final(self).wf(),
            (final(self)@, hit) == damage_spec(old(self)@, bi as int),
    {
        let (kind, drop) = self.hit(bi);
        if (kind == HitKind::Cracked || kind == HitKind::Destroyed) && self.level_is_clear() {
            self.on_level_clear();
            BrickHit { kind, drop, cleared: true }
        } else {
            BrickHit { kind, drop, cleared: false }
        }
    }
}


/// Only a restart takes points away: damaging bricks, losing a ball, catching
/// a power-up, toggling practice mode, jumping to a level, launching and
/// bouncing off the paddle all keep or raise the score.
pub proof fn lemma_score_never_drops(m: RulesModel, bi: int, kind: Powerup, level: u32)
    requires
        model_wf(m),
        score_has_room(m, bi),
    ensures
        damage_spec(m, bi).0.score >= m.score,
        lose_last_ball_spec(m).score == m.score,
        apply_powerup_spec(m, kind).score == m.score,
        toggle_immortal_spec(m).score == m.score,
        load_level_spec(m, level).score == m.score,
        on_level_clear_spec(m).score == m.score,
        restart_spec(m).score == 0,
{
}

/// Jumping to a level keeps the score, the lives and practice mode; the level
/// (kept within 1..=MAX_LEVEL), its bricks and the combo start over, and the
/// ball waits on the paddle.
pub proof fn lemma_goto_level_keeps_progress(m: RulesModel, level: u32)
    requires
        model_wf(m),
    ensures
        ({
            let n = RulesModel { state: GameState::Ready, ..load_level_spec(m, level) };
            &&& n.score == m.score
            &&& n.lives == m.lives
            &&& n.immortal == m.immortal
            &&& n.level == clamp_level(level)
            &&& 1 <= n.level <= MAX_LEVEL
            &&& n.combo == 0
            &&& n.bricks == spec_level_layout(n.level)
            &&& n.state == GameState::Ready
            &&& model_wf(n)
        }),
{
}

/// Catching an extra life adds exactly one life, up to `MAX_STORED_LIVES`;
/// no other power-up changes the lives, and none touches the score, level,
/// combo, bricks, state or generator.
pub proof fn lemma_extra_life_adds_one(m: RulesModel, kind: Powerup)
    requires
        model_wf(m),
    ensures
        m.lives < MAX_STORED_LIVES ==> apply_powerup_spec(m, Powerup::ExtraLife).lives == m.lives
            + 1,
        m.lives == MAX_STORED_LIVES ==> apply_powerup_spec(m, Powerup::ExtraLife).lives
            == MAX_STORED_LIVES,
        kind != Powerup::ExtraLife ==> apply_powerup_spec(m, kind).lives == m.lives,
        apply_powerup_spec(m, kind).score == m.score,
        apply_powerup_spec(m, kind).level == m.level,
        apply_powerup_spec(m, kind).combo == m.combo,
        apply_powerup_spec(m, kind).bricks == m.bricks,
        apply_powerup_spec(m, kind).state == m.state,
        apply_powerup_spec(m, kind).rng_state == m.rng_state,
{
}

/// A hit that breaks a brick (a living breakable brick with one hit point
/// left) draws from the generator: with `s1` its next state, a power-up falls
/// exactly when the top 24 bits of `s1` are at most 4697620 (28% of 2^24);
/// its kind comes from the top 24 bits of the state after `s1` by the
/// published split (12% extra life, 18% multiball, 16% expand, 16% laser,
/// 18% pierce, 20% slow), and the generator ends one or two steps on. A hit
/// that only cracks a brick drops nothing and leaves the generator alone.
pub proof fn lemma_broken_brick_drop(m: RulesModel, bi: int)
    requires
        model_wf(m),
        score_has_room(m, bi),
        0 <= bi < m.bricks.len(),
        m.bricks[bi].alive,
        !m.bricks[bi].unbreakable,
    ensures
        ({
            let s1 = xorshift32(m.rng_state);
            let s2 = xorshift32(s1);
            let k1 = s1 / 256;
            let k2 = s2 / 256;
            let (m1, hit) = damage_spec(m, bi);
            &&& m.bricks[bi].hp <= 1 ==> {
                &&& hit.kind == HitKind::Destroyed
                &&& !hit_spec(m, bi).0.bricks[bi].alive
                &&& (hit.drop is Some) == (k1 <= 4697620)
                &&& k1 <= 4697620 ==> m1.rng_state == s2
                &&& k1 > 4697620 ==> m1.rng_state == s1
                &&& k1 <= 4697620 && k2 < 2013266 ==> hit.drop == Some(Powerup::ExtraLife)
                &&& k1 <= 4697620 && 2013266 <= k2 < 5033165 ==> hit.drop == Some(
                    Powerup::Multiball,
                )
                &&& k1 <= 4697620 && 5033165 <= k2 < 7717520 ==> hit.drop == Some(Powerup::Expand)
                &&& k1 <= 4697620 && 7717520 <= k2 < 10401874 ==> hit.drop == Some(Powerup::Laser)
                &&& k1 <= 4697620 && 10401874 <= k2 < 13421773 ==> hit.drop == Some(
                    Powerup::Pierce,
                )
                &&& k1 <= 4697620 && 13421773 <= k2 ==> hit.drop == Some(Powerup::Slow)
            }
            &&& m.bricks[bi].hp > 1 ==> {
                &&& hit.kind == HitKind::Cracked
                &&& hit.drop is None
                &&& m1.rng_state == m.rng_state
                &&& hit_spec(m, bi).0.bricks[bi].hp == m.bricks[bi].hp - 1
            }
        }),
{
}

/// A restart is a fresh game: level 1 with its layout, full lives, no score,
/// no combo, ready to launch, whatever level or state the old game was in.
/// Only practice mode, the generator and the sound queue carry over, and
/// restarting after a level jump is the same as restarting without it.
pub proof fn lemma_restart_is_fresh_game(m: RulesModel, level: u32)
    requires
        model_wf(m),
    ensures
        restart_spec(m).level == 1,
        restart_spec(m).bricks == spec_level_layout(1),
        restart_spec(m).lives == MAX_LIVES,
        restart_spec(m).score == 0,
        restart_spec(m).combo == 0,
        restart_spec(m).state == GameState::Ready,
        (RulesModel {
            immortal: false,
            rng_state: RNG_SEED,
            sfx: Seq::empty(),
            ..restart_spec(m)
        }) == new_spec(),
        restart_spec(load_level_spec(m, level)) == restart_spec(m),
{
}

/// Practice mode flips on each toggle and touches nothing else, except that
/// turning it on after a lost game revives that game: ready to launch, with at
/// least one life. Toggling twice outside a lost game changes nothing.
pub proof fn lemma_toggle_practice(m: RulesModel)
    requires
        model_wf(m),
    ensures
        toggle_immortal_spec(m).immortal == !m.immortal,
        toggle_immortal_spec(m).score == m.score,
        toggle_immortal_spec(m).level == m.level,
        toggle_immortal_spec(m).bricks == m.bricks,
        !m.immortal && m.state == GameState::GameOver ==> toggle_immortal_spec(m).state
            == GameState::Ready && toggle_immortal_spec(m).lives >= 1 && (m.lives > 0
            ==> toggle_immortal_spec(m).lives == m.lives),
        !(!m.immortal && m.state == GameState::GameOver) ==> toggle_immortal_spec(m).state
            == m.state && toggle_immortal_spec(m).lives == m.lives,
        m.state != GameState::GameOver ==> toggle_immortal_spec(toggle_immortal_spec(m)) == m,
{
}

/// A hit on a breakable brick raises the combo by one, up to eight, and scores
/// ten points per combo step when the brick breaks, three otherwise; a paddle
/// bounce and a new level start the combo over.
pub proof fn lemma_combo_rule(m: RulesModel, bi: int)
    requires
        model_wf(m),
        score_has_room(m, bi),
        0 <= bi < m.bricks.len(),
        m.bricks[bi].alive,
        !m.bricks[bi].unbreakable,
    ensures
        ({
            let (m1, kind, drop) = hit_spec(m, bi);
            &&& m1.combo == next_combo(m.combo)
            &&& m1.combo <= MAX_COMBO
            &&& kind == HitKind::Destroyed ==> m1.score == m.score + DESTROY_POINTS * m1.combo
            &&& kind == HitKind::Cracked ==> m1.score == m.score + CRACK_POINTS * m1.combo
        }),
        on_level_clear_spec(m).combo == 0,
        load_level_spec(m, 1).combo == 0,
{
}

/// The game is over exactly when the lost ball was the last life.
pub proof fn lemma_game_over_iff_no_lives(m: RulesModel)
    requires
        model_wf(m),
    ensures
        (lose_last_ball_spec(m).state == GameState::GameOver) == (m.lives <= 1),
        lose_last_ball_spec(m).lives == if m.lives > 0 {
            m.lives - 1
        } else {
            0
        },
{
}

/// Clearing a level starts the next one, ready to launch; clearing the last one wins.
pub proof fn lemma_level_progression(m: RulesModel)
    requires
        model_wf(m),
    ensures
        m.level < MAX_LEVEL ==> {
            let n = on_level_clear_spec(m);
            &&& n.state == GameState::Ready
            &&& n.level == m.level + 1
            &&& n.bricks == spec_level_layout((m.level + 1) as u32)
        },
        m.level >= MAX_LEVEL ==> on_level_clear_spec(m).state == GameState::Win,
{
}

/// A hit never changes an unbreakable brick nor revives a destroyed one, and
/// touches no brick but the one it hits.
pub proof fn lemma_hit_keeps_other_bricks(m: RulesModel, bi: int, j: int)
    requires
        model_wf(m),
        score_has_room(m, bi),
        0 <= j < m.bricks.len(),
    ensures
        hit_spec(m, bi).0.bricks.len() == m.bricks.len(),
        (j != bi || m.bricks[j].unbreakable || !m.bricks[j].alive) ==> hit_spec(
            m,
            bi,
        ).0.bricks[j] == m.bricks[j],
        j == bi && m.bricks[j].alive && !m.bricks[j].unbreakable ==> hit_spec(
            m,
            bi,
        ).0.bricks[j].hp < m.bricks[j].hp || m.bricks[j].hp == 0,
{
}

/// Loaded layouts reach every non-empty cell up to `n`: once the cell of
/// index `i` is breakable, the layout holds a living breakable brick.
proof fn lemma_layout_holds_breakable(level: u32, i: nat, n: nat)
    requires
        i < n,
        ({
            let c = spec_level_cell(level, i as int / 32, i as int % 32);
            c != 0 && c != 9
        }),
    ensures
        exists|j: int|
            0 <= j < layout_upto(level, n).len() && (#[trigger] layout_upto(level, n)[j]).alive
                && !layout_upto(level, n)[j].unbreakable,
    decreases n,
{
    if n == i + 1 {
        let s = layout_upto(level, n);
        assert(s[s.len() - 1] == brick_of((i as int / 32) as usize, (i as int % 32) as usize, spec_level_cell(level, i as int / 32, i as int % 32)));
        assert(s[s.len() - 1].alive);
    } else {
        lemma_layout_holds_breakable(level, i, (n - 1) as nat);
        let prev = layout_upto(level, (n - 1) as nat);
        let j = choose|j: int| 0 <= j < prev.len() && (#[trigger] prev[j]).alive && !prev[j].unbreakable;
        assert(layout_upto(level, n)[j] == prev[j]);
    }
}

/// A freshly loaded level is never already cleared.
pub proof fn lemma_new_level_not_clear(m: RulesModel, level: u32)
    ensures
        !all_clear(load_level_spec(m, level).bricks),
{
    let lv = clamp_level(level);
    assert(spec_level_cell(lv, 656int / 32, 656int % 32) == 1);
    lemma_layout_holds_breakable(lv, 656, 704);
    let s = spec_level_layout(lv);
    let j = choose|j: int| 0 <= j < s.len() && (#[trigger] s[j]).alive && !s[j].unbreakable;
    assert(!(!s[j].alive || s[j].unbreakable));
}

/// How many balls a multiball power-up adds to `balls` balls in play: up to
/// three, never past `MAX_BALLS`, and none when no ball is in play.
pub open spec fn multiball_spawns_spec(balls: int) -> int {
    if balls == 0 || balls >= MAX_BALLS {
        0
    } else {
        MAX_BALLS - balls
    }
}

/// What happens to a ball at the bottom of the field.
#[derive(Clone, Copy, Debug, PartialEq, Eq, Structural)]
pub enum BottomAction {
    /// The ball is above the floor line: nothing happens.
    Keep,
    /// Practice mode: the ball bounces back up.
    Bounce,
    /// The ball has fallen past the edge and leaves play.
    Remove,
}

/// Below the floor line a ball bounces back in practice mode; otherwise it
/// leaves play once it is past the edge.
pub open spec fn bottom_action_spec(immortal: bool, below_floor: bool, past_edge: bool) -> BottomAction {
    if !below_floor {
        BottomAction::Keep
    } else if immortal {
        BottomAction::Bounce
    } else if past_edge {
        BottomAction::Remove
    } else {
        BottomAction::Keep
    }
}

/// The fate of a ball that is `below_floor` (past the floor line) and maybe
/// `past_edge` (fully out of the field).
pub fn bottom_action(immortal: bool, below_floor: bool, past_edge: bool) -> (a: BottomAction)
    ensures
        a == bottom_action_spec(immortal, below_floor, past_edge),
{
    if !below_floor {
        BottomAction::Keep
    } else if immortal {
        BottomAction::Bounce
    } else if past_edge {
        BottomAction::Remove
    } else {
        BottomAction::Keep
    }
}

/// The end of a step: a running game with no ball left loses its last ball.
pub open spec fn balls_gone_spec(m: RulesModel, balls_left: int) -> RulesModel {
    if m.state == GameState::Playing && balls_left == 0 {
        lose_last_ball_spec(m)
    } else {
        m
    }
}

/// Practice mode cannot be lost: a ball at the bottom bounces back instead of
/// leaving play, and a step that ends with a ball in play changes nothing, so
/// no life is lost and the game does not end.
pub proof fn lemma_practice_cannot_lose(m: RulesModel, below_floor: bool, past_edge: bool, balls_left: int)
    requires
        model_wf(m),
        balls_left > 0,
    ensures
        bottom_action_spec(true, below_floor, past_edge) != BottomAction::Remove,
        balls_gone_spec(m, balls_left) == m,
{
}

/// For each ball a multiball power-up adds, the index of the ball it starts
/// from: the `k`-th new ball copies ball `k % balls`.
pub fn multiball_sources(balls: usize) -> (src: Vec<usize>)
    ensures
        src@.len() == multiball_spawns_spec(balls as int),
        forall|k: int| 0 <= k < src@.len() ==> #[trigger] src@[k] == k % (balls as int),
        forall|k: int| 0 <= k < src@.len() ==> #[trigger] src@[k] < balls,
{
    let mut src: Vec<usize> = Vec::new();
    if balls == 0 {
        return src;
    }
    let mut k: usize = 0;
    while k < 3
        invariant
            balls > 0,
            k <= 3,
            src@.len() == k,
            k > 0 ==> balls + k <= MAX_BALLS,
            forall|i: int| 0 <= i < k ==> #[trigger] src@[i] == i % (balls as int),
        ensures
            src@.len() == multiball_spawns_spec(balls as int),
            forall|i: int| 0 <= i < src@.len() ==> #[trigger] src@[i] == i % (balls as int),
        decreases 3 - k,
    {
        if balls + k >= MAX_BALLS {
            break;
        }
        src.push(k % balls);
        k = k + 1;
    }
    src
}

/// A multiball never brings more than `MAX_BALLS` balls into play.
pub proof fn lemma_multiball_cap(balls: int)
    requires
        0 <= balls,
    ensures
        balls <= MAX_BALLS ==> balls + multiball_spawns_spec(balls) <= MAX_BALLS,
        0 < balls < MAX_BALLS ==> balls + multiball_spawns_spec(balls) == MAX_BALLS,
{
}

} // verus!
