//! The countable side of the tank battle: hit points, the living tanks of
//! each team and the sounds the battle asks for.
use crate::sfx::SfxQueue;
use crate::text::{battle_overlay, battle_overlay_spec};
use crate::types::Team;
use vstd::prelude::*;

verus! {

/// Hit points of a fresh tank.
pub const MAX_HP: i32 = 3;

/// Tanks each team starts with.
pub const TANKS_PER_TEAM: usize = 200;

/// Seed of the battle's random generator.
pub const BATTLE_RNG_SEED: u32 = 0xC0FF_EE11;

/// Seed of the tank particle generator.
pub const PARTICLE_RNG_SEED: u32 = 0xA11C_E5E5;

/// The CPU particle pool of the battle holds at most this many particles.
pub const MAX_PARTICLES: usize = 16384;

/// The team and hit points of one tank.
#[derive(Clone, Copy, Debug, PartialEq, Eq, Structural)]
pub struct TankStatus {
    pub team: Team,
    pub hp: i32,
}

impl TankStatus {
    /// A fresh tank of `team`.
    pub fn new(team: Team) -> (t: TankStatus)
        ensures
            t.team == team,
            t.hp == MAX_HP,
    {
        TankStatus { team, hp: MAX_HP }
    }

    /// Whether the tank still fights.
    pub fn alive(&self) -> (a: bool)
        ensures
            a == (self.hp > 0),
    {
        self.hp > 0
    }

    /// A shell hit a living tank: one hit point less; returns whether it was the last.
    pub fn hit(&mut self) -> (killed: bool)
        requires
            old(self).hp > 0,
        ensures
            final(self).hp == old(self).hp - 1,
            final(self).team == old(self).team,
            killed == (final(self).hp <= 0),
    {
        self.hp = self.hp - 1;
        self.hp <= 0
    }
}

/// Living tanks of `team` among the first `n` tanks.
pub open spec fn alive_count(tanks: Seq<TankStatus>, team: Team, n: nat) -> nat
    decreases n,
{
    if n == 0 || n > tanks.len() {
        0
    } else {
        alive_count(tanks, team, (n - 1) as nat) + if tanks[n - 1].team == team && tanks[n
            - 1].hp > 0 {
            1nat
        } else {
            0
        }
    }
}

proof fn lemma_alive_count_bound(tanks: Seq<TankStatus>, team: Team, n: nat)
    requires
        n <= tanks.len(),
    ensures
        alive_count(tanks, team, n) <= n,
    decreases n,
{
    if n > 0 {
        lemma_alive_count_bound(tanks, team, (n - 1) as nat);
    }
}

/// Whether a tank is a living member of `team`.
pub open spec fn alive_in(team: Team) -> spec_fn(TankStatus) -> bool {
    |t: TankStatus| t.team == team && t.hp > 0
}

proof fn lemma_alive_count_prefix(tanks: Seq<TankStatus>, team: Team, n: nat)
    requires
        n <= tanks.len(),
    ensures
        alive_count(tanks, team, n) == tanks.take(n as int).filter(alive_in(team)).len(),
    decreases n,
{
    if n > 0 {
        lemma_alive_count_prefix(tanks, team, (n - 1) as nat);
        let s = tanks.take(n as int);
        let p = alive_in(team);
        assert(s.drop_last() =~= tanks.take(n - 1));
        assert(s.last() == tanks[n - 1]);
        let sub = s.drop_last().filter(p);
        reveal(Seq::filter);
        assert(s.filter(p) == if p(s.last()) {
            sub.push(s.last())
        } else {
            sub
        });
        assert(p(s.last()) == (tanks[n - 1].team == team && tanks[n - 1].hp > 0));
    } else {
        assert(tanks.take(0) =~= Seq::<TankStatus>::empty());
        reveal(Seq::filter);
    }
}

/// A team's count is the number of its tanks with hit points left: every
/// living tank of the team counts once, and no other tank counts.
pub proof fn lemma_alive_count_is_living_members(tanks: Seq<TankStatus>, team: Team)
    ensures
        alive_count(tanks, team, tanks.len()) == tanks.filter(
            |t: TankStatus| t.team == team && t.hp > 0,
        ).len(),
        alive_count(tanks, team, tanks.len()) <= tanks.len(),
{
    lemma_alive_count_prefix(tanks, team, tanks.len());
    assert(tanks.take(tanks.len() as int) =~= tanks);
    assert(alive_in(team) == (|t: TankStatus| t.team == team && t.hp > 0));
    lemma_alive_count_bound(tanks, team, tanks.len());
}

/// The living tanks of each team: (green, steel).
pub fn alive_counts(tanks: &[TankStatus]) -> (c: (usize, usize))
    ensures
        c.0 == alive_count(tanks@, Team::Green, tanks@.len()),
        c.1 == alive_count(tanks@, Team::Steel, tanks@.len()),
{
    let mut g: usize = 0;
    let mut s: usize = 0;
    let mut i: usize = 0;
    while i < tanks.len()
        invariant
            i <= tanks@.len(),
            g == alive_count(tanks@, Team::Green, i as nat),
            s == alive_count(tanks@, Team::Steel, i as nat),
        decreases tanks@.len() - i,
    {
        proof {
            lemma_alive_count_bound(tanks@, Team::Green, i as nat);
            lemma_alive_count_bound(tanks@, Team::Steel, i as nat);
        }
        let t = tanks[i];
        if t.hp > 0 {
            match t.team {
                Team::Green => {
                    g = g + 1;
                },
                Team::Steel => {
                    s = s + 1;
                },
            }
        }
        i = i + 1;
    }
    (g, s)
}

/// Whether a shell of `shell_team`, fired by tank `shooter`, can hit tank
/// `index`: a living tank of the other team that did not fire it.
pub fn shell_can_hit(target: &TankStatus, index: usize, shell_team: Team, shooter: usize) -> (can: bool)
    ensures
        can == (target.hp > 0 && target.team != shell_team && index != shooter),
{
    target.hp > 0 && target.team != shell_team && index != shooter
}

/// The battle's score line for the current tanks.
pub fn refresh_overlay(tanks: &[TankStatus]) -> (s: String)
    ensures
        s@ == battle_overlay_spec(
            alive_count(tanks@, Team::Green, tanks@.len()),
            alive_count(tanks@, Team::Steel, tanks@.len()),
        ),
{
    let (g, t) = alive_counts(tanks);
    battle_overlay(g as u64, t as u64)
}

/// The battle's sound queue: at most two of a kind and ten in all per frame.
pub fn battle_sfx_queue() -> (q: SfxQueue)
    ensures
        q.wf(),
        q.items@.len() == 0,
        q.max_same == 2,
        q.max_len == 10,
{
    SfxQueue::new(2, 10)
}

} // verus!
