use vstd::prelude::*;
use crate::countdown::{spec_tick, to_counter, wrap_i32};

verus! {

/// Counters of one round.
#[derive(Clone, Copy, Debug, PartialEq, Eq, Structural)]
pub struct Stats {
    pub bullets_fired: usize,
    pub timesteps: usize,
    pub bullet_hits: usize,
    pub destroyed_asteroids: usize,
    pub destroyed_opponents: usize,
    pub destroyed_allies: usize,
}

/// The counters at the start of a round: all zero.
pub open spec fn fresh_stats() -> Stats {
    Stats {
        bullets_fired: 0,
        timesteps: 0,
        bullet_hits: 0,
        destroyed_asteroids: 0,
        destroyed_opponents: 0,
        destroyed_allies: 0,
    }
}

impl Default for Stats {
    fn default() -> (r: Self)
        ensures
            r == fresh_stats(),
    {
        Stats {
            bullets_fired: 0,
            timesteps: 0,
            bullet_hits: 0,
            destroyed_asteroids: 0,
            destroyed_opponents: 0,
            destroyed_allies: 0,
        }
    }
}

impl Stats {
    /// Player 0 earns a point for every destroyed asteroid and opponent.
    pub open spec fn spec_player0_points(&self) -> int {
        self.destroyed_asteroids + self.destroyed_opponents
    }

    pub fn player0_points(&self) -> (r: usize)
        requires
            self.spec_player0_points() <= usize::MAX,
        ensures
            r == self.spec_player0_points(),
    {
        self.destroyed_asteroids + self.destroyed_opponents
    }

    /// Counts the frames that passed in one step of the game.
    pub fn advance_time(&mut self, frameskip: u32)
        requires
            old(self).timesteps + frameskip <= usize::MAX,
        ensures
            *final(self) == (Stats { timesteps: (old(self).timesteps + frameskip) as usize, ..*old(self) }),
    {
        self.timesteps = self.timesteps + frameskip as usize;
    }
}

/// The best score shown next to the current one.
#[derive(Clone, Copy, Debug, PartialEq, Eq, Structural)]
pub struct Highscore {
    pub best: u32,
}

/// The best score once `score` has been reached.
pub open spec fn spec_best(best: u32, score: u32) -> u32 {
    if best >= score {
        best
    } else {
        score
    }
}

impl Highscore {
    pub fn new() -> (r: Highscore)
        ensures
            r.best == 0,
    {
        Highscore { best: 0 }
    }

    /// Takes the current score into account; the best score is the larger
    /// of the two.
    pub fn record(&mut self, score: u32)
        ensures
            final(self).best == spec_best(old(self).best, score),
    {
        if score > self.best {
            self.best = score;
        }
    }
}

/// Frames left in the current round.
#[derive(Clone, Copy, Debug, PartialEq, Eq, Structural)]
pub struct GameClock {
    pub remaining: i32,
}

impl GameClock {
    /// A round of `max_game_length` frames.
    pub fn new(max_game_length: u32) -> (r: GameClock)
        ensures
            r.remaining == wrap_i32(max_game_length),
    {
        GameClock { remaining: to_counter(max_game_length) }
    }

    /// Lets `frameskip` frames pass; true when the round is over, that is,
    /// when no time remains.
    pub fn tick(&mut self, frameskip: u32) -> (game_over: bool)
        requires
            i32::MIN <= old(self).remaining - wrap_i32(frameskip) <= i32::MAX,
        ensures
            (final(self).remaining as int, game_over) == spec_tick(old(self).remaining as int, wrap_i32(frameskip)),
    {
        self.remaining = self.remaining - to_counter(frameskip);
        self.remaining <= 0
    }
}

} // verus!
