use vstd::prelude::*;
use crate::settings::Settings;
use crate::stats::{GameClock, Stats, fresh_stats};
use crate::countdown::{to_counter, wrap_i32};

verus! {

/// The fighters of one player and the respawns it waits for.
#[derive(Clone, Debug)]
pub struct Player {
    /// Identifiers of the player's fighters that are in the game.
    pub ids: Vec<u64>,
    /// Frames until each pending respawn.
    pub respawns: Vec<i32>,
}

/// A player as a pair of sequences.
pub struct PlayerView {
    pub ids: Seq<u64>,
    pub respawns: Seq<i32>,
}

impl View for Player {
    type V = PlayerView;

    open spec fn view(&self) -> PlayerView {
        PlayerView { ids: self.ids@, respawns: self.respawns@ }
    }
}

/// The players as a sequence of views.
pub open spec fn players_view(ps: Seq<Player>) -> Seq<PlayerView> {
    Seq::new(ps.len(), |i: int| ps[i]@)
}

/// Every count that a step of `frameskip` frames lowers stays within the
/// counters' range: a count is lowered when all counts before it stay above
/// zero.
pub open spec fn tick_fits(q: Seq<i32>, frameskip: int) -> bool {
    forall|j: int|
        0 <= j < q.len() && (forall|i: int| 0 <= i < j ==> q[i] - frameskip > 0) ==> i32::MIN <= #[trigger] q[j]
            - frameskip <= i32::MAX
}

/// `k` is the first respawn in `q` that is due once `frameskip` more frames
/// have passed.
pub open spec fn first_due(q: Seq<i32>, frameskip: int, k: int) -> bool {
    &&& 0 <= k < q.len()
    &&& q[k] - frameskip <= 0
    &&& forall|j: int| 0 <= j < k ==> #[trigger] q[j] - frameskip > 0
}

/// How the respawn queue changes when `frameskip` frames pass, and whether a
/// fighter is spawned: the counts are lowered one after the other, and the
/// first respawn that becomes due leaves the queue and spawns a fighter;
/// the respawns behind it keep their counts until the next step.
pub open spec fn spec_tick_respawns(q: Seq<i32>, frameskip: int) -> (Seq<i32>, bool) {
    if exists|k: int| first_due(q, frameskip, k) {
        let k = choose|k: int| first_due(q, frameskip, k);
        (Seq::new(k as nat, |i: int| (q[i] - frameskip) as i32) + q.subrange(k + 1, q.len() as int), true)
    } else {
        (Seq::new(q.len(), |i: int| (q[i] - frameskip) as i32), false)
    }
}

/// The number of fighters that player `index` should have, alive or
/// waiting to respawn: player 0 has one; every opponent starts with one and
/// gets one more each `difficulty_ramp` frames.
pub open spec fn spec_target_fighters(index: int, timesteps: int, difficulty_ramp: int) -> int {
    if index == 0 {
        1
    } else {
        1 + timesteps / difficulty_ramp
    }
}

pub fn target_fighter_count(index: usize, timesteps: usize, difficulty_ramp: u32) -> (r: usize)
    requires
        index > 0 ==> difficulty_ramp > 0,
        index > 0 ==> (timesteps as int) / (difficulty_ramp as int) < usize::MAX,
    ensures
        r == spec_target_fighters(index as int, timesteps as int, difficulty_ramp as int),
{
    if index == 0 {
        1
    } else {
        let per: usize = timesteps / (difficulty_ramp as usize);
        1 + per
    }
}

impl Player {
    /// A player without fighters.
    pub fn new() -> (r: Player)
        ensures
            r@.ids == Seq::<u64>::empty(),
            r@.respawns == Seq::<i32>::empty(),
    {
        Player { ids: Vec::new(), respawns: Vec::new() }
    }

    /// A newly spawned fighter joins the player.
    pub fn add_fighter(&mut self, id: u64)
        ensures
            final(self)@.ids == old(self)@.ids.push(id),
            final(self)@.respawns == old(self)@.respawns,
    {
        self.ids.push(id);
    }

    /// The player loses all its fighters and pending respawns.
    pub fn clear(&mut self)
        ensures
            final(self)@.ids == Seq::<u64>::empty(),
            final(self)@.respawns == Seq::<i32>::empty(),
    {
        self.ids.clear();
        self.respawns.clear();
    }

    /// Queues a respawn of `respawn_time` frames (read as a signed counter)
    /// when the player has fewer fighters, alive or pending, than `target`;
    /// true when it did.
    pub fn schedule_respawn(&mut self, target: usize, respawn_time: u32) -> (queued: bool)
        requires
            old(self)@.ids.len() + old(self)@.respawns.len() <= usize::MAX,
        ensures
            queued == (old(self)@.ids.len() + old(self)@.respawns.len() < target),
            final(self)@.ids == old(self)@.ids,
            final(self)@.respawns == if queued {
                old(self)@.respawns.push(wrap_i32(respawn_time) as i32)
            } else {
                old(self)@.respawns
            },
    {
        if self.ids.len() + self.respawns.len() < target {
            self.respawns.push(to_counter(respawn_time));
            true
        } else {
            false
        }
    }

    /// Lets `frameskip` frames (read as a signed counter) pass for the
    /// pending respawns; true when a fighter is to be spawned now.
    pub fn tick_respawns(&mut self, frameskip: u32) -> (spawn: bool)
        requires
            tick_fits(old(self)@.respawns, wrap_i32(frameskip)),
        ensures
            final(self)@.ids == old(self)@.ids,
            (final(self)@.respawns, spawn) == spec_tick_respawns(old(self)@.respawns, wrap_i32(frameskip)),
    {
        let ghost q = self.respawns@;
                let frames = to_counter(frameskip);
        let n = self.respawns.len();
        let mut j: usize = 0;
        while j < n
            invariant
                n == q.len(),
                j <= n,
                wrap_i32(frameskip) == frames,
                tick_fits(q, wrap_i32(frameskip)),
                self.ids@ == old(self).ids@,
                q == old(self).respawns@,
                self.respawns@.len() == n,
                forall|i: int| 0 <= i < j ==> #[trigger] q[i] - wrap_i32(frameskip) > 0,
                forall|i: int| 0 <= i < j ==> self.respawns@[i] == #[trigger] q[i] - wrap_i32(frameskip),
                forall|i: int| j <= i < n ==> self.respawns@[i] == #[trigger] q[i],
            decreases n - j,
        {
            assert(i32::MIN <= q[j as int] - wrap_i32(frameskip) <= i32::MAX);
            let v = self.respawns[j] - frames;
            self.respawns.set(j, v);
            if v <= 0 {
                let _ = self.respawns.remove(j);
                proof {
                    assert(first_due(q, wrap_i32(frameskip), j as int));
                    let k = choose|k: int| first_due(q, wrap_i32(frameskip), k);
                    assert(k == j) by {
                        if k < j {
                            assert(q[k] - wrap_i32(frameskip) > 0);
                        } else if k > j {
                            assert(q[j as int] - wrap_i32(frameskip) > 0);
                        }
                    }
                    let expected = Seq::new(j as nat, |i: int| (q[i] - wrap_i32(frameskip)) as i32) + q.subrange(
                        j + 1,
                        q.len() as int,
                    );
                    assert(self.respawns@ =~= expected);
                }
                return true;
            }
            j = j + 1;
        }
        proof {
            assert(!exists|k: int| first_due(q, wrap_i32(frameskip), k)) by {
                if exists|k: int| first_due(q, wrap_i32(frameskip), k) {
                    let k = choose|k: int| first_due(q, wrap_i32(frameskip), k);
                    assert(q[k] - wrap_i32(frameskip) > 0);
                }
            }
            assert(self.respawns@ =~= Seq::new(q.len(), |i: int| (q[i] - wrap_i32(frameskip)) as i32));
        }
        false
    }
}

/// The respawn queue of player `index` once a respawn is queued for it
/// when it is short of fighters.
pub open spec fn queued_respawns(p: PlayerView, index: int, timesteps: int, s: Settings) -> Seq<i32> {
    if p.ids.len() + p.respawns.len() < spec_target_fighters(index, timesteps, s.difficulty_ramp as int) {
        p.respawns.push(wrap_i32(s.respawn_time) as i32)
    } else {
        p.respawns
    }
}

/// One respawn step of player `index`: queue a respawn when it is short of
/// fighters, then count the pending respawns down.
pub open spec fn spec_respawn_player(
    p: PlayerView,
    index: int,
    timesteps: int,
    s: Settings,
) -> (PlayerView, bool) {
    let (q2, spawn) = spec_tick_respawns(queued_respawns(p, index, timesteps, s), wrap_i32(s.frameskip));
    (PlayerView { ids: p.ids, respawns: q2 }, spawn)
}

/// The respawn step stays within the counters' range: the opponents'
/// target counts can be computed, and no count that is lowered leaves its
/// range.
pub open spec fn respawn_fits(ps: Seq<Player>, timesteps: int, s: Settings) -> bool {
    &&& ps.len() > 1 ==> s.difficulty_ramp > 0
    &&& ps.len() > 1 ==> timesteps / (s.difficulty_ramp as int) < usize::MAX
    &&& forall|i: int| 0 <= i < ps.len() ==> #[trigger] ps[i]@.ids.len() + ps[i]@.respawns.len() < usize::MAX
    &&& forall|i: int|
        0 <= i < ps.len() ==> tick_fits(
            #[trigger] queued_respawns(ps[i]@, i, timesteps, s),
            wrap_i32(s.frameskip),
        )
}

/// One step of respawning for every player, in order; the result tells for
/// each player whether one of its fighters is to be spawned now.
pub fn respawn_players(players: &mut Vec<Player>, timesteps: usize, settings: &Settings) -> (spawns: Vec<bool>)
    requires
        respawn_fits(old(players)@, timesteps as int, *settings),
    ensures
        final(players)@.len() == old(players)@.len(),
        spawns@.len() == old(players)@.len(),
        forall|i: int|
            0 <= i < old(players)@.len() ==> (#[trigger] final(players)@[i]@, spawns@[i])
                == spec_respawn_player(old(players)@[i]@, i, timesteps as int, *settings),
{
    let mut spawns: Vec<bool> = Vec::new();
    let n = players.len();
    let mut i: usize = 0;
    while i < n
        invariant
            n == old(players)@.len(),
            players@.len() == n,
            i <= n,
            spawns@.len() == i,
            respawn_fits(old(players)@, timesteps as int, *settings),
            forall|k: int| i <= k < n ==> #[trigger] players@[k] == old(players)@[k],
            forall|k: int|
                0 <= k < i ==> (#[trigger] players@[k]@, spawns@[k])
                    == spec_respawn_player(old(players)@[k]@, k, timesteps as int, *settings),
        decreases n - i,
    {
        assert(players@[i as int] == old(players)@[i as int]);
        assert(old(players)@[i as int]@.ids.len() + old(players)@[i as int]@.respawns.len() < usize::MAX);
        assert(tick_fits(
            queued_respawns(old(players)@[i as int]@, i as int, timesteps as int, *settings),
            wrap_i32(settings.frameskip),
        ));
        let target = target_fighter_count(i, timesteps, settings.difficulty_ramp);
        let p = &mut players[i];
        p.schedule_respawn(target, settings.respawn_time);
        let spawn = p.tick_respawns(settings.frameskip);
        spawns.push(spawn);
        i = i + 1;
    }
    spawns
}

/// Whether the counts of `q`, followed by `extra` when given, can be
/// lowered by `frames` one step without leaving their range.
fn queue_tick_fits(q: &Vec<i32>, extra: Option<i32>, frames: i32) -> (r: bool)
    ensures
        r == tick_fits(
            match extra {
                Some(e) => q@.push(e),
                None => q@,
            },
            frames as int,
        ),
{
    let ghost all = match extra {
        Some(e) => q@.push(e),
        None => q@,
    };
    let ghost f = frames as int;
    let n = q.len();
    let mut j: usize = 0;
    while j < n
        invariant
            n == q@.len(),
            j <= n,
            all == match extra {
                Some(e) => q@.push(e),
                None => q@,
            },
            f == frames,
            forall|i: int| 0 <= i < j ==> #[trigger] all[i] - f > 0 && all[i] - f <= i32::MAX,
        decreases n - j,
    {
        let d: i64 = q[j] as i64 - frames as i64;
        if d < i32::MIN as i64 || d > i32::MAX as i64 {
            proof {
                assert(all[j as int] - f == d);
                assert(forall|i: int| 0 <= i < j ==> all[i] - f > 0);
                if tick_fits(all, f) {
                    assert(i32::MIN <= all[j as int] - f <= i32::MAX);
                }
            }
            return false;
        }
        if d <= 0 {
            proof {
                assert forall|k: int|
                    0 <= k < all.len() && (forall|i: int| 0 <= i < k ==> all[i] - f > 0) implies i32::MIN <= #[trigger] all[k]
                    - f <= i32::MAX by {
                    if k > j {
                        assert(all[j as int] - f > 0);
                    }
                }
                assert(tick_fits(all, f));
            }
            return true;
        }
        j = j + 1;
    }
    match extra {
        Some(e) => {
            let d: i64 = e as i64 - frames as i64;
            proof {
                assert(all[n as int] == e);
            }
            d >= i32::MIN as i64 && d <= i32::MAX as i64
        },
        None => true,
    }
}

/// Whether one respawn step for these players stays within the counters'
/// range (`respawn_fits`), checked before the step.
pub fn respawn_step_fits(players: &Vec<Player>, timesteps: usize, settings: &Settings) -> (r: bool)
    ensures
        r == respawn_fits(players@, timesteps as int, *settings),
{
    let n = players.len();
    if n > 1 {
        if settings.difficulty_ramp == 0 {
            return false;
        }
        if timesteps / (settings.difficulty_ramp as usize) == usize::MAX {
            return false;
        }
    }
    let frames = to_counter(settings.frameskip);
    let mut i: usize = 0;
    while i < n
        invariant
            n == players@.len(),
            i <= n,
            frames == wrap_i32(settings.frameskip),
            n > 1 ==> settings.difficulty_ramp > 0,
            n > 1 ==> (timesteps as int) / (settings.difficulty_ramp as int) < usize::MAX,
            forall|k: int| 0 <= k < i ==> #[trigger] players@[k]@.ids.len() + players@[k]@.respawns.len() < usize::MAX,
            forall|k: int|
                0 <= k < i ==> tick_fits(
                    #[trigger] queued_respawns(players@[k]@, k, timesteps as int, *settings),
                    wrap_i32(settings.frameskip),
                ),
        decreases n - i,
    {
        let p = &players[i];
        if p.respawns.len() >= usize::MAX - p.ids.len() {
            assert(players@[i as int]@.ids.len() + players@[i as int]@.respawns.len() >= usize::MAX);
            return false;
        }
        let target = target_fighter_count(i, timesteps, settings.difficulty_ramp);
        let extra = if p.ids.len() + p.respawns.len() < target {
            Some(to_counter(settings.respawn_time))
        } else {
            None
        };
        if !queue_tick_fits(&p.respawns, extra, frames) {
            proof {
                assert(queued_respawns(players@[i as int]@, i as int, timesteps as int, *settings) == match extra {
                    Some(e) => p.respawns@.push(e),
                    None => p.respawns@,
                });
            }
            return false;
        }
        proof {
            assert(queued_respawns(players@[i as int]@, i as int, timesteps as int, *settings) == match extra {
                Some(e) => p.respawns@.push(e),
                None => p.respawns@,
            });
        }
        i = i + 1;
    }
    true
}

/// `k` is the first player that has a fighter with identifier `id`.
pub open spec fn first_holder(ps: Seq<PlayerView>, id: u64, k: int) -> bool {
    &&& 0 <= k < ps.len()
    &&& ps[k].ids.contains(id)
    &&& forall|q: int| 0 <= q < k ==> !(#[trigger] ps[q].ids.contains(id))
}

/// `j` is the first position of `id` in `s`.
pub open spec fn first_position(s: Seq<u64>, id: u64, j: int) -> bool {
    &&& 0 <= j < s.len()
    &&& s[j] == id
    &&& forall|i: int| 0 <= i < j ==> #[trigger] s[i] != id
}

/// The players once fighter `id` is taken out of the game, and whether any
/// player had it: it leaves the first player that has it, at its first
/// position there.
pub open spec fn spec_remove_fighter(ps: Seq<PlayerView>, id: u64) -> (Seq<PlayerView>, bool) {
    if exists|k: int| first_holder(ps, id, k) {
        let k = choose|k: int| first_holder(ps, id, k);
        let j = choose|j: int| first_position(ps[k].ids, id, j);
        (ps.update(k, PlayerView { ids: ps[k].ids.remove(j), respawns: ps[k].respawns }), true)
    } else {
        (ps, false)
    }
}

/// Finds the first position of `id` among `ids`, if any.
fn position_of(ids: &Vec<u64>, id: u64) -> (r: Option<usize>)
    ensures
        match r {
            Some(j) => first_position(ids@, id, j as int),
            None => !ids@.contains(id),
        },
{
    let mut j: usize = 0;
    while j < ids.len()
        invariant
            j <= ids@.len(),
            forall|i: int| 0 <= i < j ==> #[trigger] ids@[i] != id,
        decreases ids@.len() - j,
    {
        if ids[j] == id {
            return Some(j);
        }
        j = j + 1;
    }
    None
}

/// Some player has fighter `id`.
pub open spec fn holds_fighter(ps: Seq<PlayerView>, id: u64) -> bool {
    exists|k: int| 0 <= k < ps.len() && #[trigger] ps[k].ids.contains(id)
}

/// Whether some player has fighter `id`.
pub fn has_fighter(players: &Vec<Player>, id: u64) -> (r: bool)
    ensures
        r == holds_fighter(players_view(players@), id),
{
    let ghost ps = players_view(players@);
    let n = players.len();
    let mut k: usize = 0;
    while k < n
        invariant
            n == players@.len(),
            k <= n,
            ps == players_view(players@),
            forall|q: int| 0 <= q < k ==> !(#[trigger] ps[q].ids.contains(id)),
        decreases n - k,
    {
        match position_of(&players[k].ids, id) {
            Some(j) => {
                assert(ps[k as int] == players@[k as int]@);
                assert(ps[k as int].ids[j as int] == id);
                assert(ps[k as int].ids.contains(id));
                return true;
            },
            None => {
                assert(!ps[k as int].ids.contains(id));
            },
        }
        k = k + 1;
    }
    false
}

/// Takes fighter `id` out of the game; true when a player had it.
pub fn remove_fighter(players: &mut Vec<Player>, id: u64) -> (found: bool)
    ensures
        (players_view(final(players)@), found) == spec_remove_fighter(players_view(old(players)@), id),
{
    let ghost ps = players_view(players@);
    let n = players.len();
    let mut k: usize = 0;
    while k < n
        invariant
            n == players@.len(),
            k <= n,
            players@ == old(players)@,
            ps == players_view(players@),
            forall|q: int| 0 <= q < k ==> !(#[trigger] ps[q].ids.contains(id)),
        decreases n - k,
    {
        match position_of(&players[k].ids, id) {
            Some(j) => {
                let p = &mut players[k];
                let _ = p.ids.remove(j);
                proof {
                    assert(ps[k as int] == old(players)@[k as int]@);
                    assert(first_holder(ps, id, k as int));
                    let k2 = choose|k2: int| first_holder(ps, id, k2);
                    assert(k2 == k) by {
                        if k2 < k {
                            assert(!ps[k2].ids.contains(id));
                        } else if k2 > k {
                            assert(!ps[k as int].ids.contains(id));
                        }
                    }
                    assert(first_position(ps[k as int].ids, id, j as int));
                    let j2 = choose|j2: int| first_position(ps[k as int].ids, id, j2);
                    assert(j2 == j) by {
                        if j2 < j {
                            assert(ps[k as int].ids[j2] != id);
                        } else if j2 > j {
                            assert(ps[k as int].ids[j as int] != id);
                        }
                    }
                    let expected = ps.update(
                        k as int,
                        PlayerView { ids: ps[k as int].ids.remove(j as int), respawns: ps[k as int].respawns },
                    );
                    assert(players_view(players@) =~= expected);
                }
                return true;
            },
            None => {
                assert(!ps[k as int].ids.contains(id));
            },
        }
        k = k + 1;
    }
    proof {
        assert(!exists|k2: int| first_holder(ps, id, k2));
    }
    false
}

/// The players when a new round starts: nobody has fighters or respawns.
pub open spec fn cleared_players(ps: Seq<Player>) -> bool {
    forall|i: int|
        0 <= i < ps.len() ==> #[trigger] ps[i]@.ids.len() == 0 && ps[i]@.respawns.len() == 0
}

/// Starts a new round: every player loses its fighters and respawns, the
/// counters go back to zero and the clock to the full round length.
pub fn reset_round(players: &mut Vec<Player>, stats: &mut Stats, clock: &mut GameClock, max_game_length: u32)
    ensures
        final(players)@.len() == old(players)@.len(),
        cleared_players(final(players)@),
        *final(stats) == fresh_stats(),
        final(clock).remaining == wrap_i32(max_game_length),
{
    let n = players.len();
    let mut i: usize = 0;
    while i < n
        invariant
            n == players@.len(),
            i <= n,
            forall|k: int| 0 <= k < i ==> #[trigger] players@[k]@.ids.len() == 0 && players@[k]@.respawns.len() == 0,
        decreases n - i,
    {
        players[i].clear();
        i = i + 1;
    }
    assert forall|k: int| 0 <= k < players@.len() implies #[trigger] players@[k]@.ids.len() == 0
        && players@[k]@.respawns.len() == 0 by {
        assert(players@[k]@.ids.len() == 0);
    }
    *stats = Stats::default();
    *clock = GameClock::new(max_game_length);
}

} // verus!
