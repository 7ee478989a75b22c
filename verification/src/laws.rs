use vstd::prelude::*;
use crate::collision::{Body, CollisionResponse, HitOutcome, Side, mirror_response, spec_resolve_collision, spec_take_hit};
use crate::components::{ASTEROID_HEALTH, Fighter, count_true, spec_spawn_fighter, spec_asteroids_to_spawn, spec_cool_down, spec_act, spec_perform_action};
use crate::collision::{room_for_hit, spec_bullet_hits_asteroid};
use crate::countdown::{used_up_at, lemma_used_up_at, wrap_i32};
use crate::act::{FighterAction, PressedKeys, Shoot, Thrust, Turn, frame_as_u32, spec_quarter_steps, is_active, spec_is_action_tick, spec_keyboard_command, spec_keys_to_action};
use crate::players::{PlayerView, first_holder, first_position, holds_fighter, queued_respawns, spec_remove_fighter, spec_respawn_player, spec_target_fighters, spec_tick_respawns, first_due};
use crate::agents::{AgentSource, spec_plan_agents, spec_policy_recipients};
use crate::random::spec_edge_of;
use crate::settings::Settings;
use crate::stats::{Stats, spec_best};

verus! {

/// Swapping the two bodies of a collision swaps the roles in the response:
/// the rules do not depend on the order in which the engine reports them.
pub proof fn law_collision_symmetric(a: Body, b: Body)
    ensures
        spec_resolve_collision(b, a) == mirror_response(spec_resolve_collision(a, b)),
{
}

/// A bullet never hurts a fighter of the player that fired it.
pub proof fn law_no_friendly_fire(p: usize, a: Body, b: Body)
    requires
        (a == Body::Fighter { player_id: p } && b == Body::Bullet { player_id: p })
            || (a == Body::Bullet { player_id: p } && b == Body::Fighter { player_id: p }),
    ensures
        spec_resolve_collision(a, b) == CollisionResponse::Ignore,
{
}

/// An active shield takes exactly one hit: the first hit only knocks the
/// shield out (nobody loses a fighter, no counter moves), and a second hit
/// before it recharges destroys the fighter.
pub proof fn law_shield_absorbs_one_hit(f: Fighter, ps: Seq<PlayerView>, st: Stats, id: u64, k: int)
    requires
        f.shield_active,
        0 <= k < ps.len(),
        ps[k].ids.contains(id),
    ensures
        spec_take_hit(f, ps, st, id).3 == HitOutcome::ShieldAbsorbed,
        spec_take_hit(f, ps, st, id).1 == ps,
        spec_take_hit(f, ps, st, id).2 == st,
        !spec_take_hit(f, ps, st, id).0.shield_active,
        spec_take_hit(f, ps, st, id).0.shield_cooldown == f.shield_recharge_period,
        spec_take_hit(spec_take_hit(f, ps, st, id).0, ps, st, id).3 is Destroyed,
{
    lemma_holder_exists(ps, id, k);
}

/// Some player holds `id` exactly when there is a first such player.
pub proof fn lemma_holder_exists(ps: Seq<PlayerView>, id: u64, k: int)
    requires
        0 <= k < ps.len(),
        ps[k].ids.contains(id),
    ensures
        exists|k2: int| first_holder(ps, id, k2),
    decreases k,
{
    if exists|q: int| 0 <= q < k && #[trigger] ps[q].ids.contains(id) {
        let q = choose|q: int| 0 <= q < k && #[trigger] ps[q].ids.contains(id);
        lemma_holder_exists(ps, id, q);
    } else {
        assert(first_holder(ps, id, k));
    }
}

/// The number of fighters of all players together.
pub open spec fn total_fighters(ps: Seq<PlayerView>) -> int
    decreases ps.len(),
{
    if ps.len() == 0 {
        0
    } else {
        total_fighters(ps.drop_last()) + ps.last().ids.len()
    }
}

/// Replacing one player changes the total by the difference of its
/// fighter counts.
pub proof fn lemma_total_update(ps: Seq<PlayerView>, k: int, v: PlayerView)
    requires
        0 <= k < ps.len(),
    ensures
        total_fighters(ps.update(k, v)) == total_fighters(ps) - ps[k].ids.len() + v.ids.len(),
    decreases ps.len(),
{
    let u = ps.update(k, v);
    if k == ps.len() - 1 {
        assert(u.drop_last() =~= ps.drop_last());
    } else {
        lemma_total_update(ps.drop_last(), k, v);
        assert(u.drop_last() =~= ps.drop_last().update(k, v));
    }
}

/// The first position of an element that a sequence contains exists.
pub proof fn lemma_position_exists(s: Seq<u64>, id: u64)
    requires
        s.contains(id),
    ensures
        exists|j: int| first_position(s, id, j),
    decreases s.len(),
{
    let w = choose|w: int| 0 <= w < s.len() && s[w] == id;
    if s[0] == id {
        assert(first_position(s, id, 0));
    } else {
        let t = s.drop_first();
        assert(t[w - 1] == id);
        lemma_position_exists(t, id);
        let j = choose|j: int| first_position(t, id, j);
        assert(first_position(s, id, j + 1)) by {
            assert forall|i: int| 0 <= i < j + 1 implies #[trigger] s[i] != id by {
                if i > 0 {
                    assert(s[i] == t[i - 1]);
                }
            }
        }
    }
}

/// Taking a fighter out of the game removes exactly one fighter in all
/// when some player has it, and none otherwise.
pub proof fn law_removal_takes_one_fighter(ps: Seq<PlayerView>, id: u64)
    ensures
        total_fighters(spec_remove_fighter(ps, id).0) == total_fighters(ps) - if spec_remove_fighter(ps, id).1 {
            1int
        } else {
            0int
        },
{
    if exists|k: int| first_holder(ps, id, k) {
        let k = choose|k: int| first_holder(ps, id, k);
        lemma_position_exists(ps[k].ids, id);
        let j = choose|j: int| first_position(ps[k].ids, id, j);
        lemma_total_update(ps, k, PlayerView { ids: ps[k].ids.remove(j), respawns: ps[k].respawns });
    }
}

/// A hit removes exactly one fighter from the game when it destroys one,
/// and none otherwise.
pub proof fn law_hit_removes_at_most_one(f: Fighter, ps: Seq<PlayerView>, st: Stats, id: u64)
    ensures
        total_fighters(spec_take_hit(f, ps, st, id).1) == total_fighters(ps) - if spec_take_hit(f, ps, st, id).3 is Destroyed {
            1int
        } else {
            0int
        },
{
    law_removal_takes_one_fighter(ps, id);
}

/// Fighter `id` belongs to exactly one player, at exactly one position.
pub open spec fn held_once(ps: Seq<PlayerView>, id: u64) -> bool {
    exists|k: int, j: int|
        #![trigger ps[k].ids[j]]
        0 <= k < ps.len() && 0 <= j < ps[k].ids.len() && ps[k].ids[j] == id && forall|k2: int, j2: int|
            #![trigger ps[k2].ids[j2]]
            0 <= k2 < ps.len() && 0 <= j2 < ps[k2].ids.len() && ps[k2].ids[j2] == id ==> k2 == k && j2 == j
}

/// A fighter is destroyed at most once: when its identifier is unique, the
/// hit that destroys it takes it out of every player, so a further hit on
/// it (a second collision in the same frame) changes nothing.
pub proof fn law_destroyed_once(f: Fighter, ps: Seq<PlayerView>, st: Stats, id: u64)
    requires
        !f.shield_active,
        held_once(ps, id),
    ensures
        spec_take_hit(f, ps, st, id).3 is Destroyed,
        ({
            let (f1, ps1, st1, _) = spec_take_hit(f, ps, st, id);
            spec_take_hit(f1, ps1, st1, id) == (f1, ps1, st1, HitOutcome::AlreadyDestroyed)
        }),
{
    let (k0, j0) = choose|k: int, j: int|
        #![trigger ps[k].ids[j]]
        0 <= k < ps.len() && 0 <= j < ps[k].ids.len() && ps[k].ids[j] == id && forall|k2: int, j2: int|
            #![trigger ps[k2].ids[j2]]
            0 <= k2 < ps.len() && 0 <= j2 < ps[k2].ids.len() && ps[k2].ids[j2] == id ==> k2 == k && j2 == j;
    assert(ps[k0].ids.contains(id));
    lemma_holder_exists(ps, id, k0);
    let k = choose|k: int| first_holder(ps, id, k);
    assert(k == k0) by {
        let w = choose|w: int| 0 <= w < ps[k].ids.len() && ps[k].ids[w] == id;
        assert(ps[k].ids[w] == id);
    }
    lemma_position_exists(ps[k].ids, id);
    let j = choose|j: int| first_position(ps[k].ids, id, j);
    assert(ps[k].ids[j] == id);
    assert(j == j0);
    let ps1 = spec_remove_fighter(ps, id).0;
    assert(ps1 == ps.update(k, PlayerView { ids: ps[k].ids.remove(j), respawns: ps[k].respawns }));
    assert forall|q: int| 0 <= q < ps1.len() implies !(#[trigger] ps1[q].ids.contains(id)) by {
        if ps1[q].ids.contains(id) {
            let w = choose|w: int| 0 <= w < ps1[q].ids.len() && ps1[q].ids[w] == id;
            if q == k {
                if w < j {
                    assert(ps[k].ids[w] == id);
                } else {
                    assert(ps[k].ids[w + 1] == id);
                }
            } else {
                assert(ps[q].ids[w] == id);
            }
        }
    }
    assert(!exists|k2: int| first_holder(ps1, id, k2));
}

/// Player 0's score never goes down when a fighter is hit, and it goes up
/// by one exactly when an opponent is destroyed.
pub proof fn law_hit_score(f: Fighter, ps: Seq<PlayerView>, st: Stats, id: u64)
    requires
        st.bullet_hits < usize::MAX,
        st.destroyed_allies < usize::MAX,
        st.destroyed_opponents < usize::MAX,
    ensures
        spec_take_hit(f, ps, st, id).2.spec_player0_points() == st.spec_player0_points() + if spec_take_hit(
            f,
            ps,
            st,
            id,
        ).3 == (HitOutcome::Destroyed { game_over: false }) {
            1int
        } else {
            0int
        },
{
}

/// Player 0's score goes up by one exactly when a bullet breaks an
/// asteroid; every bullet that hits one counts as a hit.
pub proof fn law_asteroid_score(health: int, st: Stats)
    requires
        st.bullet_hits < usize::MAX,
        st.destroyed_asteroids < usize::MAX,
    ensures
        spec_bullet_hits_asteroid(health, st).1.spec_player0_points() == st.spec_player0_points() + if spec_bullet_hits_asteroid(health, st).2 {
            1int
        } else {
            0int
        },
        spec_bullet_hits_asteroid(health, st).1.bullet_hits == st.bullet_hits + 1,
{
}

/// A new asteroid survives the first bullet and breaks on the second.
pub proof fn law_asteroid_breaks_on_second_hit(st: Stats)
    requires
        st.bullet_hits + 2 <= usize::MAX,
        st.destroyed_asteroids < usize::MAX,
    ensures
        !spec_bullet_hits_asteroid(ASTEROID_HEALTH as int, st).2,
        ({
            let (h1, st1, _) = spec_bullet_hits_asteroid(ASTEROID_HEALTH as int, st);
            spec_bullet_hits_asteroid(h1, st1).2
        }),
{
}

/// A countdown of `v` frames (a bullet's lifetime, a round's length) lowered
/// by `frameskip` frames per step is used up at exactly the steps by which
/// `v` frames or more have passed: a bullet flies for its lifetime and a
/// round lasts its length.
pub proof fn law_countdown_used_up(v: int, frameskip: int, n: nat)
    requires
        n >= 1,
        frameskip >= 0,
    ensures
        used_up_at(v, frameskip, n) == (n * frameskip >= v),
{
    lemma_used_up_at(v, frameskip, n);
}

/// The fighter after `n` cooldown steps of `frameskip` frames each.
pub open spec fn cooled(f: Fighter, frameskip: u32, n: nat) -> Fighter
    decreases n,
{
    if n == 0 {
        f
    } else {
        spec_cool_down(cooled(f, frameskip, (n - 1) as nat), frameskip).0
    }
}

/// A knocked-out shield of player 0 with `c` frames of cooldown left is
/// back up after `n` steps exactly when `n` steps cover `c` frames; until
/// then its cooldown is `c` less the frames that passed.
pub proof fn law_shield_recharges(f: Fighter, frameskip: u32, n: nat)
    requires
        frameskip <= i32::MAX,
        f.player_id == 0,
        !f.shield_active,
        f.shield_cooldown > 0,
    ensures
        cooled(f, frameskip, n).shield_active == (n * frameskip >= f.shield_cooldown),
        !cooled(f, frameskip, n).shield_active ==> cooled(f, frameskip, n).shield_cooldown == f.shield_cooldown - n * frameskip,
        cooled(f, frameskip, n).player_id == 0,
    decreases n,
{
    if n == 0 {
        assert(n * frameskip == 0) by (nonlinear_arith)
            requires
                n == 0,
        ;
    } else {
        law_shield_recharges(f, frameskip, (n - 1) as nat);
        assert(n * frameskip == (n - 1) * frameskip + frameskip) by (nonlinear_arith)
            requires
                n >= 1,
        ;
        assert((n - 1) * frameskip <= n * frameskip) by (nonlinear_arith)
            requires
                n >= 1,
        ;
    }
}

/// The fighter's gun after `n` cooldown steps has cooled down by `n` times
/// the frames per step, as long as the count stays within range.
pub proof fn lemma_gun_cools(f: Fighter, frameskip: u32, n: nat)
    requires
        frameskip <= i32::MAX,
        f.remaining_bullet_cooldown - n * frameskip >= i32::MIN,
    ensures
        cooled(f, frameskip, n).remaining_bullet_cooldown == f.remaining_bullet_cooldown - n * frameskip,
        cooled(f, frameskip, n).bullet_cooldown == f.bullet_cooldown,
    decreases n,
{
    if n == 0 {
        assert(n * frameskip == 0) by (nonlinear_arith)
            requires
                n == 0,
        ;
    } else {
        assert(n * frameskip == (n - 1) * frameskip + frameskip) by (nonlinear_arith)
            requires
                n >= 1,
        ;
        assert((n - 1) * frameskip <= n * frameskip) by (nonlinear_arith)
            requires
                n >= 1,
        ;
        lemma_gun_cools(f, frameskip, (n - 1) as nat);
    }
}

/// After a shot the gun fires again only once its cooldown has passed: a
/// fighter that fired, then let `n` steps of `frameskip` frames pass, fires
/// on a trigger pull exactly when those steps cover its bullet cooldown.
pub proof fn law_gun_cooldown(f: Fighter, a: FighterAction, b: FighterAction, frameskip: u32, n: nat)
    requires
        f.bullet_cooldown <= i32::MAX,
        spec_act(f, a).1.fired,
        b.shoot == Shoot::On,
        frameskip <= i32::MAX,
        f.bullet_cooldown - n * frameskip >= i32::MIN,
    ensures
        spec_act(cooled(spec_act(f, a).0, frameskip, n), b).1.fired == (n * frameskip >= f.bullet_cooldown),
{
    let f1 = spec_act(f, a).0;
    assert(f1.remaining_bullet_cooldown == f.bullet_cooldown);
    lemma_gun_cools(f1, frameskip, n);
}

/// Frames at which actions are taken repeat with the action interval:
/// between two action frames lie exactly `interval - 1` frames without
/// actions.
pub proof fn law_action_frames_periodic(t: i32, interval: u32, d: int)
    requires
        interval > 0,
        t >= 0,
        t + interval <= i32::MAX,
        spec_is_action_tick(t, interval),
        0 < d < interval,
    ensures
        spec_is_action_tick((t + interval) as i32, interval),
        !spec_is_action_tick((t + d) as i32, interval),
{
    let i = interval as int;
    let tt = t as int;
    assert(frame_as_u32(t) == t);
    assert(frame_as_u32((t + interval) as i32) == t + i);
    assert(frame_as_u32((t + d) as i32) == t + d);
    assert((tt + i) % i == 0) by (nonlinear_arith)
        requires
            tt % i == 0,
            i > 0,
            tt >= 0,
    ;
    assert((tt + d) % i == d) by (nonlinear_arith)
        requires
            tt % i == 0,
            i > 0,
            0 < d < i,
            tt >= 0,
    ;
}

/// Counting down the respawn queue spawns at most one fighter and takes
/// exactly that respawn out of the queue.
pub proof fn lemma_tick_respawns_len(q: Seq<i32>, frameskip: int)
    ensures
        spec_tick_respawns(q, frameskip).0.len() + if spec_tick_respawns(q, frameskip).1 {
            1int
        } else {
            0int
        } == q.len(),
{
    if exists|k: int| first_due(q, frameskip, k) {
        let k = choose|k: int| first_due(q, frameskip, k);
        assert(first_due(q, frameskip, k));
    }
}

/// A respawn step neither loses nor invents fighters: a player's fighters
/// in the game stay as they are, and its pending respawns plus the fighter
/// spawned now grow by one exactly when it was below its target count.
pub proof fn law_respawn_conserves_fighters(p: PlayerView, index: int, timesteps: int, s: Settings)
    ensures
        ({
            let (p2, spawn) = spec_respawn_player(p, index, timesteps, s);
            let target = spec_target_fighters(index, timesteps, s.difficulty_ramp as int);
            &&& p2.ids == p.ids
            &&& p2.respawns.len() + (if spawn { 1int } else { 0int }) == p.respawns.len() + if p.ids.len()
                + p.respawns.len() < target {
                1int
            } else {
                0int
            }
        }),
{
    lemma_tick_respawns_len(queued_respawns(p, index, timesteps, s), wrap_i32(s.frameskip));
}

/// The players of a game: as many as the settings ask for, or more when
/// more agents (and the human) are handed in; the handed agents steer the
/// first players in the order given, and the human player comes next.
pub proof fn law_plan_agents(given: nat, s: Settings)
    ensures
        spec_plan_agents(given, s).len() == if given + (if s.human_player { 1int } else { 0int }) < s.players {
            s.players as int
        } else {
            given + if s.human_player { 1int } else { 0int }
        },
        forall|i: int| 0 <= i < given ==> #[trigger] spec_plan_agents(given, s)[i] == AgentSource::Given(i as usize),
        s.human_player ==> spec_plan_agents(given, s)[given as int] == AgentSource::NoAgent,
{
}

/// The best score never goes down and is never below the current score.
pub proof fn law_best_score(best: u32, score: u32)
    ensures
        spec_best(best, score) >= best,
        spec_best(best, score) >= score,
        spec_best(best, score) == best || spec_best(best, score) == score,
{
}

/// Player 0 always aims at one fighter; every opponent aims at one more
/// fighter each time another `difficulty_ramp` frames have passed.
pub proof fn law_difficulty_ramp(index: int, timesteps: int, difficulty_ramp: int)
    requires
        timesteps >= 0,
        difficulty_ramp > 0,
    ensures
        spec_target_fighters(0, timesteps, difficulty_ramp) == 1,
        index != 0 ==> spec_target_fighters(index, timesteps + difficulty_ramp, difficulty_ramp)
            == spec_target_fighters(index, timesteps, difficulty_ramp) + 1,
        index != 0 ==> spec_target_fighters(index, timesteps, difficulty_ramp) >= 1,
{
    assert((timesteps + difficulty_ramp) / difficulty_ramp == timesteps / difficulty_ramp + 1) by (nonlinear_arith)
        requires
            difficulty_ramp > 0,
            timesteps >= 0,
    ;
    assert(timesteps / difficulty_ramp >= 0) by (nonlinear_arith)
        requires
            difficulty_ramp > 0,
            timesteps >= 0,
    ;
}

/// The keyboard steers only on action frames, and only a fighter that
/// player 0 has; while an agent steers player 0, keys that ask for nothing
/// send nothing.
pub proof fn law_keyboard_commands(
    keys: PressedKeys,
    remaining_time: i32,
    action_interval: u32,
    player0_has_agent: bool,
    fighters: Seq<u64>,
)
    ensures
        spec_keyboard_command(keys, remaining_time, action_interval, player0_has_agent, fighters) is Some
            ==> spec_is_action_tick(remaining_time, action_interval) && fighters.len() > 0,
        player0_has_agent && !is_active(spec_keys_to_action(keys)) ==> spec_keyboard_command(
            keys,
            remaining_time,
            action_interval,
            player0_has_agent,
            fighters,
        ) is None,
{
}

/// One respawn step over all players conserves every player's fighters: for
/// each player, fighters in the game, pending respawns and the fighter
/// spawned now together grow by one exactly when the player was below its
/// target, so they never exceed the larger of what it had and its target;
/// and each player spawns at most one fighter per step.
pub proof fn law_respawn_step_conserves_fighters(ps: Seq<PlayerView>, timesteps: int, s: Settings)
    ensures
        forall|i: int|
            #![trigger spec_respawn_player(ps[i], i, timesteps, s)]
            0 <= i < ps.len() ==> {
                let (p2, spawn) = spec_respawn_player(ps[i], i, timesteps, s);
                let n = ps[i].ids.len() as int + ps[i].respawns.len() as int;
                let target = spec_target_fighters(i, timesteps, s.difficulty_ramp as int);
                let after = p2.ids.len() + p2.respawns.len() + if spawn { 1int } else { 0int };
                &&& p2.ids == ps[i].ids
                &&& after == n + if n < target { 1int } else { 0int }
                &&& after <= if n < target { target } else { n }
            },
{
    assert forall|i: int|
        #![trigger spec_respawn_player(ps[i], i, timesteps, s)]
        0 <= i < ps.len() implies {
        let (p2, spawn) = spec_respawn_player(ps[i], i, timesteps, s);
        let n = ps[i].ids.len() as int + ps[i].respawns.len() as int;
        let target = spec_target_fighters(i, timesteps, s.difficulty_ramp as int);
        let after = p2.ids.len() + p2.respawns.len() + if spawn { 1int } else { 0int };
        &&& p2.ids == ps[i].ids
        &&& after == n + if n < target { 1int } else { 0int }
        &&& after <= if n < target { target } else { n }
    } by {
        law_respawn_conserves_fighters(ps[i], i, timesteps, s);
    }
}

/// A hit on a fighter without shield that no player has any more (one an
/// earlier hit already destroyed) changes nothing at all.
pub proof fn law_hit_on_absent_fighter(f: Fighter, ps: Seq<PlayerView>, st: Stats, id: u64)
    requires
        !f.shield_active,
        !holds_fighter(ps, id),
    ensures
        spec_take_hit(f, ps, st, id) == (f, ps, st, HitOutcome::AlreadyDestroyed),
{
    assert(!exists|k: int| first_holder(ps, id, k)) by {
        if exists|k: int| first_holder(ps, id, k) {
            let k = choose|k: int| first_holder(ps, id, k);
            assert(ps[k].ids.contains(id));
        }
    }
}

/// No two positions among all players hold fighter `id`.
pub open spec fn held_at_most_once(ps: Seq<PlayerView>, id: u64) -> bool {
    forall|k: int, j: int, k2: int, j2: int|
        #![trigger ps[k].ids[j], ps[k2].ids[j2]]
        0 <= k < ps.len() && 0 <= j < ps[k].ids.len() && 0 <= k2 < ps.len() && 0 <= j2 < ps[k2].ids.len()
            && ps[k].ids[j] == id && ps[k2].ids[j2] == id ==> k == k2 && j == j2
}

/// Taking out a fighter that is held once leaves no player holding it.
pub proof fn lemma_remove_held_once(ps: Seq<PlayerView>, id: u64)
    requires
        held_at_most_once(ps, id),
        holds_fighter(ps, id),
    ensures
        spec_remove_fighter(ps, id).1,
        !holds_fighter(spec_remove_fighter(ps, id).0, id),
{
    let k0 = choose|k: int| 0 <= k < ps.len() && #[trigger] ps[k].ids.contains(id);
    lemma_holder_exists(ps, id, k0);
    let k = choose|k: int| first_holder(ps, id, k);
    lemma_position_exists(ps[k].ids, id);
    let j = choose|j: int| first_position(ps[k].ids, id, j);
    assert(ps[k].ids[j] == id);
    let ps1 = spec_remove_fighter(ps, id).0;
    assert(ps1 == ps.update(k, PlayerView { ids: ps[k].ids.remove(j), respawns: ps[k].respawns }));
    assert forall|q: int| 0 <= q < ps1.len() implies !(#[trigger] ps1[q].ids.contains(id)) by {
        if ps1[q].ids.contains(id) {
            let w = choose|w: int| 0 <= w < ps1[q].ids.len() && ps1[q].ids[w] == id;
            if q == k {
                if w < j {
                    assert(ps[k].ids[w] == id);
                } else {
                    assert(ps[k].ids[w + 1] == id);
                }
            } else {
                assert(ps[q].ids[w] == id);
            }
        }
    }
}

/// The state after `n` hits on fighter `id` within one frame, and how many
/// of them destroyed it.
pub open spec fn repeated_hits(f: Fighter, ps: Seq<PlayerView>, st: Stats, id: u64, n: nat) -> (
    Fighter,
    Seq<PlayerView>,
    Stats,
    nat,
)
    decreases n,
{
    if n == 0 {
        (f, ps, st, 0)
    } else {
        let (f1, ps1, st1, d) = repeated_hits(f, ps, st, id, (n - 1) as nat);
        let (f2, ps2, st2, o) = spec_take_hit(f1, ps1, st1, id);
        (f2, ps2, st2, d + if o is Destroyed { 1nat } else { 0nat })
    }
}

/// However many collisions hit a fighter in one frame (a shield may go
/// down first), the fighter is destroyed at most once: it leaves its player
/// at most once, at most one ally or opponent is counted, and a fighter no
/// player has is left alone entirely.
pub proof fn law_destroyed_at_most_once_per_frame(f: Fighter, ps: Seq<PlayerView>, st: Stats, id: u64, n: nat)
    requires
        held_at_most_once(ps, id),
        room_for_hit(st, f.player_id),
    ensures
        ({
            let (f2, ps2, st2, d) = repeated_hits(f, ps, st, id, n);
            &&& d <= 1
            &&& f2.player_id == f.player_id
            &&& st2.destroyed_allies + st2.destroyed_opponents == st.destroyed_allies + st.destroyed_opponents + d
            &&& st2.bullet_hits == st.bullet_hits + d
            &&& total_fighters(ps2) == total_fighters(ps) - d
            &&& d == 1 ==> !holds_fighter(ps2, id)
            &&& !holds_fighter(ps, id) ==> ps2 == ps && st2 == st && d == 0
        }),
    decreases n,
{
    if n > 0 {
        law_destroyed_at_most_once_per_frame(f, ps, st, id, (n - 1) as nat);
        let (f1, ps1, st1, d1) = repeated_hits(f, ps, st, id, (n - 1) as nat);
        law_hit_removes_at_most_one(f1, ps1, st1, id);
        if !f1.shield_active {
            if !holds_fighter(ps1, id) {
                law_hit_on_absent_fighter(f1, ps1, st1, id);
            } else {
                assert(d1 == 0);
                assert(ps1 == ps && st1 == st) by {
                    if !(ps1 == ps && st1 == st) {
                        lemma_hits_without_destruction(f, ps, st, id, (n - 1) as nat);
                    }
                }
                lemma_remove_held_once(ps, id);
            }
        }
    }
}

/// As long as no hit has destroyed the fighter, the players and the
/// counters are as they were.
pub proof fn lemma_hits_without_destruction(f: Fighter, ps: Seq<PlayerView>, st: Stats, id: u64, n: nat)
    requires
        repeated_hits(f, ps, st, id, n).3 == 0,
    ensures
        repeated_hits(f, ps, st, id, n).1 == ps,
        repeated_hits(f, ps, st, id, n).2 == st,
    decreases n,
{
    if n > 0 {
        lemma_hits_without_destruction(f, ps, st, id, (n - 1) as nat);
    }
}

/// The state after a fighter carries out `actions` one after the other
/// within one frame, and how many bullets it fired.
pub open spec fn repeated_actions(f: Fighter, st: Stats, actions: Seq<FighterAction>) -> (Fighter, Stats, nat)
    decreases actions.len(),
{
    if actions.len() == 0 {
        (f, st, 0)
    } else {
        let (f1, st1, c) = repeated_actions(f, st, actions.drop_last());
        let (f2, st2, out) = spec_perform_action(f1, st1, actions.last());
        (f2, st2, c + if out.fired { 1nat } else { 0nat })
    }
}

/// However many actions reach a fighter with a gun cooldown within one
/// frame, it fires at most one bullet, and exactly that bullet is counted.
pub proof fn law_one_shot_per_frame(f: Fighter, st: Stats, actions: Seq<FighterAction>)
    requires
        0 < f.bullet_cooldown <= i32::MAX,
        st.bullets_fired < usize::MAX,
    ensures
        ({
            let (f2, st2, c) = repeated_actions(f, st, actions);
            &&& c <= 1
            &&& st2.bullets_fired == st.bullets_fired + c
            &&& f2.bullet_cooldown == f.bullet_cooldown
            &&& c == 1 ==> f2.remaining_bullet_cooldown == f.bullet_cooldown
            &&& c == 0 ==> f2.remaining_bullet_cooldown == f.remaining_bullet_cooldown
        }),
    decreases actions.len(),
{
    if actions.len() > 0 {
        law_one_shot_per_frame(f, st, actions.drop_last());
    }
}

/// Taking a fighter out of the game never lets a player gain a fighter.
pub proof fn lemma_remove_adds_nothing(ps: Seq<PlayerView>, id: u64, x: u64)
    requires
        holds_fighter(spec_remove_fighter(ps, id).0, x),
    ensures
        holds_fighter(ps, x),
{
    let ps1 = spec_remove_fighter(ps, id).0;
    let a = choose|a: int| 0 <= a < ps1.len() && #[trigger] ps1[a].ids.contains(x);
    let w = choose|w: int| 0 <= w < ps1[a].ids.len() && ps1[a].ids[w] == x;
    if exists|k: int| first_holder(ps, id, k) {
        let k = choose|k: int| first_holder(ps, id, k);
        let j = choose|j: int| first_position(ps[k].ids, id, j);
        if a == k {
            lemma_position_exists(ps[k].ids, id);
            if w < j {
                assert(ps[a].ids[w] == x);
            } else {
                assert(ps[a].ids[w + 1] == x);
            }
        } else {
            assert(ps[a].ids[w] == x);
        }
    } else {
        assert(ps[a].ids[w] == x);
    }
    assert(ps[a].ids.contains(x));
}

/// Taking a fighter out of the game keeps every identifier held at most
/// once.
pub proof fn lemma_remove_keeps_unique(ps: Seq<PlayerView>, id: u64, x: u64)
    requires
        held_at_most_once(ps, x),
    ensures
        held_at_most_once(spec_remove_fighter(ps, id).0, x),
{
    if exists|k: int| first_holder(ps, id, k) {
        let k = choose|k: int| first_holder(ps, id, k);
        assert(ps[k].ids.contains(id));
        lemma_position_exists(ps[k].ids, id);
        let j = choose|j: int| first_position(ps[k].ids, id, j);
        let ps1 = spec_remove_fighter(ps, id).0;
        assert(ps1 == ps.update(k, PlayerView { ids: ps[k].ids.remove(j), respawns: ps[k].respawns }));
        assert forall|a: int, b: int, a2: int, b2: int|
            #![trigger ps1[a].ids[b], ps1[a2].ids[b2]]
            0 <= a < ps1.len() && 0 <= b < ps1[a].ids.len() && 0 <= a2 < ps1.len() && 0 <= b2 < ps1[a2].ids.len()
                && ps1[a].ids[b] == x && ps1[a2].ids[b2] == x implies a == a2 && b == b2 by {
            let ob = if a == k && b >= j { b + 1 } else { b };
            let ob2 = if a2 == k && b2 >= j { b2 + 1 } else { b2 };
            assert(ps[a].ids[ob] == x);
            assert(ps[a2].ids[ob2] == x);
        }
    }
}

/// Every fighter identifier is held at most once.
pub open spec fn unique_ids(ps: Seq<PlayerView>) -> bool {
    forall|x: u64| #[trigger] held_at_most_once(ps, x)
}

/// A frame's hits in order: `hits` names the fighter each hit strikes and
/// `fighters` the state of each fighter.  Gives the fighters, players and
/// counters afterwards, and the fighters destroyed, in order.
pub open spec fn frame_hits(
    fighters: Map<u64, Fighter>,
    ps: Seq<PlayerView>,
    st: Stats,
    hits: Seq<u64>,
) -> (Map<u64, Fighter>, Seq<PlayerView>, Stats, Seq<u64>)
    decreases hits.len(),
{
    if hits.len() == 0 {
        (fighters, ps, st, Seq::empty())
    } else {
        let (fs1, ps1, st1, dest) = frame_hits(fighters, ps, st, hits.drop_last());
        let id = hits.last();
        let (f2, ps2, st2, o) = spec_take_hit(fs1[id], ps1, st1, id);
        (fs1.insert(id, f2), ps2, st2, if o is Destroyed { dest.push(id) } else { dest })
    }
}

/// However the hits of one frame fall on the fighters, in any order and
/// interleaved, each fighter is taken out and counted at most once: the
/// destroyed fighters are distinct, each was in the game before the frame
/// and is not afterwards, the number of fighters falls by exactly their
/// number, and the hit, ally and opponent counters rise by exactly that
/// number.
pub proof fn law_frame_destroys_each_fighter_once(
    fighters: Map<u64, Fighter>,
    ps: Seq<PlayerView>,
    st: Stats,
    hits: Seq<u64>,
)
    requires
        unique_ids(ps),
        st.bullet_hits + hits.len() <= usize::MAX,
        st.destroyed_allies + hits.len() <= usize::MAX,
        st.destroyed_opponents + hits.len() <= usize::MAX,
    ensures
        ({
            let (fs2, ps2, st2, dest) = frame_hits(fighters, ps, st, hits);
            &&& dest.no_duplicates()
            &&& dest.len() <= hits.len()
            &&& forall|i: int| 0 <= i < dest.len() ==> holds_fighter(ps, #[trigger] dest[i])
            &&& forall|i: int| 0 <= i < dest.len() ==> !holds_fighter(ps2, #[trigger] dest[i])
            &&& total_fighters(ps2) == total_fighters(ps) - dest.len()
            &&& st2.bullet_hits == st.bullet_hits + dest.len()
            &&& st2.destroyed_allies + st2.destroyed_opponents == st.destroyed_allies + st.destroyed_opponents
                + dest.len()
        }),
{
    lemma_frame_hits(fighters, ps, st, hits);
}

/// The induction behind `law_frame_destroys_each_fighter_once`, with what
/// it needs besides: identifiers stay unique, nobody gains a fighter, and
/// each counter only grows.
pub proof fn lemma_frame_hits(fighters: Map<u64, Fighter>, ps: Seq<PlayerView>, st: Stats, hits: Seq<u64>)
    requires
        unique_ids(ps),
        st.bullet_hits + hits.len() <= usize::MAX,
        st.destroyed_allies + hits.len() <= usize::MAX,
        st.destroyed_opponents + hits.len() <= usize::MAX,
    ensures
        ({
            let (fs2, ps2, st2, dest) = frame_hits(fighters, ps, st, hits);
            &&& dest.no_duplicates()
            &&& dest.len() <= hits.len()
            &&& forall|i: int| 0 <= i < dest.len() ==> holds_fighter(ps, #[trigger] dest[i])
            &&& forall|i: int| 0 <= i < dest.len() ==> !holds_fighter(ps2, #[trigger] dest[i])
            &&& total_fighters(ps2) == total_fighters(ps) - dest.len()
            &&& st2.bullet_hits == st.bullet_hits + dest.len()
            &&& st2.destroyed_allies + st2.destroyed_opponents == st.destroyed_allies + st.destroyed_opponents
                + dest.len()
            &&& st2.destroyed_allies >= st.destroyed_allies
            &&& st2.destroyed_opponents >= st.destroyed_opponents
            &&& unique_ids(ps2)
            &&& forall|x: u64| holds_fighter(ps2, x) ==> #[trigger] holds_fighter(ps, x)
        }),
    decreases hits.len(),
{
    if hits.len() > 0 {
        let prev = hits.drop_last();
        lemma_frame_hits(fighters, ps, st, prev);
        let (fs1, ps1, st1, dest1) = frame_hits(fighters, ps, st, prev);
        let id = hits.last();
        let f = fs1[id];
        let (f2, ps2, st2, o) = spec_take_hit(f, ps1, st1, id);
        law_hit_removes_at_most_one(f, ps1, st1, id);
        assert(held_at_most_once(ps1, id));
        assert forall|x: u64| #[trigger] held_at_most_once(ps2, x) by {
            assert(held_at_most_once(ps1, x));
            lemma_remove_keeps_unique(ps1, id, x);
        }
        assert forall|x: u64| holds_fighter(ps2, x) implies #[trigger] holds_fighter(ps, x) by {
            if !f.shield_active {
                lemma_remove_adds_nothing(ps1, id, x);
            }
            assert(holds_fighter(ps1, x));
        }
        if o is Destroyed {
            assert(holds_fighter(ps1, id)) by {
                let k = choose|k: int| first_holder(ps1, id, k);
                assert(ps1[k].ids.contains(id));
            }
            lemma_remove_held_once(ps1, id);
            let dest = dest1.push(id);
            assert forall|i: int| 0 <= i < dest1.len() implies #[trigger] dest1[i] != id by {
                assert(!holds_fighter(ps1, dest1[i]));
            }
            assert forall|i: int| 0 <= i < dest.len() implies !holds_fighter(ps2, #[trigger] dest[i]) by {
                if i < dest1.len() {
                    assert(dest[i] == dest1[i]);
                    assert(!holds_fighter(ps1, dest1[i]));
                    if holds_fighter(ps2, dest1[i]) {
                        lemma_remove_adds_nothing(ps1, id, dest1[i]);
                    }
                }
            }
            assert forall|i: int| 0 <= i < dest.len() implies holds_fighter(ps, #[trigger] dest[i]) by {
                if i < dest1.len() {
                    assert(dest[i] == dest1[i]);
                } else {
                    assert(holds_fighter(ps1, id));
                }
            }
            assert forall|a: int, b: int| 0 <= a < dest.len() && 0 <= b < dest.len() && a != b implies dest[a]
                != dest[b] by {
                if a < dest1.len() && b < dest1.len() {
                    assert(dest[a] == dest1[a] && dest[b] == dest1[b]);
                } else if a < dest1.len() {
                    assert(dest1[a] != id);
                } else {
                    assert(dest1[b] != id);
                }
            }
        } else {
            assert forall|i: int| 0 <= i < dest1.len() implies !holds_fighter(ps2, #[trigger] dest1[i]) by {
                assert(!holds_fighter(ps1, dest1[i]));
                if holds_fighter(ps2, dest1[i]) {
                    if !f.shield_active {
                        lemma_remove_adds_nothing(ps1, id, dest1[i]);
                    }
                }
            }
        }
    }
}

/// The engine flame: player 0's flame shows exactly while its engine is on
/// or braking, and is hidden when the engine is off; an opponent's flame
/// never shows.  The gun fires exactly when the trigger is pulled with the
/// gun cooled down, and then starts its full cooldown; an action never
/// changes who owns the fighter or its gun's cooldown length.
pub proof fn law_act_flame_and_gun(f: Fighter, a: FighterAction)
    ensures
        f.player_id == 0 && a.thrust == Thrust::On ==> spec_act(f, a).1.jet_visible,
        f.player_id == 0 && a.thrust == Thrust::Stop ==> spec_act(f, a).1.jet_visible,
        a.thrust == Thrust::Off ==> !spec_act(f, a).1.jet_visible,
        f.player_id != 0 ==> !spec_act(f, a).1.jet_visible,
        spec_act(f, a).1.fired <==> (a.shoot == Shoot::On && f.remaining_bullet_cooldown <= 0),
        f.bullet_cooldown <= i32::MAX && spec_act(f, a).1.fired ==> spec_act(f, a).0.remaining_bullet_cooldown
            == f.bullet_cooldown,
        !spec_act(f, a).1.fired ==> spec_act(f, a).0.remaining_bullet_cooldown == f.remaining_bullet_cooldown,
        spec_act(f, a).0.player_id == f.player_id,
        spec_act(f, a).0.bullet_cooldown == f.bullet_cooldown,
        spec_act(f, a).0.shield_active == f.shield_active,
{
}

/// Whatever a fighter's flame showed before, acting twice with the same
/// thrust shows the same flame: the flame depends on the thrust and the
/// owner alone.
pub proof fn law_flame_depends_on_thrust_only(f: Fighter, g: Fighter, a: FighterAction, b: FighterAction)
    requires
        f.player_id == g.player_id,
        a.thrust == b.thrust,
    ensures
        spec_act(f, a).1.jet_visible == spec_act(g, b).1.jet_visible,
{
}

/// Every entry of `s` is false, so none is counted.
pub proof fn lemma_count_none(s: Seq<bool>)
    requires
        forall|i: int| 0 <= i < s.len() ==> !#[trigger] s[i],
    ensures
        count_true(s) == 0,
    decreases s.len(),
{
    if s.len() > 0 {
        lemma_count_none(s.drop_last());
    }
}

/// The count of `true` entries never exceeds the length.
pub proof fn lemma_count_at_most_len(s: Seq<bool>)
    ensures
        count_true(s) <= s.len(),
    decreases s.len(),
{
    if s.len() > 0 {
        lemma_count_at_most_len(s.drop_last());
    }
}

/// Topping up asteroids reaches the configured target and no more: the
/// asteroids inside the arena plus the new ones make at least `target`,
/// and exactly `target` whenever any are added; with none inside, all
/// `target` are added; one more asteroid inside means one fewer to add
/// while the arena is short.
pub proof fn law_asteroids_top_up(inside: Seq<bool>, target: u32)
    ensures
        count_true(inside) + spec_asteroids_to_spawn(inside, target) >= target,
        spec_asteroids_to_spawn(inside, target) > 0 ==> count_true(inside) + spec_asteroids_to_spawn(inside, target)
            == target,
        spec_asteroids_to_spawn(inside, target) >= 0,
        (forall|i: int| 0 <= i < inside.len() ==> !#[trigger] inside[i]) ==> spec_asteroids_to_spawn(inside, target)
            == target,
        count_true(inside) < target ==> spec_asteroids_to_spawn(inside.push(true), target) == spec_asteroids_to_spawn(
            inside,
            target,
        ) - 1,
        spec_asteroids_to_spawn(inside.push(false), target) == spec_asteroids_to_spawn(inside, target),
{
    if forall|i: int| 0 <= i < inside.len() ==> !#[trigger] inside[i] {
        lemma_count_none(inside);
    }
    assert(inside.push(true).drop_last() =~= inside);
    assert(inside.push(false).drop_last() =~= inside);
}

/// A cooldown step reports the shield restored exactly when the shield was
/// down before the step and is up after it; it never takes a shield down;
/// only player 0's shield ever comes back; and the gun cools down by the
/// frames that passed.
pub proof fn law_cool_down_reports_restored_shield(f: Fighter, frameskip: u32)
    requires
        frameskip <= i32::MAX,
        f.remaining_bullet_cooldown - frameskip >= i32::MIN,
        !f.shield_active && f.player_id == 0 ==> f.shield_cooldown - frameskip >= i32::MIN,
    ensures
        spec_cool_down(f, frameskip).1 == (!f.shield_active && spec_cool_down(f, frameskip).0.shield_active),
        f.shield_active ==> spec_cool_down(f, frameskip).0.shield_active,
        f.shield_active ==> !spec_cool_down(f, frameskip).1,
        f.player_id != 0 ==> !spec_cool_down(f, frameskip).1,
        spec_cool_down(f, frameskip).0.remaining_bullet_cooldown == f.remaining_bullet_cooldown - frameskip,
        spec_cool_down(f, frameskip).0.player_id == f.player_id,
{
}

/// What each kind of collision does: an asteroid always hits a fighter it
/// touches; a bullet hits a fighter exactly when another player fired it;
/// a bullet always damages an asteroid it touches; two bullets never hurt
/// a fighter or an asteroid, and a bullet of player 0 removes the other
/// bullet; fighters pass through fighters and asteroids through asteroids.
pub proof fn law_collision_rules(a: Body, b: Body)
    ensures
        (a is Fighter && b is Asteroid) ==> (spec_resolve_collision(a, b) == (CollisionResponse::HitFighter {
            fighter: Side::First,
        })),
        (a is Fighter && b is Bullet) ==> ((spec_resolve_collision(a, b) is HitFighter) <==> (a->Fighter_player_id
            != b->Bullet_player_id)),
        (a is Bullet && b is Asteroid) ==> (spec_resolve_collision(a, b) == (CollisionResponse::BulletHitsAsteroid {
            asteroid: Side::Second,
        })),
        (a is Bullet && b is Bullet) ==> (spec_resolve_collision(a, b) is BulletsCollide),
        (a is Bullet && b is Bullet && a->Bullet_player_id == 0) ==> spec_resolve_collision(a, b)->despawn_second,
        (a is Bullet && b is Bullet && a->Bullet_player_id != 0) ==> !spec_resolve_collision(a, b)->despawn_second,
        (a is Fighter && b is Fighter) ==> spec_resolve_collision(a, b) == CollisionResponse::Ignore,
        (a is Asteroid && b is Asteroid) ==> spec_resolve_collision(a, b) == CollisionResponse::Ignore,
        (spec_resolve_collision(a, b) is HitFighter) ==> (a is Fighter || b is Fighter),
        (spec_resolve_collision(a, b) is BulletHitsAsteroid) ==> ((a is Asteroid || b is Asteroid) && (a is Bullet
            || b is Bullet)),
{
}

/// The keys steer as labelled: the arrow and the letter key of a direction
/// do the same; up thrusts, down brakes, left turns left, right turns
/// right, space shoots; with no key the fighter drifts, goes straight and
/// holds fire; up beats down and left beats right.
pub proof fn law_keys_steer(k: PressedKeys, k2: PressedKeys)
    ensures
        (k.up || k.w) ==> spec_keys_to_action(k).thrust == Thrust::On,
        (!k.up && !k.w && (k.down || k.s)) ==> spec_keys_to_action(k).thrust == Thrust::Stop,
        (!k.up && !k.w && !k.down && !k.s) ==> spec_keys_to_action(k).thrust == Thrust::Off,
        (k.left || k.a) ==> spec_keys_to_action(k).turn == Turn::Left,
        (!k.left && !k.a && (k.right || k.d)) ==> spec_keys_to_action(k).turn == Turn::Right,
        (!k.left && !k.a && !k.right && !k.d) ==> spec_keys_to_action(k).turn == Turn::Straight,
        spec_keys_to_action(k).shoot == Shoot::On <==> k.space,
        (k.up || k.w) == (k2.up || k2.w) && (k.down || k.s) == (k2.down || k2.s) && (k.left || k.a) == (k2.left
            || k2.a) && (k.right || k.d) == (k2.right || k2.d) && k.space == k2.space ==> spec_keys_to_action(k)
            == spec_keys_to_action(k2),
{
}

/// Turning right mirrors turning left, a quarter turn is a quarter of a
/// full one, and going straight does not turn.
pub proof fn law_turn_steps(t: Turn)
    ensures
        spec_quarter_steps(Turn::Right) == -spec_quarter_steps(Turn::Left),
        spec_quarter_steps(Turn::QuarterRight) == -spec_quarter_steps(Turn::QuarterLeft),
        spec_quarter_steps(Turn::Left) == 4 * spec_quarter_steps(Turn::QuarterLeft),
        spec_quarter_steps(Turn::Left) == 4,
        spec_quarter_steps(Turn::Straight) == 0,
        -4 <= spec_quarter_steps(t) <= 4,
        spec_quarter_steps(t) == 0 <==> t == Turn::Straight,
{
}

/// The four draws select four different edges, so every edge can be
/// chosen.
pub proof fn law_edges_distinct(d1: i32, d2: i32)
    requires
        0 <= d1 < 4,
        0 <= d2 < 4,
        d1 != d2,
    ensures
        spec_edge_of(d1) != spec_edge_of(d2),
{
}

/// The opponent policy goes to the players that are not human, and only
/// once the last player is still without agent: never to player 0 while it
/// is human, always to every other player, each at most once, in order.
pub proof fn law_policy_recipients(has_agent: Seq<bool>, human_player: bool)
    requires
        0 < has_agent.len() <= usize::MAX,
    ensures
        has_agent.last() ==> spec_policy_recipients(has_agent, human_player).len() == 0,
        !has_agent.last() ==> forall|i: usize|
            (i as int) < has_agent.len() ==> (#[trigger] spec_policy_recipients(has_agent, human_player).contains(i)
                <==> (i > 0 || !human_player)),
        forall|a: int, b: int|
            0 <= a < b < spec_policy_recipients(has_agent, human_player).len() ==> spec_policy_recipients(
                has_agent,
                human_player,
            )[a] < spec_policy_recipients(has_agent, human_player)[b],
{
    let r = spec_policy_recipients(has_agent, human_player);
    if !has_agent.last() {
        assert forall|i: usize| (i as int) < has_agent.len() implies (r.contains(i) <==> (i > 0 || !human_player)) by {
            if human_player {
                if i > 0 {
                    assert(r[i - 1] == i);
                } else if r.contains(0usize) {
                    let w = choose|w: int| 0 <= w < r.len() && r[w] == 0usize;
                    assert(r[w] == (w + 1) as usize);
                }
            } else {
                assert(r[i as int] == i);
            }
        }
    }
}

/// A new fighter is ready to fire, not turning and at its full recharge
/// period; player 0's fighter starts shielded with the faster gun and
/// shorter-lived bullets, opponents start without shield; an agent's
/// fighter acts at the AI interval, a human's at the action interval.
pub proof fn law_spawned_fighter(player_id: usize, agent_controlled: bool, s: Settings)
    ensures
        spec_spawn_fighter(player_id, agent_controlled, s).player_id == player_id,
        spec_spawn_fighter(player_id, agent_controlled, s).remaining_bullet_cooldown == 0,
        !spec_spawn_fighter(player_id, agent_controlled, s).is_turning,
        spec_spawn_fighter(player_id, agent_controlled, s).shield_active <==> player_id == 0,
        player_id != 0 ==> spec_spawn_fighter(0, agent_controlled, s).bullet_cooldown < spec_spawn_fighter(
            player_id,
            agent_controlled,
            s,
        ).bullet_cooldown,
        player_id != 0 ==> spec_spawn_fighter(0, agent_controlled, s).bullet_lifetime < spec_spawn_fighter(
            player_id,
            agent_controlled,
            s,
        ).bullet_lifetime,
        agent_controlled ==> spec_spawn_fighter(player_id, agent_controlled, s).act_interval
            == s.spec_ai_act_interval(),
        !agent_controlled ==> spec_spawn_fighter(player_id, agent_controlled, s).act_interval == s.action_interval,
        spec_spawn_fighter(player_id, agent_controlled, s).shield_recharge_period > 0,
{
}

} // verus!
