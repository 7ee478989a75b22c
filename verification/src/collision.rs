use vstd::prelude::*;
use crate::components::{Asteroid, Fighter};
use crate::players::{Player, PlayerView, first_holder, holds_fighter, players_view, spec_remove_fighter, remove_fighter};
use crate::stats::Stats;
use crate::countdown::spec_tick;

verus! {

/// The kind of a body that takes part in a collision.
#[derive(Clone, Copy, Debug, PartialEq, Eq, Structural)]
pub enum CollisionType {
    Asteroid,
    Fighter,
    Bullet,
}

/// A body that takes part in a collision, with the player that owns it.
#[derive(Clone, Copy, Debug, PartialEq, Eq, Structural)]
pub enum Body {
    Asteroid,
    Fighter { player_id: usize },
    Bullet { player_id: usize },
}

impl Body {
    pub open spec fn spec_kind(&self) -> CollisionType {
        match self {
            Body::Asteroid => CollisionType::Asteroid,
            Body::Fighter { .. } => CollisionType::Fighter,
            Body::Bullet { .. } => CollisionType::Bullet,
        }
    }

    #[verifier::when_used_as_spec(spec_kind)]
    pub fn kind(&self) -> (r: CollisionType)
        ensures
            r == self.spec_kind(),
    {
        match self {
            Body::Asteroid => CollisionType::Asteroid,
            Body::Fighter { .. } => CollisionType::Fighter,
            Body::Bullet { .. } => CollisionType::Bullet,
        }
    }
}

/// One of the two bodies of a collision.
#[derive(Clone, Copy, Debug, PartialEq, Eq, Structural)]
pub enum Side {
    First,
    Second,
}

pub open spec fn other_side(s: Side) -> Side {
    match s {
        Side::First => Side::Second,
        Side::Second => Side::First,
    }
}

/// What the game does about a collision that just started.
#[derive(Clone, Copy, Debug, PartialEq, Eq, Structural)]
pub enum CollisionResponse {
    /// Nothing happens.
    Ignore,
    /// The fighter on this side takes a hit, and the other body (an
    /// asteroid or a bullet) disappears.
    HitFighter { fighter: Side },
    /// The asteroid on this side takes a hit from the bullet on the other
    /// side, which disappears.
    BulletHitsAsteroid { asteroid: Side },
    /// Two bullets meet: a bullet of player 0 destroys the other one.
    BulletsCollide { despawn_first: bool, despawn_second: bool },
}

/// The rules of collision: a fighter is hit by asteroids and by the
/// bullets of other players; bullets damage asteroids; a bullet of player 0
/// destroys any bullet it meets; everything else passes.
pub open spec fn spec_resolve_collision(a: Body, b: Body) -> CollisionResponse {
    match (a, b) {
        (Body::Fighter { .. }, Body::Asteroid) => CollisionResponse::HitFighter { fighter: Side::First },
        (Body::Asteroid, Body::Fighter { .. }) => CollisionResponse::HitFighter { fighter: Side::Second },
        (Body::Bullet { .. }, Body::Asteroid) => CollisionResponse::BulletHitsAsteroid { asteroid: Side::Second },
        (Body::Asteroid, Body::Bullet { .. }) => CollisionResponse::BulletHitsAsteroid { asteroid: Side::First },
        (Body::Fighter { player_id: p }, Body::Bullet { player_id: q }) => if p != q {
            CollisionResponse::HitFighter { fighter: Side::First }
        } else {
            CollisionResponse::Ignore
        },
        (Body::Bullet { player_id: q }, Body::Fighter { player_id: p }) => if p != q {
            CollisionResponse::HitFighter { fighter: Side::Second }
        } else {
            CollisionResponse::Ignore
        },
        (Body::Bullet { player_id: p }, Body::Bullet { player_id: q }) => CollisionResponse::BulletsCollide {
            despawn_first: q == 0,
            despawn_second: p == 0,
        },
        _ => CollisionResponse::Ignore,
    }
}

/// The same response seen with the two bodies swapped.
pub open spec fn mirror_response(r: CollisionResponse) -> CollisionResponse {
    match r {
        CollisionResponse::Ignore => CollisionResponse::Ignore,
        CollisionResponse::HitFighter { fighter } => CollisionResponse::HitFighter { fighter: other_side(fighter) },
        CollisionResponse::BulletHitsAsteroid { asteroid } => CollisionResponse::BulletHitsAsteroid {
            asteroid: other_side(asteroid),
        },
        CollisionResponse::BulletsCollide { despawn_first, despawn_second } => CollisionResponse::BulletsCollide {
            despawn_first: despawn_second,
            despawn_second: despawn_first,
        },
    }
}

pub fn resolve_collision(a: Body, b: Body) -> (r: CollisionResponse)
    ensures
        r == spec_resolve_collision(a, b),
{
    match (a, b) {
        (Body::Fighter { .. }, Body::Asteroid) => CollisionResponse::HitFighter { fighter: Side::First },
        (Body::Asteroid, Body::Fighter { .. }) => CollisionResponse::HitFighter { fighter: Side::Second },
        (Body::Bullet { .. }, Body::Asteroid) => CollisionResponse::BulletHitsAsteroid { asteroid: Side::Second },
        (Body::Asteroid, Body::Bullet { .. }) => CollisionResponse::BulletHitsAsteroid { asteroid: Side::First },
        (Body::Fighter { player_id: p }, Body::Bullet { player_id: q }) => if p != q {
            CollisionResponse::HitFighter { fighter: Side::First }
        } else {
            CollisionResponse::Ignore
        },
        (Body::Bullet { player_id: q }, Body::Fighter { player_id: p }) => if p != q {
            CollisionResponse::HitFighter { fighter: Side::Second }
        } else {
            CollisionResponse::Ignore
        },
        (Body::Bullet { player_id: p }, Body::Bullet { player_id: q }) => CollisionResponse::BulletsCollide {
            despawn_first: q == 0,
            despawn_second: p == 0,
        },
        _ => CollisionResponse::Ignore,
    }
}

/// What a hit did to a fighter.
#[derive(Clone, Copy, Debug, PartialEq, Eq, Structural)]
pub enum HitOutcome {
    /// The shield took the hit and went down.
    ShieldAbsorbed,
    /// The fighter is destroyed; the round is over when it was player 0's.
    Destroyed { game_over: bool },
    /// The fighter was already taken out of the game earlier.
    AlreadyDestroyed,
}

/// A fighter `id` taking a hit: an active shield absorbs it and starts to
/// recharge; otherwise the fighter leaves its player and is destroyed,
/// counted as a hit and as a destroyed ally (player 0, which ends the round)
/// or opponent; a fighter that no player has any more is left alone.
pub open spec fn spec_take_hit(
    f: Fighter,
    ps: Seq<PlayerView>,
    st: Stats,
    id: u64,
) -> (Fighter, Seq<PlayerView>, Stats, HitOutcome) {
    if f.shield_active {
        (
            Fighter { shield_active: false, shield_cooldown: f.shield_recharge_period, ..f },
            ps,
            st,
            HitOutcome::ShieldAbsorbed,
        )
    } else {
        let (ps2, found) = spec_remove_fighter(ps, id);
        if !found {
            (f, ps, st, HitOutcome::AlreadyDestroyed)
        } else if f.player_id == 0 {
            (
                f,
                ps2,
                Stats {
                    bullet_hits: (st.bullet_hits + 1) as usize,
                    destroyed_allies: (st.destroyed_allies + 1) as usize,
                    ..st
                },
                HitOutcome::Destroyed { game_over: true },
            )
        } else {
            (
                f,
                ps2,
                Stats {
                    bullet_hits: (st.bullet_hits + 1) as usize,
                    destroyed_opponents: (st.destroyed_opponents + 1) as usize,
                    ..st
                },
                HitOutcome::Destroyed { game_over: false },
            )
        }
    }
}

/// The counters that destroying a fighter of player `player_id` raises
/// have room for one more.
pub open spec fn room_for_hit(st: Stats, player_id: usize) -> bool {
    &&& st.bullet_hits < usize::MAX
    &&& player_id == 0 ==> st.destroyed_allies < usize::MAX
    &&& player_id != 0 ==> st.destroyed_opponents < usize::MAX
}

pub fn take_hit(
    fighter: &mut Fighter,
    id: u64,
    players: &mut Vec<Player>,
    stats: &mut Stats,
) -> (r: HitOutcome)
    requires
        !old(fighter).shield_active && holds_fighter(players_view(old(players)@), id) ==> room_for_hit(
            *old(stats),
            old(fighter).player_id,
        ),
    ensures
        (*final(fighter), players_view(final(players)@), *final(stats), r) == spec_take_hit(
            *old(fighter),
            players_view(old(players)@),
            *old(stats),
            id,
        ),
{
    if fighter.shield_active {
        fighter.shield_active = false;
        fighter.shield_cooldown = fighter.shield_recharge_period;
        return HitOutcome::ShieldAbsorbed;
    }
    let ghost ps = players_view(players@);
    let found = remove_fighter(players, id);
    if !found {
        return HitOutcome::AlreadyDestroyed;
    }
    proof {
        let k = choose|k: int| first_holder(ps, id, k);
        assert(ps[k].ids.contains(id));
        assert(holds_fighter(ps, id));
    }
    stats.bullet_hits = stats.bullet_hits + 1;
    if fighter.player_id == 0 {
        stats.destroyed_allies = stats.destroyed_allies + 1;
        HitOutcome::Destroyed { game_over: true }
    } else {
        stats.destroyed_opponents = stats.destroyed_opponents + 1;
        HitOutcome::Destroyed { game_over: false }
    }
}

/// A bullet hitting an asteroid of health `health`: the hit is counted and
/// the asteroid loses one health; when none is left it breaks and counts
/// as destroyed.  Gives the new health, counters and whether it broke.
pub open spec fn spec_bullet_hits_asteroid(health: int, st: Stats) -> (int, Stats, bool) {
    let (h, destroyed) = spec_tick(health, 1);
    (
        h,
        if destroyed {
            Stats {
                bullet_hits: (st.bullet_hits + 1) as usize,
                destroyed_asteroids: (st.destroyed_asteroids + 1) as usize,
                ..st
            }
        } else {
            Stats { bullet_hits: (st.bullet_hits + 1) as usize, ..st }
        },
        destroyed,
    )
}

pub fn bullet_hits_asteroid(asteroid: &mut Asteroid, stats: &mut Stats) -> (destroyed: bool)
    requires
        old(asteroid).health > i32::MIN,
        old(stats).bullet_hits < usize::MAX,
        old(asteroid).health - 1 <= 0 ==> old(stats).destroyed_asteroids < usize::MAX,
    ensures
        (final(asteroid).health as int, *final(stats), destroyed) == spec_bullet_hits_asteroid(
            old(asteroid).health as int,
            *old(stats),
        ),
{
    let destroyed = asteroid.hit();
    stats.bullet_hits = stats.bullet_hits + 1;
    if destroyed {
        stats.destroyed_asteroids = stats.destroyed_asteroids + 1;
    }
    destroyed
}

} // verus!
