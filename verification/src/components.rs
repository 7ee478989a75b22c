use vstd::prelude::*;
use crate::act::{FighterAction, Shoot, Thrust, Turn};
use crate::settings::Settings;
use crate::stats::Stats;
use crate::countdown::{spec_tick, to_counter, wrap_i32};

verus! {

/// Frames a bullet of player 0 flies.
pub const PLAYER_BULLET_LIFETIME: u32 = 24;
/// Frames a bullet of an opponent flies.
pub const OPPONENT_BULLET_LIFETIME: u32 = 150;
/// Frames player 0 waits between two shots.
pub const PLAYER_BULLET_COOLDOWN: u32 = 24;
/// Frames an opponent waits between two shots.
pub const OPPONENT_BULLET_COOLDOWN: u32 = 72;
/// Frames player 0's shield needs to recharge after it absorbed a hit.
pub const SHIELD_RECHARGE_PERIOD: i32 = 300;
/// Hits an asteroid takes before it breaks.
pub const ASTEROID_HEALTH: i32 = 2;

/// The game state of a fighter (its physical properties belong to the
/// physics engine).
#[derive(Clone, Copy, Debug, PartialEq, Eq, Structural)]
pub struct Fighter {
    pub bullet_cooldown: u32,
    pub bullet_lifetime: u32,
    pub remaining_bullet_cooldown: i32,
    pub player_id: usize,
    pub act_interval: u32,
    pub is_turning: bool,
    pub shield_active: bool,
    pub shield_cooldown: i32,
    pub shield_recharge_period: i32,
}

/// A freshly spawned fighter of player `player_id`: player 0 fires short-lived
/// bullets quickly and starts with its shield up; opponents fire long-lived
/// bullets slowly and have no shield.  A fighter steered by an agent acts at
/// the AI interval, one steered by a human at the action interval.
pub open spec fn spec_spawn_fighter(player_id: usize, agent_controlled: bool, s: Settings) -> Fighter {
    Fighter {
        bullet_cooldown: if player_id == 0 { PLAYER_BULLET_COOLDOWN } else { OPPONENT_BULLET_COOLDOWN },
        bullet_lifetime: if player_id == 0 { PLAYER_BULLET_LIFETIME } else { OPPONENT_BULLET_LIFETIME },
        remaining_bullet_cooldown: 0,
        player_id,
        act_interval: if agent_controlled { s.spec_ai_act_interval() } else { s.action_interval },
        is_turning: false,
        shield_active: player_id == 0,
        shield_cooldown: 0,
        shield_recharge_period: SHIELD_RECHARGE_PERIOD,
    }
}

/// What a fighter's cooldowns become after `frameskip` frames, and whether
/// its shield came back up: the gun cools down; a knocked-out shield of
/// player 0 recharges and comes back once its cooldown is used up.
pub open spec fn spec_cool_down(f: Fighter, frameskip: u32) -> (Fighter, bool) {
    let gun = f.remaining_bullet_cooldown - wrap_i32(frameskip);
    if !f.shield_active && f.player_id == 0 {
        let shield = f.shield_cooldown - wrap_i32(frameskip);
        (
            Fighter {
                remaining_bullet_cooldown: gun as i32,
                shield_cooldown: shield as i32,
                shield_active: shield <= 0,
                ..f
            },
            shield <= 0,
        )
    } else {
        (Fighter { remaining_bullet_cooldown: gun as i32, ..f }, false)
    }
}

/// Whether `spec_cool_down` stays within the counters' range.
pub open spec fn cool_down_fits(f: Fighter, frameskip: u32) -> bool {
    &&& i32::MIN <= f.remaining_bullet_cooldown - wrap_i32(frameskip) <= i32::MAX
    &&& (!f.shield_active && f.player_id == 0) ==> i32::MIN <= f.shield_cooldown - wrap_i32(frameskip) <= i32::MAX
}

/// What follows from one action of a fighter in the frame it is taken.
#[derive(Clone, Copy, Debug, PartialEq, Eq, Structural)]
pub struct ActionOutcome {
    /// Whether the engine flame of the fighter is drawn.
    pub jet_visible: bool,
    /// Whether a bullet is fired.
    pub fired: bool,
}

/// A fighter acting: it turns while the action turns; its gun fires when
/// the action shoots and the gun has cooled down, which starts a new
/// cooldown; player 0 shows its engine flame unless the engine is off.
pub open spec fn spec_act(f: Fighter, a: FighterAction) -> (Fighter, ActionOutcome) {
    let fired = a.shoot == Shoot::On && f.remaining_bullet_cooldown <= 0;
    (
        Fighter {
            is_turning: a.turn != Turn::Straight,
            remaining_bullet_cooldown: if fired {
                wrap_i32(f.bullet_cooldown) as i32
            } else {
                f.remaining_bullet_cooldown
            },
            ..f
        },
        ActionOutcome { jet_visible: f.player_id == 0 && a.thrust != Thrust::Off, fired },
    )
}

impl Fighter {
    pub fn spawn(player_id: usize, agent_controlled: bool, settings: &Settings) -> (r: Fighter)
        ensures
            r == spec_spawn_fighter(player_id, agent_controlled, *settings),
    {
        let act_interval = if agent_controlled {
            settings.ai_act_interval()
        } else {
            settings.action_interval
        };
        Fighter {
            bullet_cooldown: if player_id == 0 { PLAYER_BULLET_COOLDOWN } else { OPPONENT_BULLET_COOLDOWN },
            bullet_lifetime: if player_id == 0 { PLAYER_BULLET_LIFETIME } else { OPPONENT_BULLET_LIFETIME },
            remaining_bullet_cooldown: 0,
            player_id,
            act_interval,
            is_turning: false,
            shield_active: player_id == 0,
            shield_cooldown: 0,
            shield_recharge_period: SHIELD_RECHARGE_PERIOD,
        }
    }

    /// Frames until the gun can fire again, as shown to an agent.
    pub fn gun_cooldown(&self) -> (r: u32)
        ensures
            r == if self.remaining_bullet_cooldown > 0 { self.remaining_bullet_cooldown as int } else { 0 },
    {
        if self.remaining_bullet_cooldown > 0 {
            self.remaining_bullet_cooldown as u32
        } else {
            0
        }
    }

    /// Lets `frameskip` frames pass; true when the shield came back up.
    pub fn cool_down(&mut self, frameskip: u32) -> (shield_restored: bool)
        requires
            cool_down_fits(*old(self), frameskip),
        ensures
            (*final(self), shield_restored) == spec_cool_down(*old(self), frameskip),
    {
        let frames = to_counter(frameskip);
        self.remaining_bullet_cooldown = self.remaining_bullet_cooldown - frames;
        if !self.shield_active && self.player_id == 0 {
            self.shield_cooldown = self.shield_cooldown - frames;
            if self.shield_cooldown <= 0 {
                self.shield_active = true;
                return true;
            }
        }
        false
    }

    /// Carries out the fighter's part of an action.
    pub fn act(&mut self, action: FighterAction) -> (r: ActionOutcome)
        ensures
            (*final(self), r) == spec_act(*old(self), action),
    {
        self.is_turning = action.turn != Turn::Straight;
        let jet_visible = self.player_id == 0 && action.thrust != Thrust::Off;
        let fired = action.shoot == Shoot::On && self.remaining_bullet_cooldown <= 0;
        if fired {
            self.remaining_bullet_cooldown = to_counter(self.bullet_cooldown);
        }
        ActionOutcome { jet_visible, fired }
    }
}

/// A fighter acting within the round: a fired bullet is counted.
pub open spec fn spec_perform_action(f: Fighter, st: Stats, a: FighterAction) -> (Fighter, Stats, ActionOutcome) {
    let (f2, out) = spec_act(f, a);
    (f2, if out.fired { Stats { bullets_fired: (st.bullets_fired + 1) as usize, ..st } } else { st }, out)
}

pub fn perform_action(fighter: &mut Fighter, stats: &mut Stats, action: FighterAction) -> (r: ActionOutcome)
    requires
        spec_act(*old(fighter), action).1.fired ==> old(stats).bullets_fired < usize::MAX,
    ensures
        (*final(fighter), *final(stats), r) == spec_perform_action(*old(fighter), *old(stats), action),
{
    let r = fighter.act(action);
    if r.fired {
        stats.bullets_fired = stats.bullets_fired + 1;
    }
    r
}

/// The game state of a bullet in flight.
#[derive(Clone, Copy, Debug, PartialEq, Eq, Structural)]
pub struct Bullet {
    pub remaining_lifetime: i32,
    pub player_id: usize,
}

impl Bullet {
    pub fn new(lifetime: u32, player_id: usize) -> (r: Bullet)
        ensures
            r.remaining_lifetime == wrap_i32(lifetime),
            r.player_id == player_id,
    {
        Bullet { remaining_lifetime: to_counter(lifetime), player_id }
    }

    /// Lets `frameskip` frames pass; true when the bullet's lifetime is used
    /// up and it disappears.
    pub fn tick(&mut self, frameskip: u32) -> (expired: bool)
        requires
            i32::MIN <= old(self).remaining_lifetime - wrap_i32(frameskip) <= i32::MAX,
        ensures
            (final(self).remaining_lifetime as int, expired) == spec_tick(
                old(self).remaining_lifetime as int,
                wrap_i32(frameskip),
            ),
            final(self).player_id == old(self).player_id,
    {
        self.remaining_lifetime = self.remaining_lifetime - to_counter(frameskip);
        self.remaining_lifetime <= 0
    }
}

/// The game state of an asteroid.
#[derive(Clone, Copy, Debug, PartialEq, Eq, Structural)]
pub struct Asteroid {
    pub health: i32,
}

impl Asteroid {
    pub fn new() -> (r: Asteroid)
        ensures
            r.health == ASTEROID_HEALTH,
    {
        Asteroid { health: ASTEROID_HEALTH }
    }

    /// A bullet hits the asteroid; true when it breaks.
    pub fn hit(&mut self) -> (destroyed: bool)
        requires
            old(self).health > i32::MIN,
        ensures
            (final(self).health as int, destroyed) == spec_tick(old(self).health as int, 1),
    {
        self.health = self.health - 1;
        self.health <= 0
    }
}

/// The number of `true` entries of `s`.
pub open spec fn count_true(s: Seq<bool>) -> nat
    decreases s.len(),
{
    if s.len() == 0 {
        0
    } else {
        count_true(s.drop_last()) + if s.last() { 1nat } else { 0nat }
    }
}

/// How many asteroids to add so that `target` of them are in the arena,
/// given which of the current ones are still inside it (the others are
/// removed): none when there are already enough.
pub open spec fn spec_asteroids_to_spawn(inside: Seq<bool>, target: u32) -> int {
    if count_true(inside) < target {
        target - count_true(inside)
    } else {
        0
    }
}

pub fn asteroids_to_spawn(inside: &Vec<bool>, target: u32) -> (r: u32)
    requires
        inside@.len() <= u32::MAX,
    ensures
        r == spec_asteroids_to_spawn(inside@, target),
{
    let mut count: u32 = 0;
    let mut i: usize = 0;
    while i < inside.len()
        invariant
            i <= inside@.len(),
            inside@.len() <= u32::MAX,
            count == count_true(inside@.subrange(0, i as int)),
            count <= i,
        decreases inside@.len() - i,
    {
        proof {
            let next = inside@.subrange(0, i + 1);
            assert(next.drop_last() =~= inside@.subrange(0, i as int));
        }
        if inside[i] {
            count = count + 1;
        }
        i = i + 1;
    }
    assert(inside@.subrange(0, i as int) =~= inside@);
    if count < target {
        target - count
    } else {
        0
    }
}

} // verus!
