use vstd::prelude::*;

verus! {

/// What a fighter does with its engine during one action.
#[derive(Clone, Copy, Debug, PartialEq, Eq, Structural)]
pub enum Thrust {
    On,
    Off,
    Stop,
}

/// How a fighter turns during one action.
#[derive(Clone, Copy, Debug, PartialEq, Eq, Structural)]
pub enum Turn {
    Left,
    QuarterLeft,
    Right,
    QuarterRight,
    Straight,
}

/// Whether a fighter pulls the trigger during one action.
#[derive(Clone, Copy, Debug, PartialEq, Eq, Structural)]
pub enum Shoot {
    On,
    Off,
}

/// One decision of a player, human or AI, for one fighter.
#[derive(Clone, Copy, Debug, PartialEq, Eq, Structural)]
pub struct FighterAction {
    pub thrust: Thrust,
    pub shoot: Shoot,
    pub turn: Turn,
}

pub open spec fn spec_quarter_steps(t: Turn) -> int {
    match t {
        Turn::Left => 4,
        Turn::QuarterLeft => 1,
        Turn::Right => -4,
        Turn::QuarterRight => -1,
        Turn::Straight => 0,
    }
}

impl Turn {
    /// The change of angular velocity per frame, in quarters of the
    /// fighter's turn acceleration (counter-clockwise is positive).
    pub fn quarter_steps(&self) -> (r: i32)
        ensures
            r == spec_quarter_steps(*self),
    {
        match self {
            Turn::Left => 4,
            Turn::QuarterLeft => 1,
            Turn::Right => -4,
            Turn::QuarterRight => -1,
            Turn::Straight => 0,
        }
    }
}

/// The frame counter read as an unsigned 32-bit number, as the game does
/// when it decides whether a frame is an action frame.
pub open spec fn frame_as_u32(remaining_time: i32) -> int {
    if remaining_time >= 0 {
        remaining_time as int
    } else {
        remaining_time + 0x1_0000_0000
    }
}

/// A frame is an action frame when the remaining time, read as `u32`,
/// is a multiple of the action interval.
pub open spec fn spec_is_action_tick(remaining_time: i32, interval: u32) -> bool {
    frame_as_u32(remaining_time) % (interval as int) == 0
}

/// Whether actions are taken in the frame with this much remaining time.
pub fn is_action_tick(remaining_time: i32, interval: u32) -> (r: bool)
    requires
        interval > 0,
    ensures
        r == spec_is_action_tick(remaining_time, interval),
{
    if remaining_time >= 0 {
        let t: u32 = remaining_time as u32;
        t % interval == 0
    } else {
        let t: u64 = (remaining_time as i64 + 0x1_0000_0000i64) as u64;
        t % (interval as u64) == 0
    }
}

/// The keys that steer the human-controlled fighter, as pressed in one frame.
#[derive(Clone, Copy, Debug)]
pub struct PressedKeys {
    pub up: bool,
    pub w: bool,
    pub down: bool,
    pub s: bool,
    pub left: bool,
    pub a: bool,
    pub right: bool,
    pub d: bool,
    pub space: bool,
}

/// The action that a set of pressed keys asks for: up or W thrusts, down or
/// S brakes; left or A turns left, right or D turns right; space shoots.
pub open spec fn spec_keys_to_action(k: PressedKeys) -> FighterAction {
    FighterAction {
        thrust: if k.up || k.w {
            Thrust::On
        } else if k.down || k.s {
            Thrust::Stop
        } else {
            Thrust::Off
        },
        turn: if k.left || k.a {
            Turn::Left
        } else if k.right || k.d {
            Turn::Right
        } else {
            Turn::Straight
        },
        shoot: if k.space {
            Shoot::On
        } else {
            Shoot::Off
        },
    }
}

pub fn keys_to_action(k: &PressedKeys) -> (r: FighterAction)
    ensures
        r == spec_keys_to_action(*k),
{
    let thrust = if k.up || k.w {
        Thrust::On
    } else if k.down || k.s {
        Thrust::Stop
    } else {
        Thrust::Off
    };
    let turn = if k.left || k.a {
        Turn::Left
    } else if k.right || k.d {
        Turn::Right
    } else {
        Turn::Straight
    };
    let shoot = if k.space {
        Shoot::On
    } else {
        Shoot::Off
    };
    FighterAction { thrust, shoot, turn }
}

/// Whether an action does anything: it thrusts, brakes, turns or shoots.
pub open spec fn is_active(a: FighterAction) -> bool {
    a.thrust != Thrust::Off || a.turn != Turn::Straight || a.shoot != Shoot::Off
}

/// The keyboard action sent to player 0's first fighter in a frame: only
/// on action frames, only while player 0 has a fighter, and only when the
/// keys ask for something or no agent steers player 0 (then the idle
/// action is sent too).
pub open spec fn spec_keyboard_command(
    keys: PressedKeys,
    remaining_time: i32,
    action_interval: u32,
    player0_has_agent: bool,
    player0_fighters: Seq<u64>,
) -> Option<(FighterAction, u64)> {
    let action = spec_keys_to_action(keys);
    if spec_is_action_tick(remaining_time, action_interval) && (is_active(action)
        || !player0_has_agent) && player0_fighters.len() > 0 {
        Some((action, player0_fighters[0]))
    } else {
        None
    }
}

pub fn keyboard_command(
    keys: &PressedKeys,
    remaining_time: i32,
    action_interval: u32,
    player0_has_agent: bool,
    player0_fighters: &Vec<u64>,
) -> (r: Option<(FighterAction, u64)>)
    requires
        action_interval > 0,
    ensures
        r == spec_keyboard_command(
            *keys,
            remaining_time,
            action_interval,
            player0_has_agent,
            player0_fighters@,
        ),
{
    if !is_action_tick(remaining_time, action_interval) {
        return None;
    }
    let action = keys_to_action(keys);
    if (action.thrust != Thrust::Off || action.turn != Turn::Straight || action.shoot != Shoot::Off
        || !player0_has_agent) && player0_fighters.len() > 0 {
        Some((action, player0_fighters[0]))
    } else {
        None
    }
}

/// Pairs the actions an agent returned with the fighters it steers, in
/// order; extra actions or fighters are left out.
pub fn pair_actions(actions: &Vec<FighterAction>, fighters: &Vec<u64>) -> (r: Vec<(FighterAction, u64)>)
    ensures
        r@.len() == if actions@.len() <= fighters@.len() {
            actions@.len()
        } else {
            fighters@.len()
        },
        forall|i: int| 0 <= i < r@.len() ==> #[trigger] r@[i] == (actions@[i], fighters@[i]),
{
    let mut r: Vec<(FighterAction, u64)> = Vec::new();
    let mut i: usize = 0;
    while i < actions.len() && i < fighters.len()
        invariant
            i <= actions@.len(),
            i <= fighters@.len(),
            r@.len() == i,
            forall|j: int| 0 <= j < i ==> #[trigger] r@[j] == (actions@[j], fighters@[j]),
        decreases actions@.len() - i,
    {
        r.push((actions[i], fighters[i]));
        i = i + 1;
    }
    r
}

} // verus!
