use vstd::prelude::*;
use crate::act::{is_action_tick, spec_is_action_tick};
use crate::players::Player;
use crate::settings::Settings;
use vstd::string::StringExecFns;

verus! {

/// Who steers a player.
#[derive(Clone, Copy, Debug, PartialEq, Eq, Structural)]
pub enum AgentSource {
    /// The `i`-th agent handed to the game.
    Given(usize),
    /// Nobody: the keyboard, for a human player, or an opponent that idles
    /// until a policy is assigned to it.
    NoAgent,
    /// The agent stored at the settings' agent path.
    Load,
    /// An agent that acts at random.
    Random,
}

/// Who steers the remaining players when the handed agents are used up.
pub open spec fn spec_filler(s: Settings) -> AgentSource {
    if s.agent_path is Some {
        AgentSource::Load
    } else if s.random_ai {
        AgentSource::Random
    } else {
        AgentSource::NoAgent
    }
}

/// The players of a game, in order: the handed agents, then the human
/// player if there is one, then filler players up to the number of players
/// the settings ask for.
pub open spec fn spec_plan_agents(given: nat, s: Settings) -> Seq<AgentSource> {
    let base = Seq::new(given, |i: int| AgentSource::Given(i as usize)) + if s.human_player {
        seq![AgentSource::NoAgent]
    } else {
        Seq::<AgentSource>::empty()
    };
    if base.len() < s.players {
        base + Seq::new((s.players - base.len()) as nat, |i: int| spec_filler(s))
    } else {
        base
    }
}

pub fn plan_agents(given: usize, settings: &Settings) -> (r: Vec<AgentSource>)
    ensures
        r@ == spec_plan_agents(given as nat, *settings),
{
    let mut r: Vec<AgentSource> = Vec::new();
    let mut i: usize = 0;
    while i < given
        invariant
            i <= given,
            r@ == Seq::new(i as nat, |k: int| AgentSource::Given(k as usize)),
        decreases given - i,
    {
        r.push(AgentSource::Given(i));
        i = i + 1;
        assert(r@ =~= Seq::new(i as nat, |k: int| AgentSource::Given(k as usize)));
    }
    if settings.human_player {
        r.push(AgentSource::NoAgent);
    }
    let ghost base = r@;
    assert(base =~= Seq::new(given as nat, |k: int| AgentSource::Given(k as usize)) + if settings.human_player {
        seq![AgentSource::NoAgent]
    } else {
        Seq::<AgentSource>::empty()
    });
    let filler = if settings.agent_path.is_some() {
        AgentSource::Load
    } else if settings.random_ai {
        AgentSource::Random
    } else {
        AgentSource::NoAgent
    };
    let players = settings.players as usize;
    while r.len() < players
        invariant
            players == settings.players,
            filler == spec_filler(*settings),
            base.len() <= r@.len(),
            base.len() < players ==> r@.len() <= players,
            base.len() >= players ==> r@.len() == base.len(),
            r@ == base + Seq::new((r@.len() - base.len()) as nat, |k: int| spec_filler(*settings)),
        decreases players - r@.len(),
    {
        let ghost before = r@;
        r.push(filler);
        assert(r@ =~= base + Seq::new((r@.len() - base.len()) as nat, |k: int| spec_filler(*settings)));
    }
    proof {
        if base.len() >= players {
            assert(r@ =~= base);
        }
    }
    r
}

/// The players that receive the opponent policy once it is loaded: none
/// while the last player already has an agent; otherwise every player but
/// player 0 when player 0 is human, and every player when nobody is.
pub open spec fn spec_policy_recipients(has_agent: Seq<bool>, human_player: bool) -> Seq<usize> {
    if has_agent.last() {
        Seq::empty()
    } else if human_player {
        Seq::new((has_agent.len() - 1) as nat, |i: int| (i + 1) as usize)
    } else {
        Seq::new(has_agent.len(), |i: int| i as usize)
    }
}

pub fn policy_recipients(has_agent: &Vec<bool>, human_player: bool) -> (r: Vec<usize>)
    requires
        has_agent@.len() > 0,
    ensures
        r@ == spec_policy_recipients(has_agent@, human_player),
{
    let n = has_agent.len();
    let mut r: Vec<usize> = Vec::new();
    if has_agent[n - 1] {
        return r;
    }
    let mut i: usize = 0;
    while i < n
        invariant
            n == has_agent@.len(),
            i <= n,
            r@ == if human_player {
                Seq::new((if i == 0 { 0 } else { i - 1 }) as nat, |k: int| (k + 1) as usize)
            } else {
                Seq::new(i as nat, |k: int| k as usize)
            },
        decreases n - i,
    {
        if i > 0 || !human_player {
            r.push(i);
        }
        i = i + 1;
        assert(r@ =~= if human_player {
            Seq::new((if i == 0 { 0 } else { i - 1 }) as nat, |k: int| (k + 1) as usize)
        } else {
            Seq::new(i as nat, |k: int| k as usize)
        });
    }
    r
}

/// `r` lists, in increasing order, exactly the indices below `n` that
/// satisfy `has_agent`.
pub open spec fn lists_agent_players(r: Seq<usize>, has_agent: Seq<bool>) -> bool {
    &&& forall|a: int, b: int| 0 <= a < b < r.len() ==> r[a] < r[b]
    &&& forall|a: int| 0 <= a < r.len() ==> (r[a] < has_agent.len() && #[trigger] has_agent[r[a] as int])
    &&& forall|i: int| 0 <= i < has_agent.len() && #[trigger] has_agent[i] ==> r.contains(i as usize)
}

/// Whether agents act in this frame: only on AI action frames, and not
/// while the only player is an agent without a fighter.
pub open spec fn spec_agents_act(
    remaining_time: i32,
    s: Settings,
    has_agent: Seq<bool>,
    player0_fighters: nat,
) -> bool {
    spec_is_action_tick(remaining_time, s.spec_ai_act_interval()) && !(has_agent.len() == 1
        && has_agent[0] && player0_fighters == 0)
}

/// The players whose agents are asked for an action in this frame.
pub fn acting_agents(players: &Vec<Player>, has_agent: &Vec<bool>, remaining_time: i32, settings: &Settings) -> (r: Vec<usize>)
    requires
        has_agent@.len() == players@.len(),
        settings.spec_ai_act_interval() > 0,
    ensures
        spec_agents_act(
            remaining_time,
            *settings,
            has_agent@,
            if players@.len() > 0 { players@[0]@.ids.len() } else { 0 },
        ) ==> lists_agent_players(r@, has_agent@),
        !spec_agents_act(
            remaining_time,
            *settings,
            has_agent@,
            if players@.len() > 0 { players@[0]@.ids.len() } else { 0 },
        ) ==> r@.len() == 0,
{
    let mut r: Vec<usize> = Vec::new();
    if !is_action_tick(remaining_time, settings.ai_act_interval()) {
        return r;
    }
    let n = has_agent.len();
    if n == 1 && has_agent[0] && players[0].ids.len() == 0 {
        return r;
    }
    let mut i: usize = 0;
    while i < n
        invariant
            n == has_agent@.len(),
            i <= n,
            forall|a: int, b: int| 0 <= a < b < r@.len() ==> r@[a] < r@[b],
            forall|a: int| 0 <= a < r@.len() ==> #[trigger] r@[a] < i,
            forall|a: int| 0 <= a < r@.len() ==> #[trigger] has_agent@[r@[a] as int],
            forall|k: int| 0 <= k < i && #[trigger] has_agent@[k] ==> r@.contains(k as usize),
        decreases n - i,
    {
        let ghost before = r@;
        if has_agent[i] {
            r.push(i);
            assert forall|a: int, b: int| 0 <= a < b < r@.len() implies r@[a] < r@[b] by {
                assert(r@[a] == before[a]);
                if b < before.len() {
                    assert(r@[b] == before[b]);
                } else {
                    assert(before[a] < i);
                }
            }
            assert forall|a: int| 0 <= a < r@.len() implies #[trigger] r@[a] < i + 1 by {
                if a < before.len() {
                    assert(r@[a] == before[a]);
                    assert(before[a] < i);
                }
            }
            assert forall|a: int| 0 <= a < r@.len() implies #[trigger] has_agent@[r@[a] as int] by {
                if a < before.len() {
                    assert(r@[a] == before[a]);
                }
            }
            assert(r@[before.len() as int] == i);
        }
        assert forall|k: int| 0 <= k < i + 1 && #[trigger] has_agent@[k] implies r@.contains(k as usize) by {
            if k < i {
                assert(before.contains(k as usize));
                let w = choose|w: int| 0 <= w < before.len() && before[w] == k as usize;
                assert(r@[w] == before[w]);
            } else {
                assert(r@[r@.len() - 1] == i);
            }
        }
        i = i + 1;
    }
    r
}

/// The asset that holds the opponent policy called `name`.
pub fn policy_asset_path(name: &str) -> (r: String)
    ensures
        r@ == "policies/"@ + name@ + ".roguenet"@,
{
    let r = String::from_str("policies/");
    let r = r.concat(name);
    r.concat(".roguenet")
}

} // verus!
