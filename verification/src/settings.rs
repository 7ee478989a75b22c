use vstd::prelude::*;

verus! {

/// Whether continuous collision detection is switched on for a body.
#[derive(Clone, Copy, Debug, PartialEq, Eq, Structural)]
pub enum Ccd {
    Disabled,
    Enabled,
}

impl Default for Ccd {
    fn default() -> (r: Self)
        ensures
            r == Ccd::Disabled,
    {
        Ccd::Disabled
    }
}

/// Training-run configuration handed over by the Python side.
#[derive(Clone, Copy, Debug)]
pub struct Config {
    pub frameskip: u32,
    pub act_interval: u32,
    pub versus: bool,
    pub ccd: bool,
}

impl Config {
    pub fn new(frameskip: u32, act_interval: u32, versus: bool, ccd: bool) -> (r: Config)
        ensures
            r.frameskip == frameskip,
            r.act_interval == act_interval,
            r.versus == versus,
            r.ccd == ccd,
    {
        Config { frameskip, act_interval, versus, ccd }
    }
}

/// The integer and boolean settings of a game.  The two real-valued
/// settings (frame rate and opponent strength) belong to the physics
/// engine and are kept next to these by the caller.
#[derive(Clone, Debug)]
pub struct Settings {
    pub seed: u64,
    pub frameskip: u32,
    pub fixed_timestep: bool,
    pub random_ai: bool,
    pub agent_path: Option<String>,
    pub headless: bool,
    pub enable_logging: bool,
    pub action_interval: u32,
    pub ai_action_interval: Option<u32>,
    pub players: u32,
    pub asteroid_count: u32,
    pub continuous_collision_detection: bool,
    pub respawn_time: u32,
    pub max_game_length: u32,
    pub human_player: bool,
    /// The interval at which the number of opponents is increased by one.
    pub difficulty_ramp: u32,
    pub opponent_policy: Option<String>,
    pub physics_debug_render: bool,
    pub log_diagnostics: bool,
    pub disable_bloom: bool,
}

/// Frames per second of the default game.
pub const DEFAULT_FRAME_RATE: u32 = 90;

/// Frames between two decisions of an agent in the default game
/// (133 ms at the default frame rate).
pub const DEFAULT_AI_ACTION_INTERVAL: u32 = 12;

/// Whether the settings hold the values of a default game, with the given
/// seed, frame skip, action interval, headless flag and collision detection.
pub open spec fn default_except(
    s: Settings,
    seed: u64,
    frameskip: u32,
    action_interval: u32,
    headless: bool,
    ccd: bool,
) -> bool {
    &&& s.seed == seed
    &&& s.frameskip == frameskip
    &&& s.fixed_timestep == false
    &&& s.random_ai == false
    &&& s.agent_path is None
    &&& s.headless == headless
    &&& s.enable_logging == false
    &&& s.action_interval == action_interval
    &&& s.ai_action_interval == Some(DEFAULT_AI_ACTION_INTERVAL)
    &&& s.players == 1
    &&& s.asteroid_count == 5
    &&& s.continuous_collision_detection == ccd
    &&& s.respawn_time == 5 * DEFAULT_FRAME_RATE
    &&& s.max_game_length == 2 * 60 * DEFAULT_FRAME_RATE
    &&& s.human_player == false
    &&& s.difficulty_ramp == 10 * DEFAULT_FRAME_RATE
    &&& s.opponent_policy is None
    &&& s.physics_debug_render == false
    &&& s.log_diagnostics == false
    &&& s.disable_bloom == false
}

impl Default for Settings {
    /// One player, five asteroids, respawn after 5 seconds, 2-minute
    /// rounds and one more opponent every 10 seconds, at 90 frames per second;
    /// a human acts every frame, an agent every 12 frames.
    fn default() -> (r: Self)
        ensures
            default_except(r, 0, 1, 1, false, false),
    {
        Settings {
            seed: 0,
            frameskip: 1,
            fixed_timestep: false,
            random_ai: false,
            agent_path: None,
            headless: false,
            enable_logging: false,
            action_interval: 1,
            players: 1,
            asteroid_count: 5,
            continuous_collision_detection: false,
            respawn_time: 5 * DEFAULT_FRAME_RATE,
            max_game_length: 2 * 60 * DEFAULT_FRAME_RATE,
            human_player: false,
            difficulty_ramp: 10 * DEFAULT_FRAME_RATE,
            ai_action_interval: Some(DEFAULT_AI_ACTION_INTERVAL),
            opponent_policy: None,
            physics_debug_render: false,
            log_diagnostics: false,
            disable_bloom: false,
        }
    }
}

impl Settings {
    /// The settings of a headless training run: the default game with the
    /// run's seed, frame skip, action interval and collision detection.
    pub fn for_training(config: &Config, seed: u64) -> (r: Settings)
        ensures
            default_except(r, seed, config.frameskip, config.act_interval, true, config.ccd),
    {
        let mut s = Settings::default();
        s.seed = seed;
        s.frameskip = config.frameskip;
        s.action_interval = config.act_interval;
        s.headless = true;
        s.continuous_collision_detection = config.ccd;
        s
    }

    /// Collision detection mode given to bullets.
    pub fn ccd(&self) -> (r: Ccd)
        ensures
            r == (if self.continuous_collision_detection { Ccd::Enabled } else { Ccd::Disabled }),
    {
        if self.continuous_collision_detection {
            Ccd::Enabled
        } else {
            Ccd::Disabled
        }
    }

    pub open spec fn spec_ai_act_interval(&self) -> u32 {
        match self.ai_action_interval {
            Some(i) => i,
            None => self.action_interval,
        }
    }

    /// Number of frames between two decisions of an AI-controlled fighter.
    #[verifier::when_used_as_spec(spec_ai_act_interval)]
    pub fn ai_act_interval(&self) -> (r: u32)
        ensures
            r == self.spec_ai_act_interval(),
    {
        self.ai_action_interval.unwrap_or(self.action_interval)
    }

    /// Whether physics advances by a fixed step (several frames at once, or
    /// as fast as possible when nothing is drawn) rather than by wall time.
    pub fn uses_fixed_physics_step(&self) -> (r: bool)
        ensures
            r == (self.frameskip > 1 || self.headless),
    {
        self.frameskip > 1 || self.headless
    }
}

} // verus!
