use bevy_starfighter::act::{
    is_action_tick, keyboard_command, keys_to_action, pair_actions, FighterAction, PressedKeys,
    Shoot, Thrust, Turn,
};
use bevy_starfighter::settings::{Ccd, Config, Settings};

fn no_keys() -> PressedKeys {
    PressedKeys {
        up: false,
        w: false,
        down: false,
        s: false,
        left: false,
        a: false,
        right: false,
        d: false,
        space: false,
    }
}

#[test]
fn default_settings_match_a_ninety_fps_game() {
    let s = Settings::default();
    assert_eq!(s.seed, 0);
    assert_eq!(s.frameskip, 1);
    assert_eq!(s.action_interval, 1);
    assert_eq!(s.ai_action_interval, Some(12));
    assert_eq!(s.ai_act_interval(), 12);
    assert_eq!(s.players, 1);
    assert_eq!(s.asteroid_count, 5);
    assert_eq!(s.respawn_time, 450);
    assert_eq!(s.max_game_length, 10800);
    assert_eq!(s.difficulty_ramp, 900);
    assert!(!s.human_player);
    assert!(!s.continuous_collision_detection);
    assert!(s.agent_path.is_none());
    assert!(s.opponent_policy.is_none());
}

#[test]
fn training_settings_take_the_run_configuration() {
    let config = Config::new(4, 12, true, true);
    let s = Settings::for_training(&config, 77);
    assert_eq!(s.seed, 77);
    assert_eq!(s.frameskip, 4);
    assert_eq!(s.action_interval, 12);
    assert!(s.headless);
    assert!(s.continuous_collision_detection);
    assert_eq!(s.players, 1);
    assert_eq!(s.max_game_length, 10800);
    assert_eq!(s.ccd(), Ccd::Enabled);
    assert!(s.uses_fixed_physics_step());
}

#[test]
fn ccd_defaults_to_disabled() {
    assert_eq!(Ccd::default(), Ccd::Disabled);
    assert_eq!(Settings::default().ccd(), Ccd::Disabled);
}

#[test]
fn physics_step_is_fixed_with_frameskip_or_headless() {
    let mut s = Settings::default();
    assert!(!s.uses_fixed_physics_step());
    s.frameskip = 4;
    assert!(s.uses_fixed_physics_step());
    s.frameskip = 1;
    s.headless = true;
    assert!(s.uses_fixed_physics_step());
}

#[test]
fn ai_interval_falls_back_to_action_interval() {
    let mut s = Settings::default();
    s.action_interval = 3;
    s.ai_action_interval = None;
    assert_eq!(s.ai_act_interval(), 3);
    s.ai_action_interval = Some(12);
    assert_eq!(s.ai_act_interval(), 12);
}

#[test]
fn action_ticks_are_multiples_of_the_interval() {
    assert!(is_action_tick(24, 12));
    assert!(!is_action_tick(25, 12));
    assert!(is_action_tick(0, 12));
    assert!(is_action_tick(10800, 12));
    // Negative remaining time is read as an unsigned number.
    assert!(is_action_tick(-1, 3));
    assert!(!is_action_tick(-1, 2));
    assert!(is_action_tick(-2, 2));
}

#[test]
fn action_frames_repeat_every_interval() {
    let interval = 12;
    let ticks: Vec<i32> = (0..100).filter(|t| is_action_tick(*t, interval)).collect();
    assert_eq!(ticks, vec![0, 12, 24, 36, 48, 60, 72, 84, 96]);
}

#[test]
fn keys_map_to_actions() {
    let mut k = no_keys();
    k.w = true;
    k.a = true;
    k.space = true;
    let a = keys_to_action(&k);
    assert_eq!(a.thrust, Thrust::On);
    assert_eq!(a.turn, Turn::Left);
    assert_eq!(a.shoot, Shoot::On);

    let mut k = no_keys();
    k.down = true;
    k.right = true;
    let a = keys_to_action(&k);
    assert_eq!(a.thrust, Thrust::Stop);
    assert_eq!(a.turn, Turn::Right);
    assert_eq!(a.shoot, Shoot::Off);

    // Up wins over down, left over right.
    let mut k = no_keys();
    k.up = true;
    k.s = true;
    k.left = true;
    k.d = true;
    let a = keys_to_action(&k);
    assert_eq!(a.thrust, Thrust::On);
    assert_eq!(a.turn, Turn::Left);
}

#[test]
fn keyboard_command_goes_to_the_first_fighter_on_action_frames() {
    let mut k = no_keys();
    k.space = true;
    let fighters = vec![41u64, 42];
    let r = keyboard_command(&k, 24, 12, true, &fighters);
    assert_eq!(
        r,
        Some((
            FighterAction { thrust: Thrust::Off, shoot: Shoot::On, turn: Turn::Straight },
            41
        ))
    );
    assert_eq!(keyboard_command(&k, 25, 12, true, &fighters), None);
    assert_eq!(keyboard_command(&k, 24, 12, true, &vec![]), None);
}

#[test]
fn idle_keyboard_is_sent_only_without_agent() {
    let k = no_keys();
    let fighters = vec![7u64];
    assert_eq!(keyboard_command(&k, 10, 1, true, &fighters), None);
    assert_eq!(
        keyboard_command(&k, 10, 1, false, &fighters),
        Some((
            FighterAction { thrust: Thrust::Off, shoot: Shoot::Off, turn: Turn::Straight },
            7
        ))
    );
}

#[test]
fn turn_quarter_steps() {
    assert_eq!(Turn::Left.quarter_steps(), 4);
    assert_eq!(Turn::QuarterLeft.quarter_steps(), 1);
    assert_eq!(Turn::Right.quarter_steps(), -4);
    assert_eq!(Turn::QuarterRight.quarter_steps(), -1);
    assert_eq!(Turn::Straight.quarter_steps(), 0);
}

#[test]
fn actions_pair_with_fighters_in_order() {
    let a = FighterAction { thrust: Thrust::On, shoot: Shoot::Off, turn: Turn::Straight };
    let b = FighterAction { thrust: Thrust::Stop, shoot: Shoot::On, turn: Turn::Right };
    assert_eq!(pair_actions(&vec![a, b], &vec![5, 6, 7]), vec![(a, 5), (b, 6)]);
    assert_eq!(pair_actions(&vec![a, b], &vec![9]), vec![(a, 9)]);
    assert_eq!(pair_actions(&vec![], &vec![9]), vec![]);
}
