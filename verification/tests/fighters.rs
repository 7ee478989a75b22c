use bevy_starfighter::act::{FighterAction, Shoot, Thrust, Turn};
use bevy_starfighter::components::{
    asteroids_to_spawn, perform_action, Asteroid, Bullet, Fighter, ASTEROID_HEALTH,
};
use bevy_starfighter::settings::Settings;
use bevy_starfighter::stats::{GameClock, Highscore, Stats};

fn shoot() -> FighterAction {
    FighterAction { thrust: Thrust::On, shoot: Shoot::On, turn: Turn::QuarterLeft }
}

#[test]
fn player_zero_fighter_spawns_with_shield() {
    let mut s = Settings::default();
    s.action_interval = 2;
    s.ai_action_interval = Some(12);
    let f = Fighter::spawn(0, false, &s);
    assert_eq!(f.bullet_cooldown, 24);
    assert_eq!(f.bullet_lifetime, 24);
    assert_eq!(f.remaining_bullet_cooldown, 0);
    assert!(f.shield_active);
    assert_eq!(f.shield_recharge_period, 300);
    assert_eq!(f.act_interval, 2);
    let f = Fighter::spawn(0, true, &s);
    assert_eq!(f.act_interval, 12);
}

#[test]
fn opponent_fighter_spawns_without_shield() {
    let s = Settings::default();
    let f = Fighter::spawn(1, true, &s);
    assert_eq!(f.bullet_cooldown, 72);
    assert_eq!(f.bullet_lifetime, 150);
    assert!(!f.shield_active);
    assert_eq!(f.player_id, 1);
    assert_eq!(f.act_interval, 12);
}

#[test]
fn gun_fires_then_waits_for_cooldown() {
    let s = Settings::default();
    let mut f = Fighter::spawn(1, true, &s);
    let mut stats = Stats::default();
    let out = perform_action(&mut f, &mut stats, shoot());
    assert!(out.fired);
    assert!(!out.jet_visible);
    assert!(f.is_turning);
    assert_eq!(stats.bullets_fired, 1);
    assert_eq!(f.remaining_bullet_cooldown, 72);
    assert_eq!(f.gun_cooldown(), 72);
    // 71 frames later the gun is still warm.
    for _ in 0..71 {
        f.cool_down(1);
    }
    assert!(!perform_action(&mut f, &mut stats, shoot()).fired);
    assert_eq!(stats.bullets_fired, 1);
    f.cool_down(1);
    assert!(perform_action(&mut f, &mut stats, shoot()).fired);
    assert_eq!(stats.bullets_fired, 2);
}

#[test]
fn gun_cooldown_never_shows_negative() {
    let s = Settings::default();
    let mut f = Fighter::spawn(0, false, &s);
    f.cool_down(5);
    assert_eq!(f.remaining_bullet_cooldown, -5);
    assert_eq!(f.gun_cooldown(), 0);
}

#[test]
fn jet_shows_for_player_zero_unless_engine_off() {
    let s = Settings::default();
    let mut f = Fighter::spawn(0, false, &s);
    let mut a = FighterAction { thrust: Thrust::Stop, shoot: Shoot::Off, turn: Turn::Straight };
    assert!(f.act(a).jet_visible);
    assert!(!f.is_turning);
    a.thrust = Thrust::Off;
    assert!(!f.act(a).jet_visible);
}

#[test]
fn shield_recharges_after_its_period() {
    let s = Settings::default();
    let mut f = Fighter::spawn(0, false, &s);
    f.shield_active = false;
    f.shield_cooldown = f.shield_recharge_period;
    let mut steps = 0;
    loop {
        steps += 1;
        if f.cool_down(4) {
            break;
        }
    }
    // 300 frames at 4 frames per step: the 75th step restores the shield.
    assert_eq!(steps, 75);
    assert!(f.shield_active);
    assert_eq!(f.shield_cooldown, 0);
}

#[test]
fn opponent_shield_never_recharges() {
    let s = Settings::default();
    let mut f = Fighter::spawn(1, true, &s);
    for _ in 0..400 {
        assert!(!f.cool_down(1));
    }
    assert!(!f.shield_active);
    assert_eq!(f.shield_cooldown, 0);
}

#[test]
fn bullet_expires_after_its_lifetime() {
    let mut b = Bullet::new(24, 0);
    let mut steps = 0;
    while !b.tick(5) {
        steps += 1;
    }
    // 24 frames at 5 per step: expired in the 5th step.
    assert_eq!(steps + 1, 5);
    assert_eq!(b.remaining_lifetime, -1);
    assert_eq!(b.player_id, 0);
}

#[test]
fn asteroid_breaks_on_second_hit() {
    let mut a = Asteroid::new();
    assert_eq!(a.health, ASTEROID_HEALTH);
    assert!(!a.hit());
    assert!(a.hit());
    assert_eq!(a.health, 0);
}

#[test]
fn asteroids_are_topped_up_to_the_target() {
    assert_eq!(asteroids_to_spawn(&vec![true, false, true], 5), 3);
    assert_eq!(asteroids_to_spawn(&vec![], 5), 5);
    assert_eq!(asteroids_to_spawn(&vec![true; 7], 5), 0);
    assert_eq!(asteroids_to_spawn(&vec![true; 5], 5), 0);
}

#[test]
fn round_clock_runs_out() {
    let mut c = GameClock::new(10800);
    assert_eq!(c.remaining, 10800);
    let mut steps = 0;
    while !c.tick(4) {
        steps += 1;
    }
    assert_eq!(steps + 1, 2700);
    assert_eq!(c.remaining, 0);
}

#[test]
fn stats_count_time_and_points() {
    let mut s = Stats::default();
    s.advance_time(4);
    s.advance_time(4);
    assert_eq!(s.timesteps, 8);
    s.destroyed_asteroids = 3;
    s.destroyed_opponents = 2;
    s.destroyed_allies = 7;
    assert_eq!(s.player0_points(), 5);
}

#[test]
fn best_score_keeps_the_maximum() {
    let mut h = Highscore::new();
    h.record(3);
    assert_eq!(h.best, 3);
    h.record(1);
    assert_eq!(h.best, 3);
    h.record(8);
    assert_eq!(h.best, 8);
}

#[test]
fn frame_counts_beyond_i32_wrap_like_the_counters() {
    let c = GameClock::new(u32::MAX);
    assert_eq!(c.remaining, -1);
    let b = Bullet::new(3_000_000_000, 1);
    assert_eq!(b.remaining_lifetime, 3_000_000_000u32 as i32);
    // A frame skip read as -1 lets one frame come back.
    let mut c = GameClock::new(5);
    assert!(!c.tick(u32::MAX));
    assert_eq!(c.remaining, 6);
}

#[test]
fn one_shot_per_frame() {
    let s = Settings::default();
    let mut f = Fighter::spawn(0, false, &s);
    let mut stats = Stats::default();
    let fired = (0..4).filter(|_| perform_action(&mut f, &mut stats, shoot()).fired).count();
    assert_eq!(fired, 1);
    assert_eq!(stats.bullets_fired, 1);
    assert_eq!(f.remaining_bullet_cooldown, 24);
}
