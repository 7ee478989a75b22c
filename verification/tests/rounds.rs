use bevy_starfighter::agents::{acting_agents, plan_agents, policy_asset_path, policy_recipients, AgentSource};
use bevy_starfighter::collision::{
    bullet_hits_asteroid, resolve_collision, take_hit, Body, CollisionResponse, CollisionType,
    HitOutcome, Side,
};
use bevy_starfighter::components::{Asteroid, Fighter};
use bevy_starfighter::players::{
    has_fighter, remove_fighter, reset_round, respawn_players, respawn_step_fits, target_fighter_count, Player,
};
use bevy_starfighter::random::{choose_spawn_edge, edge_of, SpawnEdge};
use bevy_starfighter::settings::Settings;
use bevy_starfighter::stats::{GameClock, Stats};
use rand::rngs::SmallRng;
use rand::SeedableRng;

fn player(ids: Vec<u64>) -> Player {
    let mut p = Player::new();
    for id in ids {
        p.add_fighter(id);
    }
    p
}

#[test]
fn collision_rules() {
    let f0 = Body::Fighter { player_id: 0 };
    let f1 = Body::Fighter { player_id: 1 };
    let b0 = Body::Bullet { player_id: 0 };
    let b1 = Body::Bullet { player_id: 1 };
    let a = Body::Asteroid;
    assert_eq!(resolve_collision(f0, a), CollisionResponse::HitFighter { fighter: Side::First });
    assert_eq!(resolve_collision(a, f1), CollisionResponse::HitFighter { fighter: Side::Second });
    assert_eq!(resolve_collision(b1, a), CollisionResponse::BulletHitsAsteroid { asteroid: Side::Second });
    assert_eq!(resolve_collision(a, b0), CollisionResponse::BulletHitsAsteroid { asteroid: Side::First });
    assert_eq!(resolve_collision(f0, b1), CollisionResponse::HitFighter { fighter: Side::First });
    assert_eq!(resolve_collision(b0, f1), CollisionResponse::HitFighter { fighter: Side::Second });
    assert_eq!(resolve_collision(f0, b0), CollisionResponse::Ignore);
    assert_eq!(resolve_collision(b1, f1), CollisionResponse::Ignore);
    assert_eq!(
        resolve_collision(b0, b1),
        CollisionResponse::BulletsCollide { despawn_first: false, despawn_second: true }
    );
    assert_eq!(
        resolve_collision(b1, b0),
        CollisionResponse::BulletsCollide { despawn_first: true, despawn_second: false }
    );
    assert_eq!(
        resolve_collision(b1, b1),
        CollisionResponse::BulletsCollide { despawn_first: false, despawn_second: false }
    );
    assert_eq!(resolve_collision(f0, f1), CollisionResponse::Ignore);
    assert_eq!(resolve_collision(a, a), CollisionResponse::Ignore);
    assert_eq!(f1.kind(), CollisionType::Fighter);
}

#[test]
fn collision_rules_are_symmetric() {
    let bodies = [
        Body::Asteroid,
        Body::Fighter { player_id: 0 },
        Body::Fighter { player_id: 1 },
        Body::Bullet { player_id: 0 },
        Body::Bullet { player_id: 1 },
    ];
    for a in bodies {
        for b in bodies {
            let mirrored = match resolve_collision(a, b) {
                CollisionResponse::Ignore => CollisionResponse::Ignore,
                CollisionResponse::HitFighter { fighter } => CollisionResponse::HitFighter {
                    fighter: if fighter == Side::First { Side::Second } else { Side::First },
                },
                CollisionResponse::BulletHitsAsteroid { asteroid } => CollisionResponse::BulletHitsAsteroid {
                    asteroid: if asteroid == Side::First { Side::Second } else { Side::First },
                },
                CollisionResponse::BulletsCollide { despawn_first, despawn_second } => {
                    CollisionResponse::BulletsCollide { despawn_first: despawn_second, despawn_second: despawn_first }
                }
            };
            assert_eq!(resolve_collision(b, a), mirrored);
        }
    }
}

#[test]
fn shield_absorbs_one_hit_then_fighter_dies_and_round_ends() {
    let s = Settings::default();
    let mut f = Fighter::spawn(0, false, &s);
    let mut players = vec![player(vec![10])];
    let mut stats = Stats::default();
    assert_eq!(take_hit(&mut f, 10, &mut players, &mut stats), HitOutcome::ShieldAbsorbed);
    assert!(!f.shield_active);
    assert_eq!(f.shield_cooldown, 300);
    assert_eq!(stats, Stats::default());
    assert_eq!(players[0].ids, vec![10]);
    assert_eq!(take_hit(&mut f, 10, &mut players, &mut stats), HitOutcome::Destroyed { game_over: true });
    assert!(players[0].ids.is_empty());
    assert_eq!(stats.destroyed_allies, 1);
    assert_eq!(stats.bullet_hits, 1);
    assert_eq!(stats.player0_points(), 0);
}

#[test]
fn destroyed_fighter_is_counted_once() {
    let s = Settings::default();
    let mut f = Fighter::spawn(1, true, &s);
    let mut players = vec![player(vec![1]), player(vec![5, 6])];
    let mut stats = Stats::default();
    assert_eq!(take_hit(&mut f, 6, &mut players, &mut stats), HitOutcome::Destroyed { game_over: false });
    assert_eq!(players[1].ids, vec![5]);
    assert_eq!(stats.destroyed_opponents, 1);
    assert_eq!(stats.player0_points(), 1);
    assert_eq!(take_hit(&mut f, 6, &mut players, &mut stats), HitOutcome::AlreadyDestroyed);
    assert_eq!(stats.destroyed_opponents, 1);
    assert_eq!(stats.bullet_hits, 1);
}

#[test]
fn removal_takes_first_holder_first_position() {
    let mut players = vec![player(vec![1, 9]), player(vec![9, 9])];
    assert!(remove_fighter(&mut players, 9));
    assert_eq!(players[0].ids, vec![1]);
    assert_eq!(players[1].ids, vec![9, 9]);
    assert!(!remove_fighter(&mut players, 4));
}

#[test]
fn bullet_breaks_asteroid_on_second_hit() {
    let mut a = Asteroid::new();
    let mut stats = Stats::default();
    assert!(!bullet_hits_asteroid(&mut a, &mut stats));
    assert_eq!(stats.bullet_hits, 1);
    assert_eq!(stats.destroyed_asteroids, 0);
    assert!(bullet_hits_asteroid(&mut a, &mut stats));
    assert_eq!(stats.bullet_hits, 2);
    assert_eq!(stats.destroyed_asteroids, 1);
    assert_eq!(stats.player0_points(), 1);
}

#[test]
fn opponents_grow_with_time() {
    assert_eq!(target_fighter_count(0, 100000, 900), 1);
    assert_eq!(target_fighter_count(1, 0, 900), 1);
    assert_eq!(target_fighter_count(1, 899, 900), 1);
    assert_eq!(target_fighter_count(1, 900, 900), 2);
    assert_eq!(target_fighter_count(2, 2700, 900), 4);
}

#[test]
fn respawn_waits_for_respawn_time() {
    let mut s = Settings::default();
    s.respawn_time = 10;
    s.frameskip = 4;
    let mut players = vec![Player::new()];
    // First step queues the respawn and counts it down: 10 - 4 = 6.
    assert_eq!(respawn_players(&mut players, 0, &s), vec![false]);
    assert_eq!(players[0].respawns, vec![6]);
    assert_eq!(respawn_players(&mut players, 0, &s), vec![false]);
    assert_eq!(players[0].respawns, vec![2]);
    assert_eq!(respawn_players(&mut players, 0, &s), vec![true]);
    assert!(players[0].respawns.is_empty());
    players[0].add_fighter(3);
    assert_eq!(respawn_players(&mut players, 0, &s), vec![false]);
    assert!(players[0].respawns.is_empty());
}

#[test]
fn respawn_counts_down_only_up_to_the_due_one() {
    let mut s = Settings::default();
    s.frameskip = 3;
    s.respawn_time = 100;
    let mut p = player(vec![1, 2, 3]);
    p.respawns = vec![5, 2, 7];
    let mut players = vec![player(vec![0]), p];
    let spawns = respawn_players(&mut players, 1800, &s);
    // Player 1 wants 3 fighters (1 + 1800 / 900) and has 6: nothing queued.
    assert_eq!(spawns, vec![false, true]);
    assert_eq!(players[1].respawns, vec![2, 7]);
    assert_eq!(players[1].ids, vec![1, 2, 3]);
}

#[test]
fn reset_clears_the_round() {
    let mut p = player(vec![1, 2]);
    p.respawns = vec![4];
    let mut players = vec![p, player(vec![3])];
    let mut stats = Stats::default();
    stats.destroyed_asteroids = 4;
    stats.timesteps = 99;
    let mut clock = GameClock::new(5);
    clock.tick(7);
    reset_round(&mut players, &mut stats, &mut clock, 10800);
    assert_eq!(players.len(), 2);
    assert!(players.iter().all(|p| p.ids.is_empty() && p.respawns.is_empty()));
    assert_eq!(stats, Stats::default());
    assert_eq!(clock.remaining, 10800);
}

#[test]
fn agents_fill_up_the_players() {
    let mut s = Settings::default();
    s.players = 3;
    s.human_player = true;
    assert_eq!(
        plan_agents(1, &s),
        vec![AgentSource::Given(0), AgentSource::NoAgent, AgentSource::NoAgent]
    );
    s.random_ai = true;
    assert_eq!(
        plan_agents(0, &s),
        vec![AgentSource::NoAgent, AgentSource::Random, AgentSource::Random]
    );
    s.agent_path = Some("agent.roguenet".to_string());
    assert_eq!(plan_agents(0, &s), vec![AgentSource::NoAgent, AgentSource::Load, AgentSource::Load]);
    s.human_player = false;
    s.players = 1;
    assert_eq!(plan_agents(2, &s), vec![AgentSource::Given(0), AgentSource::Given(1)]);
}

#[test]
fn policy_goes_to_players_without_agents() {
    assert_eq!(policy_recipients(&vec![false, false], true), vec![1]);
    assert_eq!(policy_recipients(&vec![false, false], false), vec![0, 1]);
    assert_eq!(policy_recipients(&vec![false, true], false), Vec::<usize>::new());
    assert_eq!(policy_asset_path("230111-versus"), "policies/230111-versus.roguenet");
}

#[test]
fn agents_act_on_ai_frames() {
    let mut s = Settings::default();
    s.ai_action_interval = Some(12);
    let players = vec![player(vec![1]), player(vec![2])];
    assert_eq!(acting_agents(&players, &vec![false, true], 24, &s), vec![1]);
    assert_eq!(acting_agents(&players, &vec![true, true], 24, &s), vec![0, 1]);
    assert_eq!(acting_agents(&players, &vec![true, true], 25, &s), Vec::<usize>::new());
    // A lone agent without fighters does not act.
    let lone = vec![Player::new()];
    assert_eq!(acting_agents(&lone, &vec![true], 24, &s), Vec::<usize>::new());
}

#[test]
fn spawn_edges_follow_the_draw() {
    assert_eq!(edge_of(0), SpawnEdge::Left);
    assert_eq!(edge_of(1), SpawnEdge::Right);
    assert_eq!(edge_of(2), SpawnEdge::Bottom);
    assert_eq!(edge_of(3), SpawnEdge::Top);
}

#[test]
fn random_spawn_edges_cover_all_sides() {
    let mut rng = SmallRng::seed_from_u64(0);
    let mut seen = [false; 4];
    for _ in 0..200 {
        let e = choose_spawn_edge(&mut rng);
        let i = match e {
            SpawnEdge::Left => 0,
            SpawnEdge::Right => 1,
            SpawnEdge::Bottom => 2,
            SpawnEdge::Top => 3,
        };
        seen[i] = true;
    }
    assert_eq!(seen, [true; 4]);
}

#[test]
fn respawn_neither_loses_nor_invents_fighters() {
    let mut s = Settings::default();
    s.frameskip = 5;
    s.respawn_time = 5;
    let mut p = player(vec![8]);
    p.respawns = vec![20, 3];
    // Player 1 at 900 frames wants 2 fighters and has 3: nothing is queued,
    // and the respawn at 3 frames spawns now.
    let mut players = vec![player(vec![1]), p];
    let before = players[1].ids.len() + players[1].respawns.len();
    let spawns = respawn_players(&mut players, 900, &s);
    let after = players[1].ids.len() + players[1].respawns.len() + spawns[1] as usize;
    assert_eq!(before, after);
    assert_eq!(players[1].respawns, vec![15]);
    // Player 0 had its fighter: nothing queued, nothing spawned.
    assert!(!spawns[0]);
    assert!(players[0].respawns.is_empty());
}

#[test]
fn respawn_step_fits_checks_the_counters() {
    let mut s = Settings::default();
    let players = vec![player(vec![1]), Player::new()];
    assert!(respawn_step_fits(&players, 0, &s));
    s.difficulty_ramp = 0;
    assert!(!respawn_step_fits(&players, 0, &s));
    assert!(respawn_step_fits(&players[..1].to_vec(), 0, &s));
    s.difficulty_ramp = 900;
    // A count near i32::MIN cannot be lowered further.
    let mut p = player(vec![]);
    p.respawns = vec![i32::MIN + 1];
    let players = vec![player(vec![1]), p];
    s.frameskip = 4;
    assert!(!respawn_step_fits(&players, 0, &s));
}

#[test]
fn respawn_times_beyond_i32_wrap() {
    let mut s = Settings::default();
    s.respawn_time = u32::MAX; // read as -1: due at once
    let mut players = vec![Player::new()];
    assert!(respawn_step_fits(&players, 0, &s));
    assert_eq!(respawn_players(&mut players, 0, &s), vec![true]);
    assert!(players[0].respawns.is_empty());
}

#[test]
fn has_fighter_looks_through_all_players() {
    let players = vec![player(vec![1, 2]), player(vec![7])];
    assert!(has_fighter(&players, 7));
    assert!(has_fighter(&players, 2));
    assert!(!has_fighter(&players, 3));
}

#[test]
fn many_hits_in_one_frame_destroy_once() {
    let s = Settings::default();
    let mut f = Fighter::spawn(0, false, &s);
    let mut players = vec![player(vec![10])];
    let mut stats = Stats::default();
    let outcomes: Vec<HitOutcome> = (0..5).map(|_| take_hit(&mut f, 10, &mut players, &mut stats)).collect();
    assert_eq!(
        outcomes,
        vec![
            HitOutcome::ShieldAbsorbed,
            HitOutcome::Destroyed { game_over: true },
            HitOutcome::AlreadyDestroyed,
            HitOutcome::AlreadyDestroyed,
            HitOutcome::AlreadyDestroyed,
        ]
    );
    assert_eq!(stats.destroyed_allies, 1);
    assert_eq!(stats.bullet_hits, 1);
}

#[test]
fn hit_on_absent_fighter_needs_no_counter_room() {
    let s = Settings::default();
    let mut f = Fighter::spawn(1, true, &s);
    let mut players = vec![player(vec![1])];
    let mut stats = Stats::default();
    stats.bullet_hits = usize::MAX;
    assert_eq!(take_hit(&mut f, 99, &mut players, &mut stats), HitOutcome::AlreadyDestroyed);
    assert_eq!(stats.bullet_hits, usize::MAX);
}

#[test]
fn interleaved_hits_destroy_each_fighter_once() {
    let s = Settings::default();
    let mut fighters = vec![Fighter::spawn(0, false, &s), Fighter::spawn(1, true, &s), Fighter::spawn(1, true, &s)];
    let ids = [10u64, 20, 21];
    let mut players = vec![player(vec![10]), player(vec![20, 21])];
    let mut stats = Stats::default();
    let order = [1usize, 0, 2, 1, 0, 2, 0, 1];
    let mut destroyed = vec![];
    for &k in &order {
        if let HitOutcome::Destroyed { .. } = take_hit(&mut fighters[k], ids[k], &mut players, &mut stats) {
            destroyed.push(ids[k]);
        }
    }
    assert_eq!(destroyed, vec![20, 21, 10]);
    assert_eq!(stats.bullet_hits, 3);
    assert_eq!(stats.destroyed_allies, 1);
    assert_eq!(stats.destroyed_opponents, 2);
    assert!(players.iter().all(|p| p.ids.is_empty()));
}
