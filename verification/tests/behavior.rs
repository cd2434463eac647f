use combat_core::ai::AiPhase;
use combat_core::ai::FollowPlayerAI;
use combat_core::ai::MoveAndShootAI;
use combat_core::angle::Angle;
use combat_core::cooldown::Cooldown;
use combat_core::enemies::beholder_shoot_response;
use combat_core::enemies::reaper_blade_step;
use combat_core::enemies::reaper_shoot_response;
use combat_core::enemies::spawn_beholder;
use combat_core::enemies::spawn_imp;
use combat_core::enemies::ReaperBlade;
use combat_core::events::SemanticState;
use combat_core::geom::Vec2I;
use combat_core::player::player_move_step;
use combat_core::player::spawn_player;
use combat_core::projectile::PiercingMode;
use combat_core::targeting::Candidate;
use combat_core::targeting::Targeting;
use combat_core::tower::tower_acquire;
use combat_core::tower::tower_aim_step;
use combat_core::tower::tower_bullet;
use combat_core::tower::EnemyRef;
use combat_core::tower::Tower;
use combat_core::tower::TowerStats;

fn v(x: i64, y: i64) -> Vec2I {
    Vec2I { x, y }
}

fn cand(id: u64, dist_sq: u64, health: u32) -> Candidate {
    Candidate { id, dist_sq, health }
}

#[test]
fn empty_candidates_yield_no_target() {
    let none: Vec<Candidate> = vec![];
    assert_eq!(Targeting::First.find_best_target(&none), None);
    assert_eq!(Targeting::Closest.find_best_target(&none), None);
    assert_eq!(Targeting::LowestHealth.find_best_target(&none), None);
}

#[test]
fn closest_picks_the_minimum_distance() {
    let cands = vec![cand(1, 100, 5), cand(2, 25, 9), cand(3, 49, 1)];
    assert_eq!(Targeting::Closest.find_best_target(&cands), Some(1));
    assert_eq!(Targeting::First.find_best_target(&cands), Some(0));
    assert_eq!(Targeting::LowestHealth.find_best_target(&cands), Some(2));
}

#[test]
fn ties_go_to_input_order() {
    // Two candidates at equal distance: the earlier one wins; same for
    // equal health. Identical inputs select the identical position.
    let cands = vec![cand(4, 25, 7), cand(5, 25, 7), cand(6, 30, 7)];
    assert_eq!(Targeting::Closest.find_best_target(&cands), Some(0));
    assert_eq!(Targeting::LowestHealth.find_best_target(&cands), Some(0));
    assert_eq!(
        Targeting::Closest.find_best_target(&cands),
        Targeting::Closest.find_best_target(&cands)
    );
}

#[test]
fn seek_only_chaser_closes_and_snaps() {
    let ai = FollowPlayerAI { speed: 10_000 };
    // One second of travel at 10 units per second along the x axis.
    let step = ai.step(v(0, 0), v(100_000, 0), 1000);
    assert_eq!(step, v(10_000, 0));
    // Within one tick's travel: snap onto the target, no overshoot.
    let snap = ai.step(v(95_000, 0), v(100_000, 0), 1000);
    assert_eq!(snap, v(100_000, 0));
}

#[test]
fn ranged_attacker_full_cycle() {
    // Scenario: an attacker enters its shoot range with the cooldown
    // already elapsed, so it starts charging this very tick; after
    // exactly the charge duration it fires, once.
    let mut ai = MoveAndShootAI::new(20_000, 3_000, 200, 2_000);
    let far = 300u64 * 300u64;
    let near = 150u64 * 150u64;
    let a0 = ai.step(far, 16);
    assert_eq!(ai.phase, AiPhase::Approach);
    assert!(!a0.start_charge && !a0.fire);
    assert_eq!(a0.move_speed, 20_000);
    let a1 = ai.step(near, 16);
    assert_eq!(ai.phase, AiPhase::Charge);
    assert!(a1.start_charge);
    assert!(!a1.fire);
    assert_eq!(a1.move_speed, 0);
    // 2999 ms of charging: not yet.
    let mut fired = 0;
    for _ in 0..2999 {
        let a = ai.step(near, 1);
        assert!(!a.fire);
        fired += a.fire as u32;
    }
    assert_eq!(ai.phase, AiPhase::Charge);
    // The millisecond that completes the duration: exactly one fire.
    let a2 = ai.step(near, 1);
    assert!(a2.fire);
    fired += 1;
    assert_eq!(fired, 1);
    assert_eq!(ai.phase, AiPhase::Cooldown);
    // Resting: no movement, no fire, until the cooldown elapses.
    let a3 = ai.step(near, 1_000);
    assert!(!a3.fire);
    assert_eq!(a3.move_speed, 0);
    assert_eq!(ai.phase, AiPhase::Cooldown);
    let _ = ai.step(near, 1_000);
    assert_eq!(ai.phase, AiPhase::Approach);
}

#[test]
fn charge_ignores_the_target_leaving_range() {
    let mut ai = MoveAndShootAI::new(20_000, 1_000, 200, 2_000);
    let near = 100u64;
    let far = 1_000_000u64;
    ai.step(near, 16);
    assert_eq!(ai.phase, AiPhase::Charge);
    // The target flees; the windup keeps going regardless.
    let mid = ai.step(far, 500);
    assert_eq!(ai.phase, AiPhase::Charge);
    assert!(!mid.fire);
    let end = ai.step(far, 500);
    assert!(end.fire);
}

#[test]
fn tower_acquires_only_in_range() {
    let tower = Tower {
        stats: TowerStats {
            range: 200,
            cooldown_ms: 1_000,
            targeting: Targeting::First,
            rotation_speed: 360_000,
        },
        rotation: Angle::from_raw(0),
    };
    let enemies = vec![
        EnemyRef { id: 1, pos: v(500, 0), health: 10 },
        EnemyRef { id: 2, pos: v(120, 160), health: 10 },
        EnemyRef { id: 3, pos: v(10, 10), health: 10 },
    ];
    // First in-range enemy: the one at distance exactly 200 (inclusive).
    assert_eq!(tower_acquire(&tower, v(0, 0), &enemies), Some(1));
    let none = vec![EnemyRef { id: 1, pos: v(500, 0), health: 10 }];
    assert_eq!(tower_acquire(&tower, v(0, 0), &none), None);
}

#[test]
fn tower_turns_then_fires_once_ready() {
    let mut tower = Tower {
        stats: TowerStats {
            range: 200,
            cooldown_ms: 1_000,
            targeting: Targeting::Closest,
            rotation_speed: 90_000,
        },
        rotation: Angle::from_raw(0),
    };
    let mut cd = Cooldown::ready();
    let bearing = Angle::from_raw(180_000);
    // The bearing is exactly opposite, so the turn goes the negative way
    // around; at 90 degrees per second one second covers half the way.
    let fired1 = tower_aim_step(&mut tower, &mut cd, bearing, 1_000);
    assert!(!fired1);
    assert_eq!(tower.rotation.units, 270_000);
    assert!(cd.is_ready());
    // The next second it reaches the bearing and fires, arming the
    // cooldown.
    let fired2 = tower_aim_step(&mut tower, &mut cd, bearing, 1_000);
    assert!(fired2);
    assert_eq!(tower.rotation.units, 180_000);
    assert_eq!(cd.time_remaining_ms, 1_000);
    // Aligned but cooling down: no shot.
    let fired3 = tower_aim_step(&mut tower, &mut cd, bearing, 100);
    assert!(!fired3);
    cd.tick(1_000);
    assert!(cd.is_ready());
}

#[test]
fn tower_bullet_flies_at_the_target() {
    let b = tower_bullet(v(0, 0), v(30_000, 40_000));
    assert_eq!(b.velocity, v(360_000, 480_000));
    assert_eq!(b.origin, v(18_000, 24_000));
    assert_eq!(b.dmg, 1);
    assert_eq!(b.piercing_mode, PiercingMode::NoPierce);
}

#[test]
fn beholder_volley_sizes() {
    let (single, anim, _cue) =
        beholder_shoot_response(9, false, v(0, 0), v(100_000, 0), v(90_000, 20_000), v(90_000, -20_000));
    assert_eq!(single.len(), 1);
    assert_eq!(single[0].velocity, v(40_000, 0));
    assert_eq!(anim.state, SemanticState::Firing);
    let (volley, _, _) =
        beholder_shoot_response(9, true, v(0, 0), v(100_000, 0), v(30_000, 40_000), v(30_000, -40_000));
    assert_eq!(volley.len(), 3);
    assert_eq!(volley[1].velocity, v(24_000, 32_000));
    assert_eq!(volley[2].velocity, v(24_000, -32_000));
}

#[test]
fn reaper_blade_whirls_then_restores_its_owner() {
    let (blade_spawn, mut blade, anim, _cue, speed_now) = reaper_shoot_response(4, v(7, 7));
    assert_eq!(speed_now, 0);
    assert_eq!(blade_spawn.piercing_mode, PiercingMode::All);
    assert_eq!(blade_spawn.velocity, v(0, 0));
    assert_eq!(anim.state, SemanticState::Firing);
    assert_eq!(blade, ReaperBlade { parent: 4, remaining_ms: 500 });
    assert_eq!(reaper_blade_step(&mut blade, 300), None);
    let done = reaper_blade_step(&mut blade, 300);
    assert!(done.is_some());
    assert_eq!(done.unwrap().entity, 4);
    // Already finished: no second signal.
    assert_eq!(reaper_blade_step(&mut blade, 300), None);
}

#[test]
fn spawned_enemies_carry_their_stats() {
    let imp = spawn_imp(1, v(70_000, 70_000));
    assert_eq!(imp.enemy.xp, 5);
    assert_eq!(imp.unit.health.unwrap().max, 15);
    assert_eq!(imp.follow.unwrap().speed, 15_000);
    assert!(imp.move_shoot.is_none());
    let beholder = spawn_beholder(2, v(0, 0));
    assert_eq!(beholder.enemy.xp, 10);
    let ai = beholder.move_shoot.unwrap();
    assert_eq!(ai.charge_duration_ms, 3_000);
    assert_eq!(ai.shoot_range, 200_000);
    assert_eq!(ai.cooldown_ms, 2_000);
    assert_eq!(ai.phase, AiPhase::Approach);
    assert_eq!(beholder.unit.health.unwrap().max, 25);
}

#[test]
fn player_movement_triggers_and_facing() {
    let (player, collider) = spawn_player();
    assert_eq!(player.max_bullets, 6);
    assert_eq!(player.curr_bullets, 6);
    assert!(!player.is_reloading);
    assert_eq!(collider.shape, combat_core::collider::Shape::Circle { radius: 50_000 });
    // Standing still while running: switch to idle, keep facing.
    let stop = player_move_step(v(0, 0), None, true, SemanticState::Running, 16);
    assert_eq!(stop.pos, v(0, 0));
    assert_eq!(stop.trigger, Some(SemanticState::Idle));
    assert!(stop.facing_right);
    // Full deflection left for one second: 150 units left, now running
    // and facing left.
    let run = player_move_step(v(0, 0), Some(v(-1000, 0)), true, SemanticState::Idle, 1_000);
    assert_eq!(run.pos, v(-150_000, 0));
    assert_eq!(run.trigger, Some(SemanticState::Running));
    assert!(!run.facing_right);
    // Already running in the same direction: no new trigger.
    let keep = player_move_step(run.pos, Some(v(-1000, 0)), false, SemanticState::Running, 16);
    assert_eq!(keep.trigger, None);
}
