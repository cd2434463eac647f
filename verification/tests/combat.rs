use combat_core::burning::Burning;
use combat_core::collider::Collider;
use combat_core::events::CombatEvent;
use combat_core::events::DamageSource;
use combat_core::geom::Vec2I;
use combat_core::health::Health;
use combat_core::knockback::Knockback;
use combat_core::projectile::DamageTarget;
use combat_core::projectile::PiercingMode;
use combat_core::projectile::Projectile;
use combat_core::team::Team;
use combat_core::world::combat_tick;
use combat_core::world::TickContext;
use combat_core::world::Unit;

fn v(x: i64, y: i64) -> Vec2I {
    Vec2I { x, y }
}

#[test]
fn two_damage_events_one_death() {
    // An entity with fifteen health takes two hits of ten in one tick:
    // five left after the first, zero after the second, one death, and a
    // third hit changes nothing.
    let mut h = Health::new(15);
    let first = h.apply_damage(10);
    assert_eq!(h.current, 5);
    assert!(first.took_damage);
    assert!(!first.died);
    let second = h.apply_damage(10);
    assert_eq!(h.current, 0);
    assert!(second.took_damage);
    assert!(second.died);
    let third = h.apply_damage(10);
    assert_eq!(h.current, 0);
    assert!(third.took_damage);
    assert!(!third.died);
}

#[test]
fn negative_damage_is_clamped() {
    let mut h = Health::new(20);
    let out = h.apply_damage(-7);
    assert_eq!(h.current, 20);
    assert!(!out.took_damage);
    assert!(!out.died);
}

#[test]
fn zero_health_entity_never_signals_death() {
    let mut h = Health::new(0);
    let out = h.apply_damage(5);
    assert_eq!(h.current, 0);
    assert!(out.took_damage);
    assert!(!out.died);
}

#[test]
fn non_piercing_projectile_hits_once() {
    let mut p = Projectile::new(3, DamageTarget::Team(Team::Enemy), PiercingMode::NoPierce);
    assert!(p.resolve_hit(Team::Enemy, 11));
    assert!(!p.is_alive);
    assert_eq!(p.entities_hit, vec![11]);
    // Dead: a second target is ignored within the same tick.
    assert!(!p.resolve_hit(Team::Enemy, 12));
    assert_eq!(p.entities_hit, vec![11]);
}

#[test]
fn all_piercing_projectile_hits_each_target_once() {
    let mut p = Projectile::new(1, DamageTarget::Team(Team::Player), PiercingMode::All);
    assert!(p.resolve_hit(Team::Player, 5));
    assert!(p.resolve_hit(Team::Player, 6));
    // The same target never takes damage twice across the lifetime.
    assert!(!p.resolve_hit(Team::Player, 5));
    assert!(p.is_alive);
    assert_eq!(p.entities_hit, vec![5, 6]);
}

#[test]
fn limited_piercing_stops_at_the_budget() {
    let mut p = Projectile::new(1, DamageTarget::Team(Team::Enemy), PiercingMode::Limited(2));
    assert!(p.resolve_hit(Team::Enemy, 1));
    assert!(p.is_alive);
    assert!(p.resolve_hit(Team::Enemy, 2));
    assert!(!p.is_alive);
    assert!(!p.resolve_hit(Team::Enemy, 3));
}

#[test]
fn zero_budget_is_treated_as_no_piercing() {
    let mut p = Projectile::new(1, DamageTarget::Team(Team::Enemy), PiercingMode::Limited(0));
    assert!(p.resolve_hit(Team::Enemy, 1));
    assert!(!p.is_alive);
}

#[test]
fn filter_blocks_own_team_and_allows_explicit_targets() {
    let mut p = Projectile::new(1, DamageTarget::Team(Team::Player), PiercingMode::All);
    assert!(!p.resolve_hit(Team::Enemy, 9));
    assert!(p.entities_hit.is_empty());
    let mut q = Projectile::new(1, DamageTarget::Entities(vec![4, 8]), PiercingMode::All);
    assert!(!q.resolve_hit(Team::Enemy, 9));
    assert!(q.resolve_hit(Team::Enemy, 8));
}

#[test]
fn knockback_decays_linearly_to_zero() {
    let mut k = Knockback::new(v(600, -400), 200);
    assert_eq!(k.velocity(), v(600, -400));
    assert!(!k.step(100));
    assert_eq!(k.velocity(), v(300, -200));
    assert!(k.step(100));
    assert_eq!(k.velocity(), v(0, 0));
}

#[test]
fn burning_refreshes_instead_of_stacking() {
    let mut b = Burning::new(2, 250, 1000);
    let (ticks, expired) = b.step(500);
    assert_eq!(ticks, 2);
    assert!(!expired);
    // A new stack while active refreshes the duration only.
    b.refresh(1000);
    assert_eq!(b.remaining_ms, 1000);
    assert_eq!(b.dmg_per_tick, 2);
    assert_eq!(b.tick_interval_ms, 250);
    let (ticks2, expired2) = b.step(1000);
    assert_eq!(ticks2, 4);
    assert!(expired2);
    // Time past the end of the status accrues no damage.
    let mut c = Burning::new(5, 100, 150);
    let (t3, e3) = c.step(10_000);
    assert_eq!(t3, 1);
    assert!(e3);
}

fn target_unit(id: u64, x: i64, y: i64, health: u32, radius: u32) -> Unit {
    Unit {
        id,
        pos: v(x, y),
        vel: v(0, 0),
        collider: Some(Collider::new_circle(radius, v(0, 0))),
        health: Some(Health::new(health)),
        team: Some(Team::Enemy),
        projectile: None,
        knockback: None,
        burning: None,
        reward: 5,
        despawn: false,
    }
}

fn bullet_unit(id: u64, x: i64, y: i64, vel: Vec2I, dmg: u32) -> Unit {
    Unit {
        id,
        pos: v(x, y),
        vel,
        collider: Some(Collider::new_circle(5_000, v(0, 0))),
        health: None,
        team: None,
        projectile: Some(Projectile::new(
            dmg,
            DamageTarget::Team(Team::Enemy),
            PiercingMode::NoPierce,
        )),
        knockback: None,
        burning: None,
        reward: 0,
        despawn: false,
    }
}

fn ctx(dt_ms: u32) -> TickContext {
    TickContext { dt_ms, knockback_speed: 100_000, knockback_duration_ms: 200 }
}

#[test]
fn tick_moves_projectiles_by_their_velocity() {
    // Scenario: a projectile at 40 units per second along a unit vector,
    // spawned at the origin, is 40 units out after one second.
    let mut units = vec![bullet_unit(1, 0, 0, v(24_000, 32_000), 1)];
    let events = combat_tick(&mut units, ctx(1000));
    assert!(events.is_empty());
    assert_eq!(units.len(), 1);
    assert_eq!(units[0].pos, v(24_000, 32_000));
    let d2 = combat_core::geom::dist_sq(v(0, 0), units[0].pos);
    assert_eq!(combat_core::geom::isqrt(d2), 40_000);
}

#[test]
fn tick_resolves_a_hit_and_removes_the_projectile() {
    // A stationary bullet overlapping an enemy: the enemy takes damage,
    // a hit is reported, a knockback impulse lands on the enemy, and the
    // spent projectile is gone at the end of the tick.
    let mut units = vec![bullet_unit(1, 0, 0, v(0, 0), 4), target_unit(2, 6_000, 0, 15, 10_000)];
    let events = combat_tick(&mut units, ctx(10));
    assert_eq!(events.len(), 2);
    match events[0] {
        CombatEvent::TookDamage(e) => {
            assert_eq!(e.entity, 2);
            assert_eq!(e.amount, 4);
            assert_eq!(e.source, DamageSource::Projectile(1));
        },
        _ => panic!("expected a took-damage notification first"),
    }
    match events[1] {
        CombatEvent::Hit(e) => {
            assert_eq!(e.projectile, 1);
            assert_eq!(e.target, 2);
        },
        _ => panic!("expected the hit notification second"),
    }
    // The projectile was swept; the enemy is still there, hurt and pushed.
    assert_eq!(units.len(), 1);
    assert_eq!(units[0].id, 2);
    assert_eq!(units[0].health.unwrap().current, 11);
    assert!(units[0].knockback.is_some());
}

#[test]
fn tick_reports_a_death_exactly_once() {
    let mut units = vec![bullet_unit(1, 0, 0, v(0, 0), 20), target_unit(2, 0, 0, 15, 10_000)];
    let events = combat_tick(&mut units, ctx(10));
    let deaths: Vec<_> = events
        .iter()
        .filter(|e| matches!(e, CombatEvent::Death(_)))
        .collect();
    assert_eq!(deaths.len(), 1);
    match deaths[0] {
        CombatEvent::Death(d) => {
            assert_eq!(d.entity, 2);
            assert_eq!(d.reward, 5);
        },
        _ => unreachable!(),
    }
    // Both the dead enemy and the spent projectile are gone.
    assert!(units.is_empty());
}

#[test]
fn tick_burns_and_then_removes_the_status() {
    let mut unit = target_unit(3, 0, 0, 10, 10_000);
    unit.burning = Some(Burning::new(2, 100, 300));
    let mut units = vec![unit];
    let events = combat_tick(&mut units, ctx(300));
    assert_eq!(events.len(), 1);
    match events[0] {
        CombatEvent::TookDamage(e) => {
            assert_eq!(e.entity, 3);
            assert_eq!(e.amount, 6);
            assert_eq!(e.source, DamageSource::Burning);
        },
        _ => panic!("expected one burning tick notification"),
    }
    assert_eq!(units[0].health.unwrap().current, 4);
    assert!(units[0].burning.is_none());
}

#[test]
fn stale_overlap_targets_are_skipped() {
    // A projectile overlapping a unit without a team or health deals no
    // damage and stays alive.
    let mut ghost = target_unit(2, 0, 0, 15, 10_000);
    ghost.team = None;
    let mut units = vec![bullet_unit(1, 0, 0, v(0, 0), 4), ghost];
    let events = combat_tick(&mut units, ctx(10));
    assert!(events.is_empty());
    assert_eq!(units.len(), 2);
}

#[test]
fn burning_without_health_only_runs_its_clock() {
    let mut unit = target_unit(4, 0, 0, 10, 10_000);
    unit.health = None;
    unit.burning = Some(Burning::new(2, 100, 300));
    let mut units = vec![unit];
    let events = combat_tick(&mut units, ctx(100));
    assert!(events.is_empty());
    assert_eq!(units[0].burning.unwrap().remaining_ms, 200);
}

#[test]
fn limited_piercing_in_a_full_tick() {
    // A two-hit projectile overlapping three enemies at once: it damages
    // the first two in discovery order, then is removed; the third enemy
    // is untouched.
    let mut bullet = bullet_unit(1, 0, 0, v(0, 0), 2);
    bullet.projectile = Some(Projectile::new(
        2,
        DamageTarget::Team(Team::Enemy),
        PiercingMode::Limited(2),
    ));
    let mut units = vec![
        bullet,
        target_unit(2, 1_000, 0, 9, 10_000),
        target_unit(3, 0, 1_000, 9, 10_000),
        target_unit(4, -1_000, 0, 9, 10_000),
    ];
    let events = combat_tick(&mut units, ctx(10));
    let hits: Vec<u64> = events
        .iter()
        .filter_map(|e| match e {
            CombatEvent::Hit(h) => Some(h.target),
            _ => None,
        })
        .collect();
    assert_eq!(hits, vec![2, 3]);
    assert_eq!(units.len(), 3);
    assert_eq!(units[0].health.unwrap().current, 7);
    assert_eq!(units[1].health.unwrap().current, 7);
    assert_eq!(units[2].health.unwrap().current, 9);
}

#[test]
fn sweep_keeps_survivors_in_order() {
    let mut units = vec![
        bullet_unit(1, 0, 0, v(0, 0), 20),
        target_unit(2, 0, 0, 5, 10_000),
        target_unit(3, 500_000, 0, 5, 10_000),
        target_unit(4, 600_000, 0, 5, 10_000),
    ];
    let _ = combat_tick(&mut units, ctx(10));
    let ids: Vec<u64> = units.iter().map(|u| u.id).collect();
    assert_eq!(ids, vec![3, 4]);
}
