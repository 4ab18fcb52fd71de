use boids::boid::{Boid, Correction};
use boids::interaction::{interact_boids, interact_pair, Sight};
use boids::params::BoidProperty;
use boids::vector::Vector3;

fn boid(p: (i64, i64, i64), v: (i64, i64, i64)) -> Boid {
    Boid::new(Vector3::new(p.0, p.1, p.2), Vector3::new(v.0, v.1, v.2))
}

fn tally(count: usize, sum: (i64, i64, i64)) -> Correction {
    Correction { count, sum: Vector3::new(sum.0, sum.1, sum.2) }
}

const NONE: Correction = Correction { count: 0, sum: Vector3 { x: 0, y: 0, z: 0 } };

#[test]
fn straight_ahead_is_within_every_cone_but_the_empty_one() {
    let s = Sight::of(Vector3::new(1_000, 0, 0), Vector3::new(1_000, 0, 0));
    assert_eq!(s.dot, 1_000_000);
    assert_eq!(s.span, 1_000_000_000_000);
    assert!(s.exceeds(0));
    assert!(s.exceeds(999_999));
    assert!(s.exceeds(-1_000_000));
    assert!(!s.exceeds(1_000_000));
}

#[test]
fn sideways_is_outside_the_half_space_ahead() {
    let s = Sight::of(Vector3::new(1_000, 0, 0), Vector3::new(0, 1_000, 0));
    assert!(!s.exceeds(0));
    assert!(!s.exceeds(1));
    assert!(s.exceeds(-1));
    assert!(s.exceeds(-1_000_000));
}

#[test]
fn straight_behind_is_outside_every_cone() {
    let s = Sight::of(Vector3::new(1_000, 0, 0), Vector3::new(-1_000, 0, 0));
    assert!(!s.exceeds(-1_000_000));
    assert!(!s.exceeds(-999_999));
    assert!(!s.exceeds(0));
}

#[test]
fn the_cone_test_is_exact_at_an_eighth_of_a_turn() {
    // cos = 0.70710678...
    let s = Sight::of(Vector3::new(1_000, 0, 0), Vector3::new(1_000, 1_000, 0));
    assert!(s.exceeds(707_106));
    assert!(!s.exceeds(707_107));
    // cos = -0.70710678...
    let t = Sight::of(Vector3::new(1_000, 0, 0), Vector3::new(-1_000, 1_000, 0));
    assert!(t.exceeds(-707_107));
    assert!(!t.exceeds(-707_106));
}

#[test]
fn a_boid_at_rest_sees_nothing() {
    let s = Sight::of(Vector3::zero(), Vector3::new(1_000, 0, 0));
    assert_eq!(s.span, 0);
    assert!(!s.exceeds(-1_000_000));
    assert!(!s.exceeds(0));
}

#[test]
fn a_boid_at_the_same_place_is_not_seen() {
    let s = Sight::of(Vector3::new(1_000, 0, 0), Vector3::zero());
    assert!(!s.exceeds(-1_000_000));
    let prop = BoidProperty::predefined(5);
    let a = boid((5, 5, 5), (20_000, 0, 0));
    let b = boid((5, 5, 5), (0, 20_000, 0));
    assert_eq!(interact_pair(&prop, a, b), (a, b));
}

#[test]
fn two_boids_facing_each_other_pull_each_other() {
    let prop = BoidProperty::default();
    let a = boid((0, 0, 0), (20_000, 0, 0));
    let b = boid((100_000, 0, 0), (-20_000, 0, 0));
    let (a2, b2) = interact_pair(&prop, a, b);
    assert_eq!(a2.corr_factor.coh, tally(1, (100_000, 0, 0)));
    assert_eq!(b2.corr_factor.coh, tally(1, (-100_000, 0, 0)));
    assert_eq!(a2.corr_factor.coh.sum, b2.corr_factor.coh.sum.negated());
    assert_eq!(a2.corr_factor.sep, NONE);
    assert_eq!(b2.corr_factor.sep, NONE);
    assert_eq!(a2.corr_factor.ali, tally(1, (-40_000, 0, 0)));
    assert_eq!(b2.corr_factor.ali, tally(1, (40_000, 0, 0)));
    assert_eq!(a2.position, a.position);
    assert_eq!(a2.velocity, a.velocity);
    assert_eq!(a2.env_force, a.env_force);
    assert_eq!(b2.position, b.position);
    assert_eq!(b2.velocity, b.velocity);
    assert_eq!(b2.env_force, b.env_force);
}

#[test]
fn each_rule_writes_to_its_own_correction() {
    let prop = BoidProperty::default();
    let a = boid((0, 0, 0), (20_000, 1_000, 0));
    let b = boid((30_000, 0, 0), (-20_000, 0, 3_000));
    let (a2, b2) = interact_pair(&prop, a, b);
    assert_eq!(a2.corr_factor.coh, tally(1, (30_000, 0, 0)));
    assert_eq!(a2.corr_factor.sep, tally(1, (-30_000, 0, 0)));
    assert_eq!(a2.corr_factor.ali, tally(1, (-40_000, -1_000, 3_000)));
    assert_eq!(b2.corr_factor.coh, tally(1, (-30_000, 0, 0)));
    assert_eq!(b2.corr_factor.sep, tally(1, (30_000, 0, 0)));
    assert_eq!(b2.corr_factor.ali, tally(1, (40_000, 1_000, -3_000)));
}

#[test]
fn a_boid_does_not_see_what_is_behind_it() {
    let prop = BoidProperty::default();
    let a = boid((0, 0, 0), (20_000, 0, 0));
    let b = boid((100_000, 0, 0), (20_000, 0, 0));
    let (a2, b2) = interact_pair(&prop, a, b);
    assert_eq!(a2.corr_factor.coh, tally(1, (100_000, 0, 0)));
    assert_eq!(a2.corr_factor.ali, tally(1, (0, 0, 0)));
    assert_eq!(b2, b);
}

#[test]
fn with_a_straight_cone_a_boid_sees_all_but_what_is_straight_behind() {
    let prop = BoidProperty::predefined(5);
    let a = boid((0, 0, 0), (20_000, 0, 0));
    let behind = boid((-100_000, 0, 0), (20_000, 0, 0));
    let (a2, _) = interact_pair(&prop, a, behind);
    assert_eq!(a2.corr_factor.coh, NONE);
    let nearly_behind = boid((-100_000, 1, 0), (20_000, 0, 0));
    let (a3, _) = interact_pair(&prop, a, nearly_behind);
    assert_eq!(a3.corr_factor.coh, tally(1, (-100_000, 1, 0)));
    assert_eq!(a3.corr_factor.ali, NONE);
}

#[test]
fn boids_beyond_every_radius_are_left_alone() {
    let prop = BoidProperty::default();
    let a = boid((0, 0, 0), (20_000, 0, 0));
    let far = boid((300_001, 0, 0), (-20_000, 0, 0));
    assert_eq!(interact_pair(&prop, a, far), (a, far));
    let at_the_radius = boid((300_000, 0, 0), (-20_000, 0, 0));
    assert_eq!(interact_pair(&prop, a, at_the_radius), (a, at_the_radius));
    let very_far = boid((1_000_000_000_000, -1_000_000_000_000, 1_000_000_000_000), (0, 1, 0));
    let other = boid((-1_000_000_000_000, 1_000_000_000_000, -1_000_000_000_000), (0, 1, 0));
    assert_eq!(interact_pair(&prop, very_far, other), (very_far, other));
}

#[test]
fn just_within_the_widest_radius_only_its_rule_applies() {
    let prop = BoidProperty::default();
    let a = boid((0, 0, 0), (20_000, 0, 0));
    let b = boid((299_999, 0, 0), (-20_000, 0, 0));
    let (a2, b2) = interact_pair(&prop, a, b);
    assert_eq!(a2.corr_factor.coh, NONE);
    assert_eq!(a2.corr_factor.sep, NONE);
    assert_eq!(a2.corr_factor.ali, tally(1, (-40_000, 0, 0)));
    assert_eq!(b2.corr_factor.ali, tally(1, (40_000, 0, 0)));
}

#[test]
fn a_radius_is_exclusive() {
    let prop = BoidProperty::default();
    let a = boid((0, 0, 0), (20_000, 0, 0));
    let b = boid((200_000, 0, 0), (-20_000, 0, 0));
    let (a2, _) = interact_pair(&prop, a, b);
    assert_eq!(a2.corr_factor.coh, NONE);
    let c = boid((199_999, 0, 0), (-20_000, 0, 0));
    let (a3, _) = interact_pair(&prop, a, c);
    assert_eq!(a3.corr_factor.coh, tally(1, (199_999, 0, 0)));
}

#[test]
fn a_meeting_adds_to_what_was_collected() {
    let prop = BoidProperty::default();
    let mut a = boid((0, 0, 0), (20_000, 0, 0));
    a.corr_factor.coh = tally(3, (-7, 8, 9));
    a.corr_factor.sep = tally(1, (1, 1, 1));
    let b = boid((100_000, 0, 0), (-20_000, 0, 0));
    let (a2, _) = interact_pair(&prop, a, b);
    assert_eq!(a2.corr_factor.coh, tally(4, (99_993, 8, 9)));
    assert_eq!(a2.corr_factor.sep, tally(1, (1, 1, 1)));
}

#[test]
fn the_pass_visits_every_pair_once() {
    let prop = BoidProperty::default();
    let mut flock = vec![
        boid((0, 0, 0), (20_000, 0, 0)),
        boid((100_000, 0, 0), (20_000, 0, 0)),
        boid((200_000, 0, 0), (20_000, 0, 0)),
    ];
    let before = flock.clone();
    interact_boids(&prop, &mut flock);
    assert_eq!(flock.len(), 3);
    assert_eq!(flock[0].corr_factor.coh, tally(1, (100_000, 0, 0)));
    assert_eq!(flock[0].corr_factor.sep, NONE);
    assert_eq!(flock[0].corr_factor.ali, tally(2, (0, 0, 0)));
    assert_eq!(flock[1].corr_factor.coh, tally(1, (100_000, 0, 0)));
    assert_eq!(flock[1].corr_factor.ali, tally(1, (0, 0, 0)));
    assert_eq!(flock[2].corr_factor.coh, NONE);
    assert_eq!(flock[2].corr_factor.ali, NONE);
    for t in 0..3 {
        assert_eq!(flock[t].position, before[t].position);
        assert_eq!(flock[t].velocity, before[t].velocity);
        assert_eq!(flock[t].env_force, before[t].env_force);
    }
}

#[test]
fn the_pass_does_not_depend_on_the_order_of_the_flock() {
    let prop = BoidProperty::predefined(4);
    let members = [
        boid((0, 0, 0), (20_000, 3_000, -1_000)),
        boid((100_000, 50_000, 0), (-20_000, 0, 5_000)),
        boid((-200_000, 10_000, 30_000), (1_000, 20_000, 0)),
        boid((20_000, -10_000, 5_000), (0, -1_000, -25_000)),
        boid((25_000, -10_000, 5_000), (10_000, 10_000, 10_000)),
    ];
    let mut forward = members.to_vec();
    interact_boids(&prop, &mut forward);
    let mut backward: Vec<Boid> = members.iter().rev().cloned().collect();
    interact_boids(&prop, &mut backward);
    backward.reverse();
    assert_eq!(forward, backward);
    assert!(forward.iter().any(|b| b.corr_factor.coh.count > 0));
    assert!(forward.iter().any(|b| b.corr_factor.sep.count > 0));
    assert!(forward.iter().any(|b| b.corr_factor.ali.count > 0));
}

#[test]
fn the_pass_leaves_small_flocks_alone() {
    let prop = BoidProperty::default();
    let mut nobody: Vec<Boid> = Vec::new();
    interact_boids(&prop, &mut nobody);
    assert!(nobody.is_empty());
    let mut alone = vec![boid((1, 2, 3), (20_000, 0, 0))];
    interact_boids(&prop, &mut alone);
    assert_eq!(alone, vec![boid((1, 2, 3), (20_000, 0, 0))]);
}

#[test]
fn two_boids_out_of_reach_in_a_flock() {
    let prop = BoidProperty::default();
    let mut flock = vec![boid((0, 0, 0), (20_000, 0, 0)), boid((0, 300_000, 0), (0, -20_000, 0))];
    let before = flock.clone();
    interact_boids(&prop, &mut flock);
    assert_eq!(flock, before);
}
