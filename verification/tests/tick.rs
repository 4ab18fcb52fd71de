use boids::boid::{Boid, CorrFactor, EnvForce, NEIGHBOURS_MAX};
use boids::environment::affect_from_env;
use boids::integration::integrate;
use boids::interaction::interact_boids;
use boids::params::BoidProperty;
use boids::population::generate_boids;
use boids::tick::{run_tick, Phase, Simulation};
use boids::vector::Vector3;

fn boid(p: (i64, i64, i64), v: (i64, i64, i64)) -> Boid {
    Boid::new(Vector3::new(p.0, p.1, p.2), Vector3::new(v.0, v.1, v.2))
}

fn length_squared(v: Vector3) -> i128 {
    let (x, y, z) = (v.x as i128, v.y as i128, v.z as i128);
    x * x + y * y + z * z
}

fn idle(b: &Boid) -> bool {
    b.corr_factor == CorrFactor::zero()
        && b.env_force == EnvForce::zero()
        && b.corr_factor.coh.count == 0
        && b.corr_factor.sep.count == 0
        && b.corr_factor.ali.count == 0
        && b.corr_factor.coh.sum == Vector3::zero()
        && b.corr_factor.sep.sum == Vector3::zero()
        && b.corr_factor.ali.sum == Vector3::zero()
        && b.env_force.boundary == Vector3::zero()
}

fn crowd() -> Vec<Boid> {
    let mut flock = Vec::new();
    let mut seed: i64 = 12_345;
    for _ in 0..60 {
        let mut draw = || {
            seed = (seed * 1_103_515_245 + 12_345) % 2_147_483_648;
            seed % 2_400_001 - 1_200_000
        };
        let p = (draw(), draw(), draw());
        let v = (draw() / 60, draw() / 60, draw() / 60);
        flock.push(boid(p, v));
    }
    flock
}

#[test]
fn a_tick_is_the_three_passes_in_order() {
    let prop = BoidProperty::default();
    let mut by_tick = crowd();
    let mut by_passes = by_tick.clone();
    run_tick(&mut by_tick, &prop);
    interact_boids(&prop, &mut by_passes);
    affect_from_env(&prop, &mut by_passes);
    integrate(&prop, &mut by_passes);
    assert_eq!(by_tick, by_passes);
}

#[test]
fn the_first_two_passes_can_be_swapped() {
    let prop = BoidProperty::default();
    let mut one = crowd();
    let mut other = one.clone();
    interact_boids(&prop, &mut one);
    affect_from_env(&prop, &mut one);
    affect_from_env(&prop, &mut other);
    interact_boids(&prop, &mut other);
    assert_eq!(one, other);
}

#[test]
fn after_a_tick_nothing_is_left_collected() {
    let prop = BoidProperty::default();
    let mut flock = crowd();
    for _ in 0..5 {
        run_tick(&mut flock, &prop);
        assert_eq!(flock.len(), 60);
        assert!(flock.iter().all(idle));
    }
}

#[test]
fn a_tick_clears_what_had_been_collected_before() {
    let prop = BoidProperty::default();
    let mut flock = crowd();
    flock[3].corr_factor.coh.count = 2;
    flock[3].corr_factor.coh.sum = Vector3::new(100, 200, 300);
    flock[4].env_force.boundary = Vector3::new(-5, 0, 5);
    run_tick(&mut flock, &prop);
    assert!(flock.iter().all(idle));
}

#[test]
fn after_a_tick_every_speed_is_within_the_range() {
    let prop = BoidProperty::default();
    let mut flock = crowd();
    let mut rescaled = 0;
    for _ in 0..20 {
        let before = flock.clone();
        run_tick(&mut flock, &prop);
        for (b, old) in flock.iter().zip(before.iter()) {
            let v = b.velocity.0;
            assert!(length_squared(v) <= 30_000 * 30_000);
            let outward = Vector3::new(v.x.abs() + 1, v.y.abs() + 1, v.z.abs() + 1);
            assert!(length_squared(outward) >= 5_000 * 5_000);
            assert!(length_squared(v) > 0);
            if b.velocity != old.velocity {
                rescaled += 1;
            }
        }
    }
    assert!(rescaled > 0);
}

#[test]
fn a_tick_on_equal_flocks_gives_equal_flocks() {
    for idx in 0..6 {
        let prop = BoidProperty::predefined(idx);
        let mut one = crowd();
        let mut other = crowd();
        for _ in 0..10 {
            run_tick(&mut one, &prop);
            run_tick(&mut other, &prop);
            assert_eq!(one, other);
        }
    }
}

#[test]
fn a_boid_pulls_the_one_behind_it_closer() {
    let prop = BoidProperty::default();
    assert_eq!(prop.coh_dist_sq, 40_000_000_000);
    assert_eq!(prop.coh_angle_cos, 0);
    assert_eq!(prop.coh_force, 8_000);
    assert_eq!((prop.min_velocity, prop.max_velocity), (5_000, 30_000));
    let mut flock = vec![boid((0, 0, 0), (20_000, 0, 0)), boid((100_000, 0, 0), (20_000, 0, 0))];
    run_tick(&mut flock, &prop);
    // the pull of cohesion is 0.1 * 0.008 = 0.0008
    assert_eq!(flock[0].velocity.0, Vector3::new(20_800, 0, 0));
    assert_eq!(flock[0].position.0, Vector3::new(20_800, 0, 0));
    assert_eq!(flock[1].velocity.0, Vector3::new(20_000, 0, 0));
    assert_eq!(flock[1].position.0, Vector3::new(120_000, 0, 0));
    run_tick(&mut flock, &prop);
    // cohesion 0.0992 * 0.008 = 0.0007936, alignment -0.0008 * 0.05 = -0.00004
    assert_eq!(flock[0].velocity.0, Vector3::new(21_553, 0, 0));
    assert_eq!(flock[0].position.0, Vector3::new(42_353, 0, 0));
    assert_eq!(flock[1].position.0, Vector3::new(140_000, 0, 0));
    let mut distance = flock[1].position.0.x - flock[0].position.0.x;
    assert_eq!(distance, 97_647);
    for _ in 0..5 {
        run_tick(&mut flock, &prop);
        let now = flock[1].position.0.x - flock[0].position.0.x;
        assert!(now < distance);
        assert!(now > 0);
        distance = now;
        for b in flock.iter() {
            assert!(length_squared(b.velocity.0) <= 30_000 * 30_000);
            assert!(idle(b));
        }
    }
    assert!(distance < 100_000 - 10_000);
}

#[test]
fn two_boids_facing_each_other_come_closer() {
    let prop = BoidProperty::default();
    let mut flock = vec![boid((0, 0, 0), (20_000, 0, 0)), boid((100_000, 0, 0), (-20_000, 0, 0))];
    run_tick(&mut flock, &prop);
    // cohesion 0.0008 toward the other, alignment -0.04 * 0.05 = -0.002
    assert_eq!(flock[0].velocity.0, Vector3::new(18_800, 0, 0));
    assert_eq!(flock[1].velocity.0, Vector3::new(-18_800, 0, 0));
    assert_eq!(flock[0].position.0, Vector3::new(18_800, 0, 0));
    assert_eq!(flock[1].position.0, Vector3::new(81_200, 0, 0));
}

#[test]
fn a_lone_boid_outside_the_sphere_is_pulled_back() {
    let prop = BoidProperty::default();
    let mut flock = vec![boid((1_500_000, 0, 0), (20_000, 0, 0))];
    run_tick(&mut flock, &prop);
    assert_eq!(flock[0].velocity.0, Vector3::new(19_500, 0, 0));
    assert_eq!(flock[0].position.0, Vector3::new(1_519_500, 0, 0));
}

#[test]
fn a_boid_whose_velocity_the_force_cancels_comes_to_rest() {
    let mut prop = BoidProperty::default();
    prop.min_velocity = 1_000;
    // three units out the boundary force is 3 * 0.001 * (1 - 3) / 3 = -0.002
    let mut flock = vec![boid((3_000_000, 0, 0), (2_000, 0, 0))];
    run_tick(&mut flock, &prop);
    assert_eq!(flock[0].velocity.0, Vector3::zero());
    assert_eq!(flock[0].position.0, Vector3::new(3_000_000, 0, 0));
}

#[test]
fn an_empty_flock_stays_empty() {
    let prop = BoidProperty::default();
    let mut flock: Vec<Boid> = Vec::new();
    run_tick(&mut flock, &prop);
    assert!(flock.is_empty());
}

#[test]
fn a_generated_flock_can_be_ticked() {
    let prop = BoidProperty::default();
    let mut rng = rand::thread_rng();
    let mut flock = generate_boids(200, &prop, &mut rng);
    assert!(flock.len() <= NEIGHBOURS_MAX);
    for _ in 0..3 {
        run_tick(&mut flock, &prop);
        for b in flock.iter() {
            assert!(idle(b));
            assert!(length_squared(b.velocity.0) <= 30_000 * 30_000);
        }
    }
}

#[test]
fn a_simulation_goes_through_the_phases() {
    let prop = BoidProperty::default();
    let flock = crowd();
    let mut by_passes = flock.clone();
    let mut sim = Simulation::new(flock, prop);
    assert_eq!(sim.phase, Phase::Idle);
    sim.advance();
    assert_eq!(sim.phase, Phase::InteractionDone);
    interact_boids(&prop, &mut by_passes);
    assert_eq!(sim.boids, by_passes);
    sim.advance();
    assert_eq!(sim.phase, Phase::EnvironmentDone);
    affect_from_env(&prop, &mut by_passes);
    assert_eq!(sim.boids, by_passes);
    sim.advance();
    assert_eq!(sim.phase, Phase::Idle);
    integrate(&prop, &mut by_passes);
    assert_eq!(sim.boids, by_passes);
    sim.advance();
    assert_eq!(sim.phase, Phase::InteractionDone);
}

#[test]
fn a_simulation_runs_whole_ticks() {
    let prop = BoidProperty::predefined(3);
    let mut flock = crowd();
    let mut sim = Simulation::new(flock.clone(), prop);
    for _ in 0..4 {
        sim.run_tick();
        run_tick(&mut flock, &prop);
        assert_eq!(sim.phase, Phase::Idle);
        assert_eq!(sim.boids, flock);
        assert_eq!(sim.prop, prop);
    }
}

#[test]
fn new_parameters_wait_for_the_next_tick() {
    let old = BoidProperty::default();
    let new = BoidProperty::predefined(3);
    let mut flock = crowd();
    let mut sim = Simulation::new(flock.clone(), old);
    sim.advance();
    sim.replace_parameters(new);
    assert_eq!(sim.prop, old);
    assert_eq!(sim.pending, Some(new));
    assert_eq!(sim.phase, Phase::InteractionDone);
    sim.advance();
    sim.advance();
    assert_eq!(sim.prop, old);
    assert_eq!(sim.pending, Some(new));
    run_tick(&mut flock, &old);
    assert_eq!(sim.boids, flock);
    sim.run_tick();
    assert_eq!(sim.prop, new);
    assert_eq!(sim.pending, None);
    run_tick(&mut flock, &new);
    assert_eq!(sim.boids, flock);
}

#[test]
fn new_parameters_between_two_ticks_hold_for_the_next() {
    let old = BoidProperty::default();
    let mut flock = crowd();
    let mut sim = Simulation::new(flock.clone(), old);
    sim.replace_parameters(BoidProperty::predefined(1));
    sim.replace_parameters(BoidProperty::predefined(4));
    assert_eq!(sim.prop, old);
    sim.advance();
    assert_eq!(sim.prop, BoidProperty::predefined(4));
    assert_eq!(sim.pending, None);
    interact_boids(&BoidProperty::predefined(4), &mut flock);
    assert_eq!(sim.boids, flock);
}
