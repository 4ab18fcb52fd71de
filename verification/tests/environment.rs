use boids::boid::Boid;
use boids::environment::{affect_from_env, boundary_force};
use boids::params::BoidProperty;
use boids::vector::Vector3;

#[test]
fn outside_the_sphere_the_force_points_to_the_origin() {
    let prop = BoidProperty::default();
    // 1.5 units out: 1.5 * 0.001 * (1 - 1.5) / 1.5 = -0.0005
    assert_eq!(boundary_force(&prop, Vector3::new(1_500_000, 0, 0)), Vector3::new(-500, 0, 0));
    assert_eq!(boundary_force(&prop, Vector3::new(-1_500_000, 0, 0)), Vector3::new(500, 0, 0));
    assert_eq!(boundary_force(&prop, Vector3::new(0, 0, -1_500_000)), Vector3::new(0, 0, 500));
}

#[test]
fn inside_the_sphere_there_is_no_force() {
    let prop = BoidProperty::default();
    assert_eq!(boundary_force(&prop, Vector3::new(500_000, 0, 0)), Vector3::zero());
    assert_eq!(boundary_force(&prop, Vector3::zero()), Vector3::zero());
    assert_eq!(boundary_force(&prop, Vector3::new(0, -999_999, 0)), Vector3::zero());
}

#[test]
fn on_the_sphere_there_is_no_force() {
    let prop = BoidProperty::default();
    assert_eq!(boundary_force(&prop, Vector3::new(1_000_000, 0, 0)), Vector3::zero());
    assert_eq!(boundary_force(&prop, Vector3::new(600_000, 0, 800_000)), Vector3::zero());
}

#[test]
fn the_force_grows_with_the_distance() {
    let prop = BoidProperty::default();
    // five units out: factor 0.001 * (1 - 5) / 5 = -0.0008
    assert_eq!(
        boundary_force(&prop, Vector3::new(0, 3_000_000, 4_000_000)),
        Vector3::new(0, -2_400, -3_200)
    );
    assert_eq!(boundary_force(&prop, Vector3::new(3_000_000, 0, 0)), Vector3::new(-2_000, 0, 0));
    assert_eq!(boundary_force(&prop, Vector3::new(1_000_001, 0, 0)), Vector3::zero());
    assert_eq!(boundary_force(&prop, Vector3::new(1_001_000, 0, 0)), Vector3::new(-1, 0, 0));
}

#[test]
fn the_force_at_the_edge_of_the_world() {
    let prop = BoidProperty::default();
    let f = boundary_force(&prop, Vector3::new(1_000_000_000_000, 0, 0));
    // factor 0.001 * (1 - 1000000) / 1000000
    assert_eq!(f, Vector3::new(-999_999_000, 0, 0));
    let corner = 1_000_000_000_000;
    let g = boundary_force(&prop, Vector3::new(corner, -corner, corner));
    assert!(g.x < 0 && g.y > 0 && g.z < 0);
    assert_eq!(g.x, -g.y);
    assert_eq!(g.x, g.z);
}

#[test]
fn between_a_small_confinement_sphere_and_the_unit_sphere_the_force_points_outward() {
    let mut prop = BoidProperty::default();
    prop.boundary_dist_sq = 250_000_000_000;
    // 0.6 units out: 0.6 * 0.001 * (1 - 0.6) / 0.6 = 0.0004
    assert_eq!(boundary_force(&prop, Vector3::new(600_000, 0, 0)), Vector3::new(400, 0, 0));
    assert_eq!(boundary_force(&prop, Vector3::new(500_000, 0, 0)), Vector3::zero());
}

#[test]
fn the_pass_sets_the_force_of_every_boid() {
    let prop = BoidProperty::default();
    let mut flock = vec![
        Boid::new(Vector3::new(1_500_000, 0, 0), Vector3::new(20_000, 0, 0)),
        Boid::new(Vector3::new(500_000, 0, 0), Vector3::new(0, 20_000, 0)),
        Boid::new(Vector3::new(0, 3_000_000, 4_000_000), Vector3::new(0, 0, 20_000)),
    ];
    flock[1].env_force.boundary = Vector3::new(9, 9, 9);
    flock[2].corr_factor.coh.count = 1;
    flock[2].corr_factor.coh.sum = Vector3::new(5, 6, 7);
    let before = flock.clone();
    affect_from_env(&prop, &mut flock);
    assert_eq!(flock[0].env_force.boundary, Vector3::new(-500, 0, 0));
    assert_eq!(flock[1].env_force.boundary, Vector3::zero());
    assert_eq!(flock[2].env_force.boundary, Vector3::new(0, -2_400, -3_200));
    for t in 0..3 {
        assert_eq!(flock[t].position, before[t].position);
        assert_eq!(flock[t].velocity, before[t].velocity);
        assert_eq!(flock[t].corr_factor, before[t].corr_factor);
    }
}
