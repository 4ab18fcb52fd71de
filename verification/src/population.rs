//! The initial flock: boids at random places, moving in random directions.

use crate::boid::{flock_idle, flock_wf, Boid};
use crate::params::BoidProperty;
use crate::scalar::ONE;
use crate::vector::{lemma_clamped_length, restrict_vector_length, Vector3, LENGTH_MAX, V3};
use rand::rngs::ThreadRng;
use rand::Rng;
use vstd::prelude::*;

verus! {

/// Default number of boids in a flock.
pub const BOIDS_COUNT: usize = 1024;

/// The thread-local random number generator of `rand`.
#[verifier::external_type_specification]
#[verifier::external_body]
pub struct ExThreadRng(ThreadRng);

/// Draws a scalar with `Rng::gen_range` on the inclusive range from `low`
/// to `high`. The draw lies in the range; `gen_range` panics on an empty
/// range, which `low <= high` excludes. Nothing else is claimed of it.
#[verifier::external_body]
fn draw_between(rng: &mut ThreadRng, low: i64, high: i64) -> (r: i64)
    requires
        low <= high,
    ensures
        low <= r <= high,
{
    rng.gen_range(low..=high)
}

/// `b` is a new boid made of the drawn position `p` and the drawn velocity
/// `v`: it is where `p` says, it moves as `v` says once `v` is brought to a
/// length between the lowest and the highest speed, and it is idle.
pub open spec fn spawned(b: Boid, prop: BoidProperty, p: V3, v: V3) -> bool {
    &&& b.position.0@ == p
    &&& b.velocity.0@ == v.clamped(prop.min_velocity as int, prop.max_velocity as int)
    &&& b.idle()
}

/// `b` is a new boid made of some position and some velocity of the cube
/// of half-width one around the origin.
pub open spec fn spawned_in_cube(b: Boid, prop: BoidProperty) -> bool {
    exists|p: V3, v: V3| p.within(ONE as int) && v.within(ONE as int) && #[trigger] spawned(b, prop, p, v)
}

/// Makes a boid of a drawn position and a drawn velocity.
pub fn spawn_boid(prop: &BoidProperty, position: Vector3, velocity: Vector3) -> (b: Boid)
    requires
        prop.wf(),
        position@.within(ONE as int),
        velocity@.within(ONE as int),
    ensures
        spawned(b, *prop, position@, velocity@),
        b.wf(),
        b.velocity.0@.norm_sq() <= prop.max_velocity * prop.max_velocity,
{
    let v: Vector3 = restrict_vector_length(velocity, prop.min_velocity, prop.max_velocity);
    proof {
        lemma_clamped_length(velocity@, prop.min_velocity as int, prop.max_velocity as int);
        vstd::arithmetic::mul::lemma_mul_upper_bound(
            prop.max_velocity as int,
            LENGTH_MAX as int,
            prop.max_velocity as int,
            LENGTH_MAX as int,
        );
    }
    Boid::new(position, v)
}

/// Makes a flock of `count` boids. Every position and every velocity is
/// drawn from the cube of half-width one around the origin, coordinate by
/// coordinate; the velocity is then brought to a length between the lowest
/// and the highest speed.
pub fn generate_boids(count: usize, prop: &BoidProperty, rng: &mut ThreadRng) -> (boids: Vec<Boid>)
    requires
        prop.wf(),
    ensures
        boids@.len() == count,
        forall|t: int| 0 <= t < count ==> spawned_in_cube(#[trigger] boids@[t], *prop),
        flock_wf(boids@),
        flock_idle(boids@),
{
    let mut boids: Vec<Boid> = Vec::new();
    let mut i: usize = 0;
    while i < count
        invariant
            i <= count,
            boids@.len() == i,
            prop.wf(),
            forall|t: int| 0 <= t < i ==> spawned_in_cube(#[trigger] boids@[t], *prop),
            flock_wf(boids@),
            flock_idle(boids@),
        decreases count - i,
    {
        let px: i64 = draw_between(rng, -ONE, ONE);
        let py: i64 = draw_between(rng, -ONE, ONE);
        let pz: i64 = draw_between(rng, -ONE, ONE);
        let position: Vector3 = Vector3::new(px, py, pz);
        let vx: i64 = draw_between(rng, -ONE, ONE);
        let vy: i64 = draw_between(rng, -ONE, ONE);
        let vz: i64 = draw_between(rng, -ONE, ONE);
        let velocity: Vector3 = Vector3::new(vx, vy, vz);
        let b: Boid = spawn_boid(prop, position, velocity);
        proof {
            assert(spawned(b, *prop, position@, velocity@));
        }
        boids.push(b);
        i += 1;
    }
    boids
}

} // verus!
