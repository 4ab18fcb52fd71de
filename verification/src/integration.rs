//! The integration pass: what a tick has collected for a boid becomes a
//! force, the force a new velocity, the velocity a new position.

use crate::boid::{
    flock_idle, flock_wf, Boid, CorrFactor, Correction, EnvForce, Position, Rule, Tally, Velocity,
    NEIGHBOURS_MAX, WORLD_MAX,
};
use crate::params::{BoidProperty, FORCE_MAX, RANGE_MAX};
use crate::scalar::{lemma_div_trunc_bound, lemma_product_bound, ONE};
use crate::vector::{
    lemma_clamped_length, lemma_component_le_norm, restrict_vector_length, Vector3, LENGTH_MAX, V3,
};
use vstd::prelude::*;

verus! {

/// The pull of a rule that follows the mean of its contributions:
/// `sum / count * weight`, rounded once.
pub open spec fn mean_pull(t: Tally, weight: int) -> V3 {
    if t.count > 0 {
        t.sum.scaled(weight, t.count * ONE)
    } else {
        V3::zero()
    }
}

/// The pull of a rule that follows the sum of its contributions:
/// `sum * weight`.
pub open spec fn sum_pull(t: Tally, weight: int) -> V3 {
    if t.count > 0 {
        t.sum.scaled(weight, ONE as int)
    } else {
        V3::zero()
    }
}

/// The environmental force, the mean pull of cohesion, the summed pull of
/// separation and the mean pull of alignment, added up.
pub open spec fn composed_force(prop: BoidProperty, env: V3, coh: Tally, sep: Tally, ali: Tally) -> V3 {
    env.plus(mean_pull(coh, prop.coh_force as int)).plus(sum_pull(sep, prop.sep_force as int)).plus(
        mean_pull(ali, prop.ali_force as int),
    )
}

/// The force on a boid, composed of what the tick has collected for it.
pub open spec fn force_on(prop: BoidProperty, b: Boid) -> V3 {
    composed_force(
        prop,
        b.env_force.boundary@,
        b.tally(Rule::Cohesion),
        b.tally(Rule::Separation),
        b.tally(Rule::Alignment),
    )
}

/// The velocity of a boid after integration: the sum of velocity and force,
/// brought to a length between the lowest and the highest speed.
pub open spec fn next_velocity(prop: BoidProperty, b: Boid) -> V3 {
    b.velocity.0@.plus(force_on(prop, b)).clamped(
        prop.min_velocity as int,
        prop.max_velocity as int,
    )
}

/// The position of a boid after integration: one step of the new velocity
/// further, and no further from the origin than `WORLD_MAX` along any axis.
pub open spec fn next_position(prop: BoidProperty, b: Boid) -> V3 {
    b.position.0@.plus(next_velocity(prop, b)).confined(WORLD_MAX as int)
}

/// `now` is `before` after integration.
pub open spec fn integrated(now: Boid, before: Boid, prop: BoidProperty) -> bool {
    &&& now.velocity.0@ == next_velocity(prop, before)
    &&& now.position.0@ == next_position(prop, before)
    &&& now.idle()
}

/// `after` is the flock `before` after the integration pass.
pub open spec fn flock_integrated(after: Seq<Boid>, prop: BoidProperty, before: Seq<Boid>) -> bool {
    &&& after.len() == before.len()
    &&& forall|t: int| 0 <= t < before.len() ==> integrated(#[trigger] after[t], before[t], prop)
}

/// The mean of contributions is no larger than the largest of them, and a
/// weight of at most one does not enlarge it.
pub proof fn lemma_mean_pull_bound(c: Correction, weight: int)
    requires
        c.wf(),
        0 <= weight <= FORCE_MAX,
    ensures
        mean_pull(c@, weight).within(RANGE_MAX as int),
{
    if c.count > 0 {
        let n = c.count as int;
        let den = n * ONE;
        assert(den > 0 && (n * RANGE_MAX) * ONE == RANGE_MAX * den) by (nonlinear_arith)
            requires
                den == n * ONE,
                n > 0,
                ONE == 1_000_000,
        ;
        lemma_product_bound(c.sum.x as int, weight, n * RANGE_MAX, ONE as int);
        lemma_product_bound(c.sum.y as int, weight, n * RANGE_MAX, ONE as int);
        lemma_product_bound(c.sum.z as int, weight, n * RANGE_MAX, ONE as int);
        lemma_div_trunc_bound(c.sum.x * weight, den, RANGE_MAX as int);
        lemma_div_trunc_bound(c.sum.y * weight, den, RANGE_MAX as int);
        lemma_div_trunc_bound(c.sum.z * weight, den, RANGE_MAX as int);
    }
}

/// A weight of at most one does not enlarge the sum of contributions.
pub proof fn lemma_sum_pull_bound(c: Correction, weight: int)
    requires
        c.wf(),
        0 <= weight <= FORCE_MAX,
    ensures
        sum_pull(c@, weight).within(NEIGHBOURS_MAX * RANGE_MAX),
        NEIGHBOURS_MAX * RANGE_MAX == 4_000_000_000_000,
{
    let n = c.count as int;
    assert(0 <= n * RANGE_MAX <= NEIGHBOURS_MAX * RANGE_MAX && NEIGHBOURS_MAX * RANGE_MAX
        == 4_000_000_000_000) by (nonlinear_arith)
        requires
            0 <= n <= NEIGHBOURS_MAX,
            NEIGHBOURS_MAX == 1_000_000,
            RANGE_MAX == 4_000_000,
    ;
    if c.count > 0 {
        lemma_product_bound(c.sum.x as int, weight, n * RANGE_MAX, ONE as int);
        lemma_product_bound(c.sum.y as int, weight, n * RANGE_MAX, ONE as int);
        lemma_product_bound(c.sum.z as int, weight, n * RANGE_MAX, ONE as int);
        lemma_div_trunc_bound(c.sum.x * weight, ONE as int, n * RANGE_MAX);
        lemma_div_trunc_bound(c.sum.y * weight, ONE as int, n * RANGE_MAX);
        lemma_div_trunc_bound(c.sum.z * weight, ONE as int, n * RANGE_MAX);
    }
}

/// Computes the mean pull of a correction.
fn mean_pull_of(c: &Correction, weight: i64) -> (f: Vector3)
    requires
        c.wf(),
        0 <= weight <= FORCE_MAX,
    ensures
        f@ == mean_pull(c@, weight as int),
        f@.within(RANGE_MAX as int),
{
    proof {
        lemma_mean_pull_bound(*c, weight as int);
    }
    if c.count > 0 {
        assert(0 < c.count * ONE <= 1_000_000_000_000) by (nonlinear_arith)
            requires
                0 < c.count <= 1_000_000,
                ONE == 1_000_000,
        ;
        c.sum.scaled(weight, (c.count as i128) * (ONE as i128))
    } else {
        Vector3::zero()
    }
}

/// Computes the summed pull of a correction.
fn sum_pull_of(c: &Correction, weight: i64) -> (f: Vector3)
    requires
        c.wf(),
        0 <= weight <= FORCE_MAX,
    ensures
        f@ == sum_pull(c@, weight as int),
        f@.within(4_000_000_000_000),
{
    proof {
        lemma_sum_pull_bound(*c, weight as int);
    }
    if c.count > 0 {
        c.sum.scaled(weight, ONE as i128)
    } else {
        Vector3::zero()
    }
}

/// Integrates one boid: composes the force, clamps the new speed, moves
/// the boid and clears what the tick had collected for it.
pub fn integrate_boid(prop: &BoidProperty, b: Boid) -> (r: Boid)
    requires
        prop.wf(),
        b.wf(),
    ensures
        integrated(r, b, *prop),
        r.wf(),
        r.velocity.0@.norm_sq() <= prop.max_velocity * prop.max_velocity,
        b.velocity.0@.plus(force_on(*prop, b)).norm_sq() != 0 ==> r.velocity.0@.length_between(
            prop.min_velocity as int,
            prop.max_velocity as int,
        ),
{
    let coh: Vector3 = mean_pull_of(&b.corr_factor.coh, prop.coh_force);
    let sep: Vector3 = sum_pull_of(&b.corr_factor.sep, prop.sep_force);
    let ali: Vector3 = mean_pull_of(&b.corr_factor.ali, prop.ali_force);
    proof {
        lemma_component_le_norm(b.velocity.0@, LENGTH_MAX as int);
    }
    let force_sum: Vector3 = b.env_force.boundary.plus(coh).plus(sep).plus(ali);
    let pushed: Vector3 = b.velocity.0.plus(force_sum);
    let velocity: Vector3 = restrict_vector_length(pushed, prop.min_velocity, prop.max_velocity);
    proof {
        lemma_clamped_length(pushed@, prop.min_velocity as int, prop.max_velocity as int);
        vstd::arithmetic::mul::lemma_mul_upper_bound(
            prop.max_velocity as int,
            LENGTH_MAX as int,
            prop.max_velocity as int,
            LENGTH_MAX as int,
        );
        lemma_component_le_norm(velocity@, LENGTH_MAX as int);
    }
    let position: Vector3 = b.position.0.plus(velocity).confined(WORLD_MAX);
    Boid {
        position: Position(position),
        velocity: Velocity(velocity),
        corr_factor: CorrFactor::zero(),
        env_force: EnvForce::zero(),
    }
}

/// The integration pass: every boid is integrated on its own.
pub fn integrate(prop: &BoidProperty, boids: &mut Vec<Boid>)
    requires
        prop.wf(),
        flock_wf(old(boids)@),
    ensures
        flock_integrated(final(boids)@, *prop, old(boids)@),
        flock_wf(final(boids)@),
        flock_idle(final(boids)@),
{
    let n: usize = boids.len();
    let ghost start = boids@;
    let mut i: usize = 0;
    while i < n
        invariant
            i <= n,
            boids@.len() == n,
            start.len() == n,
            prop.wf(),
            flock_wf(start),
            flock_wf(boids@),
            forall|t: int| i <= t < n ==> boids@[t] == start[t],
            forall|t: int| 0 <= t < i ==> integrated(#[trigger] boids@[t], start[t], *prop),
        decreases n - i,
    {
        let b: Boid = boids[i];
        boids[i] = integrate_boid(prop, b);
        i += 1;
    }
}

} // verus!
