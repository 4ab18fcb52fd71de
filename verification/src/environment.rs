//! The environment pass: a force that pulls boids back toward the unit
//! sphere once they are outside the confinement sphere.

use crate::boid::{flock_wf, Boid, EnvForce, ENV_FORCE_MAX, WORLD_MAX};
use crate::params::BoidProperty;
use crate::scalar::{
    isqrt, lemma_component_below_root, lemma_div_trunc_bound, lemma_div_trunc_sign,
    lemma_product_bound, lemma_sqrt_floor_bounds, lemma_square_bound, lemma_square_le,
    sqrt_floor, ONE,
};
use crate::vector::{Vector3, V3};
use vstd::prelude::*;

verus! {

/// The force on a boid at `p`. Outside the confinement sphere it is `p`
/// times `boundary_force * (1 - len) / len`, where `len` is the distance
/// from the origin rounded down to a whole step; inside there is none.
pub open spec fn boundary_pull(prop: BoidProperty, p: V3) -> V3 {
    let q = p.norm_sq();
    if q > prop.boundary_dist_sq {
        let len = sqrt_floor(q as nat) as int;
        p.scaled(prop.boundary_force * (ONE - len), len * ONE)
    } else {
        V3::zero()
    }
}

/// `now` is `before` after the environment pass: it is given the boundary
/// force of its position, and nothing else changes.
pub open spec fn pulled(now: Boid, before: Boid, prop: BoidProperty) -> bool {
    &&& now.moves_like(before)
    &&& now.corr_factor == before.corr_factor
    &&& now.env_force.boundary@ == boundary_pull(prop, before.position.0@)
}

/// `after` is the flock `before` after the environment pass.
pub open spec fn flock_pulled(after: Seq<Boid>, prop: BoidProperty, before: Seq<Boid>) -> bool {
    &&& after.len() == before.len()
    &&& forall|t: int| 0 <= t < before.len() ==> pulled(#[trigger] after[t], before[t], prop)
}

/// No component of the boundary force exceeds the distance from the origin
/// by more than a world unit.
pub proof fn lemma_boundary_pull_bound(prop: BoidProperty, p: V3)
    requires
        prop.wf(),
        p.norm_sq() > prop.boundary_dist_sq,
    ensures
        sqrt_floor(p.norm_sq() as nat) >= 1,
        boundary_pull(prop, p).within(ONE + sqrt_floor(p.norm_sq() as nat)),
{
    let q = p.norm_sq();
    let len = sqrt_floor(q as nat) as int;
    lemma_sqrt_floor_bounds(q as nat);
    assert(len >= 1) by (nonlinear_arith)
        requires
            q < (len + 1) * (len + 1),
            q >= 1,
            len >= 0,
    ;
    let num = prop.boundary_force * (ONE - len);
    let den = len * ONE;
    let x = ONE + len;
    assert(den > 0) by (nonlinear_arith)
        requires
            den == len * ONE,
            len >= 1,
            ONE == 1_000_000,
    ;
    assert(0 <= p.x * p.x <= q && 0 <= p.y * p.y <= q && 0 <= p.z * p.z <= q) by (nonlinear_arith)
        requires
            q == p.x * p.x + p.y * p.y + p.z * p.z,
    ;
    lemma_component_below_root(p.x, q);
    lemma_component_below_root(p.y, q);
    lemma_component_below_root(p.z, q);
    assert(-(ONE * x) <= num <= ONE * x) by (nonlinear_arith)
        requires
            num == prop.boundary_force * (ONE - len),
            0 <= prop.boundary_force <= ONE,
            ONE == 1_000_000,
            len >= 1,
            x == ONE + len,
    ;
    assert(len * (ONE * x) == x * den) by (nonlinear_arith)
        requires
            den == len * ONE,
    ;
    lemma_product_bound(p.x, num, len, ONE * x);
    lemma_product_bound(p.y, num, len, ONE * x);
    lemma_product_bound(p.z, num, len, ONE * x);
    lemma_div_trunc_bound(p.x * num, den, x);
    lemma_div_trunc_bound(p.y * num, den, x);
    lemma_div_trunc_bound(p.z * num, den, x);
}

/// Outside both the confinement sphere and the unit sphere the boundary
/// force points back toward the origin: along no axis does it point the
/// way the position does.
pub proof fn lemma_boundary_pull_inward(prop: BoidProperty, p: V3)
    requires
        prop.wf(),
        p.norm_sq() > prop.boundary_dist_sq,
        p.norm_sq() >= ONE * ONE,
    ensures
        ({
            let f = boundary_pull(prop, p);
            &&& (p.x >= 0 ==> f.x <= 0) && (p.x <= 0 ==> f.x >= 0)
            &&& (p.y >= 0 ==> f.y <= 0) && (p.y <= 0 ==> f.y >= 0)
            &&& (p.z >= 0 ==> f.z <= 0) && (p.z <= 0 ==> f.z >= 0)
        }),
{
    let q = p.norm_sq();
    let len = sqrt_floor(q as nat) as int;
    lemma_sqrt_floor_bounds(q as nat);
    if len < ONE {
        lemma_square_le(len + 1, ONE as int);
    }
    let num = prop.boundary_force * (ONE - len);
    let den = len * ONE;
    assert(den > 0 && num <= 0) by (nonlinear_arith)
        requires
            den == len * ONE,
            num == prop.boundary_force * (ONE - len),
            len >= ONE,
            ONE == 1_000_000,
            0 <= prop.boundary_force,
    ;
    lemma_div_trunc_sign(p.x, num, den);
    lemma_div_trunc_sign(p.y, num, den);
    lemma_div_trunc_sign(p.z, num, den);
}

/// Computes the boundary force on a boid at `pos`.
pub fn boundary_force(prop: &BoidProperty, pos: Vector3) -> (f: Vector3)
    requires
        prop.wf(),
        pos@.within(WORLD_MAX as int),
    ensures
        f@ == boundary_pull(*prop, pos@),
        f@.within(ENV_FORCE_MAX as int),
{
    let len_sq: i128 = pos.length_squared();
    if len_sq > prop.boundary_dist_sq as i128 {
        let len: i128 = isqrt(len_sq as u128) as i128;
        proof {
            lemma_boundary_pull_bound(*prop, pos@);
            lemma_sqrt_floor_bounds(len_sq as nat);
            if len >= 1_800_000_000_000 {
                lemma_square_le(1_800_000_000_000, len as int);
            }
            lemma_square_bound(pos.x as int, 1_000_000_000_000);
            lemma_square_bound(pos.y as int, 1_000_000_000_000);
            lemma_square_bound(pos.z as int, 1_000_000_000_000);
            assert(-1_800_000_000_000_000_000 <= prop.boundary_force * (ONE - len)
                <= 1_800_000_000_000_000_000) by (nonlinear_arith)
                requires
                    0 <= prop.boundary_force <= 1_000_000,
                    ONE == 1_000_000,
                    1 <= len < 1_800_000_000_000,
            ;
        }
        let num: i64 = ((prop.boundary_force as i128) * (ONE as i128 - len)) as i64;
        let den: i128 = len * (ONE as i128);
        pos.scaled(num, den)
    } else {
        Vector3::zero()
    }
}

/// The environment pass: every boid is given the boundary force of its
/// position. Nothing else changes.
pub fn affect_from_env(prop: &BoidProperty, boids: &mut Vec<Boid>)
    requires
        prop.wf(),
        flock_wf(old(boids)@),
    ensures
        flock_pulled(final(boids)@, *prop, old(boids)@),
        flock_wf(final(boids)@),
{
    let n: usize = boids.len();
    let ghost start = boids@;
    let mut i: usize = 0;
    while i < n
        invariant
            i <= n,
            boids@.len() == n,
            start.len() == n,
            prop.wf(),
            flock_wf(start),
            flock_wf(boids@),
            forall|t: int| i <= t < n ==> boids@[t] == start[t],
            forall|t: int| 0 <= t < i ==> pulled(#[trigger] boids@[t], start[t], *prop),
        decreases n - i,
    {
        let b: Boid = boids[i];
        let force: Vector3 = boundary_force(prop, b.position.0);
        boids[i] = Boid {
            position: b.position,
            velocity: b.velocity,
            corr_factor: b.corr_factor,
            env_force: EnvForce { boundary: force },
        };
        i += 1;
    }
}

} // verus!
