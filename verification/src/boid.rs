//! The state of one boid.

use crate::params::RANGE_MAX;
use crate::vector::{lemma_component_le_norm, Vector3, LENGTH_MAX, V3};
use vstd::prelude::*;

verus! {

/// Largest magnitude of a position coordinate: a million world units.
pub const WORLD_MAX: i64 = 1_000_000_000_000;

/// Largest number of contributions that one correction can hold.
pub const NEIGHBOURS_MAX: usize = 1_000_000;

/// Largest magnitude of a component of the environmental force.
pub const ENV_FORCE_MAX: i64 = 2_000_000_000_000;

/// The three rules by which boids react to each other.
#[derive(Clone, Copy, Debug, PartialEq, Eq, Structural)]
pub enum Rule {
    Cohesion,
    Separation,
    Alignment,
}

/// A count of contributions and their sum, as mathematical values.
pub struct Tally {
    pub count: int,
    pub sum: V3,
}

impl Tally {
    pub open spec fn zero() -> Tally {
        Tally { count: 0, sum: V3::zero() }
    }

    /// One more contribution.
    pub open spec fn with(self, contribution: V3) -> Tally {
        Tally { count: self.count + 1, sum: self.sum.plus(contribution) }
    }

    /// The contributions of both tallies together.
    pub open spec fn plus(self, o: Tally) -> Tally {
        Tally { count: self.count + o.count, sum: self.sum.plus(o.sum) }
    }
}

/// The correction that one rule has collected for one boid during a tick.
#[derive(Clone, Copy, Debug, PartialEq, Eq, Structural)]
pub struct Correction {
    pub count: usize,
    pub sum: Vector3,
}

impl View for Correction {
    type V = Tally;

    open spec fn view(&self) -> Tally {
        Tally { count: self.count as int, sum: self.sum@ }
    }
}

impl Correction {
    /// No contribution is larger than `RANGE_MAX` along any axis, and at
    /// most `NEIGHBOURS_MAX` of them are held.
    pub open spec fn wf(self) -> bool {
        &&& self.count <= NEIGHBOURS_MAX
        &&& self.sum@.within(self.count * RANGE_MAX)
    }

    /// Tells whether the correction is well formed.
    pub fn is_wf(&self) -> (b: bool)
        ensures
            b == self.wf(),
    {
        if self.count > NEIGHBOURS_MAX {
            return false;
        }
        assert(0 <= self.count * RANGE_MAX <= 4_000_000_000_000) by (nonlinear_arith)
            requires
                0 <= self.count <= 1_000_000,
                RANGE_MAX == 4_000_000,
        ;
        self.sum.is_within((self.count as i64) * RANGE_MAX)
    }

    pub fn zero() -> (c: Correction)
        ensures
            c@ == Tally::zero(),
            c.wf(),
    {
        Correction { count: 0, sum: Vector3::zero() }
    }

    /// Counts one more contribution and adds it to the sum.
    pub fn record(self, contribution: Vector3) -> (c: Correction)
        requires
            self.wf(),
            self.count < NEIGHBOURS_MAX,
            contribution@.within(RANGE_MAX as int),
        ensures
            c@ == self@.with(contribution@),
            c.wf(),
    {
        assert(self.count * RANGE_MAX <= NEIGHBOURS_MAX * RANGE_MAX
            && (self.count + 1) * RANGE_MAX == self.count * RANGE_MAX + RANGE_MAX)
            by (nonlinear_arith)
            requires
                0 <= self.count <= NEIGHBOURS_MAX,
        ;
        Correction { count: self.count + 1, sum: self.sum.plus(contribution) }
    }
}

#[derive(Clone, Copy, Debug, PartialEq, Eq, Structural)]
pub struct Position(pub Vector3);

#[derive(Clone, Copy, Debug, PartialEq, Eq, Structural)]
pub struct Velocity(pub Vector3);

/// The corrections of the three rules.
#[derive(Clone, Copy, Debug, PartialEq, Eq, Structural)]
pub struct CorrFactor {
    pub coh: Correction,
    pub sep: Correction,
    pub ali: Correction,
}

impl CorrFactor {
    pub open spec fn wf(self) -> bool {
        self.coh.wf() && self.sep.wf() && self.ali.wf()
    }

    pub open spec fn is_zero(self) -> bool {
        &&& self.coh@ == Tally::zero()
        &&& self.sep@ == Tally::zero()
        &&& self.ali@ == Tally::zero()
    }

    /// Every correction can take `more` further contributions.
    pub open spec fn has_room(self, more: int) -> bool {
        &&& self.coh.count + more <= NEIGHBOURS_MAX
        &&& self.sep.count + more <= NEIGHBOURS_MAX
        &&& self.ali.count + more <= NEIGHBOURS_MAX
    }

    /// Tells whether the three corrections are well formed.
    pub fn is_wf(&self) -> (b: bool)
        ensures
            b == self.wf(),
    {
        self.coh.is_wf() && self.sep.is_wf() && self.ali.is_wf()
    }

    /// Tells whether every correction can take `more` further contributions.
    pub fn can_take(&self, more: usize) -> (b: bool)
        ensures
            b == self.has_room(more as int),
    {
        more <= NEIGHBOURS_MAX && self.coh.count <= NEIGHBOURS_MAX - more && self.sep.count
            <= NEIGHBOURS_MAX - more && self.ali.count <= NEIGHBOURS_MAX - more
    }

    pub fn zero() -> (c: CorrFactor)
        ensures
            c.is_zero(),
            c.wf(),
    {
        CorrFactor { coh: Correction::zero(), sep: Correction::zero(), ali: Correction::zero() }
    }
}

/// The force that the surroundings exert on a boid during a tick.
#[derive(Clone, Copy, Debug, PartialEq, Eq, Structural)]
pub struct EnvForce {
    pub boundary: Vector3,
}

impl EnvForce {
    pub fn zero() -> (f: EnvForce)
        ensures
            f.boundary@ == V3::zero(),
    {
        EnvForce { boundary: Vector3::zero() }
    }
}

/// One boid: where it is, how it moves, and what a tick has collected for it.
#[derive(Clone, Copy, Debug, PartialEq, Eq, Structural)]
pub struct Boid {
    pub position: Position,
    pub velocity: Velocity,
    pub corr_factor: CorrFactor,
    pub env_force: EnvForce,
}

impl Boid {
    /// The position lies within `WORLD_MAX` of the origin along every axis,
    /// the speed is at most `LENGTH_MAX`, and what the tick has collected
    /// is within its limits.
    pub open spec fn wf(self) -> bool {
        &&& self.position.0@.within(WORLD_MAX as int)
        &&& self.velocity.0@.norm_sq() <= LENGTH_MAX * LENGTH_MAX
        &&& self.corr_factor.wf()
        &&& self.env_force.boundary@.within(ENV_FORCE_MAX as int)
    }

    /// Nothing is collected: the state between two ticks.
    pub open spec fn idle(self) -> bool {
        &&& self.corr_factor.is_zero()
        &&& self.env_force.boundary@ == V3::zero()
    }

    /// What the given rule has collected.
    pub open spec fn tally(self, rule: Rule) -> Tally {
        match rule {
            Rule::Cohesion => self.corr_factor.coh@,
            Rule::Separation => self.corr_factor.sep@,
            Rule::Alignment => self.corr_factor.ali@,
        }
    }

    /// Position and velocity are those of `o`.
    pub open spec fn moves_like(self, o: Boid) -> bool {
        self.position == o.position && self.velocity == o.velocity
    }

    /// Tells whether the boid is well formed.
    pub fn is_wf(&self) -> (b: bool)
        ensures
            b == self.wf(),
    {
        if !self.velocity.0.is_within(LENGTH_MAX) {
            proof {
                if self.wf() {
                    lemma_component_le_norm(self.velocity.0@, LENGTH_MAX as int);
                }
            }
            return false;
        }
        self.position.0.is_within(WORLD_MAX) && self.velocity.0.length_squared()
            <= 1_000_000_000_000 && self.corr_factor.is_wf() && self.env_force.boundary.is_within(
            ENV_FORCE_MAX,
        )
    }

    /// A boid between two ticks.
    pub fn new(position: Vector3, velocity: Vector3) -> (b: Boid)
        ensures
            b.position.0 == position,
            b.velocity.0 == velocity,
            b.idle(),
            b.corr_factor.wf(),
    {
        Boid {
            position: Position(position),
            velocity: Velocity(velocity),
            corr_factor: CorrFactor::zero(),
            env_force: EnvForce::zero(),
        }
    }

    pub fn position(&self) -> (p: Vector3)
        ensures
            p == self.position.0,
    {
        self.position.0
    }

    pub fn velocity(&self) -> (v: Vector3)
        ensures
            v == self.velocity.0,
    {
        self.velocity.0
    }
}

/// Every boid of the flock is well formed.
pub open spec fn flock_wf(flock: Seq<Boid>) -> bool {
    forall|t: int| 0 <= t < flock.len() ==> (#[trigger] flock[t]).wf()
}

/// Every boid of the flock is between two ticks.
pub open spec fn flock_idle(flock: Seq<Boid>) -> bool {
    forall|t: int| 0 <= t < flock.len() ==> (#[trigger] flock[t]).idle()
}

/// Every boid can take a contribution from every other boid of the flock.
pub open spec fn flock_has_room(flock: Seq<Boid>) -> bool {
    forall|t: int| 0 <= t < flock.len() ==> (#[trigger] flock[t]).corr_factor.has_room(flock.len() as int)
}

/// Tells whether a tick can be run on the flock: every boid is well formed
/// and can take a contribution from every other.
pub fn flock_is_ready(boids: &Vec<Boid>) -> (b: bool)
    ensures
        b == (flock_wf(boids@) && flock_has_room(boids@)),
{
    let n: usize = boids.len();
    let mut i: usize = 0;
    while i < n
        invariant
            i <= n,
            n == boids@.len(),
            forall|t: int| 0 <= t < i ==> (#[trigger] boids@[t]).wf(),
            forall|t: int| 0 <= t < i ==> (#[trigger] boids@[t]).corr_factor.has_room(n as int),
        decreases n - i,
    {
        if !boids[i].is_wf() || !boids[i].corr_factor.can_take(n) {
            return false;
        }
        i += 1;
    }
    true
}

/// Tells whether every boid of the flock is well formed.
pub fn flock_is_wf(boids: &Vec<Boid>) -> (b: bool)
    ensures
        b == flock_wf(boids@),
{
    let n: usize = boids.len();
    let mut i: usize = 0;
    while i < n
        invariant
            i <= n,
            n == boids@.len(),
            forall|t: int| 0 <= t < i ==> (#[trigger] boids@[t]).wf(),
        decreases n - i,
    {
        if !boids[i].is_wf() {
            return false;
        }
        i += 1;
    }
    true
}

} // verus!
