//! One tick of the simulation: the interaction pass, the environment pass
//! and the integration pass, in this order.

use crate::boid::{
    flock_has_room, flock_idle, flock_is_ready, flock_is_wf, flock_wf, Boid, Rule, WORLD_MAX,
};
use crate::environment::{affect_from_env, boundary_pull, flock_pulled};
use crate::integration::{composed_force, flock_integrated, integrate, integrated};
use crate::interaction::{
    after_meeting_first, flock_met, gathered, interact_boids, lemma_gathered_by_motion,
};
use crate::params::BoidProperty;
use crate::vector::V3;
use vstd::prelude::*;

verus! {

/// What a rule has collected for boid `t` when the interaction pass is over.
pub open spec fn tick_tally(prop: BoidProperty, rule: Rule, flock: Seq<Boid>, t: int) -> crate::boid::Tally {
    flock[t].tally(rule).plus(gathered(prop, rule, flock, t, flock.len() as int))
}

/// The force that a tick exerts on boid `t` of the flock.
pub open spec fn tick_force(prop: BoidProperty, flock: Seq<Boid>, t: int) -> V3 {
    composed_force(
        prop,
        boundary_pull(prop, flock[t].position.0@),
        tick_tally(prop, Rule::Cohesion, flock, t),
        tick_tally(prop, Rule::Separation, flock, t),
        tick_tally(prop, Rule::Alignment, flock, t),
    )
}

/// The velocity of boid `t` of the flock after a tick.
pub open spec fn tick_velocity(prop: BoidProperty, flock: Seq<Boid>, t: int) -> V3 {
    flock[t].velocity.0@.plus(tick_force(prop, flock, t)).clamped(
        prop.min_velocity as int,
        prop.max_velocity as int,
    )
}

/// The position of boid `t` of the flock after a tick.
pub open spec fn tick_position(prop: BoidProperty, flock: Seq<Boid>, t: int) -> V3 {
    flock[t].position.0@.plus(tick_velocity(prop, flock, t)).confined(WORLD_MAX as int)
}

/// `now` is boid `t` of the flock after a tick.
pub open spec fn ticked(now: Boid, prop: BoidProperty, flock: Seq<Boid>, t: int) -> bool {
    &&& now.velocity.0@ == tick_velocity(prop, flock, t)
    &&& now.position.0@ == tick_position(prop, flock, t)
    &&& now.idle()
}

/// `after` is the flock `before` after a tick.
pub open spec fn flock_ticked(after: Seq<Boid>, prop: BoidProperty, before: Seq<Boid>) -> bool {
    &&& after.len() == before.len()
    &&& forall|t: int| 0 <= t < before.len() ==> ticked(#[trigger] after[t], prop, before, t)
}

/// The speed of boid `t` after a tick is at most the highest speed. It is
/// also at least the lowest speed, up to one step per axis, unless velocity
/// and force cancel each other: a boid brought to rest has no direction to
/// be sped up in, and stays at rest.
pub open spec fn speed_kept(now: Boid, prop: BoidProperty, flock: Seq<Boid>, t: int) -> bool {
    &&& now.velocity.0@.norm_sq() <= prop.max_velocity * prop.max_velocity
    &&& flock[t].velocity.0@.plus(tick_force(prop, flock, t)).norm_sq() != 0
        ==> now.velocity.0@.length_between(prop.min_velocity as int, prop.max_velocity as int)
}

/// Runs one tick. Every boid collects what the rules make it see of every
/// other boid and is given the boundary force of its position; then it
/// takes its new velocity and position, and what it had collected is
/// cleared.
pub fn run_tick(boids: &mut Vec<Boid>, prop: &BoidProperty)
    requires
        prop.wf(),
        flock_wf(old(boids)@),
        flock_has_room(old(boids)@),
    ensures
        flock_ticked(final(boids)@, *prop, old(boids)@),
        flock_idle(final(boids)@),
        flock_wf(final(boids)@),
        forall|t: int|
            0 <= t < old(boids)@.len() ==> speed_kept(#[trigger] final(boids)@[t], *prop, old(boids)@, t),
{
    let ghost start = boids@;
    interact_boids(prop, boids);
    let ghost met = boids@;
    affect_from_env(prop, boids);
    let ghost pulled = boids@;
    integrate(prop, boids);
    proof {
        lemma_three_passes_make_a_tick(*prop, start, met, pulled, boids@);
        lemma_speed_kept(*prop, start, boids@);
    }
}

/// The interaction pass, the environment pass and the integration pass,
/// one after the other, make a tick.
pub proof fn lemma_three_passes_make_a_tick(
    prop: BoidProperty,
    start: Seq<Boid>,
    met: Seq<Boid>,
    pulled: Seq<Boid>,
    end: Seq<Boid>,
)
    requires
        flock_met(met, prop, start),
        flock_pulled(pulled, prop, met),
        flock_integrated(end, prop, pulled),
    ensures
        flock_ticked(end, prop, start),
{
    assert forall|t: int| 0 <= t < start.len() implies ticked(#[trigger] end[t], prop, start, t) by {
        assert(after_meeting_first(met[t], prop, start, t, start.len() as int));
        assert(crate::environment::pulled(pulled[t], met[t], prop));
        assert(integrated(end[t], pulled[t], prop));
    }
}

/// The environment pass and the interaction pass write to different
/// fields: whichever of the two runs first, the flock is the same after
/// both.
pub proof fn lemma_first_passes_commute(
    prop: BoidProperty,
    start: Seq<Boid>,
    met: Seq<Boid>,
    met_pulled: Seq<Boid>,
    pulled: Seq<Boid>,
    pulled_met: Seq<Boid>,
)
    requires
        flock_met(met, prop, start),
        flock_pulled(met_pulled, prop, met),
        flock_pulled(pulled, prop, start),
        flock_met(pulled_met, prop, pulled),
    ensures
        met_pulled == pulled_met,
{
    let n = start.len() as int;
    assert forall|t: int| 0 <= t < n implies (#[trigger] pulled[t]).moves_like(start[t]) by {
        assert(crate::environment::pulled(pulled[t], start[t], prop));
    }
    assert forall|t: int| 0 <= t < n implies met_pulled[t] == pulled_met[t] by {
        let a = met_pulled[t];
        let b = pulled_met[t];
        lemma_gathered_by_motion(prop, Rule::Cohesion, pulled, start, t, n);
        lemma_gathered_by_motion(prop, Rule::Separation, pulled, start, t, n);
        lemma_gathered_by_motion(prop, Rule::Alignment, pulled, start, t, n);
        assert(after_meeting_first(met[t], prop, start, t, n));
        assert(crate::environment::pulled(a, met[t], prop));
        assert(crate::environment::pulled(pulled[t], start[t], prop));
        assert(after_meeting_first(b, prop, pulled, t, n));
        assert(a.position == b.position);
        assert(a.velocity == b.velocity);
        assert(a.tally(Rule::Cohesion) == b.tally(Rule::Cohesion));
        assert(a.tally(Rule::Separation) == b.tally(Rule::Separation));
        assert(a.tally(Rule::Alignment) == b.tally(Rule::Alignment));
        assert(a.corr_factor.coh == b.corr_factor.coh);
        assert(a.corr_factor.sep == b.corr_factor.sep);
        assert(a.corr_factor.ali == b.corr_factor.ali);
        assert(a.env_force.boundary == b.env_force.boundary);
    }
    assert(met_pulled =~= pulled_met);
}

/// After a tick every boid keeps to the speed range, as `speed_kept` says.
pub proof fn lemma_speed_kept(prop: BoidProperty, before: Seq<Boid>, after: Seq<Boid>)
    requires
        prop.wf(),
        flock_ticked(after, prop, before),
    ensures
        forall|t: int| 0 <= t < before.len() ==> speed_kept(#[trigger] after[t], prop, before, t),
{
    assert forall|t: int| 0 <= t < before.len() implies speed_kept(
        #[trigger] after[t],
        prop,
        before,
        t,
    ) by {
        assert(ticked(after[t], prop, before, t));
        crate::vector::lemma_clamped_length(
            before[t].velocity.0@.plus(tick_force(prop, before, t)),
            prop.min_velocity as int,
            prop.max_velocity as int,
        );
    }
}

/// A tick is a function of the flock and the parameters: two flocks that
/// both are the same flock after a tick with the same parameters are equal.
pub proof fn lemma_tick_deterministic(
    prop: BoidProperty,
    before: Seq<Boid>,
    after1: Seq<Boid>,
    after2: Seq<Boid>,
)
    requires
        flock_ticked(after1, prop, before),
        flock_ticked(after2, prop, before),
    ensures
        after1 == after2,
{
    assert forall|t: int| 0 <= t < before.len() implies after1[t] == after2[t] by {
        let a = after1[t];
        let b = after2[t];
        assert(ticked(a, prop, before, t) && ticked(b, prop, before, t));
        assert(a.position.0 == b.position.0);
        assert(a.velocity.0 == b.velocity.0);
        assert(a.corr_factor.coh == b.corr_factor.coh);
        assert(a.corr_factor.sep == b.corr_factor.sep);
        assert(a.corr_factor.ali == b.corr_factor.ali);
        assert(a.env_force.boundary == b.env_force.boundary);
    }
    assert(after1 =~= after2);
}

/// Where a tick stands.
#[derive(Clone, Copy, Debug, PartialEq, Eq, Structural)]
pub enum Phase {
    /// Between two ticks.
    Idle,
    /// The interaction pass is over.
    InteractionDone,
    /// The environment pass is over too; the integration pass ends the tick.
    EnvironmentDone,
}

/// A flock with its parameters, advanced pass by pass.
pub struct Simulation {
    pub boids: Vec<Boid>,
    pub prop: BoidProperty,
    /// Parameters that take the place of `prop` when the next tick begins.
    pub pending: Option<BoidProperty>,
    pub phase: Phase,
}

impl Simulation {
    /// Flock and parameters are well formed, and between two ticks every
    /// boid can take a contribution from every other.
    pub open spec fn wf(&self) -> bool {
        &&& self.prop.wf()
        &&& (self.pending is Some ==> self.pending->Some_0.wf())
        &&& flock_wf(self.boids@)
        &&& self.boids@.len() <= crate::boid::NEIGHBOURS_MAX
        &&& (self.phase == Phase::Idle ==> flock_has_room(self.boids@))
    }

    /// The parameters that the next pass reads: between two ticks the
    /// pending ones, if there are any.
    pub open spec fn effective(&self) -> BoidProperty {
        if self.phase == Phase::Idle && self.pending is Some {
            self.pending->Some_0
        } else {
            self.prop
        }
    }

    /// The phase after the next pass.
    pub open spec fn next_phase(phase: Phase) -> Phase {
        match phase {
            Phase::Idle => Phase::InteractionDone,
            Phase::InteractionDone => Phase::EnvironmentDone,
            Phase::EnvironmentDone => Phase::Idle,
        }
    }

    /// Tells whether the simulation is well formed.
    pub fn is_wf(&self) -> (b: bool)
        ensures
            b == self.wf(),
    {
        let pending_ok: bool = match self.pending {
            Some(p) => p.is_wf(),
            None => true,
        };
        if !self.prop.is_wf() || !pending_ok || self.boids.len() > crate::boid::NEIGHBOURS_MAX {
            return false;
        }
        match self.phase {
            Phase::Idle => flock_is_ready(&self.boids),
            _ => flock_is_wf(&self.boids),
        }
    }

    /// A simulation between two ticks.
    pub fn new(boids: Vec<Boid>, prop: BoidProperty) -> (s: Simulation)
        requires
            prop.wf(),
            flock_wf(boids@),
            flock_has_room(boids@),
            boids@.len() <= crate::boid::NEIGHBOURS_MAX,
        ensures
            s.wf(),
            s.boids@ == boids@,
            s.prop == prop,
            s.pending is None,
            s.phase == Phase::Idle,
    {
        Simulation { boids, prop, pending: None, phase: Phase::Idle }
    }

    /// Hands over new parameters. The passes of a tick that has begun go
    /// on with the old ones; the next tick begins with the new ones.
    pub fn replace_parameters(&mut self, new: BoidProperty)
        requires
            old(self).wf(),
            new.wf(),
        ensures
            final(self).wf(),
            final(self).pending == Some(new),
            final(self).prop == old(self).prop,
            final(self).boids == old(self).boids,
            final(self).phase == old(self).phase,
    {
        self.pending = Some(new);
    }

    /// Runs the next pass of the tick. The interaction pass begins a tick:
    /// it is the one that takes up pending parameters.
    pub fn advance(&mut self)
        requires
            old(self).wf(),
        ensures
            final(self).wf(),
            final(self).phase == Simulation::next_phase(old(self).phase),
            final(self).prop == old(self).effective(),
            final(self).pending == (if old(self).phase == Phase::Idle {
                None
            } else {
                old(self).pending
            }),
            final(self).boids@.len() == old(self).boids@.len(),
            match old(self).phase {
                Phase::Idle => flock_met(final(self).boids@, final(self).prop, old(self).boids@),
                Phase::InteractionDone => flock_pulled(
                    final(self).boids@,
                    final(self).prop,
                    old(self).boids@,
                ),
                Phase::EnvironmentDone => flock_integrated(
                    final(self).boids@,
                    final(self).prop,
                    old(self).boids@,
                ),
            },
    {
        match self.phase {
            Phase::Idle => {
                match self.pending {
                    Some(p) => {
                        self.prop = p;
                        self.pending = None;
                    },
                    None => {},
                }
                interact_boids(&self.prop, &mut self.boids);
                self.phase = Phase::InteractionDone;
            },
            Phase::InteractionDone => {
                affect_from_env(&self.prop, &mut self.boids);
                self.phase = Phase::EnvironmentDone;
            },
            Phase::EnvironmentDone => {
                integrate(&self.prop, &mut self.boids);
                self.phase = Phase::Idle;
                proof {
                    lemma_idle_has_room(self.boids@);
                }
            },
        }
    }

    /// Runs a whole tick from between two ticks, with the pending
    /// parameters if there are any.
    pub fn run_tick(&mut self)
        requires
            old(self).wf(),
            old(self).phase == Phase::Idle,
        ensures
            final(self).wf(),
            final(self).phase == Phase::Idle,
            final(self).prop == old(self).effective(),
            final(self).pending is None,
            flock_ticked(final(self).boids@, final(self).prop, old(self).boids@),
            flock_idle(final(self).boids@),
    {
        match self.pending {
            Some(p) => {
                self.prop = p;
                self.pending = None;
            },
            None => {},
        }
        run_tick(&mut self.boids, &self.prop);
        proof {
            lemma_idle_has_room(self.boids@);
        }
    }
}

/// An idle flock of at most `NEIGHBOURS_MAX` boids has room for a tick.
pub proof fn lemma_idle_has_room(flock: Seq<Boid>)
    requires
        flock_idle(flock),
        flock.len() <= crate::boid::NEIGHBOURS_MAX,
    ensures
        flock_has_room(flock),
{
    assert forall|t: int| 0 <= t < flock.len() implies (#[trigger] flock[t]).corr_factor.has_room(
        flock.len() as int,
    ) by {
        assert(flock[t].idle());
    }
}

} // verus!
