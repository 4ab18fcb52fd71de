//! The interaction pass: every pair of boids is visited once, and each of
//! the two collects what the three rules make it see of the other.
//!
//! Every rule writes to its own correction: cohesion to `coh`, separation
//! to `sep`, alignment to `ali`.

use crate::boid::{flock_has_room, flock_wf, Boid, Rule, Tally};
use crate::params::{BoidProperty, RANGE_MAX};
use crate::scalar::{lemma_product_bound, max3, partial_max, wide_product, ONE};
use crate::vector::{lemma_component_le_norm, Vector3, LENGTH_MAX, V3};
use vstd::prelude::*;

verus! {

/// Whether the cosine of the angle between two vectors exceeds `cos / ONE`,
/// decided without a square root from their dot product `dot` and the
/// product `span` of their squared lengths. Where one of the vectors is
/// zero there is no angle, and the answer is no.
pub open spec fn cone_test(dot: int, span: int, cos: int) -> bool {
    if span == 0 {
        false
    } else if cos >= 0 {
        dot > 0 && ONE * ONE * (dot * dot) > cos * cos * span
    } else {
        dot >= 0 || ONE * ONE * (dot * dot) < cos * cos * span
    }
}

/// Whether `toward` lies within the cone around `heading` whose half-angle
/// has the cosine `cos / ONE`.
pub open spec fn in_cone(heading: V3, toward: V3, cos: int) -> bool {
    cone_test(heading.dot(toward), heading.norm_sq() * toward.norm_sq(), cos)
}

/// The squared visibility radius of a rule.
pub open spec fn rule_dist_sq(prop: BoidProperty, rule: Rule) -> int {
    match rule {
        Rule::Cohesion => prop.coh_dist_sq as int,
        Rule::Separation => prop.sep_dist_sq as int,
        Rule::Alignment => prop.ali_dist_sq as int,
    }
}

/// The cosine of the cone half-angle of a rule.
pub open spec fn rule_cos(prop: BoidProperty, rule: Rule) -> int {
    match rule {
        Rule::Cohesion => prop.coh_angle_cos as int,
        Rule::Separation => prop.sep_angle_cos as int,
        Rule::Alignment => prop.ali_angle_cos as int,
    }
}

/// The squared distance from which on no rule applies.
pub open spec fn reach_sq(prop: BoidProperty) -> int {
    max3(prop.coh_dist_sq as int, prop.sep_dist_sq as int, prop.ali_dist_sq as int)
}

/// The vector from `me` to `other`.
pub open spec fn offset(me: Boid, other: Boid) -> V3 {
    other.position.0@.minus(me.position.0@)
}

/// Whether `me` reacts to `other` under the given rule: `other` is closer
/// than the rule's radius and within the rule's cone around the velocity
/// of `me`.
pub open spec fn applies(prop: BoidProperty, rule: Rule, me: Boid, other: Boid) -> bool {
    let d = offset(me, other);
    d.norm_sq() < rule_dist_sq(prop, rule) && in_cone(me.velocity.0@, d, rule_cos(prop, rule))
}

/// What `me` collects from `other` where the rule applies: under cohesion
/// the vector toward it, under separation the vector away from it, under
/// alignment the difference of the velocities.
pub open spec fn contribution(rule: Rule, me: Boid, other: Boid) -> V3 {
    match rule {
        Rule::Cohesion => offset(me, other),
        Rule::Separation => offset(me, other).negated(),
        Rule::Alignment => other.velocity.0@.minus(me.velocity.0@),
    }
}

/// The tally `t` of `me` after it has met `other`.
pub open spec fn met(t: Tally, prop: BoidProperty, rule: Rule, me: Boid, other: Boid) -> Tally {
    if applies(prop, rule, me, other) {
        t.with(contribution(rule, me, other))
    } else {
        t
    }
}

/// What boid `i` of the flock collects under a rule from the boids before
/// index `k`, itself left out.
pub open spec fn gathered(prop: BoidProperty, rule: Rule, flock: Seq<Boid>, i: int, k: int) -> Tally
    decreases k,
{
    if k <= 0 {
        Tally::zero()
    } else if k - 1 == i {
        gathered(prop, rule, flock, i, k - 1)
    } else {
        met(gathered(prop, rule, flock, i, k - 1), prop, rule, flock[i], flock[k - 1])
    }
}

/// `now` is `before` after it has met `other`: it has moved nowhere, and
/// each rule has collected what it sees.
pub open spec fn after_meeting(now: Boid, before: Boid, prop: BoidProperty, other: Boid) -> bool {
    &&& now.moves_like(before)
    &&& now.env_force == before.env_force
    &&& now.tally(Rule::Cohesion) == met(before.tally(Rule::Cohesion), prop, Rule::Cohesion, before, other)
    &&& now.tally(Rule::Separation) == met(
        before.tally(Rule::Separation),
        prop,
        Rule::Separation,
        before,
        other,
    )
    &&& now.tally(Rule::Alignment) == met(
        before.tally(Rule::Alignment),
        prop,
        Rule::Alignment,
        before,
        other,
    )
}

/// `now` is boid `t` of the flock after it has met the boids before index
/// `k`.
pub open spec fn after_meeting_first(now: Boid, prop: BoidProperty, flock: Seq<Boid>, t: int, k: int) -> bool {
    &&& now.moves_like(flock[t])
    &&& now.env_force == flock[t].env_force
    &&& now.tally(Rule::Cohesion) == flock[t].tally(Rule::Cohesion).plus(
        gathered(prop, Rule::Cohesion, flock, t, k),
    )
    &&& now.tally(Rule::Separation) == flock[t].tally(Rule::Separation).plus(
        gathered(prop, Rule::Separation, flock, t, k),
    )
    &&& now.tally(Rule::Alignment) == flock[t].tally(Rule::Alignment).plus(
        gathered(prop, Rule::Alignment, flock, t, k),
    )
}

/// Largest product of the squared lengths of a heading and a direction.
pub const SPAN_MAX: i128 = 16_000_000_000_000_000_000_000_000;

/// Largest magnitude of the dot product of a heading and a direction.
pub const DOT_MAX: i128 = 12_000_000_000_000;

/// `after` is the flock `before` after the interaction pass: every boid
/// has met every other.
pub open spec fn flock_met(after: Seq<Boid>, prop: BoidProperty, before: Seq<Boid>) -> bool {
    &&& after.len() == before.len()
    &&& forall|t: int|
        0 <= t < before.len() ==> after_meeting_first(
            #[trigger] after[t],
            prop,
            before,
            t,
            before.len() as int,
        )
}

/// What the dot product and the lengths of a heading and a direction tell
/// about the angle between them.
#[derive(Clone, Copy, Debug)]
pub struct Sight {
    pub dot: i128,
    pub span: i128,
}

impl Sight {
    /// The values are those of a heading no longer than `LENGTH_MAX` and a
    /// direction no longer than `RANGE_MAX`.
    pub open spec fn wf(self) -> bool {
        &&& 0 <= self.span <= SPAN_MAX
        &&& -DOT_MAX <= self.dot <= DOT_MAX
    }

    /// Looks from a boid with the given heading in the given direction.
    pub fn of(heading: Vector3, toward: Vector3) -> (s: Sight)
        requires
            heading@.norm_sq() <= LENGTH_MAX * LENGTH_MAX,
            toward@.norm_sq() <= RANGE_MAX * RANGE_MAX,
        ensures
            s.dot == heading@.dot(toward@),
            s.span == heading@.norm_sq() * toward@.norm_sq(),
            s.wf(),
    {
        proof {
            lemma_component_le_norm(heading@, LENGTH_MAX as int);
            lemma_component_le_norm(toward@, RANGE_MAX as int);
            lemma_product_bound(heading.x as int, toward.x as int, 1_000_000, 4_000_000);
            lemma_product_bound(heading.y as int, toward.y as int, 1_000_000, 4_000_000);
            lemma_product_bound(heading.z as int, toward.z as int, 1_000_000, 4_000_000);
        }
        let dot: i128 = wide_product(heading.x, toward.x) + wide_product(heading.y, toward.y)
            + wide_product(heading.z, toward.z);
        let h: i128 = heading.length_squared();
        let t: i128 = toward.length_squared();
        assert(0 <= h * t <= 16_000_000_000_000_000_000_000_000) by (nonlinear_arith)
            requires
                0 <= h <= 1_000_000_000_000,
                0 <= t <= 16_000_000_000_000,
        ;
        Sight { dot, span: h * t }
    }

    /// Whether the direction lies within the cone whose half-angle has the
    /// cosine `cos / ONE`.
    pub fn exceeds(&self, cos: i64) -> (b: bool)
        requires
            self.wf(),
            -ONE <= cos <= ONE,
        ensures
            b == cone_test(self.dot as int, self.span as int, cos as int),
    {
        if self.span == 0 {
            return false;
        }
        assert(0 <= self.dot * self.dot <= 144_000_000_000_000_000_000_000_000) by (nonlinear_arith)
            requires
                -12_000_000_000_000 <= self.dot <= 12_000_000_000_000,
        ;
        let dot_sq: i128 = self.dot * self.dot;
        let cos_sq: i128 = wide_product(cos, cos);
        assert(0 <= cos_sq * self.span <= 16_000_000_000_000_000_000_000_000_000_000_000_000)
            by (nonlinear_arith)
            requires
                cos_sq == cos * cos,
                -1_000_000 <= cos <= 1_000_000,
                0 <= self.span <= 16_000_000_000_000_000_000_000_000,
        ;
        let lhs: i128 = 1_000_000_000_000 * dot_sq;
        let rhs: i128 = cos_sq * self.span;
        assert(lhs == ONE * ONE * (self.dot * self.dot)) by (nonlinear_arith)
            requires
                lhs == 1_000_000_000_000 * dot_sq,
                dot_sq == self.dot * self.dot,
                ONE == 1_000_000,
        ;
        if cos >= 0 {
            self.dot > 0 && lhs > rhs
        } else {
            self.dot >= 0 || lhs < rhs
        }
    }
}

/// Turning a vector round keeps its length and turns its dot products round.
pub proof fn lemma_negated(v: V3, w: V3)
    ensures
        v.negated().norm_sq() == v.norm_sq(),
        w.dot(v.negated()) == -w.dot(v),
{
    assert(v.negated().norm_sq() == v.norm_sq()) by (nonlinear_arith)
        requires
            v.negated().norm_sq() == (-v.x) * (-v.x) + (-v.y) * (-v.y) + (-v.z) * (-v.z),
            v.norm_sq() == v.x * v.x + v.y * v.y + v.z * v.z,
    ;
    assert(w.dot(v.negated()) == -w.dot(v)) by (nonlinear_arith)
        requires
            w.dot(v.negated()) == w.x * (-v.x) + w.y * (-v.y) + w.z * (-v.z),
            w.dot(v) == w.x * v.x + w.y * v.y + w.z * v.z,
    ;
}

/// Lets two boids meet: each collects, rule by rule, what it sees of the
/// other. Two boids further apart than every rule reaches are returned as
/// they are.
pub fn interact_pair(prop: &BoidProperty, a: Boid, b: Boid) -> (r: (Boid, Boid))
    requires
        prop.wf(),
        a.wf(),
        b.wf(),
        a.corr_factor.has_room(1),
        b.corr_factor.has_room(1),
    ensures
        after_meeting(r.0, a, *prop, b),
        after_meeting(r.1, b, *prop, a),
        r.0.wf(),
        r.1.wf(),
        offset(a, b).norm_sq() >= reach_sq(*prop) ==> r.0 == a && r.1 == b,
{
    let p1: Vector3 = a.position.0;
    let p2: Vector3 = b.position.0;
    let v1: Vector3 = a.velocity.0;
    let v2: Vector3 = b.velocity.0;
    let delta1: Vector3 = p2.minus(p1);
    let dist_sq: i128 = delta1.length_squared();
    let reach: i64 = partial_max(prop.coh_dist_sq, prop.sep_dist_sq, prop.ali_dist_sq);
    proof {
        lemma_negated(delta1@, v2@);
        assert(offset(a, b) == delta1@);
        assert(offset(b, a) == delta1@.negated());
    }
    if dist_sq >= reach as i128 {
        return (a, b);
    }
    let delta2: Vector3 = delta1.negated();
    proof {
        lemma_component_le_norm(delta1@, RANGE_MAX as int);
        lemma_component_le_norm(v1@, LENGTH_MAX as int);
        lemma_component_le_norm(v2@, LENGTH_MAX as int);
    }
    let sight1: Sight = Sight::of(v1, delta1);
    let sight2: Sight = Sight::of(v2, delta2);
    let mut corr1 = a.corr_factor;
    let mut corr2 = b.corr_factor;
    if dist_sq < prop.coh_dist_sq as i128 {
        if sight1.exceeds(prop.coh_angle_cos) {
            corr1.coh = corr1.coh.record(delta1);
        }
        if sight2.exceeds(prop.coh_angle_cos) {
            corr2.coh = corr2.coh.record(delta2);
        }
    }
    if dist_sq < prop.sep_dist_sq as i128 {
        if sight1.exceeds(prop.sep_angle_cos) {
            corr1.sep = corr1.sep.record(delta2);
        }
        if sight2.exceeds(prop.sep_angle_cos) {
            corr2.sep = corr2.sep.record(delta1);
        }
    }
    if dist_sq < prop.ali_dist_sq as i128 {
        if sight1.exceeds(prop.ali_angle_cos) {
            corr1.ali = corr1.ali.record(v2.minus(v1));
        }
        if sight2.exceeds(prop.ali_angle_cos) {
            corr2.ali = corr2.ali.record(v1.minus(v2));
        }
    }
    (
        Boid { position: a.position, velocity: a.velocity, corr_factor: corr1, env_force: a.env_force },
        Boid { position: b.position, velocity: b.velocity, corr_factor: corr2, env_force: b.env_force },
    )
}

/// How many boids of a flock of `n` boid `t` has met when the pairs before
/// `(i, j)` have been visited, in the order `(0, 1)`, `(0, 2)`, and so on:
/// the lower index of a pair counts up slowly, the higher one quickly.
pub open spec fn met_before_pair(t: int, i: int, j: int, n: int) -> int {
    if t < i {
        n
    } else if t == i {
        j
    } else if t < j {
        i + 1
    } else {
        i
    }
}

/// A boid collects at most one contribution from each boid it has met.
pub proof fn lemma_gathered_count(prop: BoidProperty, rule: Rule, flock: Seq<Boid>, i: int, k: int)
    requires
        0 <= k,
    ensures
        0 <= gathered(prop, rule, flock, i, k).count <= k,
    decreases k,
{
    if k > 0 {
        lemma_gathered_count(prop, rule, flock, i, k - 1);
    }
}

/// The interaction pass: visits every pair of distinct boids once. Each
/// boid ends with what it had collected before, and with what the three
/// rules make it collect from every other boid of the flock. Positions,
/// velocities and environmental forces stay as they are.
pub fn interact_boids(prop: &BoidProperty, boids: &mut Vec<Boid>)
    requires
        prop.wf(),
        flock_wf(old(boids)@),
        flock_has_room(old(boids)@),
    ensures
        flock_met(final(boids)@, *prop, old(boids)@),
        flock_wf(final(boids)@),
{
    let n: usize = boids.len();
    let ghost start = boids@;
    let mut i: usize = 0;
    while i < n
        invariant
            i <= n,
            boids@.len() == n,
            start.len() == n,
            prop.wf(),
            flock_wf(start),
            flock_has_room(start),
            flock_wf(boids@),
            forall|t: int|
                0 <= t < n ==> after_meeting_first(
                    #[trigger] boids@[t],
                    *prop,
                    start,
                    t,
                    if t < i {
                        n as int
                    } else {
                        i as int
                    },
                ),
        decreases n - i,
    {
        let mut j: usize = i + 1;
        while j < n
            invariant
                i < n,
                i < j <= n,
                boids@.len() == n,
                start.len() == n,
                prop.wf(),
                flock_wf(start),
                flock_has_room(start),
                flock_wf(boids@),
                forall|t: int|
                    0 <= t < n ==> after_meeting_first(
                        #[trigger] boids@[t],
                        *prop,
                        start,
                        t,
                        met_before_pair(t, i as int, j as int, n as int),
                    ),
            decreases n - j,
        {
            let a: Boid = boids[i];
            let b: Boid = boids[j];
            proof {
                lemma_gathered_count(*prop, Rule::Cohesion, start, i as int, j as int);
                lemma_gathered_count(*prop, Rule::Separation, start, i as int, j as int);
                lemma_gathered_count(*prop, Rule::Alignment, start, i as int, j as int);
                lemma_gathered_count(*prop, Rule::Cohesion, start, j as int, i as int);
                lemma_gathered_count(*prop, Rule::Separation, start, j as int, i as int);
                lemma_gathered_count(*prop, Rule::Alignment, start, j as int, i as int);
                assert(after_meeting_first(boids@[i as int], *prop, start, i as int, j as int));
                assert(after_meeting_first(boids@[j as int], *prop, start, j as int, i as int));
                assert(start[i as int].corr_factor.has_room(n as int));
                assert(start[j as int].corr_factor.has_room(n as int));
            }
            let ghost before = boids@;
            let (a2, b2) = interact_pair(prop, a, b);
            boids[i] = a2;
            boids[j] = b2;
            proof {
                assert(after_meeting_first(a2, *prop, start, i as int, j + 1));
                assert(after_meeting_first(b2, *prop, start, j as int, i + 1));
                assert forall|t: int| 0 <= t < n implies after_meeting_first(
                    #[trigger] boids@[t],
                    *prop,
                    start,
                    t,
                    met_before_pair(t, i as int, j + 1, n as int),
                ) by {
                    if t != i && t != j {
                        assert(boids@[t] == before[t]);
                    }
                }
            }
            j += 1;
        }
        i += 1;
    }
}

/// What two boids collect from each other is opposite, under every rule.
pub proof fn lemma_contributions_opposite(rule: Rule, a: Boid, b: Boid)
    ensures
        contribution(rule, b, a) == contribution(rule, a, b).negated(),
        offset(b, a) == offset(a, b).negated(),
        offset(b, a).norm_sq() == offset(a, b).norm_sq(),
{
    lemma_negated(offset(a, b), offset(a, b));
}

/// Two boids that are at least as far apart as the widest rule reaches
/// collect nothing from each other.
pub proof fn lemma_beyond_reach(prop: BoidProperty, rule: Rule, a: Boid, b: Boid, t: Tally)
    requires
        offset(a, b).norm_sq() >= reach_sq(prop),
    ensures
        !applies(prop, rule, a, b),
        !applies(prop, rule, b, a),
        met(t, prop, rule, a, b) == t,
        met(t, prop, rule, b, a) == t,
{
    lemma_contributions_opposite(rule, a, b);
}

/// In a flock of two boids that are at least as far apart as the widest
/// rule reaches, the interaction pass collects nothing for either.
pub proof fn lemma_two_boids_beyond_reach(prop: BoidProperty, rule: Rule, flock: Seq<Boid>)
    requires
        flock.len() == 2,
        offset(flock[0], flock[1]).norm_sq() >= reach_sq(prop),
    ensures
        gathered(prop, rule, flock, 0, 2) == Tally::zero(),
        gathered(prop, rule, flock, 1, 2) == Tally::zero(),
{
    lemma_beyond_reach(prop, rule, flock[0], flock[1], Tally::zero());
    assert(gathered(prop, rule, flock, 0, 0) == Tally::zero());
    assert(gathered(prop, rule, flock, 0, 1) == Tally::zero());
    assert(gathered(prop, rule, flock, 1, 0) == Tally::zero());
    assert(gathered(prop, rule, flock, 1, 1) == Tally::zero());
}

/// In a flock of two boids each of which sees the other under cohesion,
/// the interaction pass counts one contribution for each, and the two sums
/// are opposite: each is the vector toward the other boid.
pub proof fn lemma_two_boids_cohesion(prop: BoidProperty, flock: Seq<Boid>)
    requires
        flock.len() == 2,
        applies(prop, Rule::Cohesion, flock[0], flock[1]),
        applies(prop, Rule::Cohesion, flock[1], flock[0]),
    ensures
        gathered(prop, Rule::Cohesion, flock, 0, 2) == (Tally {
            count: 1,
            sum: offset(flock[0], flock[1]),
        }),
        gathered(prop, Rule::Cohesion, flock, 1, 2) == (Tally {
            count: 1,
            sum: offset(flock[0], flock[1]).negated(),
        }),
{
    lemma_contributions_opposite(Rule::Cohesion, flock[0], flock[1]);
    assert(gathered(prop, Rule::Cohesion, flock, 0, 0) == Tally::zero());
    assert(gathered(prop, Rule::Cohesion, flock, 0, 1) == Tally::zero());
    assert(gathered(prop, Rule::Cohesion, flock, 1, 0) == Tally::zero());
    assert(gathered(prop, Rule::Cohesion, flock, 1, 1) == Tally::zero().with(
        contribution(Rule::Cohesion, flock[1], flock[0]),
    ));
    assert(gathered(prop, Rule::Cohesion, flock, 1, 2) == gathered(prop, Rule::Cohesion, flock, 1, 1));
}

/// What a boid collects depends on the positions and velocities of the
/// flock alone.
pub proof fn lemma_gathered_by_motion(
    prop: BoidProperty,
    rule: Rule,
    flock1: Seq<Boid>,
    flock2: Seq<Boid>,
    i: int,
    k: int,
)
    requires
        flock1.len() == flock2.len(),
        0 <= i < flock1.len(),
        k <= flock1.len(),
        forall|t: int| 0 <= t < flock1.len() ==> (#[trigger] flock1[t]).moves_like(flock2[t]),
    ensures
        gathered(prop, rule, flock1, i, k) == gathered(prop, rule, flock2, i, k),
    decreases k,
{
    if k > 0 {
        lemma_gathered_by_motion(prop, rule, flock1, flock2, i, k - 1);
        assert(flock1[i].moves_like(flock2[i]));
        assert(flock1[k - 1].moves_like(flock2[k - 1]));
    }
}

} // verus!
