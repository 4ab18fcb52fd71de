//! The interaction pass does not depend on the order of the flock: where
//! two boids change places, what the pass collects changes places with
//! them. Every reordering is a chain of such exchanges.

use crate::boid::{Boid, Rule, Tally};
use crate::interaction::{after_meeting_first, flock_met, gathered, met};
use crate::params::BoidProperty;
use vstd::prelude::*;

verus! {

/// The flock with the boids at `a` and `b` exchanged.
pub open spec fn exchanged(flock: Seq<Boid>, a: int, b: int) -> Seq<Boid> {
    flock.update(a, flock[b]).update(b, flock[a])
}

/// What `me` collects under a rule from the boids of the flock before
/// index `k`, the one at `skip` left out.
pub open spec fn collected(
    prop: BoidProperty,
    rule: Rule,
    me: Boid,
    flock: Seq<Boid>,
    skip: int,
    k: int,
) -> Tally
    decreases k,
{
    if k <= 0 {
        Tally::zero()
    } else if k - 1 == skip {
        collected(prop, rule, me, flock, skip, k - 1)
    } else {
        met(collected(prop, rule, me, flock, skip, k - 1), prop, rule, me, flock[k - 1])
    }
}

/// What `me` collects from the boid at `j`, unless that is the one left
/// out.
pub open spec fn share(prop: BoidProperty, rule: Rule, me: Boid, flock: Seq<Boid>, skip: int, j: int) -> Tally {
    if j == skip {
        Tally::zero()
    } else {
        met(Tally::zero(), prop, rule, me, flock[j])
    }
}

/// What a boid of the flock gathers is what it collects with itself left
/// out.
pub proof fn lemma_gathered_is_collected(prop: BoidProperty, rule: Rule, flock: Seq<Boid>, i: int, k: int)
    ensures
        gathered(prop, rule, flock, i, k) == collected(prop, rule, flock[i], flock, i, k),
    decreases k,
{
    if k > 0 {
        lemma_gathered_is_collected(prop, rule, flock, i, k - 1);
    }
}

/// One more boid adds its share.
proof fn lemma_collected_step(prop: BoidProperty, rule: Rule, me: Boid, flock: Seq<Boid>, skip: int, k: int)
    requires
        k >= 0,
    ensures
        collected(prop, rule, me, flock, skip, k + 1) == collected(prop, rule, me, flock, skip, k).plus(
            share(prop, rule, me, flock, skip, k),
        ),
{
}

/// Where the boids at `a` and `b` are exchanged, and with them the index
/// that is left out, `me` collects from the first `k` boids what it
/// collected before, up to the shares of `a` and `b` while `k` lies
/// between the two.
proof fn lemma_collected_exchanged_upto(
    prop: BoidProperty,
    rule: Rule,
    me: Boid,
    flock: Seq<Boid>,
    a: int,
    b: int,
    skip: int,
    k: int,
)
    requires
        0 <= a < b < flock.len(),
        0 <= k <= flock.len(),
    ensures
        ({
            let skip2 = if skip == a {
                b
            } else if skip == b {
                a
            } else {
                skip
            };
            let before = collected(prop, rule, me, flock, skip, k);
            let after = collected(prop, rule, me, exchanged(flock, a, b), skip2, k);
            if a < k <= b {
                after.plus(share(prop, rule, me, flock, skip, a)) == before.plus(
                    share(prop, rule, me, flock, skip, b),
                )
            } else {
                after == before
            }
        }),
    decreases k,
{
    if k > 0 {
        let skip2 = if skip == a {
            b
        } else if skip == b {
            a
        } else {
            skip
        };
        let flock2 = exchanged(flock, a, b);
        lemma_collected_exchanged_upto(prop, rule, me, flock, a, b, skip, k - 1);
        lemma_collected_step(prop, rule, me, flock, skip, k - 1);
        lemma_collected_step(prop, rule, me, flock2, skip2, k - 1);
        assert(flock2[a] == flock[b]);
        assert(flock2[b] == flock[a]);
        if k - 1 != a && k - 1 != b {
            assert(flock2[k - 1] == flock[k - 1]);
        }
    }
}

/// Where two boids of the flock are exchanged, and with them the index
/// that is left out, `me` collects from the flock what it collected
/// before.
pub proof fn lemma_collected_exchanged(
    prop: BoidProperty,
    rule: Rule,
    me: Boid,
    flock: Seq<Boid>,
    a: int,
    b: int,
    skip: int,
)
    requires
        0 <= a < b < flock.len(),
    ensures
        collected(
            prop,
            rule,
            me,
            exchanged(flock, a, b),
            if skip == a {
                b
            } else if skip == b {
                a
            } else {
                skip
            },
            flock.len() as int,
        ) == collected(prop, rule, me, flock, skip, flock.len() as int),
{
    lemma_collected_exchanged_upto(prop, rule, me, flock, a, b, skip, flock.len() as int);
}

/// The interaction pass on a flock in which two boids have changed places
/// gives the flock that the pass gives otherwise, with the two boids in
/// each other's place.
pub proof fn lemma_interaction_exchanged(
    prop: BoidProperty,
    flock: Seq<Boid>,
    a: int,
    b: int,
    after: Seq<Boid>,
    after_exchanged: Seq<Boid>,
)
    requires
        0 <= a < b < flock.len(),
        flock_met(after, prop, flock),
        flock_met(after_exchanged, prop, exchanged(flock, a, b)),
    ensures
        after_exchanged == exchanged(after, a, b),
{
    let n = flock.len() as int;
    let flock2 = exchanged(flock, a, b);
    let expected = exchanged(after, a, b);
    assert forall|t: int| 0 <= t < n implies after_exchanged[t] == expected[t] by {
        // the place that the boid now at `t` had before
        let s = if t == a {
            b
        } else if t == b {
            a
        } else {
            t
        };
        assert(flock2[t] == flock[s]);
        assert(expected[t] == after[s]);
        let x = after_exchanged[t];
        let y = after[s];
        assert(after_meeting_first(x, prop, flock2, t, n));
        assert(after_meeting_first(y, prop, flock, s, n));
        lemma_same_collected(prop, Rule::Cohesion, flock, a, b, s, t);
        lemma_same_collected(prop, Rule::Separation, flock, a, b, s, t);
        lemma_same_collected(prop, Rule::Alignment, flock, a, b, s, t);
        assert(x.tally(Rule::Cohesion) == y.tally(Rule::Cohesion));
        assert(x.tally(Rule::Separation) == y.tally(Rule::Separation));
        assert(x.tally(Rule::Alignment) == y.tally(Rule::Alignment));
        assert(x.corr_factor.coh == y.corr_factor.coh);
        assert(x.corr_factor.sep == y.corr_factor.sep);
        assert(x.corr_factor.ali == y.corr_factor.ali);
        assert(x.position == y.position);
        assert(x.velocity == y.velocity);
        assert(x.env_force == y.env_force);
    }
    assert(after_exchanged =~= expected);
}

/// The boid that stood at `s` and stands at `t` after the exchange gathers
/// the same at either place.
proof fn lemma_same_collected(prop: BoidProperty, rule: Rule, flock: Seq<Boid>, a: int, b: int, s: int, t: int)
    requires
        0 <= a < b < flock.len(),
        0 <= s < flock.len(),
        t == (if s == a {
            b
        } else if s == b {
            a
        } else {
            s
        }),
    ensures
        gathered(prop, rule, exchanged(flock, a, b), t, flock.len() as int) == gathered(
            prop,
            rule,
            flock,
            s,
            flock.len() as int,
        ),
{
    let n = flock.len() as int;
    let flock2 = exchanged(flock, a, b);
    assert(flock2[t] == flock[s]);
    lemma_gathered_is_collected(prop, rule, flock2, t, n);
    lemma_gathered_is_collected(prop, rule, flock, s, n);
    lemma_collected_exchanged(prop, rule, flock[s], flock, a, b, s);
}

} // verus!
