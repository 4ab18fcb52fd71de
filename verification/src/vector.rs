//! Three-dimensional vectors with fixed-point components.

use crate::scalar::{
    abs, div_toward_zero, div_trunc, isqrt, lemma_div_bracket, lemma_div_exact, lemma_div_le,
    lemma_product_bound, lemma_root_le, lemma_sqrt_floor_bounds, lemma_sqrt_floor_monotonic,
    lemma_sqrt_floor_of_square, lemma_square_bound, lemma_square_le, lemma_square_of_abs,
    sqrt_floor, wide_product,
};
use vstd::prelude::*;

verus! {

/// Largest component magnitude for which the vector arithmetic is proved
/// free of overflow: ten million world units.
pub const COMPONENT_MAX: i64 = 10_000_000_000_000;

/// Largest length a vector can be rescaled to: one world unit.
pub const LENGTH_MAX: i64 = 1_000_000;

/// A vector of mathematical integers, the model of a `Vector3`.
pub struct V3 {
    pub x: int,
    pub y: int,
    pub z: int,
}

impl V3 {
    pub open spec fn zero() -> V3 {
        V3 { x: 0, y: 0, z: 0 }
    }

    pub open spec fn plus(self, o: V3) -> V3 {
        V3 { x: self.x + o.x, y: self.y + o.y, z: self.z + o.z }
    }

    pub open spec fn minus(self, o: V3) -> V3 {
        V3 { x: self.x - o.x, y: self.y - o.y, z: self.z - o.z }
    }

    pub open spec fn negated(self) -> V3 {
        V3 { x: -self.x, y: -self.y, z: -self.z }
    }

    pub open spec fn dot(self, o: V3) -> int {
        self.x * o.x + self.y * o.y + self.z * o.z
    }

    /// Squared Euclidean length.
    pub open spec fn norm_sq(self) -> int {
        self.x * self.x + self.y * self.y + self.z * self.z
    }

    /// Every component has magnitude at most `bound`.
    pub open spec fn within(self, bound: int) -> bool {
        &&& -bound <= self.x <= bound
        &&& -bound <= self.y <= bound
        &&& -bound <= self.z <= bound
    }

    /// The vector one step further from the origin along every axis,
    /// folded into the positive octant.
    pub open spec fn outward(self) -> V3 {
        V3 { x: abs(self.x) + 1, y: abs(self.y) + 1, z: abs(self.z) + 1 }
    }

    /// Every component is `num / den` times the component of `self`,
    /// rounded toward zero.
    pub open spec fn scaled(self, num: int, den: int) -> V3 {
        V3 {
            x: div_trunc(self.x * num, den),
            y: div_trunc(self.y * num, den),
            z: div_trunc(self.z * num, den),
        }
    }

    /// The nearest vector whose components have magnitude at most `bound`.
    pub open spec fn confined(self, bound: int) -> V3 {
        V3 {
            x: confined_component(self.x, bound),
            y: confined_component(self.y, bound),
            z: confined_component(self.z, bound),
        }
    }

    /// The vector of length `len` in the direction of `self`, every
    /// component rounded toward zero.
    pub open spec fn rescaled(self, len: int) -> V3 {
        let q = self.norm_sq();
        V3 {
            x: rescaled_component(self.x, len, q),
            y: rescaled_component(self.y, len, q),
            z: rescaled_component(self.z, len, q),
        }
    }

    /// `self` brought to a length between `lo` and `hi`. The zero vector has
    /// no direction and is left as it is.
    pub open spec fn clamped(self, lo: int, hi: int) -> V3 {
        let q = self.norm_sq();
        if q == 0 {
            self
        } else if q < lo * lo {
            self.rescaled(lo)
        } else if q > hi * hi {
            self.rescaled(hi)
        } else {
            self
        }
    }

    /// The length lies between `lo` and `hi`, up to one step per axis below `lo`.
    pub open spec fn length_between(self, lo: int, hi: int) -> bool {
        &&& self.norm_sq() <= hi * hi
        &&& lo * lo <= self.outward().norm_sq()
    }
}

/// The nearest scalar of magnitude at most `bound`.
pub open spec fn confined_component(c: int, bound: int) -> int {
    if c < -bound {
        -bound
    } else if c > bound {
        bound
    } else {
        c
    }
}

/// `c * len / sqrt(q)` rounded toward zero, for a component `c` of a vector
/// of squared length `q`: the magnitude is the integer square root of
/// `c * c * len * len / q`.
pub open spec fn rescaled_component(c: int, len: int, q: int) -> int {
    let m = sqrt_floor(((c * c * (len * len)) / q) as nat) as int;
    if c < 0 {
        -m
    } else {
        m
    }
}

#[derive(Clone, Copy, Debug, PartialEq, Eq, Structural)]
pub struct Vector3 {
    pub x: i64,
    pub y: i64,
    pub z: i64,
}

impl View for Vector3 {
    type V = V3;

    open spec fn view(&self) -> V3 {
        V3 { x: self.x as int, y: self.y as int, z: self.z as int }
    }
}

/// No component is longer than the vector.
pub proof fn lemma_component_le_norm(v: V3, bound: int)
    requires
        0 <= bound,
        v.norm_sq() <= bound * bound,
    ensures
        v.within(bound),
{
    lemma_square_bound(v.x, abs(v.x));
    lemma_square_bound(v.y, abs(v.y));
    lemma_square_bound(v.z, abs(v.z));
    lemma_root_le(v.x, bound);
    lemma_root_le(v.y, bound);
    lemma_root_le(v.z, bound);
}

impl Vector3 {
    /// Every component has magnitude at most `COMPONENT_MAX`.
    pub open spec fn bounded(self) -> bool {
        self@.within(COMPONENT_MAX as int)
    }

    pub fn new(x: i64, y: i64, z: i64) -> (v: Vector3)
        ensures
            v@ == (V3 { x: x as int, y: y as int, z: z as int }),
            v.x == x && v.y == y && v.z == z,
    {
        Vector3 { x, y, z }
    }

    pub fn zero() -> (v: Vector3)
        ensures
            v@ == V3::zero(),
    {
        Vector3 { x: 0, y: 0, z: 0 }
    }

    pub fn plus(self, o: Vector3) -> (v: Vector3)
        requires
            self@.plus(o@).within(i64::MAX as int),
        ensures
            v@ == self@.plus(o@),
    {
        Vector3 { x: self.x + o.x, y: self.y + o.y, z: self.z + o.z }
    }

    pub fn minus(self, o: Vector3) -> (v: Vector3)
        requires
            self@.minus(o@).within(i64::MAX as int),
        ensures
            v@ == self@.minus(o@),
    {
        Vector3 { x: self.x - o.x, y: self.y - o.y, z: self.z - o.z }
    }

    pub fn negated(self) -> (v: Vector3)
        requires
            self@.within(i64::MAX as int),
        ensures
            v@ == self@.negated(),
    {
        Vector3 { x: -self.x, y: -self.y, z: -self.z }
    }

    pub fn dot(self, o: Vector3) -> (d: i128)
        requires
            self.bounded(),
            o.bounded(),
        ensures
            d == self@.dot(o@),
    {
        proof {
            lemma_product_bound(self.x as int, o.x as int, COMPONENT_MAX as int, COMPONENT_MAX as int);
            lemma_product_bound(self.y as int, o.y as int, COMPONENT_MAX as int, COMPONENT_MAX as int);
            lemma_product_bound(self.z as int, o.z as int, COMPONENT_MAX as int, COMPONENT_MAX as int);
        }
        wide_product(self.x, o.x) + wide_product(self.y, o.y) + wide_product(self.z, o.z)
    }

    /// Tells whether every component has magnitude at most `bound`.
    pub fn is_within(self, bound: i64) -> (b: bool)
        requires
            0 <= bound,
        ensures
            b == self@.within(bound as int),
    {
        -bound <= self.x && self.x <= bound && -bound <= self.y && self.y <= bound && -bound
            <= self.z && self.z <= bound
    }

    /// Multiplies every component by `num / den`, rounding toward zero.
    pub fn scaled(self, num: i64, den: i128) -> (v: Vector3)
        requires
            den > 0,
            self@.scaled(num as int, den as int).within(i64::MAX as int),
        ensures
            v@ == self@.scaled(num as int, den as int),
    {
        Vector3 {
            x: div_toward_zero(wide_product(self.x, num), den) as i64,
            y: div_toward_zero(wide_product(self.y, num), den) as i64,
            z: div_toward_zero(wide_product(self.z, num), den) as i64,
        }
    }

    /// Moves every component that is further than `bound` from zero back
    /// to `bound`.
    pub fn confined(self, bound: i64) -> (v: Vector3)
        requires
            0 <= bound,
        ensures
            v@ == self@.confined(bound as int),
            v@.within(bound as int),
    {
        Vector3 {
            x: confine_component(self.x, bound),
            y: confine_component(self.y, bound),
            z: confine_component(self.z, bound),
        }
    }

    /// Squared Euclidean length.
    pub fn length_squared(self) -> (q: i128)
        requires
            self.bounded(),
        ensures
            q == self@.norm_sq(),
            0 <= q <= 3 * (COMPONENT_MAX * COMPONENT_MAX),
    {
        proof {
            lemma_square_bound(self.x as int, COMPONENT_MAX as int);
            lemma_square_bound(self.y as int, COMPONENT_MAX as int);
            lemma_square_bound(self.z as int, COMPONENT_MAX as int);
        }
        wide_product(self.x, self.x) + wide_product(self.y, self.y) + wide_product(self.z, self.z)
    }
}

/// The magnitude `m` of a rescaled component is the exact quotient
/// `|c| * len / sqrt(q)` rounded down: `m * m * q <= c * c * len * len`,
/// and the next integer is already too large.
pub proof fn lemma_rescaled_component(c: int, len: int, q: int)
    requires
        q > 0,
        len >= 0,
        c * c <= q,
    ensures
        ({
            let m = abs(rescaled_component(c, len, q));
            &&& m * m * q <= c * c * (len * len)
            &&& c * c * (len * len) < (m + 1) * (m + 1) * q
            &&& m <= len
            &&& (c < 0 ==> rescaled_component(c, len, q) == -m)
            &&& (c >= 0 ==> rescaled_component(c, len, q) == m)
        }),
{
    let a = c * c * (len * len);
    assert(0 <= a) by (nonlinear_arith)
        requires
            a == c * c * (len * len),
    ;
    let f = a / q;
    lemma_div_bracket(a, q);
    assert(0 <= f) by (nonlinear_arith)
        requires
            a < (f + 1) * q,
            0 <= a,
            q > 0,
    ;
    let m = sqrt_floor(f as nat) as int;
    lemma_sqrt_floor_bounds(f as nat);
    assert(m * m * q <= a) by (nonlinear_arith)
        requires
            m * m <= f,
            f * q <= a,
            q > 0,
    ;
    assert(a < (m + 1) * (m + 1) * q) by (nonlinear_arith)
        requires
            f < (m + 1) * (m + 1),
            a < (f + 1) * q,
            q > 0,
    ;
    // the quotient is at most len * len, so its root is at most len
    assert(a <= (len * len) * q) by (nonlinear_arith)
        requires
            a == c * c * (len * len),
            c * c <= q,
    ;
    lemma_div_le(a, (len * len) * q, q);
    lemma_div_exact(len * len, q);
    assert(0 <= len * len) by (nonlinear_arith);
    lemma_sqrt_floor_monotonic(f as nat, (len * len) as nat);
    lemma_sqrt_floor_of_square(len as nat);
}

/// Three parts `s` of a whole `q`, each with a share `p` of at most `s / q`
/// of `l`: the shares together are at most `l`.
proof fn lemma_shares_below(sx: int, sy: int, sz: int, px: int, py: int, pz: int, q: int, l: int)
    requires
        q > 0,
        q == sx + sy + sz,
        px * q <= sx * l,
        py * q <= sy * l,
        pz * q <= sz * l,
    ensures
        px + py + pz <= l,
{
    let p = px + py + pz;
    assert(p * q == px * q + py * q + pz * q) by (nonlinear_arith)
        requires
            p == px + py + pz,
    ;
    assert(q * l == sx * l + sy * l + sz * l) by (nonlinear_arith)
        requires
            q == sx + sy + sz,
    ;
    assert(p <= l) by (nonlinear_arith)
        requires
            p * q <= q * l,
            q > 0,
    ;
}

/// Three parts `s` of a whole `q`, each with a share `p` of more than
/// `s / q` of `l`: the shares together are more than `l`.
proof fn lemma_shares_above(sx: int, sy: int, sz: int, px: int, py: int, pz: int, q: int, l: int)
    requires
        q > 0,
        q == sx + sy + sz,
        sx * l < px * q,
        sy * l < py * q,
        sz * l < pz * q,
    ensures
        l < px + py + pz,
{
    let p = px + py + pz;
    assert(p * q == px * q + py * q + pz * q) by (nonlinear_arith)
        requires
            p == px + py + pz,
    ;
    assert(q * l == sx * l + sy * l + sz * l) by (nonlinear_arith)
        requires
            q == sx + sy + sz,
    ;
    assert(l < p) by (nonlinear_arith)
        requires
            q * l < p * q,
            q > 0,
    ;
}

/// A rescaled vector is at most `len` long, and one step outward along
/// every axis makes it longer than `len`.
pub proof fn lemma_rescaled_length(v: V3, len: int)
    requires
        v.norm_sq() > 0,
        len >= 0,
    ensures
        v.rescaled(len).norm_sq() <= len * len,
        len * len < v.rescaled(len).outward().norm_sq(),
        v.rescaled(len).within(len),
{
    let q = v.norm_sq();
    assert(v.x * v.x <= q && v.y * v.y <= q && v.z * v.z <= q) by (nonlinear_arith)
        requires
            q == v.x * v.x + v.y * v.y + v.z * v.z,
    ;
    lemma_rescaled_component(v.x, len, q);
    lemma_rescaled_component(v.y, len, q);
    lemma_rescaled_component(v.z, len, q);
    let r = v.rescaled(len);
    let mx = abs(r.x);
    let my = abs(r.y);
    let mz = abs(r.z);
    let ll = len * len;
    lemma_square_of_abs(r.x);
    lemma_square_of_abs(r.y);
    lemma_square_of_abs(r.z);
    lemma_shares_below(v.x * v.x, v.y * v.y, v.z * v.z, mx * mx, my * my, mz * mz, q, ll);
    lemma_shares_above(
        v.x * v.x,
        v.y * v.y,
        v.z * v.z,
        (mx + 1) * (mx + 1),
        (my + 1) * (my + 1),
        (mz + 1) * (mz + 1),
        q,
        ll,
    );
    assert(abs(r.x) == mx && abs(r.y) == my && abs(r.z) == mz);
}

/// A clamped vector is at most `hi` long. Unless it is the zero vector, it
/// is also at least `lo` long, up to one step per axis.
pub proof fn lemma_clamped_length(v: V3, lo: int, hi: int)
    requires
        0 <= lo <= hi,
    ensures
        v.clamped(lo, hi).norm_sq() <= hi * hi,
        v.norm_sq() != 0 ==> v.clamped(lo, hi).length_between(lo, hi),
        v.norm_sq() == 0 ==> v.clamped(lo, hi) == v,
{
    let q = v.norm_sq();
    assert(0 <= q) by (nonlinear_arith)
        requires
            q == v.x * v.x + v.y * v.y + v.z * v.z,
    ;
    assert(lo * lo <= hi * hi) by (nonlinear_arith)
        requires
            0 <= lo <= hi,
    ;
    if q == 0 {
        assert(0 <= hi * hi) by (nonlinear_arith);
    } else if q < lo * lo {
        lemma_rescaled_length(v, lo);
    } else if q > hi * hi {
        lemma_rescaled_length(v, hi);
    } else {
        lemma_square_le(abs(v.x), abs(v.x) + 1);
        lemma_square_le(abs(v.y), abs(v.y) + 1);
        lemma_square_le(abs(v.z), abs(v.z) + 1);
        lemma_square_of_abs(v.x);
        lemma_square_of_abs(v.y);
        lemma_square_of_abs(v.z);
    }
}

fn confine_component(c: i64, bound: i64) -> (r: i64)
    requires
        0 <= bound,
    ensures
        r == confined_component(c as int, bound as int),
        -bound <= r <= bound,
{
    if c < -bound {
        -bound
    } else if c > bound {
        bound
    } else {
        c
    }
}

/// Rescales one component of a vector of squared length `q`.
fn rescale_component(c: i64, len: i64, q: i128) -> (r: i64)
    requires
        -COMPONENT_MAX <= c <= COMPONENT_MAX,
        0 <= len <= LENGTH_MAX,
        0 < q,
        c * c <= q,
    ensures
        r == rescaled_component(c as int, len as int, q as int),
        -len <= r <= len,
{
    let a: u128 = if c < 0 {
        (-c) as u128
    } else {
        c as u128
    };
    let l: u128 = len as u128;
    proof {
        lemma_square_bound(a as int, COMPONENT_MAX as int);
        lemma_square_bound(l as int, LENGTH_MAX as int);
        lemma_product_bound(
            a * a,
            l * l,
            COMPONENT_MAX * COMPONENT_MAX,
            LENGTH_MAX * LENGTH_MAX,
        );
        lemma_square_of_abs(c as int);
        lemma_rescaled_component(c as int, len as int, q as int);
    }
    let num: u128 = (a * a) * (l * l);
    let f: u128 = num / (q as u128);
    let m: u128 = isqrt(f);
    if c < 0 {
        -(m as i64)
    } else {
        m as i64
    }
}

/// Brings `vector` to a length between `min` and `max`: a shorter vector is
/// stretched to `min`, a longer one shrunk to `max`, every component rounded
/// toward zero. The zero vector has no direction and is returned as it is.
pub fn restrict_vector_length(vector: Vector3, min: i64, max: i64) -> (v: Vector3)
    requires
        vector.bounded(),
        0 <= min <= LENGTH_MAX,
        0 <= max <= LENGTH_MAX,
    ensures
        v@ == vector@.clamped(min as int, max as int),
{
    let q: i128 = vector.length_squared();
    let lo: i128 = wide_product(min, min);
    let hi: i128 = wide_product(max, max);
    if q == 0 {
        vector
    } else if q < lo {
        rescale(vector, min, q)
    } else if q > hi {
        rescale(vector, max, q)
    } else {
        vector
    }
}

/// Rescales a vector of squared length `q` to the length `len`.
fn rescale(vector: Vector3, len: i64, q: i128) -> (v: Vector3)
    requires
        vector.bounded(),
        0 <= len <= LENGTH_MAX,
        q == vector@.norm_sq(),
        q > 0,
    ensures
        v@ == vector@.rescaled(len as int),
{
    assert(vector.x * vector.x <= q && vector.y * vector.y <= q && vector.z * vector.z <= q)
        by (nonlinear_arith)
        requires
            q == vector.x * vector.x + vector.y * vector.y + vector.z * vector.z,
    ;
    Vector3 {
        x: rescale_component(vector.x, len, q),
        y: rescale_component(vector.y, len, q),
        z: rescale_component(vector.z, len, q),
    }
}

} // verus!
