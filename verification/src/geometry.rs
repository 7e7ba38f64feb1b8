//! Integer world geometry.
//!
//! World positions and sizes are `i64` values counted in sub-cell units
//! ([`crate::UNITS_PER_CELL`] units per terminal cell), so every quantity the
//! renderer works with is exact. Normalized coordinates, which in general are
//! not whole numbers of units, are kept as exact fractions.

use vstd::prelude::*;

verus! {

/// Largest magnitude a world coordinate or size may have. Keeping
/// coordinates in this range lets the projection arithmetic (doubling,
/// differences of corners, scaling by a grid dimension) stay inside `i64`.
pub const WORLD_MAX: i64 = 0x100_0000_0000;

/// A two-dimensional world vector in sub-cell units.
#[derive(Clone, Copy, PartialEq, Eq, Structural, Debug)]
pub struct Vec2i {
    pub x: i64,
    pub y: i64,
}

/// A three-dimensional world vector in sub-cell units.
#[derive(Clone, Copy, PartialEq, Eq, Structural, Debug)]
pub struct Vec3i {
    pub x: i64,
    pub y: i64,
    pub z: i64,
}

impl Vec2i {
    pub fn new(x: i64, y: i64) -> (r: Vec2i)
        ensures
            r.x == x,
            r.y == y,
    {
        Vec2i { x, y }
    }

    /// True when both components are small enough for the projection
    /// arithmetic.
    pub open spec fn bounded(self) -> bool {
        &&& -WORLD_MAX <= self.x <= WORLD_MAX
        &&& -WORLD_MAX <= self.y <= WORLD_MAX
    }

    /// True when both components are non-negative sizes in range.
    pub open spec fn size_wf(self) -> bool {
        &&& 0 <= self.x <= WORLD_MAX
        &&& 0 <= self.y <= WORLD_MAX
    }
}

impl Vec3i {
    pub fn new(x: i64, y: i64, z: i64) -> (r: Vec3i)
        ensures
            r.x == x,
            r.y == y,
            r.z == z,
    {
        Vec3i { x, y, z }
    }

    pub open spec fn bounded(self) -> bool {
        &&& -WORLD_MAX <= self.x <= WORLD_MAX
        &&& -WORLD_MAX <= self.y <= WORLD_MAX
        &&& -WORLD_MAX <= self.z <= WORLD_MAX
    }
}

/// An exact fraction. Normalizing a point into `[0, 1]` divides two world
/// distances; the quotient is carried un-divided so that no precision is
/// lost before the final scaling step.
#[derive(Clone, Copy, PartialEq, Eq, Structural, Debug)]
pub struct Frac {
    pub num: i64,
    pub den: i64,
}

/// A point with both coordinates normalized to exact fractions.
#[derive(Clone, Copy, PartialEq, Eq, Structural, Debug)]
pub struct NormPoint {
    pub x: Frac,
    pub y: Frac,
}

impl Frac {
    pub fn new(num: i64, den: i64) -> (r: Frac)
        ensures
            r.num == num,
            r.den == den,
    {
        Frac { num, den }
    }

    /// The value of the fraction `a / b`, compared exactly: `a/b == c/d`
    /// if and only if `a*d == c*b` (for positive denominators).
    pub open spec fn equiv(self, other: Frac) -> bool {
        self.num as int * other.den as int == other.num as int * self.den as int
    }

    /// Exact equality test of two fractions with positive denominators.
    pub fn eq_frac(&self, other: &Frac) -> (r: bool)
        requires
            0 < self.den,
            0 < other.den,
        ensures
            r == self.equiv(*other),
    {
        proof {
            lemma_i64_prod_fits(self.num as int, other.den as int);
            lemma_i64_prod_fits(other.num as int, self.den as int);
        }
        let l: i128 = self.num as i128 * other.den as i128;
        let rr: i128 = other.num as i128 * self.den as i128;
        l == rr
    }
}

/// Normalize `point` into the box spanned by `min_point` and `max_point`:
/// each axis maps `min` to `0` and `max` to `1`. The result is exact.
pub fn normalize_point(point: Vec2i, max_point: Vec2i, min_point: Vec2i) -> (r: NormPoint)
    requires
        min_point.x < max_point.x,
        min_point.y < max_point.y,
        i64::MIN <= point.x - min_point.x <= i64::MAX,
        i64::MIN <= point.y - min_point.y <= i64::MAX,
        i64::MIN <= max_point.x - min_point.x <= i64::MAX,
        i64::MIN <= max_point.y - min_point.y <= i64::MAX,
    ensures
        r.x.num == point.x - min_point.x,
        r.x.den == max_point.x - min_point.x,
        r.y.num == point.y - min_point.y,
        r.y.den == max_point.y - min_point.y,
        0 < r.x.den,
        0 < r.y.den,
{
    NormPoint {
        x: Frac { num: point.x - min_point.x, den: max_point.x - min_point.x },
        y: Frac { num: point.y - min_point.y, den: max_point.y - min_point.y },
    }
}

/// Scale a normalized point up to a `width x height` grid, truncating toward
/// zero: a coordinate `n/d` in `[0, 1]` lands on column `n*width/d`.
pub fn normalized_point_to_tile(point: NormPoint, width: u16, height: u16) -> (r: (u16, u16))
    requires
        0 < point.x.den,
        0 < point.y.den,
        0 <= point.x.num <= point.x.den,
        0 <= point.y.num <= point.y.den,
    ensures
        r.0 == point.x.num as int * width as int / point.x.den as int,
        r.1 == point.y.num as int * height as int / point.y.den as int,
        r.0 <= width,
        r.1 <= height,
{
    proof {
        lemma_i64_prod_fits(point.x.num as int, width as int);
        lemma_i64_prod_fits(point.y.num as int, height as int);
    }
    let tx: u128 = point.x.num as u128 * width as u128 / point.x.den as u128;
    let ty: u128 = point.y.num as u128 * height as u128 / point.y.den as u128;
    proof {
        lemma_scale_in_range(point.x.num as int, point.x.den as int, width as int);
        lemma_scale_in_range(point.y.num as int, point.y.den as int, height as int);
    }
    (tx as u16, ty as u16)
}

/// The product of two values in `i64` range stays inside `i128`.
pub proof fn lemma_i64_prod_fits(a: int, b: int)
    requires
        i64::MIN <= a <= i64::MAX,
        i64::MIN <= b <= i64::MAX,
    ensures
        i128::MIN <= a * b <= i128::MAX,
{
    assert(i128::MIN <= a * b <= i128::MAX) by (nonlinear_arith)
        requires i64::MIN <= a <= i64::MAX && i64::MIN <= b <= i64::MAX;
}

/// Scaling a fraction in `[0, 1]` by `w` and truncating stays in `[0, w]`.
pub proof fn lemma_scale_in_range(n: int, d: int, w: int)
    requires
        0 < d,
        0 <= n <= d,
        0 <= w,
    ensures
        0 <= n * w / d <= w,
{
    assert(0 <= n * w) by (nonlinear_arith)
        requires 0 <= n && 0 <= w;
    assert(n * w <= d * w) by (nonlinear_arith)
        requires n <= d && 0 <= w;
    assert(0 <= n * w / d) by (nonlinear_arith)
        requires 0 <= n * w && 0 < d;
    assert(d * w / d == w) by (nonlinear_arith)
        requires 0 < d;
    assert(n * w / d <= d * w / d) by (nonlinear_arith)
        requires n * w <= d * w && 0 < d;
}

} // verus!
