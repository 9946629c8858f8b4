//! Generic two-dimensional vector used for coordinates, velocities and
//! offsets throughout the rendering core.

use vstd::prelude::*;

verus! {

/// Generic two-dimensional vector.
///
/// A plain value: a pair of components with no invariant beyond the
/// component type's own semantics.
#[derive(Clone, Copy, Debug, PartialEq, Eq)]
pub struct Vector<T> {
    /// Horizontal component.
    pub x: T,
    /// Vertical component.
    pub y: T,
}

impl<T> Vector<T> {
    /// Create new vector with `x` and `y` values.
    pub fn new(x: T, y: T) -> (r: Self)
        ensures
            r.x == x,
            r.y == y,
    {
        Self { x, y }
    }

    /// Split this vector into its components.
    pub fn split(self) -> (r: (T, T))
        ensures
            r.0 == self.x,
            r.1 == self.y,
    {
        (self.x, self.y)
    }
}

impl<T> Vector<T> where T: Copy {
    /// Get the x value.
    pub fn x(self) -> (r: T)
        ensures
            r == self.x,
    {
        self.x
    }

    /// Get the y value.
    pub fn y(self) -> (r: T)
        ensures
            r == self.y,
    {
        self.y
    }
}

impl<T> Vector<T> {
    /// Get reference to the x value.
    pub fn x_ref(&self) -> (r: &T)
        ensures
            *r == self.x,
    {
        &self.x
    }

    /// Get reference to the y value.
    pub fn y_ref(&self) -> (r: &T)
        ensures
            *r == self.y,
    {
        &self.y
    }

    /// Get mutable reference to the x value.
    pub fn x_mut(&mut self) -> (r: &mut T)
        ensures
            *r == old(self).x,
            final(self).x == *final(r),
            final(self).y == old(self).y,
    {
        &mut self.x
    }

    /// Get mutable reference to the y value.
    pub fn y_mut(&mut self) -> (r: &mut T)
        ensures
            *r == old(self).y,
            final(self).y == *final(r),
            final(self).x == old(self).x,
    {
        &mut self.y
    }

    /// Apply `mapper` function to both elements, one by one, return `Vector`
    /// with new values.
    pub fn map<R, F: Fn(T) -> R>(self, mapper: F) -> (r: Vector<R>)
        requires
            mapper.requires((self.x,)),
            mapper.requires((self.y,)),
        ensures
            mapper.ensures((self.x,), r.x),
            mapper.ensures((self.y,), r.y),
    {
        Vector { x: mapper(self.x), y: mapper(self.y) }
    }
}

impl<T> From<(T, T)> for Vector<T> {
    /// Build a vector from a raw coordinate pair, first component `x`,
    /// second component `y`.
    fn from(source: (T, T)) -> (r: Self) {
        Self { x: source.0, y: source.1 }
    }
}

impl<T> vstd::std_specs::convert::FromSpecImpl<(T, T)> for Vector<T> {
    open spec fn obeys_from_spec() -> bool {
        true
    }

    open spec fn from_spec(source: (T, T)) -> Self {
        Vector { x: source.0, y: source.1 }
    }
}

/// Quotient of `a` by `b` rounded toward zero: the semantics of integer
/// division on the component type itself (spec-level `/` on `int` is
/// Euclidean division, which differs on negative operands).
///
/// Unspecified when `b == 0`, as division by zero is in spec arithmetic.
pub open spec fn trunc_div(a: int, b: int) -> int {
    if a == 0 {
        0
    } else if a > 0 && b > 0 {
        a / b
    } else if a < 0 && b < 0 {
        (a * -1) / (b * -1)
    } else if a < 0 {
        ((a * -1) / b) * -1
    } else {
        (a / (b * -1)) * -1
    }
}

/// Componentwise sum.
pub open spec fn vec_add(a: Vector<i32>, b: Vector<i32>) -> Vector<i32>
    recommends
        i32::MIN <= a.x + b.x <= i32::MAX,
        i32::MIN <= a.y + b.y <= i32::MAX,
{
    Vector { x: (a.x + b.x) as i32, y: (a.y + b.y) as i32 }
}

/// Componentwise difference.
pub open spec fn vec_sub(a: Vector<i32>, b: Vector<i32>) -> Vector<i32>
    recommends
        i32::MIN <= a.x - b.x <= i32::MAX,
        i32::MIN <= a.y - b.y <= i32::MAX,
{
    Vector { x: (a.x - b.x) as i32, y: (a.y - b.y) as i32 }
}

/// Both components multiplied by the scalar `s`.
pub open spec fn vec_mul(a: Vector<i32>, s: i32) -> Vector<i32>
    recommends
        i32::MIN <= a.x * s <= i32::MAX,
        i32::MIN <= a.y * s <= i32::MAX,
{
    Vector { x: (a.x * s) as i32, y: (a.y * s) as i32 }
}

/// Both components divided by the scalar `s`, rounding toward zero.
pub open spec fn vec_div(a: Vector<i32>, s: i32) -> Vector<i32>
    recommends
        s != 0,
        !(a.x == i32::MIN && s == -1),
        !(a.y == i32::MIN && s == -1),
{
    Vector { x: trunc_div(a.x as int, s as int) as i32, y: trunc_div(a.y as int, s as int) as i32 }
}

/// Both components negated.
pub open spec fn vec_neg(a: Vector<i32>) -> Vector<i32>
    recommends
        a.x != i32::MIN,
        a.y != i32::MIN,
{
    Vector { x: (-a.x) as i32, y: (-a.y) as i32 }
}

/// Dot product as an unbounded integer: `a.x*b.x + a.y*b.y`.
pub open spec fn spec_dot(a: Vector<i32>, b: Vector<i32>) -> int {
    a.x * b.x + a.y * b.y
}

impl Vector<i32> {
    /// Calculate the dot product between `self` and `rhs` vectors.
    pub fn dot(self, rhs: Vector<i32>) -> (r: i32)
        requires
            i32::MIN <= self.x * rhs.x <= i32::MAX,
            i32::MIN <= self.y * rhs.y <= i32::MAX,
            i32::MIN <= spec_dot(self, rhs) <= i32::MAX,
        ensures
            r == spec_dot(self, rhs),
    {
        self.x * rhs.x + self.y * rhs.y
    }

    /// Componentwise sum of `self` and `rhs`.
    pub fn add(self, rhs: Vector<i32>) -> (r: Self)
        requires
            i32::MIN <= self.x + rhs.x <= i32::MAX,
            i32::MIN <= self.y + rhs.y <= i32::MAX,
        ensures
            r == vec_add(self, rhs),
    {
        Self { x: self.x + rhs.x, y: self.y + rhs.y }
    }

    /// Add `rhs` to `self` in place.
    pub fn add_assign(&mut self, rhs: Vector<i32>)
        requires
            i32::MIN <= old(self).x + rhs.x <= i32::MAX,
            i32::MIN <= old(self).y + rhs.y <= i32::MAX,
        ensures
            *final(self) == vec_add(*old(self), rhs),
    {
        self.x += rhs.x;
        self.y += rhs.y;
    }

    /// Componentwise difference of `self` and `rhs`.
    pub fn sub(self, rhs: Vector<i32>) -> (r: Self)
        requires
            i32::MIN <= self.x - rhs.x <= i32::MAX,
            i32::MIN <= self.y - rhs.y <= i32::MAX,
        ensures
            r == vec_sub(self, rhs),
    {
        Self { x: self.x - rhs.x, y: self.y - rhs.y }
    }

    /// Subtract `rhs` from `self` in place.
    pub fn sub_assign(&mut self, rhs: Vector<i32>)
        requires
            i32::MIN <= old(self).x - rhs.x <= i32::MAX,
            i32::MIN <= old(self).y - rhs.y <= i32::MAX,
        ensures
            *final(self) == vec_sub(*old(self), rhs),
    {
        self.x -= rhs.x;
        self.y -= rhs.y;
    }

    /// Both components of `self` multiplied by the scalar `rhs`.
    pub fn mul(self, rhs: i32) -> (r: Self)
        requires
            i32::MIN <= self.x * rhs <= i32::MAX,
            i32::MIN <= self.y * rhs <= i32::MAX,
        ensures
            r == vec_mul(self, rhs),
    {
        Self { x: self.x * rhs, y: self.y * rhs }
    }

    /// Multiply both components by the scalar `rhs` in place.
    pub fn mul_assign(&mut self, rhs: i32)
        requires
            i32::MIN <= old(self).x * rhs <= i32::MAX,
            i32::MIN <= old(self).y * rhs <= i32::MAX,
        ensures
            *final(self) == vec_mul(*old(self), rhs),
    {
        self.x *= rhs;
        self.y *= rhs;
    }

    /// Both components of `self` divided by the scalar `rhs`, rounding
    /// toward zero as the component type's own division does.
    pub fn div(self, rhs: i32) -> (r: Self)
        requires
            rhs != 0,
            !(self.x == i32::MIN && rhs == -1),
            !(self.y == i32::MIN && rhs == -1),
        ensures
            r == vec_div(self, rhs),
    {
        proof {
            lemma_trunc_div_in_range(self.x as int, rhs as int);
            lemma_trunc_div_in_range(self.y as int, rhs as int);
        }
        Self { x: self.x.checked_div(rhs).unwrap(), y: self.y.checked_div(rhs).unwrap() }
    }

    /// Divide both components by the scalar `rhs` in place, rounding
    /// toward zero.
    pub fn div_assign(&mut self, rhs: i32)
        requires
            rhs != 0,
            !(old(self).x == i32::MIN && rhs == -1),
            !(old(self).y == i32::MIN && rhs == -1),
        ensures
            *final(self) == vec_div(*old(self), rhs),
    {
        proof {
            lemma_trunc_div_in_range(self.x as int, rhs as int);
            lemma_trunc_div_in_range(self.y as int, rhs as int);
        }
        self.x = self.x.checked_div(rhs).unwrap();
        self.y = self.y.checked_div(rhs).unwrap();
    }

    /// Both components negated.
    pub fn neg(self) -> (r: Self)
        requires
            self.x != i32::MIN,
            self.y != i32::MIN,
        ensures
            r == vec_neg(self),
    {
        Self { x: -self.x, y: -self.y }
    }
}

/// Adding a vector and then subtracting it again returns the original
/// vector: `(a + b) - b == a` whenever the sum stays in range.
pub proof fn lemma_add_sub_cancel(a: Vector<i32>, b: Vector<i32>)
    requires
        i32::MIN <= a.x + b.x <= i32::MAX,
        i32::MIN <= a.y + b.y <= i32::MAX,
    ensures
        vec_sub(vec_add(a, b), b) == a,
{
}

/// Multiplying by a nonzero scalar and then dividing by it returns the
/// original vector: `(a * s) / s == a` whenever the products stay in range.
pub proof fn lemma_mul_div_cancel(a: Vector<i32>, s: i32)
    requires
        s != 0,
        i32::MIN <= a.x * s <= i32::MAX,
        i32::MIN <= a.y * s <= i32::MAX,
    ensures
        vec_div(vec_mul(a, s), s) == a,
{
    lemma_trunc_div_exact(a.x as int, s as int);
    lemma_trunc_div_exact(a.y as int, s as int);
}

/// The dot product is commutative: `a.dot(b) == b.dot(a)`.
pub proof fn lemma_dot_commutative(a: Vector<i32>, b: Vector<i32>)
    ensures
        spec_dot(a, b) == spec_dot(b, a),
{
    assert(a.x * b.x == b.x * a.x) by (nonlinear_arith);
    assert(a.y * b.y == b.y * a.y) by (nonlinear_arith);
}

/// Division rounding toward zero stays in the component type's range for
/// every in-range dividend, except for the one overflowing pair
/// `i32::MIN / -1`.
proof fn lemma_trunc_div_in_range(x: int, d: int)
    requires
        d != 0,
        i32::MIN <= x <= i32::MAX,
        !(x == i32::MIN && d == -1),
    ensures
        i32::MIN <= trunc_div(x, d) <= i32::MAX,
{
    let ax = if x < 0 { x * -1 } else { x };
    let ad = if d < 0 { d * -1 } else { d };
    if x != 0 {
        vstd::arithmetic::div_mod::lemma_div_pos_is_pos(ax, ad);
        vstd::arithmetic::div_mod::lemma_div_nonincreasing(ax, ad);
        if ad > 1 {
            vstd::arithmetic::div_mod::lemma_div_decreases(ax, ad);
        } else {
            vstd::arithmetic::div_mod::lemma_div_by_self(ad);
            assert(ax / 1 == ax) by {
                vstd::arithmetic::div_mod::lemma_div_basics(ax);
            }
        }
    }
}

/// Division rounding toward zero is exact on exact multiples:
/// `(n * d) / d == n` for nonzero `d`.
proof fn lemma_trunc_div_exact(n: int, d: int)
    requires
        d != 0,
    ensures
        trunc_div(n * d, d) == n,
{
    let p = n * d;
    if n == 0 {
        assert(trunc_div(p, d) == 0);
    } else if n > 0 && d > 0 {
        assert(p > 0) by (nonlinear_arith)
            requires
                n > 0,
                d > 0,
                p == n * d,
        ;
        vstd::arithmetic::div_mod::lemma_div_multiples_vanish(n, d);
        assert(p / d == (d * n) / d);
    } else if n < 0 && d < 0 {
        assert(p > 0) by (nonlinear_arith)
            requires
                n < 0,
                d < 0,
                p == n * d,
        ;
        vstd::arithmetic::div_mod::lemma_div_multiples_vanish(n * -1, d * -1);
        assert(p == (d * -1) * (n * -1)) by (nonlinear_arith)
            requires
                p == n * d,
        ;
    } else if n < 0 {
        assert(p < 0) by (nonlinear_arith)
            requires
                n < 0,
                d > 0,
                p == n * d,
        ;
        vstd::arithmetic::div_mod::lemma_div_multiples_vanish(n * -1, d);
        assert(p * -1 == d * (n * -1)) by (nonlinear_arith)
            requires
                p == n * d,
        ;
    } else {
        assert(p < 0) by (nonlinear_arith)
            requires
                n > 0,
                d < 0,
                p == n * d,
        ;
        vstd::arithmetic::div_mod::lemma_div_multiples_vanish(n, d * -1);
        assert(p * -1 == (d * -1) * n) by (nonlinear_arith)
            requires
                p == n * d,
        ;
    }
}

} // verus!
