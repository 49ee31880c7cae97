//! Three-component vectors: the mathematical model and its machine form.

use vstd::prelude::*;
use crate::units::{UNIT, magnitude, magnitude_of, product_le};

verus! {

/// A vector of three integers, in ticks: the model that contracts speak of.
pub struct Vector {
    pub x: int,
    pub y: int,
    pub z: int,
}

/// A coordinate held to what a machine integer holds: one beyond the largest
/// is the largest, one below the smallest is the smallest.
pub open spec fn confine(c: int) -> int {
    if c < i64::MIN {
        i64::MIN as int
    } else if c > i64::MAX {
        i64::MAX as int
    } else {
        c
    }
}

/// `r` is the component `c` of a vector of squared length `n`, with the
/// vector brought to the length `k` and the component rounded toward zero:
/// `r` has the sign of `c`, and its magnitude is the largest whole number of
/// ticks that does not pass `k * |c| / sqrt(n)`. So `r` is less than one
/// tick from the exact value.
pub open spec fn is_resized_component(c: int, n: int, k: int, r: int) -> bool {
    &&& c >= 0 ==> r >= 0
    &&& c <= 0 ==> r <= 0
    &&& (r * r) * n <= (k * k) * (c * c)
    &&& (k * k) * (c * c) < ((magnitude(r) + 1) * (magnitude(r) + 1)) * n
}

/// The component `c` of a vector of squared length `n > 0`, with the vector
/// brought to the length `k >= 0` and the component rounded toward zero.
pub open spec fn resized_component(c: int, n: int, k: int) -> int {
    choose|r: int| is_resized_component(c, n, k, r)
}

impl Vector {
    /// The vector without length.
    pub open spec fn zero() -> Vector {
        Vector { x: 0, y: 0, z: 0 }
    }

    /// The sum, component by component.
    pub open spec fn plus(self, other: Vector) -> Vector {
        Vector { x: self.x + other.x, y: self.y + other.y, z: self.z + other.z }
    }

    /// The difference, component by component.
    pub open spec fn minus(self, other: Vector) -> Vector {
        Vector { x: self.x - other.x, y: self.y - other.y, z: self.z - other.z }
    }

    /// The squared length.
    pub open spec fn norm2(self) -> int {
        self.x * self.x + self.y * self.y + self.z * self.z
    }

    /// The squared distance to `other`.
    pub open spec fn dist2(self, other: Vector) -> int {
        self.minus(other).norm2()
    }

    /// No component is larger than `limit` in absolute value.
    pub open spec fn within(self, limit: int) -> bool {
        &&& -limit <= self.x <= limit
        &&& -limit <= self.y <= limit
        &&& -limit <= self.z <= limit
    }

    /// Each component held to what a machine integer holds.
    pub open spec fn confined(self) -> Vector {
        Vector { x: confine(self.x), y: confine(self.y), z: confine(self.z) }
    }

    /// The vector of length `k` in the same direction, each component
    /// rounded toward zero, once, from the exact value; the zero vector
    /// stays zero.
    pub open spec fn resized(self, k: int) -> Vector {
        if self.norm2() == 0 {
            Vector::zero()
        } else {
            Vector {
                x: resized_component(self.x, self.norm2(), k),
                y: resized_component(self.y, self.norm2(), k),
                z: resized_component(self.z, self.norm2(), k),
            }
        }
    }

    /// The vector of unit length in the same direction, each component
    /// rounded toward zero; the zero vector stays zero.
    pub open spec fn unit(self) -> Vector {
        self.resized(UNIT as int)
    }
}

/// A vector of three machine integers, in ticks.
#[derive(Clone, Copy, Debug, PartialEq, Eq, Structural)]
pub struct Vec3 {
    pub x: i64,
    pub y: i64,
    pub z: i64,
}

impl View for Vec3 {
    type V = Vector;

    open spec fn view(&self) -> Vector {
        Vector { x: self.x as int, y: self.y as int, z: self.z as int }
    }
}

/// Only one number is the component `c` of a vector of squared length `n`
/// brought to the length `k`.
pub proof fn lemma_resized_component_unique(c: int, n: int, k: int, r: int)
    requires
        n > 0,
        is_resized_component(c, n, k, r),
    ensures
        resized_component(c, n, k) == r,
{
    let s = resized_component(c, n, k);
    assert(is_resized_component(c, n, k, s));
    let a = (k * k) * (c * c);
    let mr = magnitude(r);
    let ms = magnitude(s);
    assert(mr * mr == r * r && ms * ms == s * s) by (nonlinear_arith)
        requires
            mr == r || mr == -r,
            ms == s || ms == -s,
    ;
    assert(mr == ms) by (nonlinear_arith)
        requires
            n > 0,
            0 <= mr,
            0 <= ms,
            (mr * mr) * n <= a,
            a < ((mr + 1) * (mr + 1)) * n,
            (ms * ms) * n <= a,
            a < ((ms + 1) * (ms + 1)) * n,
    ;
}

/// Below any bound whose square times `n` passes `a` lies the largest
/// number whose square times `n` does not.
proof fn lemma_largest_below(a: int, n: int, bound: int) -> (w: int)
    requires
        n > 0,
        a >= 0,
        bound >= 0,
        a < ((bound + 1) * (bound + 1)) * n,
    ensures
        0 <= w <= bound,
        (w * w) * n <= a < ((w + 1) * (w + 1)) * n,
    decreases bound,
{
    if (bound * bound) * n <= a {
        bound
    } else {
        assert(bound > 0) by (nonlinear_arith)
            requires
                bound >= 0,
                a >= 0,
                (bound * bound) * n > a,
        ;
        lemma_largest_below(a, n, bound - 1)
    }
}

/// In a vector of squared length `n > 0`, the component `c` brought to the
/// length `k` exists: it satisfies what defines it.
pub proof fn lemma_resized_component_exists(c: int, n: int, k: int)
    requires
        n > 0,
        c * c <= n,
        k >= 0,
    ensures
        is_resized_component(c, n, k, resized_component(c, n, k)),
        magnitude(resized_component(c, n, k)) <= k,
{
    let a = (k * k) * (c * c);
    assert(0 <= c * c) by (nonlinear_arith);
    assert(0 <= a && a < ((k + 1) * (k + 1)) * n) by (nonlinear_arith)
        requires
            n > 0,
            0 <= c * c <= n,
            k >= 0,
            a == (k * k) * (c * c),
    ;
    let w = lemma_largest_below(a, n, k);
    if c == 0 {
        assert(a == 0) by (nonlinear_arith)
            requires
                c == 0,
                a == (k * k) * (c * c),
        ;
        assert(w == 0) by (nonlinear_arith)
            requires
                n > 0,
                w >= 0,
                (w * w) * n <= 0,
        ;
    }
    let r = if c < 0 {
        -w
    } else {
        w
    };
    assert(r * r == w * w) by (nonlinear_arith)
        requires
            r == w || r == -w,
    ;
    assert(is_resized_component(c, n, k, r));
    lemma_resized_component_unique(c, n, k, r);
}

/// A component that is zero stays zero at any length.
pub proof fn lemma_zero_component(n: int, k: int)
    requires
        n > 0,
    ensures
        resized_component(0, n, k) == 0,
{
    assert((0 * 0) * n <= (k * k) * (0 * 0) && (k * k) * (0 * 0) < ((0 + 1) * (0 + 1)) * n)
        by (nonlinear_arith)
        requires
            n > 0,
    ;
    lemma_resized_component_unique(0, n, k, 0);
}

/// A wide integer held to what a machine integer holds.
pub fn confine_wide(c: i128) -> (r: i64)
    ensures
        r == confine(c as int),
{
    if c < i64::MIN as i128 {
        i64::MIN
    } else if c > i64::MAX as i128 {
        i64::MAX
    } else {
        c as i64
    }
}

/// The square of a component, widened so that it fits.
fn square_of(c: i64) -> (s: u128)
    ensures
        s == c * c,
        s <= 0x4000_0000_0000_0000_0000_0000_0000_0000,
{
    let m: u128 = magnitude_of(c);
    assert(m * m == c * c && m * m <= 0x4000_0000_0000_0000_0000_0000_0000_0000) by (nonlinear_arith)
        requires
            m == c || m == -c,
            0 <= m <= 0x8000_0000_0000_0000,
    ;
    m * m
}

/// One component of the resized vector: the largest `r` with `r * r * n <=
/// k * k * c * c`, found by bisection, with the sign of `c`.
fn resized_component_of(c: i64, n: u128, k: u32) -> (r: i64)
    requires
        0 < n,
        c * c <= n,
    ensures
        r == resized_component(c as int, n as int, k as int),
{
    let a: u128 = square_of(c);
    assert(k * k <= 0xffff_ffff * 0xffff_ffff) by (nonlinear_arith)
        requires
            0 <= k <= 0xffff_ffff,
    ;
    let kk: u64 = (k as u64) * (k as u64);
    let mut lo: u64 = 0;
    let mut hi: u64 = k as u64 + 1;
    assert((lo * lo) * n <= kk * a && kk * a < (hi * hi) * n) by (nonlinear_arith)
        requires
            n > 0,
            0 <= a <= n,
            k >= 0,
            kk == k * k,
            lo == 0,
            hi == k + 1,
    ;
    while hi - lo > 1
        invariant
            lo < hi <= k + 1,
            kk == k * k,
            a == c * c,
            n > 0,
            (lo * lo) * n <= kk * a,
            kk * a < (hi * hi) * n,
        decreases hi - lo,
    {
        let mid: u64 = lo + (hi - lo) / 2;
        assert(mid * mid <= 0xffff_ffff * 0xffff_ffff) by (nonlinear_arith)
            requires
                0 <= mid <= 0xffff_ffff,
        ;
        if product_le(mid * mid, n, kk, a) {
            lo = mid;
        } else {
            hi = mid;
        }
    }
    let r: i64 = if c < 0 {
        -(lo as i64)
    } else {
        lo as i64
    };
    proof {
        if c == 0 {
            assert(kk * a == 0) by (nonlinear_arith)
                requires
                    a == 0,
            ;
            assert(lo == 0) by (nonlinear_arith)
                requires
                    n > 0,
                    lo >= 0,
                    (lo * lo) * n <= 0,
            ;
        }
        assert(r * r == lo * lo) by (nonlinear_arith)
            requires
                r == lo || r == -lo,
        ;
        lemma_resized_component_unique(c as int, n as int, k as int, r as int);
    }
    r
}

impl Vec3 {
    /// The vector with these components.
    pub fn new(x: i64, y: i64, z: i64) -> (v: Vec3)
        ensures
            v.x == x,
            v.y == y,
            v.z == z,
    {
        Vec3 { x, y, z }
    }

    /// The zero vector.
    pub fn zero() -> (v: Vec3)
        ensures
            v@ == Vector::zero(),
    {
        Vec3 { x: 0, y: 0, z: 0 }
    }

    /// The sum of two vectors, each component held to what a machine
    /// integer holds.
    pub fn saturating_plus(self, other: Vec3) -> (sum: Vec3)
        ensures
            sum@ == self@.plus(other@).confined(),
    {
        Vec3 {
            x: confine_wide(self.x as i128 + other.x as i128),
            y: confine_wide(self.y as i128 + other.y as i128),
            z: confine_wide(self.z as i128 + other.z as i128),
        }
    }

    /// The vector of length `k` in the same direction, or the zero vector
    /// where `self` has no length. Each component is rounded toward zero,
    /// once, from the exact value.
    pub fn resized(self, k: u32) -> (sized: Vec3)
        ensures
            sized@ == self@.resized(k as int),
    {
        let xx: u128 = square_of(self.x);
        let yy: u128 = square_of(self.y);
        let zz: u128 = square_of(self.z);
        let n: u128 = xx + yy + zz;
        if n == 0 {
            return Vec3::zero();
        }
        Vec3 {
            x: resized_component_of(self.x, n, k),
            y: resized_component_of(self.y, n, k),
            z: resized_component_of(self.z, n, k),
        }
    }

    /// The vector of unit length in the same direction, or the zero vector
    /// where `self` has no length.
    pub fn normalize_or_zero(self) -> (unit: Vec3)
        ensures
            unit@ == self@.unit(),
    {
        self.resized(UNIT as u32)
    }
}

/// A vector that has a length is brought to the length `k` up to rounding:
/// the resized vector is no longer than `k` and less than two ticks shorter,
/// no component changes its sign, and each one is within a tick of the
/// exact value.
pub proof fn law_resized_length(v: Vector, k: int)
    requires
        v.norm2() > 0,
        k >= 0,
    ensures
        v.resized(k).norm2() <= k * k,
        k >= 2 ==> (k - 2) * (k - 2) < v.resized(k).norm2(),
        is_resized_component(v.x, v.norm2(), k, v.resized(k).x),
        is_resized_component(v.y, v.norm2(), k, v.resized(k).y),
        is_resized_component(v.z, v.norm2(), k, v.resized(k).z),
{
    let n = v.norm2();
    let u = v.resized(k);
    assert(v.x * v.x >= 0 && v.y * v.y >= 0 && v.z * v.z >= 0) by (nonlinear_arith);
    lemma_resized_component_exists(v.x, n, k);
    lemma_resized_component_exists(v.y, n, k);
    lemma_resized_component_exists(v.z, n, k);
    let (a, b, c) = (magnitude(u.x), magnitude(u.y), magnitude(u.z));
    let (xx, yy, zz) = (v.x * v.x, v.y * v.y, v.z * v.z);
    let kk = k * k;
    assert(a * a == u.x * u.x && b * b == u.y * u.y && c * c == u.z * u.z) by (nonlinear_arith)
        requires
            a == u.x || a == -u.x,
            b == u.y || b == -u.y,
            c == u.z || c == -u.z,
    ;
    let s = a * a + b * b + c * c;
    assert(s <= kk) by (nonlinear_arith)
        requires
            n > 0,
            n == xx + yy + zz,
            s == a * a + b * b + c * c,
            (a * a) * n <= kk * xx,
            (b * b) * n <= kk * yy,
            (c * c) * n <= kk * zz,
    ;
    let t = (a + 1) * (a + 1) + (b + 1) * (b + 1) + (c + 1) * (c + 1);
    assert(t > kk) by (nonlinear_arith)
        requires
            n > 0,
            n == xx + yy + zz,
            t == (a + 1) * (a + 1) + (b + 1) * (b + 1) + (c + 1) * (c + 1),
            kk * xx < ((a + 1) * (a + 1)) * n,
            kk * yy < ((b + 1) * (b + 1)) * n,
            kk * zz < ((c + 1) * (c + 1)) * n,
    ;
    let sum = a + b + c;
    assert(t == s + 2 * sum + 3 && sum * sum <= 3 * s) by (nonlinear_arith)
        requires
            t == (a + 1) * (a + 1) + (b + 1) * (b + 1) + (c + 1) * (c + 1),
            s == a * a + b * b + c * c,
            sum == a + b + c,
    ;
    if k >= 2 {
        lemma_short_by_less_than_two(s, sum, k);
    }
}

/// Where a sum `s` of three squares is at most `(k - 2)^2`, and `sum` is the
/// sum of the three roots, `s + 2 * sum + 3` is at most `k^2`.
proof fn lemma_short_by_less_than_two(s: int, sum: int, k: int)
    requires
        k >= 2,
        0 <= sum,
        0 <= s,
        sum * sum <= 3 * s,
        s + 2 * sum + 3 > k * k,
    ensures
        (k - 2) * (k - 2) < s,
{
    if s <= (k - 2) * (k - 2) {
        let j = k - 2;
        assert(4 * sum <= 7 * j) by (nonlinear_arith)
            requires
                0 <= sum,
                0 <= j,
                sum * sum <= 3 * s,
                s <= j * j,
        ;
        assert(false) by (nonlinear_arith)
            requires
                j == k - 2,
                s <= j * j,
                4 * sum <= 7 * j,
                s + 2 * sum + 3 > k * k,
                j >= 0,
        ;
    }
}

/// The same number in every component is the same vector, longer or
/// shorter.
pub open spec fn stretched(v: Vector, s: int) -> Vector {
    Vector { x: s * v.x, y: s * v.y, z: s * v.z }
}

/// One component of a stretched vector, resized, is that of the vector
/// itself, resized.
proof fn lemma_stretched_component(c: int, n: int, s: int, k: int)
    requires
        n > 0,
        c * c <= n,
        s > 0,
        k >= 0,
    ensures
        resized_component(s * c, (s * s) * n, k) == resized_component(c, n, k),
{
    lemma_resized_component_exists(c, n, k);
    let r = resized_component(c, n, k);
    let m = magnitude(r);
    let (rr, kk, cc, ss, mm) = (r * r, k * k, c * c, s * s, (m + 1) * (m + 1));
    assert(ss > 0 && (s * c) * (s * c) == ss * cc && ((s * c >= 0) <==> (c >= 0)) && ((s * c <= 0)
        <==> (c <= 0))) by (nonlinear_arith)
        requires
            s > 0,
            ss == s * s,
            cc == c * c,
    ;
    assert(rr * (ss * n) <= kk * (ss * cc) && kk * (ss * cc) < mm * (ss * n)) by (nonlinear_arith)
        requires
            ss > 0,
            rr * n <= kk * cc,
            kk * cc < mm * n,
    ;
    assert(ss * n > 0) by (nonlinear_arith)
        requires
            ss > 0,
            n > 0,
    ;
    lemma_resized_component_unique(s * c, ss * n, k, r);
}

/// Resizing looks at the direction alone: a vector stretched by any
/// positive number is resized to the same vector. Half a throw of the
/// joystick asks for the same as a full one.
pub proof fn law_resized_ignores_length(v: Vector, s: int, k: int)
    requires
        s > 0,
        k >= 0,
    ensures
        stretched(v, s).resized(k) == v.resized(k),
{
    let n = v.norm2();
    let w = stretched(v, s);
    assert(w.norm2() == (s * s) * n && v.x * v.x >= 0 && v.y * v.y >= 0 && v.z * v.z >= 0 && (n
        == 0 <==> w.norm2() == 0)) by (nonlinear_arith)
        requires
            s > 0,
            n == v.x * v.x + v.y * v.y + v.z * v.z,
            w.norm2() == (s * v.x) * (s * v.x) + (s * v.y) * (s * v.y) + (s * v.z) * (s * v.z),
    ;
    if n > 0 {
        lemma_stretched_component(v.x, n, s, k);
        lemma_stretched_component(v.y, n, s, k);
        lemma_stretched_component(v.z, n, s, k);
    }
}

/// A vector along one axis is resized to the full length along that axis.
pub proof fn law_resized_along_an_axis(c: int, k: int)
    requires
        c != 0,
        k >= 0,
    ensures
        (Vector { x: c, y: 0, z: 0 }).resized(k) == (Vector {
            x: if c < 0 {
                -k
            } else {
                k
            },
            y: 0,
            z: 0,
        }),
        (Vector { x: 0, y: c, z: 0 }).resized(k) == (Vector {
            x: 0,
            y: if c < 0 {
                -k
            } else {
                k
            },
            z: 0,
        }),
        (Vector { x: 0, y: 0, z: c }).resized(k) == (Vector {
            x: 0,
            y: 0,
            z: if c < 0 {
                -k
            } else {
                k
            },
        }),
{
    let n = c * c;
    let r = if c < 0 {
        -k
    } else {
        k
    };
    assert(n > 0 && (r * r) * n <= (k * k) * (c * c) && (k * k) * (c * c) < ((k + 1) * (k + 1)) * n
        && c * c + 0 * 0 + 0 * 0 == n && 0 * 0 + c * c + 0 * 0 == n && 0 * 0 + 0 * 0 + c * c == n)
        by (nonlinear_arith)
        requires
            c != 0,
            k >= 0,
            n == c * c,
            r == k || r == -k,
    ;
    assert(magnitude(r) == k);
    lemma_resized_component_unique(c, n, k, r);
    lemma_zero_component(n, k);
}

} // verus!
