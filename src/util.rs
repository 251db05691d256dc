use vstd::prelude::*;

verus! {

/// The smallest tolerance: coordinates are exact, so two values are equal
/// within the default tolerance only when they are the same integer.
pub const MATH_TOLERANCE: i64 = 0;

/// Bound on the coordinates fed to operations whose results are products of
/// two coordinates (dot and cross products, matrix-vector products,
/// quaternion to matrix conversion).
pub const QUADRATIC_LIMIT: i64 = 1073741824;

/// Bound on the coordinates fed to operations whose results are products of
/// three coordinates (the quaternion sandwich product, the adjugate).
pub const CUBIC_LIMIT: i64 = 524288;

/// Bound on the coordinates fed to operations whose results are products of
/// four coordinates (the 4x4 determinant and inverse).
pub const QUARTIC_LIMIT: i64 = 16384;

/// `v` lies in `[-b, b]`.
pub open spec fn within(v: int, b: int) -> bool {
    -b <= v <= b
}

/// `a` and `b` differ by at most `epsilon`.
pub open spec fn close(a: int, b: int, epsilon: int) -> bool {
    -epsilon <= a - b <= epsilon
}

/// A product of two bounded values is bounded by the product of the bounds.
pub proof fn lemma_mul_within(a: int, b: int, ba: int, bb: int)
    requires
        within(a, ba),
        within(b, bb),
    ensures
        within(a * b, ba * bb),
{
    assert(-(ba * bb) <= a * b <= ba * bb) by (nonlinear_arith)
        requires
            -ba <= a <= ba,
            -bb <= b <= bb,
    ;
}

/// `v` fits in an `i64`.
pub open spec fn fits(v: int) -> bool {
    i64::MIN <= v <= i64::MAX
}

/// `d` divides `a`.
pub open spec fn divides(d: int, a: int) -> bool {
    magnitude(a) % magnitude(d) == 0
}

/// The absolute value of `v`.
pub open spec fn magnitude(v: int) -> int {
    if v < 0 {
        -v
    } else {
        v
    }
}

/// `a / d` when `d` divides `a`; `None` otherwise.
pub fn exact_quotient(a: i64, d: i64) -> (r: Option<i64>)
    requires
        d != 0,
        within(a as int, 0x4000_0000_0000_0000),
        within(d as int, 0x4000_0000_0000_0000),
    ensures
        r.is_some() == divides(d as int, a as int),
        r matches Some(q) ==> q * d == a,
{
    let ua: u64 = if a < 0 {
        (-a) as u64
    } else {
        a as u64
    };
    let ud: u64 = if d < 0 {
        (-d) as u64
    } else {
        d as u64
    };
    if ua % ud != 0 {
        return None;
    }
    let uq = ua / ud;
    proof {
        vstd::arithmetic::div_mod::lemma_fundamental_div_mod(ua as int, ud as int);
        assert(uq <= ua) by (nonlinear_arith)
            requires
                ua == ud * uq,
                ud >= 1,
        ;
    }
    let q = uq as i64;
    if (a < 0) != (d < 0) {
        proof {
            let (ai, di, qi) = (a as int, d as int, q as int);
            assert(-qi * di == ai) by (nonlinear_arith)
                requires
                    ua == ud * qi,
                    ua == magnitude(ai),
                    ud == magnitude(di),
                    ai < 0 && !(di < 0) || !(ai < 0) && di < 0,
            ;
        }
        Some(-q)
    } else {
        proof {
            let (ai, di, qi) = (a as int, d as int, q as int);
            assert(qi * di == ai) by (nonlinear_arith)
                requires
                    ua == ud * qi,
                    ua == magnitude(ai),
                    ud == magnitude(di),
                    !(ai < 0) && !(di < 0) || ai < 0 && di < 0,
            ;
        }
        Some(q)
    }
}

/// The largest `r` with `r * r <= n` (zero for negative `n`).
pub open spec fn floor_sqrt(n: int) -> int
    decreases n,
{
    if n <= 0 {
        0
    } else {
        let r = floor_sqrt(n - 1);
        if (r + 1) * (r + 1) <= n {
            r + 1
        } else {
            r
        }
    }
}

/// `a / b` rounded toward zero, for `b > 0`.
pub open spec fn div_toward_zero(a: int, b: int) -> int {
    if a >= 0 {
        a / b
    } else {
        -((-a) / b)
    }
}

/// `floor_sqrt(n)` is the root rounded down: its square is at most `n` and
/// the square of the next integer exceeds `n`.
pub proof fn lemma_floor_sqrt(n: int)
    requires
        n >= 0,
    ensures
        floor_sqrt(n) >= 0,
        floor_sqrt(n) * floor_sqrt(n) <= n < (floor_sqrt(n) + 1) * (floor_sqrt(n) + 1),
    decreases n,
{
    if n > 0 {
        lemma_floor_sqrt(n - 1);
        let r = floor_sqrt(n - 1);
        if (r + 1) * (r + 1) <= n {
            assert(n < (r + 2) * (r + 2)) by (nonlinear_arith)
                requires
                    n - 1 < (r + 1) * (r + 1),
                    r >= 0,
            ;
        }
    }
}

/// The root rounded down is the only `r >= 0` with `r * r <= n < (r + 1) * (r + 1)`.
pub proof fn lemma_floor_sqrt_unique(n: int, r: int)
    requires
        r >= 0,
        r * r <= n < (r + 1) * (r + 1),
    ensures
        floor_sqrt(n) == r,
{
    lemma_floor_sqrt(n);
    let f = floor_sqrt(n);
    if f < r {
        assert((f + 1) * (f + 1) <= r * r) by (nonlinear_arith)
            requires
                0 <= f < r,
        ;
    } else if f > r {
        assert((r + 1) * (r + 1) <= f * f) by (nonlinear_arith)
            requires
                0 <= r < f,
        ;
    }
}

/// The square root of `n`, rounded down.
pub fn isqrt(n: u64) -> (r: u64)
    requires
        n < 0x4_0000_0000,
    ensures
        r == floor_sqrt(n as int),
{
    let mut lo: u64 = 0;
    let mut hi: u64 = 0x2_0000;
    while hi - lo > 1
        invariant
            lo < hi <= 0x2_0000,
            lo * lo <= n,
            n < hi * hi,
        decreases hi - lo,
    {
        let mid = lo + (hi - lo) / 2;
        assert(mid * mid <= 0x4_0000_0000) by (nonlinear_arith)
            requires
                mid <= 0x2_0000,
        ;
        if mid * mid <= n {
            lo = mid;
        } else {
            hi = mid;
        }
    }
    proof {
        lemma_floor_sqrt_unique(n as int, lo as int);
    }
    lo
}

/// `a / b` rounded toward zero.
pub fn quotient_toward_zero(a: i64, b: i64) -> (r: i64)
    requires
        b > 0,
        a > i64::MIN,
    ensures
        r == div_toward_zero(a as int, b as int),
{
    if a >= 0 {
        a / b
    } else {
        -((-a) / b)
    }
}

/// Whether `a` and `b` differ by at most `epsilon`.
pub fn is_equal(a: i64, b: i64, epsilon: i64) -> (r: bool)
    ensures
        r == close(a as int, b as int, epsilon as int),
{
    let diff: i128 = a as i128 - b as i128;
    let eps: i128 = epsilon as i128;
    -eps <= diff && diff <= eps
}

/// Whether `a` and `b` differ by more than `epsilon`.
pub fn is_not_equal(a: i64, b: i64, epsilon: i64) -> (r: bool)
    ensures
        r == !close(a as int, b as int, epsilon as int),
{
    let diff: i128 = a as i128 - b as i128;
    let eps: i128 = epsilon as i128;
    diff < -eps || diff > eps
}

/// Whether `a` lies within `epsilon` of one.
pub fn is_one(a: i64, epsilon: i64) -> (r: bool)
    ensures
        r == close(a as int, 1, epsilon as int),
{
    let diff: i128 = a as i128 - 1;
    let eps: i128 = epsilon as i128;
    -eps <= diff && diff <= eps
}

/// Whether `a` lies within `epsilon` of zero.
pub fn is_zero(a: i64, epsilon: i64) -> (r: bool)
    ensures
        r == close(a as int, 0, epsilon as int),
{
    let eps: i128 = epsilon as i128;
    -eps <= a as i128 && a as i128 <= eps
}

/// Whether `a` lies farther than `epsilon` from zero.
pub fn is_non_zero(a: i64, epsilon: i64) -> (r: bool)
    ensures
        r == !close(a as int, 0, epsilon as int),
{
    let eps: i128 = epsilon as i128;
    (a as i128) < -eps || a as i128 > eps
}

} // verus!
