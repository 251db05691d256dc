use crate::util::{divides, exact_quotient, lemma_mul_within, within, CUBIC_LIMIT, QUADRATIC_LIMIT, QUARTIC_LIMIT};
use crate::quat::Quat;
use vstd::prelude::*;

verus! {

/// A 4x4 matrix, addressed by row and column (`r<row>c<col>`).
///
/// Vectors are rows: a vector is transformed by multiplying it on the left
/// of the matrix.
#[derive(Clone, Copy, Debug, PartialEq, Eq, Structural)]
pub struct Mat4 {
    pub r0c0: i64,
    pub r0c1: i64,
    pub r0c2: i64,
    pub r0c3: i64,
    pub r1c0: i64,
    pub r1c1: i64,
    pub r1c2: i64,
    pub r1c3: i64,
    pub r2c0: i64,
    pub r2c1: i64,
    pub r2c2: i64,
    pub r2c3: i64,
    pub r3c0: i64,
    pub r3c1: i64,
    pub r3c2: i64,
    pub r3c3: i64,
}

/// The index that stands at position `n` once index `k` is left out of
/// `0, 1, 2, 3`.
pub open spec fn skip(k: int, n: int) -> int {
    if n < k {
        n
    } else {
        n + 1
    }
}

/// The determinant of the 3x3 matrix with rows `(a, b, c)`, `(d, e, f)`,
/// `(g, h, i)`, expanded along its first row.
pub open spec fn det3(a: int, b: int, c: int, d: int, e: int, f: int, g: int, h: int, i: int) -> int {
    a * (e * i - f * h) - b * (d * i - f * g) + c * (d * h - e * g)
}

/// The determinant of `m` with row `i` and column `j` removed.
pub open spec fn minor(m: Mat4, i: int, j: int) -> int {
    det3(
        m.entry(skip(i, 0), skip(j, 0)),
        m.entry(skip(i, 0), skip(j, 1)),
        m.entry(skip(i, 0), skip(j, 2)),
        m.entry(skip(i, 1), skip(j, 0)),
        m.entry(skip(i, 1), skip(j, 1)),
        m.entry(skip(i, 1), skip(j, 2)),
        m.entry(skip(i, 2), skip(j, 0)),
        m.entry(skip(i, 2), skip(j, 1)),
        m.entry(skip(i, 2), skip(j, 2)),
    )
}

/// The signed minor of entry `(i, j)`.
pub open spec fn cofactor(m: Mat4, i: int, j: int) -> int {
    if (i + j) % 2 == 0 {
        minor(m, i, j)
    } else {
        -minor(m, i, j)
    }
}

/// The determinant, by cofactor expansion along the first row.
pub open spec fn determinant(m: Mat4) -> int {
    m.r0c0 * cofactor(m, 0, 0) + m.r0c1 * cofactor(m, 0, 1) + m.r0c2 * cofactor(m, 0, 2)
        + m.r0c3 * cofactor(m, 0, 3)
}

/// Entry `(i, j)` of the adjugate: the transposed matrix of cofactors.
pub open spec fn adjugate(m: Mat4, i: int, j: int) -> int {
    cofactor(m, j, i)
}

/// Entry `(i, j)` of the product `a * b`.
pub open spec fn product(a: Mat4, b: Mat4, i: int, j: int) -> int {
    a.entry(i, 0) * b.entry(0, j) + a.entry(i, 1) * b.entry(1, j) + a.entry(i, 2) * b.entry(2, j)
        + a.entry(i, 3) * b.entry(3, j)
}

/// `0 <= i < 4`.
pub open spec fn is_index(i: int) -> bool {
    0 <= i < 4
}

/// A 3x3 determinant of bounded entries is bounded by six times the cube of
/// the bound.
pub proof fn lemma_det3_within(
    a: int,
    b: int,
    c: int,
    d: int,
    e: int,
    f: int,
    g: int,
    h: int,
    i: int,
    bound: int,
)
    requires
        bound >= 0,
        within(a, bound),
        within(b, bound),
        within(c, bound),
        within(d, bound),
        within(e, bound),
        within(f, bound),
        within(g, bound),
        within(h, bound),
        within(i, bound),
    ensures
        within(det3(a, b, c, d, e, f, g, h, i), 6 * (bound * bound * bound)),
{
    let sq = bound * bound;
    lemma_mul_within(e, i, bound, bound);
    lemma_mul_within(f, h, bound, bound);
    lemma_mul_within(d, i, bound, bound);
    lemma_mul_within(f, g, bound, bound);
    lemma_mul_within(d, h, bound, bound);
    lemma_mul_within(e, g, bound, bound);
    lemma_mul_within(a, e * i - f * h, bound, 2 * sq);
    lemma_mul_within(b, d * i - f * g, bound, 2 * sq);
    lemma_mul_within(c, d * h - e * g, bound, 2 * sq);
    assert(bound * (2 * sq) == 2 * (bound * bound * bound)) by (nonlinear_arith)
        requires
            sq == bound * bound,
    ;
}

/// `a * d - b * c`.
fn minor2(a: i64, b: i64, c: i64, d: i64) -> (r: i64)
    requires
        within(a as int, CUBIC_LIMIT as int),
        within(b as int, CUBIC_LIMIT as int),
        within(c as int, CUBIC_LIMIT as int),
        within(d as int, CUBIC_LIMIT as int),
    ensures
        r == a * d - b * c,
{
    proof {
        lemma_mul_within(a as int, d as int, CUBIC_LIMIT as int, CUBIC_LIMIT as int);
        lemma_mul_within(b as int, c as int, CUBIC_LIMIT as int, CUBIC_LIMIT as int);
    }
    a * d - b * c
}

/// The determinant of the 3x3 matrix with rows `(a, b, c)`, `(d, e, f)`,
/// `(g, h, i)`.
fn minor3(a: i64, b: i64, c: i64, d: i64, e: i64, f: i64, g: i64, h: i64, i: i64) -> (r: i64)
    requires
        within(a as int, CUBIC_LIMIT as int),
        within(b as int, CUBIC_LIMIT as int),
        within(c as int, CUBIC_LIMIT as int),
        within(d as int, CUBIC_LIMIT as int),
        within(e as int, CUBIC_LIMIT as int),
        within(f as int, CUBIC_LIMIT as int),
        within(g as int, CUBIC_LIMIT as int),
        within(h as int, CUBIC_LIMIT as int),
        within(i as int, CUBIC_LIMIT as int),
    ensures
        r == det3(a as int, b as int, c as int, d as int, e as int, f as int, g as int, h as int, i as int),
        within(r as int, 6 * (CUBIC_LIMIT * CUBIC_LIMIT * CUBIC_LIMIT)),
{
    let ghost b2 = CUBIC_LIMIT as int;
    let x = minor2(e, f, h, i);
    let y = minor2(d, f, g, i);
    let z = minor2(d, e, g, h);
    proof {
        lemma_mul_within(e as int, i as int, b2, b2);
        lemma_mul_within(f as int, h as int, b2, b2);
        lemma_mul_within(d as int, i as int, b2, b2);
        lemma_mul_within(f as int, g as int, b2, b2);
        lemma_mul_within(d as int, h as int, b2, b2);
        lemma_mul_within(e as int, g as int, b2, b2);
        lemma_mul_within(a as int, x as int, b2, 2 * (b2 * b2));
        lemma_mul_within(b as int, y as int, b2, 2 * (b2 * b2));
        lemma_mul_within(c as int, z as int, b2, 2 * (b2 * b2));
        lemma_det3_within(
            a as int,
            b as int,
            c as int,
            d as int,
            e as int,
            f as int,
            g as int,
            h as int,
            i as int,
            b2,
        );
    }
    a * x - b * y + c * z
}

/// Entry `(i, j)` of the product of `m` with its adjugate.
pub open spec fn adjugate_product(m: Mat4, i: int, j: int) -> int {
    m.entry(i, 0) * adjugate(m, 0, j) + m.entry(i, 1) * adjugate(m, 1, j) + m.entry(i, 2) * adjugate(m, 2, j)
        + m.entry(i, 3) * adjugate(m, 3, j)
}

/// `x` distributes over a difference.
proof fn lemma_distribute(x: int, t1: int, t2: int)
    ensures
        x * (t1 - t2) == x * t1 - x * t2,
{
    assert(x * (t1 - t2) == x * t1 - x * t2) by (nonlinear_arith);
}

/// `x` distributes over a signed sum of six terms, and over its negation.
proof fn lemma_distribute6(x: int, t1: int, t2: int, t3: int, t4: int, t5: int, t6: int)
    ensures
        x * (t1 - t2 - t3 + t4 + t5 - t6) == x * t1 - x * t2 - x * t3 + x * t4 + x * t5 - x * t6,
        x * -(t1 - t2 - t3 + t4 + t5 - t6) == -(x * t1) + x * t2 + x * t3 - x * t4 - x * t5 + x * t6,
{
    assert(x * (t1 - t2 - t3 + t4 + t5 - t6) == x * t1 - x * t2 - x * t3 + x * t4 + x * t5 - x * t6)
        by (nonlinear_arith);
    assert(x * -(t1 - t2 - t3 + t4 + t5 - t6) == -(x * t1) + x * t2 + x * t3 - x * t4 - x * t5 + x
        * t6) by (nonlinear_arith);
}

/// A 3x3 determinant as a sum of six monomials.
proof fn lemma_det3_monomials(a: int, b: int, c: int, d: int, e: int, f: int, g: int, h: int, i: int)
    ensures
        det3(a, b, c, d, e, f, g, h, i) == a * e * i - a * f * h - b * d * i + b * f * g + c * d * h - c
            * e * g,
{
    broadcast use vstd::arithmetic::mul::lemma_mul_is_associative;

    lemma_distribute(a, e * i, f * h);
    lemma_distribute(b, d * i, f * g);
    lemma_distribute(c, d * h, e * g);
}

/// A 3x3 determinant, and its negation, scaled by `x`, as sums of monomials.
proof fn lemma_scaled_det3(x: int, a: int, b: int, c: int, d: int, e: int, f: int, g: int, h: int, i: int)
    ensures
        x * det3(a, b, c, d, e, f, g, h, i) == x * (a * e * i) - x * (a * f * h) - x * (b * d * i) + x
            * (b * f * g) + x * (c * d * h) - x * (c * e * g),
        x * -det3(a, b, c, d, e, f, g, h, i) == -(x * (a * e * i)) + x * (a * f * h) + x * (b * d * i)
            - x * (b * f * g) - x * (c * d * h) + x * (c * e * g),
{
    lemma_det3_monomials(a, b, c, d, e, f, g, h, i);
    lemma_distribute6(x, a * e * i, a * f * h, b * d * i, b * f * g, c * d * h, c * e * g);
}

/// A row of `m` against the cofactors of row `j`: the determinant when the
/// rows agree, zero otherwise.
proof fn lemma_adjugate_entry(m: Mat4, i: int, j: int)
    requires
        is_index(i),
        is_index(j),
    ensures
        adjugate_product(m, i, j) == if i == j {
            determinant(m)
        } else {
            0
        },
{
    broadcast use vstd::arithmetic::mul::lemma_mul_is_associative, vstd::arithmetic::mul::lemma_mul_is_commutative;

    if i == 0 && j == 0 {
        lemma_scaled_det3(m.r0c0 as int, m.r1c1 as int, m.r1c2 as int, m.r1c3 as int, m.r2c1 as int, m.r2c2 as int, m.r2c3 as int, m.r3c1 as int, m.r3c2 as int, m.r3c3 as int);
        lemma_scaled_det3(m.r0c1 as int, m.r1c0 as int, m.r1c2 as int, m.r1c3 as int, m.r2c0 as int, m.r2c2 as int, m.r2c3 as int, m.r3c0 as int, m.r3c2 as int, m.r3c3 as int);
        lemma_scaled_det3(m.r0c2 as int, m.r1c0 as int, m.r1c1 as int, m.r1c3 as int, m.r2c0 as int, m.r2c1 as int, m.r2c3 as int, m.r3c0 as int, m.r3c1 as int, m.r3c3 as int);
        lemma_scaled_det3(m.r0c3 as int, m.r1c0 as int, m.r1c1 as int, m.r1c2 as int, m.r2c0 as int, m.r2c1 as int, m.r2c2 as int, m.r3c0 as int, m.r3c1 as int, m.r3c2 as int);
    } else if i == 0 && j == 1 {
        lemma_scaled_det3(m.r0c0 as int, m.r0c1 as int, m.r0c2 as int, m.r0c3 as int, m.r2c1 as int, m.r2c2 as int, m.r2c3 as int, m.r3c1 as int, m.r3c2 as int, m.r3c3 as int);
        lemma_scaled_det3(m.r0c1 as int, m.r0c0 as int, m.r0c2 as int, m.r0c3 as int, m.r2c0 as int, m.r2c2 as int, m.r2c3 as int, m.r3c0 as int, m.r3c2 as int, m.r3c3 as int);
        lemma_scaled_det3(m.r0c2 as int, m.r0c0 as int, m.r0c1 as int, m.r0c3 as int, m.r2c0 as int, m.r2c1 as int, m.r2c3 as int, m.r3c0 as int, m.r3c1 as int, m.r3c3 as int);
        lemma_scaled_det3(m.r0c3 as int, m.r0c0 as int, m.r0c1 as int, m.r0c2 as int, m.r2c0 as int, m.r2c1 as int, m.r2c2 as int, m.r3c0 as int, m.r3c1 as int, m.r3c2 as int);
    } else if i == 0 && j == 2 {
        lemma_scaled_det3(m.r0c0 as int, m.r0c1 as int, m.r0c2 as int, m.r0c3 as int, m.r1c1 as int, m.r1c2 as int, m.r1c3 as int, m.r3c1 as int, m.r3c2 as int, m.r3c3 as int);
        lemma_scaled_det3(m.r0c1 as int, m.r0c0 as int, m.r0c2 as int, m.r0c3 as int, m.r1c0 as int, m.r1c2 as int, m.r1c3 as int, m.r3c0 as int, m.r3c2 as int, m.r3c3 as int);
        lemma_scaled_det3(m.r0c2 as int, m.r0c0 as int, m.r0c1 as int, m.r0c3 as int, m.r1c0 as int, m.r1c1 as int, m.r1c3 as int, m.r3c0 as int, m.r3c1 as int, m.r3c3 as int);
        lemma_scaled_det3(m.r0c3 as int, m.r0c0 as int, m.r0c1 as int, m.r0c2 as int, m.r1c0 as int, m.r1c1 as int, m.r1c2 as int, m.r3c0 as int, m.r3c1 as int, m.r3c2 as int);
    } else if i == 0 && j == 3 {
        lemma_scaled_det3(m.r0c0 as int, m.r0c1 as int, m.r0c2 as int, m.r0c3 as int, m.r1c1 as int, m.r1c2 as int, m.r1c3 as int, m.r2c1 as int, m.r2c2 as int, m.r2c3 as int);
        lemma_scaled_det3(m.r0c1 as int, m.r0c0 as int, m.r0c2 as int, m.r0c3 as int, m.r1c0 as int, m.r1c2 as int, m.r1c3 as int, m.r2c0 as int, m.r2c2 as int, m.r2c3 as int);
        lemma_scaled_det3(m.r0c2 as int, m.r0c0 as int, m.r0c1 as int, m.r0c3 as int, m.r1c0 as int, m.r1c1 as int, m.r1c3 as int, m.r2c0 as int, m.r2c1 as int, m.r2c3 as int);
        lemma_scaled_det3(m.r0c3 as int, m.r0c0 as int, m.r0c1 as int, m.r0c2 as int, m.r1c0 as int, m.r1c1 as int, m.r1c2 as int, m.r2c0 as int, m.r2c1 as int, m.r2c2 as int);
    } else if i == 1 && j == 0 {
        lemma_scaled_det3(m.r1c0 as int, m.r1c1 as int, m.r1c2 as int, m.r1c3 as int, m.r2c1 as int, m.r2c2 as int, m.r2c3 as int, m.r3c1 as int, m.r3c2 as int, m.r3c3 as int);
        lemma_scaled_det3(m.r1c1 as int, m.r1c0 as int, m.r1c2 as int, m.r1c3 as int, m.r2c0 as int, m.r2c2 as int, m.r2c3 as int, m.r3c0 as int, m.r3c2 as int, m.r3c3 as int);
        lemma_scaled_det3(m.r1c2 as int, m.r1c0 as int, m.r1c1 as int, m.r1c3 as int, m.r2c0 as int, m.r2c1 as int, m.r2c3 as int, m.r3c0 as int, m.r3c1 as int, m.r3c3 as int);
        lemma_scaled_det3(m.r1c3 as int, m.r1c0 as int, m.r1c1 as int, m.r1c2 as int, m.r2c0 as int, m.r2c1 as int, m.r2c2 as int, m.r3c0 as int, m.r3c1 as int, m.r3c2 as int);
    } else if i == 1 && j == 1 {
        lemma_scaled_det3(m.r1c0 as int, m.r0c1 as int, m.r0c2 as int, m.r0c3 as int, m.r2c1 as int, m.r2c2 as int, m.r2c3 as int, m.r3c1 as int, m.r3c2 as int, m.r3c3 as int);
        lemma_scaled_det3(m.r1c1 as int, m.r0c0 as int, m.r0c2 as int, m.r0c3 as int, m.r2c0 as int, m.r2c2 as int, m.r2c3 as int, m.r3c0 as int, m.r3c2 as int, m.r3c3 as int);
        lemma_scaled_det3(m.r1c2 as int, m.r0c0 as int, m.r0c1 as int, m.r0c3 as int, m.r2c0 as int, m.r2c1 as int, m.r2c3 as int, m.r3c0 as int, m.r3c1 as int, m.r3c3 as int);
        lemma_scaled_det3(m.r1c3 as int, m.r0c0 as int, m.r0c1 as int, m.r0c2 as int, m.r2c0 as int, m.r2c1 as int, m.r2c2 as int, m.r3c0 as int, m.r3c1 as int, m.r3c2 as int);
        lemma_scaled_det3(m.r0c0 as int, m.r1c1 as int, m.r1c2 as int, m.r1c3 as int, m.r2c1 as int, m.r2c2 as int, m.r2c3 as int, m.r3c1 as int, m.r3c2 as int, m.r3c3 as int);
        lemma_scaled_det3(m.r0c1 as int, m.r1c0 as int, m.r1c2 as int, m.r1c3 as int, m.r2c0 as int, m.r2c2 as int, m.r2c3 as int, m.r3c0 as int, m.r3c2 as int, m.r3c3 as int);
        lemma_scaled_det3(m.r0c2 as int, m.r1c0 as int, m.r1c1 as int, m.r1c3 as int, m.r2c0 as int, m.r2c1 as int, m.r2c3 as int, m.r3c0 as int, m.r3c1 as int, m.r3c3 as int);
        lemma_scaled_det3(m.r0c3 as int, m.r1c0 as int, m.r1c1 as int, m.r1c2 as int, m.r2c0 as int, m.r2c1 as int, m.r2c2 as int, m.r3c0 as int, m.r3c1 as int, m.r3c2 as int);
    } else if i == 1 && j == 2 {
        lemma_scaled_det3(m.r1c0 as int, m.r0c1 as int, m.r0c2 as int, m.r0c3 as int, m.r1c1 as int, m.r1c2 as int, m.r1c3 as int, m.r3c1 as int, m.r3c2 as int, m.r3c3 as int);
        lemma_scaled_det3(m.r1c1 as int, m.r0c0 as int, m.r0c2 as int, m.r0c3 as int, m.r1c0 as int, m.r1c2 as int, m.r1c3 as int, m.r3c0 as int, m.r3c2 as int, m.r3c3 as int);
        lemma_scaled_det3(m.r1c2 as int, m.r0c0 as int, m.r0c1 as int, m.r0c3 as int, m.r1c0 as int, m.r1c1 as int, m.r1c3 as int, m.r3c0 as int, m.r3c1 as int, m.r3c3 as int);
        lemma_scaled_det3(m.r1c3 as int, m.r0c0 as int, m.r0c1 as int, m.r0c2 as int, m.r1c0 as int, m.r1c1 as int, m.r1c2 as int, m.r3c0 as int, m.r3c1 as int, m.r3c2 as int);
    } else if i == 1 && j == 3 {
        lemma_scaled_det3(m.r1c0 as int, m.r0c1 as int, m.r0c2 as int, m.r0c3 as int, m.r1c1 as int, m.r1c2 as int, m.r1c3 as int, m.r2c1 as int, m.r2c2 as int, m.r2c3 as int);
        lemma_scaled_det3(m.r1c1 as int, m.r0c0 as int, m.r0c2 as int, m.r0c3 as int, m.r1c0 as int, m.r1c2 as int, m.r1c3 as int, m.r2c0 as int, m.r2c2 as int, m.r2c3 as int);
        lemma_scaled_det3(m.r1c2 as int, m.r0c0 as int, m.r0c1 as int, m.r0c3 as int, m.r1c0 as int, m.r1c1 as int, m.r1c3 as int, m.r2c0 as int, m.r2c1 as int, m.r2c3 as int);
        lemma_scaled_det3(m.r1c3 as int, m.r0c0 as int, m.r0c1 as int, m.r0c2 as int, m.r1c0 as int, m.r1c1 as int, m.r1c2 as int, m.r2c0 as int, m.r2c1 as int, m.r2c2 as int);
    } else if i == 2 && j == 0 {
        lemma_scaled_det3(m.r2c0 as int, m.r1c1 as int, m.r1c2 as int, m.r1c3 as int, m.r2c1 as int, m.r2c2 as int, m.r2c3 as int, m.r3c1 as int, m.r3c2 as int, m.r3c3 as int);
        lemma_scaled_det3(m.r2c1 as int, m.r1c0 as int, m.r1c2 as int, m.r1c3 as int, m.r2c0 as int, m.r2c2 as int, m.r2c3 as int, m.r3c0 as int, m.r3c2 as int, m.r3c3 as int);
        lemma_scaled_det3(m.r2c2 as int, m.r1c0 as int, m.r1c1 as int, m.r1c3 as int, m.r2c0 as int, m.r2c1 as int, m.r2c3 as int, m.r3c0 as int, m.r3c1 as int, m.r3c3 as int);
        lemma_scaled_det3(m.r2c3 as int, m.r1c0 as int, m.r1c1 as int, m.r1c2 as int, m.r2c0 as int, m.r2c1 as int, m.r2c2 as int, m.r3c0 as int, m.r3c1 as int, m.r3c2 as int);
    } else if i == 2 && j == 1 {
        lemma_scaled_det3(m.r2c0 as int, m.r0c1 as int, m.r0c2 as int, m.r0c3 as int, m.r2c1 as int, m.r2c2 as int, m.r2c3 as int, m.r3c1 as int, m.r3c2 as int, m.r3c3 as int);
        lemma_scaled_det3(m.r2c1 as int, m.r0c0 as int, m.r0c2 as int, m.r0c3 as int, m.r2c0 as int, m.r2c2 as int, m.r2c3 as int, m.r3c0 as int, m.r3c2 as int, m.r3c3 as int);
        lemma_scaled_det3(m.r2c2 as int, m.r0c0 as int, m.r0c1 as int, m.r0c3 as int, m.r2c0 as int, m.r2c1 as int, m.r2c3 as int, m.r3c0 as int, m.r3c1 as int, m.r3c3 as int);
        lemma_scaled_det3(m.r2c3 as int, m.r0c0 as int, m.r0c1 as int, m.r0c2 as int, m.r2c0 as int, m.r2c1 as int, m.r2c2 as int, m.r3c0 as int, m.r3c1 as int, m.r3c2 as int);
    } else if i == 2 && j == 2 {
        lemma_scaled_det3(m.r2c0 as int, m.r0c1 as int, m.r0c2 as int, m.r0c3 as int, m.r1c1 as int, m.r1c2 as int, m.r1c3 as int, m.r3c1 as int, m.r3c2 as int, m.r3c3 as int);
        lemma_scaled_det3(m.r2c1 as int, m.r0c0 as int, m.r0c2 as int, m.r0c3 as int, m.r1c0 as int, m.r1c2 as int, m.r1c3 as int, m.r3c0 as int, m.r3c2 as int, m.r3c3 as int);
        lemma_scaled_det3(m.r2c2 as int, m.r0c0 as int, m.r0c1 as int, m.r0c3 as int, m.r1c0 as int, m.r1c1 as int, m.r1c3 as int, m.r3c0 as int, m.r3c1 as int, m.r3c3 as int);
        lemma_scaled_det3(m.r2c3 as int, m.r0c0 as int, m.r0c1 as int, m.r0c2 as int, m.r1c0 as int, m.r1c1 as int, m.r1c2 as int, m.r3c0 as int, m.r3c1 as int, m.r3c2 as int);
        lemma_scaled_det3(m.r0c0 as int, m.r1c1 as int, m.r1c2 as int, m.r1c3 as int, m.r2c1 as int, m.r2c2 as int, m.r2c3 as int, m.r3c1 as int, m.r3c2 as int, m.r3c3 as int);
        lemma_scaled_det3(m.r0c1 as int, m.r1c0 as int, m.r1c2 as int, m.r1c3 as int, m.r2c0 as int, m.r2c2 as int, m.r2c3 as int, m.r3c0 as int, m.r3c2 as int, m.r3c3 as int);
        lemma_scaled_det3(m.r0c2 as int, m.r1c0 as int, m.r1c1 as int, m.r1c3 as int, m.r2c0 as int, m.r2c1 as int, m.r2c3 as int, m.r3c0 as int, m.r3c1 as int, m.r3c3 as int);
        lemma_scaled_det3(m.r0c3 as int, m.r1c0 as int, m.r1c1 as int, m.r1c2 as int, m.r2c0 as int, m.r2c1 as int, m.r2c2 as int, m.r3c0 as int, m.r3c1 as int, m.r3c2 as int);
    } else if i == 2 && j == 3 {
        lemma_scaled_det3(m.r2c0 as int, m.r0c1 as int, m.r0c2 as int, m.r0c3 as int, m.r1c1 as int, m.r1c2 as int, m.r1c3 as int, m.r2c1 as int, m.r2c2 as int, m.r2c3 as int);
        lemma_scaled_det3(m.r2c1 as int, m.r0c0 as int, m.r0c2 as int, m.r0c3 as int, m.r1c0 as int, m.r1c2 as int, m.r1c3 as int, m.r2c0 as int, m.r2c2 as int, m.r2c3 as int);
        lemma_scaled_det3(m.r2c2 as int, m.r0c0 as int, m.r0c1 as int, m.r0c3 as int, m.r1c0 as int, m.r1c1 as int, m.r1c3 as int, m.r2c0 as int, m.r2c1 as int, m.r2c3 as int);
        lemma_scaled_det3(m.r2c3 as int, m.r0c0 as int, m.r0c1 as int, m.r0c2 as int, m.r1c0 as int, m.r1c1 as int, m.r1c2 as int, m.r2c0 as int, m.r2c1 as int, m.r2c2 as int);
    } else if i == 3 && j == 0 {
        lemma_scaled_det3(m.r3c0 as int, m.r1c1 as int, m.r1c2 as int, m.r1c3 as int, m.r2c1 as int, m.r2c2 as int, m.r2c3 as int, m.r3c1 as int, m.r3c2 as int, m.r3c3 as int);
        lemma_scaled_det3(m.r3c1 as int, m.r1c0 as int, m.r1c2 as int, m.r1c3 as int, m.r2c0 as int, m.r2c2 as int, m.r2c3 as int, m.r3c0 as int, m.r3c2 as int, m.r3c3 as int);
        lemma_scaled_det3(m.r3c2 as int, m.r1c0 as int, m.r1c1 as int, m.r1c3 as int, m.r2c0 as int, m.r2c1 as int, m.r2c3 as int, m.r3c0 as int, m.r3c1 as int, m.r3c3 as int);
        lemma_scaled_det3(m.r3c3 as int, m.r1c0 as int, m.r1c1 as int, m.r1c2 as int, m.r2c0 as int, m.r2c1 as int, m.r2c2 as int, m.r3c0 as int, m.r3c1 as int, m.r3c2 as int);
    } else if i == 3 && j == 1 {
        lemma_scaled_det3(m.r3c0 as int, m.r0c1 as int, m.r0c2 as int, m.r0c3 as int, m.r2c1 as int, m.r2c2 as int, m.r2c3 as int, m.r3c1 as int, m.r3c2 as int, m.r3c3 as int);
        lemma_scaled_det3(m.r3c1 as int, m.r0c0 as int, m.r0c2 as int, m.r0c3 as int, m.r2c0 as int, m.r2c2 as int, m.r2c3 as int, m.r3c0 as int, m.r3c2 as int, m.r3c3 as int);
        lemma_scaled_det3(m.r3c2 as int, m.r0c0 as int, m.r0c1 as int, m.r0c3 as int, m.r2c0 as int, m.r2c1 as int, m.r2c3 as int, m.r3c0 as int, m.r3c1 as int, m.r3c3 as int);
        lemma_scaled_det3(m.r3c3 as int, m.r0c0 as int, m.r0c1 as int, m.r0c2 as int, m.r2c0 as int, m.r2c1 as int, m.r2c2 as int, m.r3c0 as int, m.r3c1 as int, m.r3c2 as int);
    } else if i == 3 && j == 2 {
        lemma_scaled_det3(m.r3c0 as int, m.r0c1 as int, m.r0c2 as int, m.r0c3 as int, m.r1c1 as int, m.r1c2 as int, m.r1c3 as int, m.r3c1 as int, m.r3c2 as int, m.r3c3 as int);
        lemma_scaled_det3(m.r3c1 as int, m.r0c0 as int, m.r0c2 as int, m.r0c3 as int, m.r1c0 as int, m.r1c2 as int, m.r1c3 as int, m.r3c0 as int, m.r3c2 as int, m.r3c3 as int);
        lemma_scaled_det3(m.r3c2 as int, m.r0c0 as int, m.r0c1 as int, m.r0c3 as int, m.r1c0 as int, m.r1c1 as int, m.r1c3 as int, m.r3c0 as int, m.r3c1 as int, m.r3c3 as int);
        lemma_scaled_det3(m.r3c3 as int, m.r0c0 as int, m.r0c1 as int, m.r0c2 as int, m.r1c0 as int, m.r1c1 as int, m.r1c2 as int, m.r3c0 as int, m.r3c1 as int, m.r3c2 as int);
    } else if i == 3 && j == 3 {
        lemma_scaled_det3(m.r3c0 as int, m.r0c1 as int, m.r0c2 as int, m.r0c3 as int, m.r1c1 as int, m.r1c2 as int, m.r1c3 as int, m.r2c1 as int, m.r2c2 as int, m.r2c3 as int);
        lemma_scaled_det3(m.r3c1 as int, m.r0c0 as int, m.r0c2 as int, m.r0c3 as int, m.r1c0 as int, m.r1c2 as int, m.r1c3 as int, m.r2c0 as int, m.r2c2 as int, m.r2c3 as int);
        lemma_scaled_det3(m.r3c2 as int, m.r0c0 as int, m.r0c1 as int, m.r0c3 as int, m.r1c0 as int, m.r1c1 as int, m.r1c3 as int, m.r2c0 as int, m.r2c1 as int, m.r2c3 as int);
        lemma_scaled_det3(m.r3c3 as int, m.r0c0 as int, m.r0c1 as int, m.r0c2 as int, m.r1c0 as int, m.r1c1 as int, m.r1c2 as int, m.r2c0 as int, m.r2c1 as int, m.r2c2 as int);
        lemma_scaled_det3(m.r0c0 as int, m.r1c1 as int, m.r1c2 as int, m.r1c3 as int, m.r2c1 as int, m.r2c2 as int, m.r2c3 as int, m.r3c1 as int, m.r3c2 as int, m.r3c3 as int);
        lemma_scaled_det3(m.r0c1 as int, m.r1c0 as int, m.r1c2 as int, m.r1c3 as int, m.r2c0 as int, m.r2c2 as int, m.r2c3 as int, m.r3c0 as int, m.r3c2 as int, m.r3c3 as int);
        lemma_scaled_det3(m.r0c2 as int, m.r1c0 as int, m.r1c1 as int, m.r1c3 as int, m.r2c0 as int, m.r2c1 as int, m.r2c3 as int, m.r3c0 as int, m.r3c1 as int, m.r3c3 as int);
        lemma_scaled_det3(m.r0c3 as int, m.r1c0 as int, m.r1c1 as int, m.r1c2 as int, m.r2c0 as int, m.r2c1 as int, m.r2c2 as int, m.r3c0 as int, m.r3c1 as int, m.r3c2 as int);
    }
}

/// `m` has a nonzero determinant that divides every entry of its adjugate,
/// so that its inverse has integer entries.
pub open spec fn has_integer_inverse(m: Mat4) -> bool {
    &&& determinant(m) != 0
    &&& forall|i: int, j: int| is_index(i) && is_index(j) ==> divides(determinant(m), #[trigger] adjugate(m, i, j))
}

/// `inv` is the adjugate of `m` divided by the determinant of `m`.
pub open spec fn is_inverse_of(inv: Mat4, m: Mat4) -> bool {
    forall|i: int, j: int| is_index(i) && is_index(j) ==> #[trigger] inv.entry(i, j) * determinant(m) == adjugate(m, i, j)
}

/// The determinant of a matrix within the quartic bound stays well inside
/// the range of `i64`.
proof fn lemma_det_within(m: Mat4)
    requires
        m.bounded(QUARTIC_LIMIT as int),
    ensures
        within(determinant(m), 24 * (QUARTIC_LIMIT * QUARTIC_LIMIT * QUARTIC_LIMIT * QUARTIC_LIMIT)),
{
    let q = QUARTIC_LIMIT as int;
    let c = 6 * (q * q * q);
    lemma_det3_within(m.r1c1 as int, m.r1c2 as int, m.r1c3 as int, m.r2c1 as int, m.r2c2 as int, m.r2c3 as int, m.r3c1 as int, m.r3c2 as int, m.r3c3 as int, q);
    lemma_det3_within(m.r1c0 as int, m.r1c2 as int, m.r1c3 as int, m.r2c0 as int, m.r2c2 as int, m.r2c3 as int, m.r3c0 as int, m.r3c2 as int, m.r3c3 as int, q);
    lemma_det3_within(m.r1c0 as int, m.r1c1 as int, m.r1c3 as int, m.r2c0 as int, m.r2c1 as int, m.r2c3 as int, m.r3c0 as int, m.r3c1 as int, m.r3c3 as int, q);
    lemma_det3_within(m.r1c0 as int, m.r1c1 as int, m.r1c2 as int, m.r2c0 as int, m.r2c1 as int, m.r2c2 as int, m.r3c0 as int, m.r3c1 as int, m.r3c2 as int, q);
    lemma_mul_within(m.r0c0 as int, cofactor(m, 0, 0), q, c);
    lemma_mul_within(m.r0c1 as int, cofactor(m, 0, 1), q, c);
    lemma_mul_within(m.r0c2 as int, cofactor(m, 0, 2), q, c);
    lemma_mul_within(m.r0c3 as int, cofactor(m, 0, 3), q, c);
}

/// Entry `(i, j)` of the rotation matrix of the quaternion
/// `q = (x, y, z, real)`, for vectors multiplied on the left; row and column
/// 3 are those of the identity. For a unit quaternion it is an orthonormal
/// rotation.
pub open spec fn quat_matrix(q: (int, int, int, int), i: int, j: int) -> int {
    let (x, y, z, w) = q;
    if i == 0 && j == 0 {
        1 - 2 * (y * y + z * z)
    } else if i == 0 && j == 1 {
        2 * (x * y + z * w)
    } else if i == 0 && j == 2 {
        2 * (x * z - y * w)
    } else if i == 1 && j == 0 {
        2 * (x * y - z * w)
    } else if i == 1 && j == 1 {
        1 - 2 * (x * x + z * z)
    } else if i == 1 && j == 2 {
        2 * (y * z + x * w)
    } else if i == 2 && j == 0 {
        2 * (x * z + y * w)
    } else if i == 2 && j == 1 {
        2 * (y * z - x * w)
    } else if i == 2 && j == 2 {
        1 - 2 * (x * x + y * y)
    } else if i == j {
        1
    } else {
        0
    }
}

/// `m` is the rotation matrix of `q`.
pub open spec fn is_matrix_of_quat(m: Mat4, q: (int, int, int, int)) -> bool {
    forall|i: int, j: int| is_index(i) && is_index(j) ==> #[trigger] m.entry(i, j) == quat_matrix(q, i, j)
}

impl Mat4 {
    /// The entry at row `i`, column `j`.
    pub open spec fn entry(self, i: int, j: int) -> int {
        if i == 0 {
            if j == 0 {
                self.r0c0 as int
            } else if j == 1 {
                self.r0c1 as int
            } else if j == 2 {
                self.r0c2 as int
            } else {
                self.r0c3 as int
            }
        } else if i == 1 {
            if j == 0 {
                self.r1c0 as int
            } else if j == 1 {
                self.r1c1 as int
            } else if j == 2 {
                self.r1c2 as int
            } else {
                self.r1c3 as int
            }
        } else if i == 2 {
            if j == 0 {
                self.r2c0 as int
            } else if j == 1 {
                self.r2c1 as int
            } else if j == 2 {
                self.r2c2 as int
            } else {
                self.r2c3 as int
            }
        } else {
            if j == 0 {
                self.r3c0 as int
            } else if j == 1 {
                self.r3c1 as int
            } else if j == 2 {
                self.r3c2 as int
            } else {
                self.r3c3 as int
            }
        }
    }

    /// Every entry lies in `[-b, b]`.
    pub open spec fn bounded(self, b: int) -> bool {
        &&& within(self.r0c0 as int, b)
        &&& within(self.r0c1 as int, b)
        &&& within(self.r0c2 as int, b)
        &&& within(self.r0c3 as int, b)
        &&& within(self.r1c0 as int, b)
        &&& within(self.r1c1 as int, b)
        &&& within(self.r1c2 as int, b)
        &&& within(self.r1c3 as int, b)
        &&& within(self.r2c0 as int, b)
        &&& within(self.r2c1 as int, b)
        &&& within(self.r2c2 as int, b)
        &&& within(self.r2c3 as int, b)
        &&& within(self.r3c0 as int, b)
        &&& within(self.r3c1 as int, b)
        &&& within(self.r3c2 as int, b)
        &&& within(self.r3c3 as int, b)
    }

    /// Rows and columns exchanged.
    pub open spec fn transposed(self) -> Mat4 {
        Mat4 {
            r0c0: self.r0c0,
            r0c1: self.r1c0,
            r0c2: self.r2c0,
            r0c3: self.r3c0,
            r1c0: self.r0c1,
            r1c1: self.r1c1,
            r1c2: self.r2c1,
            r1c3: self.r3c1,
            r2c0: self.r0c2,
            r2c1: self.r1c2,
            r2c2: self.r2c2,
            r2c3: self.r3c2,
            r3c0: self.r0c3,
            r3c1: self.r1c3,
            r3c2: self.r2c3,
            r3c3: self.r3c3,
        }
    }

    /// Every entry is zero.
    pub open spec fn is_zero(self) -> bool {
        forall|i: int, j: int| is_index(i) && is_index(j) ==> #[trigger] self.entry(i, j) == 0
    }

    /// Ones on the diagonal, zeros elsewhere.
    pub open spec fn is_identity(self) -> bool {
        forall|i: int, j: int|
            is_index(i) && is_index(j) ==> #[trigger] self.entry(i, j) == if i == j {
                1int
            } else {
                0int
            }
    }

    /// The rotation matrix of `q` (see [`quat_matrix`]). `q` is expected to
    /// have unit length; any other quaternion gives a scaled, skewed matrix.
    pub fn from_quat(q: &Quat) -> (r: Self)
        requires
            q.bounded(QUADRATIC_LIMIT as int),
        ensures
            is_matrix_of_quat(r, q@),
    {
        let ghost b = QUADRATIC_LIMIT as int;
        proof {
            lemma_mul_within(q.x as int, q.x as int, b, b);
            lemma_mul_within(q.x as int, q.y as int, b, b);
            lemma_mul_within(q.x as int, q.z as int, b, b);
            lemma_mul_within(q.x as int, q.real as int, b, b);
            lemma_mul_within(q.y as int, q.y as int, b, b);
            lemma_mul_within(q.y as int, q.z as int, b, b);
            lemma_mul_within(q.y as int, q.real as int, b, b);
            lemma_mul_within(q.z as int, q.z as int, b, b);
            lemma_mul_within(q.z as int, q.real as int, b, b);
        }
        let x_x = q.x * q.x;
        let x_y = q.x * q.y;
        let x_z = q.x * q.z;
        let x_w = q.x * q.real;
        let y_y = q.y * q.y;
        let y_z = q.y * q.z;
        let y_w = q.y * q.real;
        let z_z = q.z * q.z;
        let z_w = q.z * q.real;
        Mat4 {
            r0c0: 1 - 2 * (y_y + z_z),
            r0c1: 2 * (x_y + z_w),
            r0c2: 2 * (x_z - y_w),
            r0c3: 0,
            r1c0: 2 * (x_y - z_w),
            r1c1: 1 - 2 * (x_x + z_z),
            r1c2: 2 * (y_z + x_w),
            r1c3: 0,
            r2c0: 2 * (x_z + y_w),
            r2c1: 2 * (y_z - x_w),
            r2c2: 1 - 2 * (x_x + y_y),
            r2c3: 0,
            r3c0: 0,
            r3c1: 0,
            r3c2: 0,
            r3c3: 1,
        }
    }

    /// The zero matrix.
    pub fn zero() -> (r: Self)
        ensures
            r.is_zero(),
    {
        Mat4 {
            r0c0: 0,
            r0c1: 0,
            r0c2: 0,
            r0c3: 0,
            r1c0: 0,
            r1c1: 0,
            r1c2: 0,
            r1c3: 0,
            r2c0: 0,
            r2c1: 0,
            r2c2: 0,
            r2c3: 0,
            r3c0: 0,
            r3c1: 0,
            r3c2: 0,
            r3c3: 0,
        }
    }

    /// The identity matrix.
    pub fn identity() -> (r: Self)
        ensures
            r.is_identity(),
    {
        Mat4 {
            r0c0: 1,
            r0c1: 0,
            r0c2: 0,
            r0c3: 0,
            r1c0: 0,
            r1c1: 1,
            r1c2: 0,
            r1c3: 0,
            r2c0: 0,
            r2c1: 0,
            r2c2: 1,
            r2c3: 0,
            r3c0: 0,
            r3c1: 0,
            r3c2: 0,
            r3c3: 1,
        }
    }

    /// The determinant, by cofactor expansion along the first row.
    pub fn get_det(&self) -> (r: i64)
        requires
            self.bounded(QUARTIC_LIMIT as int),
        ensures
            r == determinant(*self),
    {
        let ghost q = QUARTIC_LIMIT as int;
        let m0 = minor3(self.r1c1, self.r1c2, self.r1c3, self.r2c1, self.r2c2, self.r2c3, self.r3c1, self.r3c2, self.r3c3);
        let m1 = minor3(self.r1c0, self.r1c2, self.r1c3, self.r2c0, self.r2c2, self.r2c3, self.r3c0, self.r3c2, self.r3c3);
        let m2 = minor3(self.r1c0, self.r1c1, self.r1c3, self.r2c0, self.r2c1, self.r2c3, self.r3c0, self.r3c1, self.r3c3);
        let m3 = minor3(self.r1c0, self.r1c1, self.r1c2, self.r2c0, self.r2c1, self.r2c2, self.r3c0, self.r3c1, self.r3c2);
        proof {
            lemma_det3_within(self.r1c1 as int, self.r1c2 as int, self.r1c3 as int, self.r2c1 as int, self.r2c2 as int, self.r2c3 as int, self.r3c1 as int, self.r3c2 as int, self.r3c3 as int, q);
            lemma_det3_within(self.r1c0 as int, self.r1c2 as int, self.r1c3 as int, self.r2c0 as int, self.r2c2 as int, self.r2c3 as int, self.r3c0 as int, self.r3c2 as int, self.r3c3 as int, q);
            lemma_det3_within(self.r1c0 as int, self.r1c1 as int, self.r1c3 as int, self.r2c0 as int, self.r2c1 as int, self.r2c3 as int, self.r3c0 as int, self.r3c1 as int, self.r3c3 as int, q);
            lemma_det3_within(self.r1c0 as int, self.r1c1 as int, self.r1c2 as int, self.r2c0 as int, self.r2c1 as int, self.r2c2 as int, self.r3c0 as int, self.r3c1 as int, self.r3c2 as int, q);
            let c = 6 * (q * q * q);
            lemma_mul_within(self.r0c0 as int, m0 as int, q, c);
            lemma_mul_within(self.r0c1 as int, m1 as int, q, c);
            lemma_mul_within(self.r0c2 as int, m2 as int, q, c);
            lemma_mul_within(self.r0c3 as int, m3 as int, q, c);
            assert(cofactor(*self, 0, 0) == m0);
            assert(cofactor(*self, 0, 1) == -m1);
            assert(cofactor(*self, 0, 2) == m2);
            assert(cofactor(*self, 0, 3) == -m3);
            let (a, b) = (self.r0c1 as int, self.r0c3 as int);
            assert(a * cofactor(*self, 0, 1) == -(a * m1)) by (nonlinear_arith)
                requires
                    cofactor(*self, 0, 1) == -m1,
            ;
            assert(b * cofactor(*self, 0, 3) == -(b * m3)) by (nonlinear_arith)
                requires
                    cofactor(*self, 0, 3) == -m3,
            ;
        }
        self.r0c0 * m0 - self.r0c1 * m1 + self.r0c2 * m2 - self.r0c3 * m3
    }

    /// Transposes the matrix in place: swaps each of the six off-diagonal
    /// pairs.
    pub fn t(&mut self)
        ensures
            *final(self) == old(self).transposed(),
    {
        let tmp = self.r0c1;
        self.r0c1 = self.r1c0;
        self.r1c0 = tmp;

        let tmp = self.r0c2;
        self.r0c2 = self.r2c0;
        self.r2c0 = tmp;

        let tmp = self.r0c3;
        self.r0c3 = self.r3c0;
        self.r3c0 = tmp;

        let tmp = self.r1c2;
        self.r1c2 = self.r2c1;
        self.r2c1 = tmp;

        let tmp = self.r1c3;
        self.r1c3 = self.r3c1;
        self.r3c1 = tmp;

        let tmp = self.r2c3;
        self.r2c3 = self.r3c2;
        self.r3c2 = tmp;
    }

    /// A transposed copy; the receiver is left as it is.
    pub fn get_t(&self) -> (r: Self)
        ensures
            r == self.transposed(),
    {
        Mat4 {
            r0c0: self.r0c0,
            r0c1: self.r1c0,
            r0c2: self.r2c0,
            r0c3: self.r3c0,
            r1c0: self.r0c1,
            r1c1: self.r1c1,
            r1c2: self.r2c1,
            r1c3: self.r3c1,
            r2c0: self.r0c2,
            r2c1: self.r1c2,
            r2c2: self.r2c2,
            r2c3: self.r3c2,
            r3c0: self.r0c3,
            r3c1: self.r1c3,
            r3c2: self.r2c3,
            r3c3: self.r3c3,
        }
    }

    /// The adjugate: entry `(i, j)` is the cofactor of entry `(j, i)`.
    pub fn get_adj(&self) -> (r: Self)
        requires
            self.bounded(CUBIC_LIMIT as int),
        ensures
            forall|i: int, j: int| is_index(i) && is_index(j) ==> #[trigger] r.entry(i, j) == adjugate(*self, i, j),
            r.bounded(6 * (CUBIC_LIMIT * CUBIC_LIMIT * CUBIC_LIMIT)),
    {
        let a00 = minor3(self.r1c1, self.r1c2, self.r1c3, self.r2c1, self.r2c2, self.r2c3, self.r3c1, self.r3c2, self.r3c3);
        let a01 = -minor3(self.r0c1, self.r0c2, self.r0c3, self.r2c1, self.r2c2, self.r2c3, self.r3c1, self.r3c2, self.r3c3);
        let a02 = minor3(self.r0c1, self.r0c2, self.r0c3, self.r1c1, self.r1c2, self.r1c3, self.r3c1, self.r3c2, self.r3c3);
        let a03 = -minor3(self.r0c1, self.r0c2, self.r0c3, self.r1c1, self.r1c2, self.r1c3, self.r2c1, self.r2c2, self.r2c3);
        let a10 = -minor3(self.r1c0, self.r1c2, self.r1c3, self.r2c0, self.r2c2, self.r2c3, self.r3c0, self.r3c2, self.r3c3);
        let a11 = minor3(self.r0c0, self.r0c2, self.r0c3, self.r2c0, self.r2c2, self.r2c3, self.r3c0, self.r3c2, self.r3c3);
        let a12 = -minor3(self.r0c0, self.r0c2, self.r0c3, self.r1c0, self.r1c2, self.r1c3, self.r3c0, self.r3c2, self.r3c3);
        let a13 = minor3(self.r0c0, self.r0c2, self.r0c3, self.r1c0, self.r1c2, self.r1c3, self.r2c0, self.r2c2, self.r2c3);
        let a20 = minor3(self.r1c0, self.r1c1, self.r1c3, self.r2c0, self.r2c1, self.r2c3, self.r3c0, self.r3c1, self.r3c3);
        let a21 = -minor3(self.r0c0, self.r0c1, self.r0c3, self.r2c0, self.r2c1, self.r2c3, self.r3c0, self.r3c1, self.r3c3);
        let a22 = minor3(self.r0c0, self.r0c1, self.r0c3, self.r1c0, self.r1c1, self.r1c3, self.r3c0, self.r3c1, self.r3c3);
        let a23 = -minor3(self.r0c0, self.r0c1, self.r0c3, self.r1c0, self.r1c1, self.r1c3, self.r2c0, self.r2c1, self.r2c3);
        let a30 = -minor3(self.r1c0, self.r1c1, self.r1c2, self.r2c0, self.r2c1, self.r2c2, self.r3c0, self.r3c1, self.r3c2);
        let a31 = minor3(self.r0c0, self.r0c1, self.r0c2, self.r2c0, self.r2c1, self.r2c2, self.r3c0, self.r3c1, self.r3c2);
        let a32 = -minor3(self.r0c0, self.r0c1, self.r0c2, self.r1c0, self.r1c1, self.r1c2, self.r3c0, self.r3c1, self.r3c2);
        let a33 = minor3(self.r0c0, self.r0c1, self.r0c2, self.r1c0, self.r1c1, self.r1c2, self.r2c0, self.r2c1, self.r2c2);
        let r = Mat4 {
            r0c0: a00,
            r0c1: a01,
            r0c2: a02,
            r0c3: a03,
            r1c0: a10,
            r1c1: a11,
            r1c2: a12,
            r1c3: a13,
            r2c0: a20,
            r2c1: a21,
            r2c2: a22,
            r2c3: a23,
            r3c0: a30,
            r3c1: a31,
            r3c2: a32,
            r3c3: a33,
        };
        proof {
            assert(r.entry(0, 0) == adjugate(*self, 0, 0));
            assert(r.entry(0, 1) == adjugate(*self, 0, 1));
            assert(r.entry(0, 2) == adjugate(*self, 0, 2));
            assert(r.entry(0, 3) == adjugate(*self, 0, 3));
            assert(r.entry(1, 0) == adjugate(*self, 1, 0));
            assert(r.entry(1, 1) == adjugate(*self, 1, 1));
            assert(r.entry(1, 2) == adjugate(*self, 1, 2));
            assert(r.entry(1, 3) == adjugate(*self, 1, 3));
            assert(r.entry(2, 0) == adjugate(*self, 2, 0));
            assert(r.entry(2, 1) == adjugate(*self, 2, 1));
            assert(r.entry(2, 2) == adjugate(*self, 2, 2));
            assert(r.entry(2, 3) == adjugate(*self, 2, 3));
            assert(r.entry(3, 0) == adjugate(*self, 3, 0));
            assert(r.entry(3, 1) == adjugate(*self, 3, 1));
            assert(r.entry(3, 2) == adjugate(*self, 3, 2));
            assert(r.entry(3, 3) == adjugate(*self, 3, 3));
        }
        r
    }

    /// The exact inverse `adjugate / determinant`, when every entry of it is
    /// an integer; `None` otherwise (in particular for a singular matrix).
    pub fn get_inv(&self) -> (r: Option<Self>)
        requires
            self.bounded(QUARTIC_LIMIT as int),
        ensures
            r.is_some() == has_integer_inverse(*self),
            r matches Some(inv) ==> is_inverse_of(inv, *self),
    {
        let det = self.get_det();
        if det == 0 {
            return None;
        }
        proof {
            lemma_det_within(*self);
        }
        let adj = self.get_adj();
        let q00 = match exact_quotient(adj.r0c0, det) {
            Some(q) => q,
            None => {
                proof {
                    assert(adj.entry(0, 0) == adjugate(*self, 0, 0));
                }
                return None;
            },
        };
        let q01 = match exact_quotient(adj.r0c1, det) {
            Some(q) => q,
            None => {
                proof {
                    assert(adj.entry(0, 1) == adjugate(*self, 0, 1));
                }
                return None;
            },
        };
        let q02 = match exact_quotient(adj.r0c2, det) {
            Some(q) => q,
            None => {
                proof {
                    assert(adj.entry(0, 2) == adjugate(*self, 0, 2));
                }
                return None;
            },
        };
        let q03 = match exact_quotient(adj.r0c3, det) {
            Some(q) => q,
            None => {
                proof {
                    assert(adj.entry(0, 3) == adjugate(*self, 0, 3));
                }
                return None;
            },
        };
        let q10 = match exact_quotient(adj.r1c0, det) {
            Some(q) => q,
            None => {
                proof {
                    assert(adj.entry(1, 0) == adjugate(*self, 1, 0));
                }
                return None;
            },
        };
        let q11 = match exact_quotient(adj.r1c1, det) {
            Some(q) => q,
            None => {
                proof {
                    assert(adj.entry(1, 1) == adjugate(*self, 1, 1));
                }
                return None;
            },
        };
        let q12 = match exact_quotient(adj.r1c2, det) {
            Some(q) => q,
            None => {
                proof {
                    assert(adj.entry(1, 2) == adjugate(*self, 1, 2));
                }
                return None;
            },
        };
        let q13 = match exact_quotient(adj.r1c3, det) {
            Some(q) => q,
            None => {
                proof {
                    assert(adj.entry(1, 3) == adjugate(*self, 1, 3));
                }
                return None;
            },
        };
        let q20 = match exact_quotient(adj.r2c0, det) {
            Some(q) => q,
            None => {
                proof {
                    assert(adj.entry(2, 0) == adjugate(*self, 2, 0));
                }
                return None;
            },
        };
        let q21 = match exact_quotient(adj.r2c1, det) {
            Some(q) => q,
            None => {
                proof {
                    assert(adj.entry(2, 1) == adjugate(*self, 2, 1));
                }
                return None;
            },
        };
        let q22 = match exact_quotient(adj.r2c2, det) {
            Some(q) => q,
            None => {
                proof {
                    assert(adj.entry(2, 2) == adjugate(*self, 2, 2));
                }
                return None;
            },
        };
        let q23 = match exact_quotient(adj.r2c3, det) {
            Some(q) => q,
            None => {
                proof {
                    assert(adj.entry(2, 3) == adjugate(*self, 2, 3));
                }
                return None;
            },
        };
        let q30 = match exact_quotient(adj.r3c0, det) {
            Some(q) => q,
            None => {
                proof {
                    assert(adj.entry(3, 0) == adjugate(*self, 3, 0));
                }
                return None;
            },
        };
        let q31 = match exact_quotient(adj.r3c1, det) {
            Some(q) => q,
            None => {
                proof {
                    assert(adj.entry(3, 1) == adjugate(*self, 3, 1));
                }
                return None;
            },
        };
        let q32 = match exact_quotient(adj.r3c2, det) {
            Some(q) => q,
            None => {
                proof {
                    assert(adj.entry(3, 2) == adjugate(*self, 3, 2));
                }
                return None;
            },
        };
        let q33 = match exact_quotient(adj.r3c3, det) {
            Some(q) => q,
            None => {
                proof {
                    assert(adj.entry(3, 3) == adjugate(*self, 3, 3));
                }
                return None;
            },
        };
        let inv = Mat4 {
            r0c0: q00,
            r0c1: q01,
            r0c2: q02,
            r0c3: q03,
            r1c0: q10,
            r1c1: q11,
            r1c2: q12,
            r1c3: q13,
            r2c0: q20,
            r2c1: q21,
            r2c2: q22,
            r2c3: q23,
            r3c0: q30,
            r3c1: q31,
            r3c2: q32,
            r3c3: q33,
        };
        proof {
            assert forall|i: int, j: int| is_index(i) && is_index(j) implies divides(determinant(*self), #[trigger] adjugate(*self, i, j)) && inv.entry(i, j) * determinant(*self) == adjugate(*self, i, j) by {
                assert(adj.entry(i, j) == adjugate(*self, i, j));
            }
        }
        Some(inv)
    }

    /// Replaces the matrix by its exact inverse and returns `true` when
    /// [`Mat4::get_inv`] finds one; otherwise leaves it as it is and returns
    /// `false`.
    pub fn inv(&mut self) -> (r: bool)
        requires
            old(self).bounded(QUARTIC_LIMIT as int),
        ensures
            r == has_integer_inverse(*old(self)),
            r ==> is_inverse_of(*final(self), *old(self)),
            !r ==> *final(self) == *old(self),
    {
        match self.get_inv() {
            Some(m) => {
                *self = m;
                true
            },
            None => false,
        }
    }

    /// Every entry multiplied by `s`.
    pub fn scale(&self, s: i64) -> (r: Self)
        requires
            forall|i: int, j: int| is_index(i) && is_index(j) ==> within(s * #[trigger] self.entry(i, j), i64::MAX as int),
        ensures
            forall|i: int, j: int| is_index(i) && is_index(j) ==> #[trigger] r.entry(i, j) == s * self.entry(i, j),
    {
        proof {
            assert(within(s * self.entry(0, 0), i64::MAX as int));
            assert(within(s * self.entry(0, 1), i64::MAX as int));
            assert(within(s * self.entry(0, 2), i64::MAX as int));
            assert(within(s * self.entry(0, 3), i64::MAX as int));
            assert(within(s * self.entry(1, 0), i64::MAX as int));
            assert(within(s * self.entry(1, 1), i64::MAX as int));
            assert(within(s * self.entry(1, 2), i64::MAX as int));
            assert(within(s * self.entry(1, 3), i64::MAX as int));
            assert(within(s * self.entry(2, 0), i64::MAX as int));
            assert(within(s * self.entry(2, 1), i64::MAX as int));
            assert(within(s * self.entry(2, 2), i64::MAX as int));
            assert(within(s * self.entry(2, 3), i64::MAX as int));
            assert(within(s * self.entry(3, 0), i64::MAX as int));
            assert(within(s * self.entry(3, 1), i64::MAX as int));
            assert(within(s * self.entry(3, 2), i64::MAX as int));
            assert(within(s * self.entry(3, 3), i64::MAX as int));
        }
        Mat4 {
            r0c0: s * self.r0c0,
            r0c1: s * self.r0c1,
            r0c2: s * self.r0c2,
            r0c3: s * self.r0c3,
            r1c0: s * self.r1c0,
            r1c1: s * self.r1c1,
            r1c2: s * self.r1c2,
            r1c3: s * self.r1c3,
            r2c0: s * self.r2c0,
            r2c1: s * self.r2c1,
            r2c2: s * self.r2c2,
            r2c3: s * self.r2c3,
            r3c0: s * self.r3c0,
            r3c1: s * self.r3c1,
            r3c2: s * self.r3c2,
            r3c3: s * self.r3c3,
        }
    }
}

/// Transposing twice gives back the matrix, entry for entry.
pub proof fn lemma_transpose_involution(m: Mat4)
    ensures
        m.transposed().transposed() == m,
        forall|i: int, j: int| is_index(i) && is_index(j) ==> #[trigger] m.transposed().entry(i, j) == m.entry(j, i),
{
}

/// A matrix times its adjugate is its determinant times the identity.
pub proof fn lemma_adjugate_product(m: Mat4)
    ensures
        forall|i: int, j: int|
            is_index(i) && is_index(j) ==> #[trigger] adjugate_product(m, i, j) == if i == j {
                determinant(m)
            } else {
                0
            },
{
    assert forall|i: int, j: int| is_index(i) && is_index(j) implies #[trigger] adjugate_product(m, i, j) == if i == j {
        determinant(m)
    } else {
        0
    } by {
        lemma_adjugate_entry(m, i, j);
    }
}

/// Scaling a sum of four products by `d` scales each second factor.
proof fn lemma_sum_scaled(x: (int, int, int, int), y: (int, int, int, int), d: int)
    ensures
        (x.0 * y.0 + x.1 * y.1 + x.2 * y.2 + x.3 * y.3) * d == x.0 * (y.0 * d) + x.1 * (y.1 * d) + x.2 * (
        y.2 * d) + x.3 * (y.3 * d),
{
    let (x0, x1, x2, x3) = x;
    let (y0, y1, y2, y3) = y;
    broadcast use vstd::arithmetic::mul::lemma_mul_is_distributive_add_other_way, vstd::arithmetic::mul::lemma_mul_is_associative;

    assert((x0 * y0 + x1 * y1 + x2 * y2 + x3 * y3) * d == x0 * y0 * d + x1 * y1 * d + x2 * y2 * d + x3 * y3
        * d);
}

/// A matrix times its inverse is exactly the identity.
pub proof fn lemma_inverse_product(m: Mat4, inv: Mat4)
    requires
        determinant(m) != 0,
        is_inverse_of(inv, m),
    ensures
        forall|i: int, j: int|
            is_index(i) && is_index(j) ==> #[trigger] product(m, inv, i, j) == if i == j {
                1int
            } else {
                0int
            },
{
    let d = determinant(m);
    assert forall|i: int, j: int| is_index(i) && is_index(j) implies #[trigger] product(m, inv, i, j) == if i == j {
        1int
    } else {
        0int
    } by {
        lemma_adjugate_entry(m, i, j);
        lemma_sum_scaled(
            (m.entry(i, 0), m.entry(i, 1), m.entry(i, 2), m.entry(i, 3)),
            (inv.entry(0, j), inv.entry(1, j), inv.entry(2, j), inv.entry(3, j)),
            d,
        );
        assert(inv.entry(0, j) * d == adjugate(m, 0, j));
        assert(inv.entry(1, j) * d == adjugate(m, 1, j));
        assert(inv.entry(2, j) * d == adjugate(m, 2, j));
        assert(inv.entry(3, j) * d == adjugate(m, 3, j));
        let p = product(m, inv, i, j);
        assert(p * d == adjugate_product(m, i, j));
        let e: int = if i == j {
            1
        } else {
            0
        };
        assert(p == e) by (nonlinear_arith)
            requires
                p * d == e * d,
                d != 0,
        ;
    }
}

/// The identity matrix has determinant one.
pub proof fn lemma_identity_determinant(m: Mat4)
    requires
        m.is_identity(),
    ensures
        determinant(m) == 1,
{
    assert(m.entry(0, 0) == 1 && m.entry(0, 1) == 0 && m.entry(0, 2) == 0 && m.entry(0, 3) == 0);
    assert(m.entry(1, 0) == 0 && m.entry(1, 1) == 1 && m.entry(1, 2) == 0 && m.entry(1, 3) == 0);
    assert(m.entry(2, 0) == 0 && m.entry(2, 1) == 0 && m.entry(2, 2) == 1 && m.entry(2, 3) == 0);
    assert(m.entry(3, 0) == 0 && m.entry(3, 1) == 0 && m.entry(3, 2) == 0 && m.entry(3, 3) == 1);
}

/// The zero matrix has determinant zero.
pub proof fn lemma_zero_determinant(m: Mat4)
    requires
        m.is_zero(),
    ensures
        determinant(m) == 0,
{
    assert(m.entry(0, 0) == 0 && m.entry(0, 1) == 0 && m.entry(0, 2) == 0 && m.entry(0, 3) == 0);
    assert(m.entry(1, 0) == 0 && m.entry(1, 1) == 0 && m.entry(1, 2) == 0 && m.entry(1, 3) == 0);
    assert(m.entry(2, 0) == 0 && m.entry(2, 1) == 0 && m.entry(2, 2) == 0 && m.entry(2, 3) == 0);
    assert(m.entry(3, 0) == 0 && m.entry(3, 1) == 0 && m.entry(3, 2) == 0 && m.entry(3, 3) == 0);
}

} // verus!
