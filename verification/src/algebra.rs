//! Small facts of integer and real algebra that the geometric proofs use.

use vstd::prelude::*;

verus! {

/// Casting to the reals commutes with multiplication.
pub proof fn lemma_real_product(x: int, y: int)
    by (nonlinear_arith)
    ensures
        (x * y) as real == (x as real) * (y as real),
{
}

/// A quotient times its divisor gives back the dividend.
pub proof fn lemma_real_quotient(n: real, d: real)
    by (nonlinear_arith)
    requires
        d != 0real,
    ensures
        (n / d) * d == n,
{
}

/// The quadratic formula: with `q` a square root of the discriminant,
/// `t = (-b - q) / (2a)` solves `a*t^2 + b*t + c = 0`.
pub proof fn lemma_quadratic_root(a: real, b: real, c: real, q: real, t: real)
    requires
        a != 0real,
        q * q == b * b - 4real * a * c,
        2real * a * t == -b - q,
    ensures
        a * t * t + b * t + c == 0real,
{
    let s = 2real * a * t + b;
    assert(s * s == q * q) by (nonlinear_arith)
        requires
            s == -q,
    ;
    assert(s * s == 4real * a * (a * t * t + b * t) + b * b) by (nonlinear_arith)
        requires
            s == 2real * a * t + b,
    ;
    let v = a * t * t + b * t + c;
    assert(4real * a * v == 0real) by (nonlinear_arith)
        requires
            v == a * t * t + b * t + c,
            4real * a * (a * t * t + b * t) + b * b == b * b - 4real * a * c,
    ;
    assert(v == 0real) by (nonlinear_arith)
        requires
            4real * a * v == 0real,
            a != 0real,
    ;
}

/// Of the solutions of `a*t^2 + b*t + c = 0` with `a > 0`, the one that the
/// quadratic formula gives with the minus sign is the smallest.
pub proof fn lemma_smallest_root(a: real, b: real, c: real, q: real, t: real, other: real)
    requires
        a > 0real,
        q >= 0real,
        q * q == b * b - 4real * a * c,
        2real * a * t == -b - q,
        a * other * other + b * other + c == 0real,
    ensures
        t <= other,
{
    let s = 2real * a * other + b;
    assert(s * s == 4real * a * (a * other * other + b * other) + b * b) by (nonlinear_arith)
        requires
            s == 2real * a * other + b,
    ;
    assert(s * s == q * q) by (nonlinear_arith)
        requires
            s * s == 4real * a * (a * other * other + b * other) + b * b,
            a * other * other + b * other + c == 0real,
            q * q == b * b - 4real * a * c,
    ;
    assert((s - q) * (s + q) == 0real) by (nonlinear_arith)
        requires
            s * s == q * q,
    ;
    assert(s == q || s == -q) by (nonlinear_arith)
        requires
            (s - q) * (s + q) == 0real,
    ;
    assert(2real * a * t <= 2real * a * other);
    assert(t <= other) by (nonlinear_arith)
        requires
            a > 0real,
            2real * a * t <= 2real * a * other,
    ;
}

/// A product is bounded by the product of the bounds of its factors.
pub proof fn lemma_product_bound(a: int, b: int, m: int, n: int)
    by (nonlinear_arith)
    requires
        -m <= a <= m,
        -n <= b <= n,
    ensures
        -(m * n) <= a * b <= m * n,
{
}

/// Squaring commutes with stretching: `(k*x)^2 == k^2 * x^2`.
pub proof fn lemma_square_of_multiple(k: int, x: int)
    by (nonlinear_arith)
    ensures
        (k * x) * (k * x) == (k * k) * (x * x),
{
}

/// A factor moves out of a product: `y * (k*x) == k * (y*x)`.
pub proof fn lemma_factor_out(k: int, x: int, y: int)
    by (nonlinear_arith)
    ensures
        y * (k * x) == k * (y * x),
{
}

/// Multiplication distributes over a sum of three.
pub proof fn lemma_distribute_three(m: int, p: int, q: int, r: int)
    by (nonlinear_arith)
    ensures
        m * (p + q + r) == m * p + m * q + m * r,
{
}

/// Multiplication is associative.
pub proof fn lemma_associate(x: int, y: int, z: int)
    by (nonlinear_arith)
    ensures
        (x * y) * z == x * (y * z),
{
}

/// Multiplying by a positive number keeps the sign.
pub proof fn lemma_positive_factor_keeps_sign(m: int, d: int)
    by (nonlinear_arith)
    requires
        m > 0,
    ensures
        (m * d >= 0) == (d >= 0),
{
}

/// Over the reals, squaring commutes with stretching.
pub proof fn lemma_real_square_of_multiple(k: real, x: real)
    by (nonlinear_arith)
    ensures
        (k * x) * (k * x) == (k * k) * (x * x),
{
}

/// Over the reals, a factor moves out of a product.
pub proof fn lemma_real_factor_out(k: real, x: real, y: real)
    by (nonlinear_arith)
    ensures
        y * (k * x) == k * (y * x),
{
}

/// Over the reals, multiplication distributes over a sum of three.
pub proof fn lemma_real_distribute_three(m: real, p: real, q: real, r: real)
    by (nonlinear_arith)
    ensures
        m * (p + q + r) == m * p + m * q + m * r,
{
}

/// Over the reals, multiplication is associative.
pub proof fn lemma_real_associate(x: real, y: real, z: real)
    by (nonlinear_arith)
    ensures
        (x * y) * z == x * (y * z),
{
}

/// Over the reals, multiplying by a positive number keeps the sign.
pub proof fn lemma_real_positive_factor_keeps_sign(m: real, d: real)
    by (nonlinear_arith)
    requires
        m > 0real,
    ensures
        (m * d >= 0real) == (d >= 0real),
{
}

/// The square of a real number that is not zero is positive.
pub proof fn lemma_real_square_positive(s: real)
    by (nonlinear_arith)
    requires
        s != 0real,
    ensures
        s * s > 0real,
{
}

/// Over the reals, multiplication is commutative.
pub proof fn lemma_real_commute(x: real, y: real)
    by (nonlinear_arith)
    ensures
        x * y == y * x,
{
}

/// Over the reals, the square of a sum.
pub proof fn lemma_real_square_of_sum(x: real, y: real)
    by (nonlinear_arith)
    ensures
        (x + y) * (x + y) == x * x + 2real * (x * y) + y * y,
{
}

/// The square of a real number is not negative.
pub proof fn lemma_real_square_nonnegative(s: real)
    by (nonlinear_arith)
    ensures
        s * s >= 0real,
{
}

/// A real number whose square is positive is not zero.
pub proof fn lemma_real_root_of_positive(s: real)
    by (nonlinear_arith)
    requires
        s * s > 0real,
    ensures
        s != 0real,
{
}

/// The product of two positive real numbers is positive.
pub proof fn lemma_real_product_positive(x: real, y: real)
    by (nonlinear_arith)
    requires
        x > 0real,
        y > 0real,
    ensures
        x * y > 0real,
{
}

} // verus!
