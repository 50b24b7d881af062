//! Integer and grid helpers: rounding division, clamping, and the transpose of a 4x4 matrix.

use vstd::prelude::*;
use vstd::std_specs::cmp::PartialOrdIs;
use vstd::std_specs::cmp::PartialOrdSpec;

verus! {

/// The quotient of `n` by `d` rounded toward zero, as machine division rounds it.
pub open spec fn quotient_toward_zero(n: int, d: int) -> int {
    if n >= 0 {
        n / d
    } else {
        -((-n) / d)
    }
}

/// What [`div_up`] computes: `a + (b - 1)` divided by `b`, rounded toward zero.
pub open spec fn div_up_spec(a: int, b: int) -> int {
    quotient_toward_zero(a + (b - 1), b)
}

/// A quotient rounded toward zero is never larger in magnitude than its numerator.
pub proof fn lemma_quotient_bounded(n: int, d: int)
    requires
        d != 0,
    ensures
        n >= 0 ==> -n <= quotient_toward_zero(n, d) <= n,
        n < 0 ==> n <= quotient_toward_zero(n, d) <= -n,
        n < 0 && d != -1 ==> quotient_toward_zero(n, d) < -n,
{
    let x = if n >= 0 { n } else { -n };
    let q = x / d;
    let r = x % d;
    assert(x == d * q + r && 0 <= r && (d > 0 ==> r < d) && (d < 0 ==> r < -d))
        by (nonlinear_arith)
        requires
            q == x / d,
            r == x % d,
            d != 0,
    ;
    assert(-x <= q <= x) by (nonlinear_arith)
        requires
            x == d * q + r,
            0 <= r,
            d > 0 ==> r < d,
            d < 0 ==> r < -d,
            x >= 0,
            d != 0,
    ;
    assert(x > 0 && d != -1 ==> -x < q) by (nonlinear_arith)
        requires
            x == d * q + r,
            0 <= r,
            d > 0 ==> r < d,
            d < 0 ==> r < -d,
            d != 0,
    ;
}

/// For a positive divisor and a numerator of at least `1 - b`, `div_up_spec` is the ceiling of
/// the exact quotient: the least `q` with `q * b >= a`.
pub proof fn lemma_div_up_is_ceiling(a: int, b: int)
    requires
        b > 0,
        a + b >= 1,
    ensures
        (div_up_spec(a, b) - 1) * b < a <= div_up_spec(a, b) * b,
{
    let n = a + (b - 1);
    let q = n / b;
    assert(n == b * q + n % b && 0 <= n % b < b) by {
        vstd::arithmetic::div_mod::lemma_fundamental_div_mod(n, b);
        vstd::arithmetic::div_mod::lemma_mod_bound(n, b);
    }
    assert((q - 1) * b == q * b - b) by (nonlinear_arith);
    assert(b * q == q * b) by (nonlinear_arith);
}

/// Splitting a count of `n` into `n / 2` below and `div_up(n, 2)` from zero up loses nothing:
/// the half-open range from `-(n / 2)` to `div_up(n, 2)` holds exactly `n` integers.
pub proof fn lemma_div_up_halves(n: int)
    requires
        n >= 0,
    ensures
        n / 2 + div_up_spec(n, 2) == n,
{
}

/// Divides `a` by `b`, rounding up.
///
/// The numerator is biased by `b - 1` before a truncating division, so for a positive `b` and
/// a biased numerator that is not negative the result is the ceiling of `a / b`.
pub fn div_up(a: i32, b: i32) -> (q: i32)
    requires
        b != 0,
        i32::MIN <= b - 1,
        i32::MIN <= a + (b - 1) <= i32::MAX,
        !(a + (b - 1) == i32::MIN && b == -1),
    ensures
        q == div_up_spec(a as int, b as int),
        b > 0 && a + b >= 1 ==> (q - 1) * b < a <= q * b,
{
    proof {
        lemma_quotient_bounded(a + (b - 1), b as int);
        if b > 0 && a + b >= 1 {
            lemma_div_up_is_ceiling(a as int, b as int);
        }
    }
    (a + (b - 1)) / b
}

/// What [`clamp`] returns for a type whose comparisons follow their specification: `min` when
/// `x` is less than `min`, else `max` when `x` is greater than `max`, else `x` itself.
pub open spec fn clamp_spec<T: PartialOrd>(x: T, min: T, max: T) -> T {
    if x.is_lt(&min) {
        min
    } else if x.is_gt(&max) {
        max
    } else {
        x
    }
}

/// Restricts `x` to the interval from `min` to `max`.
///
/// A value that compares neither below `min` nor above `max` is handed back unchanged, which
/// includes a value that is not comparable with the bounds at all.
pub fn clamp<T: PartialOrd + Copy>(x: T, min: T, max: T) -> (r: T)
    ensures
        r == x || r == min || r == max,
        T::obeys_partial_cmp_spec() ==> r == clamp_spec(x, min, max),
{
    if x < min {
        min
    } else if x > max {
        max
    } else {
        x
    }
}

/// `t` is the transpose of `m`: the entry in row `j`, column `i` of `t` is the entry in row
/// `i`, column `j` of `m`.
pub open spec fn is_transpose<T>(m: [[T; 4]; 4], t: [[T; 4]; 4]) -> bool {
    forall|i: int, j: int| 0 <= i < 4 && 0 <= j < 4 ==> #[trigger] t[j][i] == m[i][j]
}

/// A matrix has exactly one transpose.
pub proof fn lemma_transpose_unique<T>(m: [[T; 4]; 4], t: [[T; 4]; 4], u: [[T; 4]; 4])
    requires
        is_transpose(m, t),
        is_transpose(m, u),
    ensures
        t == u,
{
    assert forall|j: int| 0 <= j < 4 implies t[j] == u[j] by {
        assert forall|i: int| 0 <= i < 4 implies t[j][i] == u[j][i] by {
            assert(t[j][i] == m[i][j]);
            assert(u[j][i] == m[i][j]);
        }
        assert(t[j] =~= u[j]);
    }
    assert(t =~= u);
}

/// Transposing twice gives the matrix back.
pub proof fn lemma_transpose_involution<T>(m: [[T; 4]; 4], t: [[T; 4]; 4], u: [[T; 4]; 4])
    requires
        is_transpose(m, t),
        is_transpose(t, u),
    ensures
        u == m,
{
    assert forall|i: int| 0 <= i < 4 implies u[i] == m[i] by {
        assert forall|j: int| 0 <= j < 4 implies u[i][j] == m[i][j] by {
            assert(u[i][j] == t[j][i]);
            assert(t[j][i] == m[i][j]);
        }
        assert(u[i] =~= m[i]);
    }
    assert(u =~= m);
}

/// Returns the transpose of a 4x4 matrix.
pub fn transpose<T: Copy>(matrix: &[[T; 4]; 4]) -> (result: [[T; 4]; 4])
    ensures
        is_transpose(*matrix, result),
{
    let m = matrix;
    [
        [m[0][0], m[1][0], m[2][0], m[3][0]],
        [m[0][1], m[1][1], m[2][1], m[3][1]],
        [m[0][2], m[1][2], m[2][2], m[3][2]],
        [m[0][3], m[1][3], m[2][3], m[3][3]],
    ]
}

} // verus!
