//! Binomial coefficients, the integer weights of the Bernstein basis.

use factorial::Factorial;
use vstd::arithmetic::div_mod::lemma_div_by_multiple;
use vstd::arithmetic::mul::lemma_mul_is_commutative;
use vstd::prelude::*;

verus! {

/// The largest `n` whose factorial a `u32` holds: `12! = 479_001_600`.
pub const MAX_DEGREE: u32 = 12;

/// `n!`, the product of the integers from 1 to `n`.
pub open spec fn factorial(n: nat) -> nat
    decreases n,
{
    if n == 0 {
        1
    } else {
        n * factorial((n - 1) as nat)
    }
}

/// The number of `k`-element subsets of an `n`-element set, by Pascal's rule.
pub open spec fn binomial(n: nat, k: nat) -> nat
    decreases n,
{
    if k == 0 {
        1
    } else if n == 0 {
        0
    } else {
        binomial((n - 1) as nat, (k - 1) as nat) + binomial((n - 1) as nat, k)
    }
}

/// A factorial is never zero.
pub proof fn lemma_factorial_positive(n: nat)
    ensures
        factorial(n) >= 1,
    decreases n,
{
    if n > 0 {
        lemma_factorial_positive((n - 1) as nat);
        assert(n * factorial((n - 1) as nat) >= 1) by (nonlinear_arith)
            requires
                n >= 1,
                factorial((n - 1) as nat) >= 1,
        ;
    }
}

/// Factorials grow with their argument.
pub proof fn lemma_factorial_monotonic(m: nat, n: nat)
    requires
        m <= n,
    ensures
        factorial(m) <= factorial(n),
    decreases n,
{
    if m < n {
        lemma_factorial_monotonic(m, (n - 1) as nat);
        assert(n * factorial((n - 1) as nat) >= factorial((n - 1) as nat)) by (nonlinear_arith)
            requires
                n >= 1,
        ;
    }
}

/// There is no way to choose more elements than there are.
pub proof fn lemma_binomial_beyond(n: nat, k: nat)
    requires
        k > n,
    ensures
        binomial(n, k) == 0,
    decreases n,
{
    if n > 0 {
        lemma_binomial_beyond((n - 1) as nat, (k - 1) as nat);
        lemma_binomial_beyond((n - 1) as nat, k);
    }
}

/// There is exactly one way to choose nothing.
pub proof fn lemma_binomial_none(n: nat)
    ensures
        binomial(n, 0) == 1,
{
}

/// There is exactly one way to choose everything.
pub proof fn lemma_binomial_all(n: nat)
    ensures
        binomial(n, n) == 1,
    decreases n,
{
    if n > 0 {
        lemma_binomial_all((n - 1) as nat);
        lemma_binomial_beyond((n - 1) as nat, n);
    }
}

/// The factorial formula: `C(n, k) * k! * (n - k)! == n!` for `k <= n`.
pub proof fn lemma_binomial_factorial(n: nat, k: nat)
    requires
        k <= n,
    ensures
        binomial(n, k) * (factorial(k) * factorial((n - k) as nat)) == factorial(n),
    decreases n,
{
    if k == 0 {
        assert(1 * (1 * factorial(n)) == factorial(n));
    } else if k == n {
        lemma_binomial_all(n);
        assert(factorial(0) == 1);
        assert(1 * (factorial(n) * 1) == factorial(n));
    } else {
        let m = (n - 1) as nat;
        let j = (k - 1) as nat;
        let r = (n - k) as nat;
        let s = (r - 1) as nat;
        lemma_binomial_factorial(m, j);
        lemma_binomial_factorial(m, k);
        assert((m - j) as nat == r);
        assert((m - k) as nat == s);
        let a = binomial(m, j);
        let b = binomial(m, k);
        let fj = factorial(j);
        let fk = factorial(k);
        let fr = factorial(r);
        let fs = factorial(s);
        let fm = factorial(m);
        assert(fk == k * fj);
        assert(fr == r * fs);
        assert(a * (fj * fr) == fm);
        assert(b * (fk * fs) == fm);
        assert(a * (fk * fr) == k * fm) by (nonlinear_arith)
            requires
                fk == k * fj,
                a * (fj * fr) == fm,
        ;
        assert(b * (fk * fr) == r * fm) by (nonlinear_arith)
            requires
                fr == r * fs,
                b * (fk * fs) == fm,
        ;
        assert((a + b) * (fk * fr) == n * fm) by (nonlinear_arith)
            requires
                a * (fk * fr) == k * fm,
                b * (fk * fr) == r * fm,
                k + r == n,
        ;
    }
}

/// Choosing `k` elements leaves `n - k` behind: `C(n, k) == C(n, n - k)`.
pub proof fn lemma_binomial_symmetric(n: nat, k: nat)
    requires
        k <= n,
    ensures
        binomial(n, k) == binomial(n, (n - k) as nat),
{
    let r = (n - k) as nat;
    lemma_binomial_factorial(n, k);
    lemma_binomial_factorial(n, r);
    lemma_factorial_positive(k);
    lemma_factorial_positive(r);
    assert((n - r) as nat == k);
    let d = factorial(k) * factorial(r);
    assert(d >= 1) by (nonlinear_arith)
        requires
            d == factorial(k) * factorial(r),
            factorial(k) >= 1,
            factorial(r) >= 1,
    ;
    assert(factorial(r) * factorial(k) == d) by (nonlinear_arith)
        requires
            d == factorial(k) * factorial(r),
    ;
    assert(binomial(n, k) == binomial(n, r)) by (nonlinear_arith)
        requires
            binomial(n, k) * d == binomial(n, r) * d,
            d >= 1,
    ;
}

/// `12!` and every smaller factorial fit a `u32`.
pub proof fn lemma_factorial_fits(n: nat)
    requires
        n <= MAX_DEGREE,
    ensures
        factorial(n) <= 479_001_600,
{
    reveal_with_fuel(factorial, 13);
    assert(factorial(12) == 479_001_600);
    lemma_factorial_monotonic(n, 12);
}

/// `n!` as the crate `factorial` computes it.
///
/// Trusted: for a `u32` below 35 `Factorial::factorial` looks `n!` up in a
/// table and panics when the entry does not fit the type, which for `u32`
/// happens from 13 on. The contract claims the table entry for `n <= 12`.
#[verifier::external_body]
fn factorial_of(n: u32) -> (f: u32)
    requires
        n <= MAX_DEGREE,
    ensures
        f == factorial(n as nat),
{
    n.factorial()
}

/// The binomial coefficient `C(n, k)`, by the factorial formula
/// `n! / (k! * (n - k)!)`.
///
/// The factorials are held in a `u32`, which limits `n` to `MAX_DEGREE`.
pub fn binomial_coefficient(n: u32, k: u32) -> (c: u32)
    requires
        k <= n,
        n <= MAX_DEGREE,
    ensures
        c == binomial(n as nat, k as nat),
{
    let above = factorial_of(n);
    let left = factorial_of(k);
    let right = factorial_of(n - k);
    proof {
        let d = factorial(k as nat) * factorial((n - k) as nat);
        let c = binomial(n as nat, k as nat);
        lemma_binomial_factorial(n as nat, k as nat);
        lemma_factorial_positive(k as nat);
        lemma_factorial_positive((n - k) as nat);
        lemma_factorial_positive(n as nat);
        lemma_factorial_fits(n as nat);
        assert(d >= 1) by (nonlinear_arith)
            requires
                d == factorial(k as nat) * factorial((n - k) as nat),
                factorial(k as nat) >= 1,
                factorial((n - k) as nat) >= 1,
        ;
        assert(c >= 1 && d <= factorial(n as nat)) by (nonlinear_arith)
            requires
                c * d == factorial(n as nat),
                factorial(n as nat) >= 1,
                d >= 1,
        ;
        lemma_mul_is_commutative(c as int, d as int);
        lemma_div_by_multiple(c as int, d as int);
    }
    above / (left * right)
}

} // verus!
