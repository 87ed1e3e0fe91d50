//! The integer cores of the `_MATH` functions `GCD`, `LCM` and `IS_PRIME`,
//! on the whole numbers they are given (as 64-bit integers).
use vstd::prelude::*;

verus! {

/// Euclid's greatest common divisor.
pub open spec fn gcd_spec(a: nat, b: nat) -> nat
    decreases b,
{
    if b == 0 {
        a
    } else {
        gcd_spec(b, a % b)
    }
}

/// `(a / gcd) * b`, or 0 when either is 0.
pub open spec fn lcm_spec(a: nat, b: nat) -> int {
    if a == 0 || b == 0 {
        0
    } else {
        (a as int / gcd_spec(a, b) as int) * b
    }
}

/// `d` divides `n`.
pub open spec fn divides(d: int, n: int) -> bool {
    exists|k: int| #[trigger] (k * d) == n
}

/// `n` is prime: at least 2, with no divisor strictly between 1 and `n`.
pub open spec fn is_prime_spec(n: int) -> bool {
    n >= 2 && forall|d: int| 2 <= d < n ==> #[trigger] (n % d) != 0
}

/// The greatest common divisor of two non-negative integers (Euclid's
/// algorithm); 0 only when both are 0.
pub fn gcd_of(a: i64, b: i64) -> (r: i64)
    requires
        a >= 0,
        b >= 0,
    ensures
        r == gcd_spec(a as nat, b as nat),
{
    let mut x = a;
    let mut y = b;
    while y != 0
        invariant
            x >= 0,
            y >= 0,
            gcd_spec(x as nat, y as nat) == gcd_spec(a as nat, b as nat),
        decreases y,
    {
        let t = y;
        y = x % y;
        x = t;
    }
    x
}

/// The least common multiple of two non-negative integers, 0 when either
/// is 0: `(a / gcd) * b`.
pub fn lcm_of(a: i64, b: i64) -> (r: i64)
    requires
        a >= 0,
        b >= 0,
        lcm_spec(a as nat, b as nat) <= i64::MAX,
    ensures
        r == lcm_spec(a as nat, b as nat),
{
    if a == 0 || b == 0 {
        return 0;
    }
    let g = gcd_of(a, b);
    proof {
        lemma_gcd_positive(a as nat, b as nat);
        lemma_gcd_bounded(a as nat, b as nat);
    }
    let q = a / g;
    assert(0 <= q <= a) by (nonlinear_arith)
        requires
            g >= 1,
            a >= 0,
            q == a / g;
    q * b
}

/// `lcm_of` where its product fits in 64 bits, `None` where it does not.
pub fn checked_lcm(a: i64, b: i64) -> (r: Option<i64>)
    requires
        a >= 0,
        b >= 0,
    ensures
        match r {
            Some(v) => v == lcm_spec(a as nat, b as nat),
            None => lcm_spec(a as nat, b as nat) > i64::MAX,
        },
{
    if a == 0 || b == 0 {
        return Some(0);
    }
    let g = gcd_of(a, b);
    proof {
        lemma_gcd_positive(a as nat, b as nat);
        lemma_gcd_bounded(a as nat, b as nat);
    }
    let q = a / g;
    assert(0 <= q <= a) by (nonlinear_arith)
        requires
            g >= 1,
            a >= 0,
            q == a / g;
    q.checked_mul(b)
}

/// The gcd of two numbers of which one is positive is positive.
pub proof fn lemma_gcd_positive(a: nat, b: nat)
    requires
        a > 0 || b > 0,
    ensures
        gcd_spec(a, b) > 0,
    decreases b,
{
    if b > 0 {
        lemma_gcd_positive(b, a % b);
    }
}

/// The gcd of two positive numbers is no larger than either of them.
proof fn lemma_gcd_bounded(a: nat, b: nat)
    requires
        a > 0,
        b > 0,
    ensures
        gcd_spec(a, b) <= a,
        gcd_spec(a, b) <= b,
    decreases b,
{
    lemma_gcd_divides(a, b);
    let g = gcd_spec(a, b);
    lemma_gcd_positive(a, b);
    let ka = choose|k: int| #[trigger] (k * g) == a;
    let kb = choose|k: int| #[trigger] (k * g) == b;
    assert(g <= a) by (nonlinear_arith)
        requires
            a == ka * g,
            g > 0,
            a > 0;
    assert(g <= b) by (nonlinear_arith)
        requires
            b == kb * g,
            g > 0,
            b > 0;
}

/// The gcd divides both numbers.
pub proof fn lemma_gcd_divides(a: nat, b: nat)
    ensures
        divides(gcd_spec(a, b) as int, a as int),
        divides(gcd_spec(a, b) as int, b as int),
    decreases b,
{
    let g = gcd_spec(a, b);
    if b == 0 {
        assert(a == 1 * a);
        assert(b == 0 * a);
    } else {
        lemma_gcd_divides(b, a % b);
        let k1 = choose|k: int| #[trigger] (k * g) == b;
        let k2 = choose|k: int| #[trigger] (k * g) == (a % b) as int;
        let q = (a / b) as int;
        assert(a == q * b + (a % b)) by (nonlinear_arith)
            requires
                b > 0,
                q == (a / b) as int;
        assert(a == (q * k1 + k2) * g) by (nonlinear_arith)
            requires
                a == q * b + (a % b),
                b == k1 * g,
                (a % b) as int == k2 * g;
    }
}

/// Every common divisor of the two numbers divides their gcd: the gcd is
/// the greatest common divisor.
pub proof fn lemma_gcd_greatest(a: nat, b: nat, d: int)
    requires
        divides(d, a as int),
        divides(d, b as int),
    ensures
        divides(d, gcd_spec(a, b) as int),
    decreases b,
{
    if b > 0 {
        let ka = choose|k: int| #[trigger] (k * d) == a;
        let kb = choose|k: int| #[trigger] (k * d) == b;
        let q = (a / b) as int;
        let r = (a % b) as int;
        assert(a == q * b + r) by (nonlinear_arith)
            requires
                b > 0,
                q == (a / b) as int,
                r == (a % b) as int;
        assert(r == (ka - q * kb) * d) by (nonlinear_arith)
            requires
                a == q * b + r,
                a == ka * d,
                b == kb * d;
        lemma_gcd_greatest(b, a % b, d);
    }
}

/// The trial division squares the candidate divisor in 64 bits; that
/// overflows exactly when it reaches 3037000501, which happens for the
/// primes from 3037000499 squared on.
pub open spec fn prime_test_overflows(n: int) -> bool {
    n >= 3037000499 * 3037000499 && is_prime_spec(n)
}

/// Whether `n` is prime, by trial division with 2 and the odd numbers up
/// to its square root.
pub fn is_prime_of(n: i64) -> (r: bool)
    requires
        !prime_test_overflows(n as int),
    ensures
        r == is_prime_spec(n as int),
{
    match is_prime_checked(n) {
        Some(b) => b,
        None => false,
    }
}

/// The trial division, or `None` where squaring the divisor overflows.
pub fn is_prime_checked(n: i64) -> (r: Option<bool>)
    ensures
        r == (if prime_test_overflows(n as int) { None } else { Some(is_prime_spec(n as int)) }),
{
    if n < 2 {
        return Some(false);
    }
    if n == 2 {
        return Some(true);
    }
    if n % 2 == 0 {
        assert((n as int) % 2 == 0);
        return Some(false);
    }
    let mut i: i64 = 3;
    loop
        invariant
            n >= 3,
            n % 2 == 1,
            3 <= i,
            i % 2 == 1,
            (i - 2) * (i - 2) <= n,
            i <= 3037000501,
            forall|d: int| 2 <= d < i ==> #[trigger] ((n as int) % d) != 0,
        decreases n - i,
    {
        if i == 3037000501 {
            proof {
                assert((i - 2) * (i - 2) == 3037000499 * 3037000499);
                lemma_no_small_divisor_prime(n as int, i as int);
            }
            return None;
        }
        assert(i * i <= 3037000499 * 3037000499) by (nonlinear_arith)
            requires
                3 <= i <= 3037000499;
        if i * i > n {
            proof {
                lemma_no_small_divisor_prime(n as int, i as int);
            }
            return Some(true);
        }
        assert(i + 2 <= n) by (nonlinear_arith)
            requires
                3 <= i,
                i * i <= n;
        if n % i == 0 {
            assert((n as int) % (i as int) == 0);
            return Some(false);
        }
        proof {
            assert((n as int) % (i + 1) != 0) by {
                lemma_odd_not_divisible_by_even(n as int, i + 1);
            }
        }
        i = i + 2;
    }
}

/// An odd number has no even divisor.
proof fn lemma_odd_not_divisible_by_even(n: int, d: int)
    requires
        n % 2 == 1,
        d >= 2,
        d % 2 == 0,
    ensures
        n % d != 0,
{
    if n % d == 0 {
        let q = n / d;
        let h = d / 2;
        assert(n == q * d) by (nonlinear_arith)
            requires
                d >= 2,
                n % d == 0,
                q == n / d;
        assert(d == 2 * h);
        assert(n == 2 * (q * h)) by (nonlinear_arith)
            requires
                n == q * d,
                d == 2 * h;
        assert((2 * (q * h)) % 2 == 0) by (nonlinear_arith);
    }
}

/// A number with no divisor below `i`, where `i * i` exceeds it, is prime.
proof fn lemma_no_small_divisor_prime(n: int, i: int)
    requires
        n >= 2,
        i >= 2,
        i * i > n || i > n,
        forall|d: int| 2 <= d < i ==> #[trigger] (n % d) != 0,
    ensures
        is_prime_spec(n),
{
    assert forall|d: int| 2 <= d < n implies #[trigger] (n % d) != 0 by {
        if d >= i && n % d == 0 {
            let q = n / d;
            assert(n == q * d && 2 <= q < i) by (nonlinear_arith)
                requires
                    2 <= d < n,
                    d >= i,
                    i >= 2,
                    i * i > n || i > n,
                    n % d == 0,
                    q == n / d;
            assert(n % q == 0) by (nonlinear_arith)
                requires
                    n == q * d,
                    q >= 2;
            assert(n % q != 0);
        }
    }
}

} // verus!
