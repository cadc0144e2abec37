//! Primality, and how the order of an element proves it.
//!
//! A power of `b` that is one modulo `n` is one modulo every divisor of `n`. Where the order of
//! `b` modulo every divisor is known to be large, every divisor is, since an order modulo `p` is
//! less than `p`; and a number without small divisors is prime.
use vstd::arithmetic::div_mod::*;
use vstd::arithmetic::power::*;
use vstd::prelude::*;

verus! {

/// Whether `d` divides `n`.
pub open spec fn divides(d: int, n: int) -> bool {
    n % d == 0
}

/// Whether `n` is prime.
pub open spec fn is_prime(n: int) -> bool {
    n > 1 && forall|d: int| 1 < d < n ==> !#[trigger] divides(d, n)
}

/// Whether `r` is the order of `b` modulo `p`, the least positive exponent that gives one.
pub open spec fn is_order(b: int, p: int, r: nat) -> bool {
    &&& r > 0
    &&& pow(b, r) % p == 1
    &&& forall|j: nat| 0 < j < r ==> #[trigger] pow(b, j) % p != 1
}

/// A divisor has a cofactor.
pub proof fn lemma_cofactor(d: int, n: int) -> (q: int)
    requires
        d > 0,
        divides(d, n),
    ensures
        n == d * q,
{
    lemma_fundamental_div_mod(n, d);
    n / d
}

/// What has a cofactor is a divisor.
pub proof fn lemma_multiple(d: int, q: int)
    requires
        d > 0,
    ensures
        divides(d, d * q),
{
    lemma_mod_multiples_basic(q, d);
    assert(d * q == q * d) by (nonlinear_arith);
}

/// What is one modulo `n` is one modulo a divisor of `n`.
proof fn lemma_one_modulo_divisor(a: int, n: int, p: int)
    requires
        p > 1,
        n > 1,
        divides(p, n),
        a % n == 1,
    ensures
        a % p == 1,
{
    let q = lemma_cofactor(p, n);
    assert(q > 0) by (nonlinear_arith)
        requires
            p * q > 1,
            p > 1,
    ;
    lemma_mod_mod(a, p, q);
    lemma_small_mod(1, p as nat);
}

/// A factor that is one modulo `p` does not matter modulo `p`.
proof fn lemma_factor_one(a: int, c: int, p: int)
    requires
        p > 1,
        a % p == 1,
    ensures
        (a * c) % p == c % p,
{
    lemma_mul_mod_noop_left(a, c, p);
    assert(1 * c == c);
}

/// Where some positive exponent gives one, there is an order.
proof fn lemma_order_exists(b: int, p: int, k: nat) -> (r: nat)
    requires
        k > 0,
        pow(b, k) % p == 1,
    ensures
        is_order(b, p, r),
    decreases k,
{
    if exists|j: nat| 0 < j < k && #[trigger] pow(b, j) % p == 1 {
        let j = choose|j: nat| 0 < j < k && #[trigger] pow(b, j) % p == 1;
        lemma_order_exists(b, p, j)
    } else {
        k
    }
}

/// The order divides every exponent that gives one.
proof fn lemma_order_divides(b: int, p: int, r: nat, k: nat)
    requires
        p > 1,
        is_order(b, p, r),
        pow(b, k) % p == 1,
    ensures
        divides(r as int, k as int),
    decreases k,
{
    if k == 0 {
        lemma_small_mod(0, r);
    } else {
        assert(k >= r);
        let rest = (k - r) as nat;
        lemma_pow_adds(b, r, rest);
        lemma_factor_one(pow(b, r), pow(b, rest), p);
        lemma_order_divides(b, p, r, rest);
        lemma_mod_add_multiples_vanish(rest as int, r as int);
    }
}

/// A multiple of an exponent that gives one gives one.
proof fn lemma_multiple_gives_one(b: int, p: int, r: nat, t: nat)
    requires
        p > 1,
        pow(b, r) % p == 1,
    ensures
        pow(b, r * t) % p == 1,
    decreases t,
{
    if t == 0 {
        lemma_pow0(b);
        assert(r * 0 == 0) by (nonlinear_arith);
        lemma_small_mod(1, p as nat);
    } else {
        let rest = r * (t - 1) as nat;
        lemma_multiple_gives_one(b, p, r, (t - 1) as nat);
        assert(r * t == r + rest) by (nonlinear_arith)
            requires
                rest == r * (t - 1),
        ;
        lemma_pow_adds(b, r, rest);
        lemma_factor_one(pow(b, r), pow(b, rest), p);
    }
}

/// The order is less than the modulus: the powers up to the order are different, and none is zero.
proof fn lemma_order_bound(b: int, p: int, r: nat)
    requires
        p > 1,
        is_order(b, p, r),
    ensures
        r < p,
{
    let powers = Seq::new(r, |i: int| pow(b, i as nat) % p);
    assert forall|i: int, j: int| 0 <= i < j < r implies powers[i] != powers[j] by {
        if powers[i] == powers[j] {
            let back = (r - i) as nat;
            let step = (j - i) as nat;
            lemma_pow_adds(b, back, i as nat);
            lemma_pow_adds(b, back, j as nat);
            lemma_pow_adds(b, r, step);
            assert(back + j == r + step);
            lemma_mul_mod_noop_right(pow(b, back), pow(b, i as nat), p);
            lemma_mul_mod_noop_right(pow(b, back), pow(b, j as nat), p);
            lemma_factor_one(pow(b, r), pow(b, step), p);
            assert(pow(b, step) % p == 1);
        }
    }
    assert(powers.no_duplicates());
    assert forall|i: int| 0 <= i < r implies 1 <= #[trigger] powers[i] < p by {
        lemma_mod_bound(pow(b, i as nat), p);
        if powers[i] == 0 {
            let back = (r - i) as nat;
            lemma_pow_adds(b, back, i as nat);
            lemma_mul_mod_noop_right(pow(b, back), pow(b, i as nat), p);
            assert(pow(b, back) * 0 == 0) by (nonlinear_arith);
            lemma_small_mod(0, p as nat);
        }
    }
    powers.unique_seq_to_set();
    vstd::set_lib::lemma_int_range(1, p);
    assert(powers.to_set().subset_of(vstd::set_lib::set_int_range(1, p)));
    vstd::set_lib::lemma_len_subset(powers.to_set(), vstd::set_lib::set_int_range(1, p));
}

/// The greatest common divisor of two numbers is a linear combination of them.
pub proof fn lemma_bezout(a: nat, b: nat) -> (r: (int, int, int))
    requires
        a > 0,
    ensures
        r.0 > 0,
        divides(r.0, a as int),
        divides(r.0, b as int),
        a * r.1 + b * r.2 == r.0,
    decreases b,
{
    if b == 0 {
        lemma_mod_self_0(a as int);
        lemma_small_mod(0, a);
        assert(a * 1 + b * 0 == a) by (nonlinear_arith);
        (a as int, 1, 0)
    } else {
        lemma_fundamental_div_mod(a as int, b as int);
        lemma_mod_bound(a as int, b as int);
        let q = (a / b) as int;
        let m = a % b;
        let (g, u, v) = lemma_bezout(b, m);
        let x = lemma_cofactor(g, b as int);
        let y = lemma_cofactor(g, m as int);
        lemma_multiple(g, x * q + y);
        assert(b * q + m == g * (x * q + y)) by (nonlinear_arith)
            requires
                b == g * x,
                m == g * y,
        ;
        assert(a * v + b * (u - q * v) == g) by (nonlinear_arith)
            requires
                a == b * q + m,
                b * u + m * v == g,
        ;
        (g, v, u - q * v)
    }
}

/// What a prime does not divide has an inverse modulo the prime.
pub proof fn lemma_inverse_exists(x: int, a: int) -> (u: int)
    requires
        is_prime(x),
        a % x != 0,
    ensures
        0 <= u < x,
        (a * u) % x == 1,
{
    let m = a % x;
    lemma_mod_bound(a, x);
    let (g, s, t) = lemma_bezout(m as nat, x as nat);
    let f = lemma_cofactor(g, m);
    assert(g <= m) by (nonlinear_arith)
        requires
            m == g * f,
            m > 0,
            g > 0,
    ;
    assert(g == 1);
    let u = s % x;
    lemma_mod_bound(s, x);
    lemma_mul_mod_noop_general(a, s, x);
    lemma_mul_mod_noop_left(a, s, x);
    lemma_mod_multiples_vanish(-t, 1, x);
    assert(m * s == x * -t + 1) by (nonlinear_arith)
        requires
            m * s + x * t == 1,
    ;
    lemma_small_mod(1, x as nat);
    u
}

/// A divisor of `x * m` that the prime `x` does not divide is a divisor of `m`.
proof fn lemma_euclid(x: int, r: int, m: int)
    requires
        is_prime(x),
        r > 0,
        !divides(x, r),
        divides(r, x * m),
    ensures
        divides(r, m),
{
    let u = lemma_inverse_exists(x, r);
    let c = lemma_cofactor(r, x * m);
    lemma_fundamental_div_mod(r * u, x);
    let k = (r * u) / x;
    lemma_multiple(r, m * u - c * k);
    assert(m == r * (m * u - c * k)) by (nonlinear_arith)
        requires
            r * u == x * k + 1,
            x * m == r * c,
    ;
}

/// Where `b` to the power `x * m` is one modulo `n` and `b` to the power `m` less one has an
/// inverse modulo `n`, the prime `x` divides the order of `b` modulo each divisor of `n`.
proof fn lemma_order_has_factor(n: int, b: int, x: int, m: nat, w: int, p: int, r: nat)
    requires
        n > 1,
        is_prime(x),
        pow(b, (x * m) as nat) % n == 1,
        ((pow(b, m) - 1) * w) % n == 1,
        p > 1,
        divides(p, n),
        is_order(b, p, r),
    ensures
        divides(x, r as int),
{
    assert(x * m >= 0) by (nonlinear_arith)
        requires
            x > 1,
            m >= 0,
    ;
    lemma_one_modulo_divisor(pow(b, (x * m) as nat), n, p);
    lemma_order_divides(b, p, r, (x * m) as nat);
    if !divides(x, r as int) {
        lemma_euclid(x, r as int, m as int);
        let t = lemma_cofactor(r as int, m as int);
        assert(t >= 0) by (nonlinear_arith)
            requires
                r * t >= 0,
                r > 0,
        ;
        lemma_multiple_gives_one(b, p, r, t as nat);
        let d = pow(b, m) - 1;
        lemma_one_modulo_divisor(d * w, n, p);
        lemma_sub_mod_noop(pow(b, m), 1, p);
        lemma_small_mod(1, p as nat);
        lemma_mul_mod_noop_left(d, w, p);
        lemma_small_mod(0, p as nat);
        assert(0 * w == 0) by (nonlinear_arith);
    }
}

/// A number is prime that no number up to its root divides.
proof fn lemma_no_small_divisor(n: int, s: int)
    requires
        n > 1,
        s > 0,
        s * s >= n,
        forall|p: int| 1 < p <= s && #[trigger] divides(p, n) ==> p == n,
    ensures
        is_prime(n),
{
    assert forall|d: int| 1 < d < n implies !#[trigger] divides(d, n) by {
        if divides(d, n) {
            let q = lemma_cofactor(d, n);
            assert(1 < q < n) by (nonlinear_arith)
                requires
                    n == d * q,
                    1 < d < n,
            ;
            assert(n == q * d) by (nonlinear_arith)
                requires
                    n == d * q,
            ;
            lemma_multiple(q, d);
            assert(d <= s || q <= s) by (nonlinear_arith)
                requires
                    n == d * q,
                    s * s >= n,
                    s > 0,
            ;
        }
    }
}

/// Whether nothing from two up to `s` divides `n`.
pub open spec fn no_divisor_up_to(n: int, s: int) -> bool
    decreases s,
{
    s < 2 || (!divides(s, n) && no_divisor_up_to(n, s - 1))
}

/// What nothing up to `s` divides, `p` up to `s` does not divide.
proof fn lemma_no_divisor(n: int, s: int, p: int)
    requires
        no_divisor_up_to(n, s),
        1 < p <= s,
    ensures
        !divides(p, n),
    decreases s,
{
    if p < s {
        lemma_no_divisor(n, s - 1, p);
    }
}

/// A number is prime where trying all the numbers up to its root finds no divisor.
pub proof fn lemma_prime_by_trial(n: int, s: int)
    requires
        n > 1,
        s > 0,
        s * s >= n,
        no_divisor_up_to(n, s),
    ensures
        is_prime(n),
{
    assert forall|p: int| 1 < p <= s && #[trigger] divides(p, n) implies p == n by {
        lemma_no_divisor(n, s, p);
    }
    lemma_no_small_divisor(n, s);
}

/// A number is prime where a prime at least as large as its root is the order of some element:
/// `b` to the power of the prime `x` is one modulo `n`, and `b` less one has the inverse `w`.
pub proof fn lemma_prime_by_order(n: int, x: int, b: int, w: int)
    requires
        n > 1,
        is_prime(x),
        x * x >= n,
        pow(b, x as nat) % n == 1,
        ((b - 1) * w) % n == 1,
    ensures
        is_prime(n),
{
    assert forall|p: int| 1 < p <= x && #[trigger] divides(p, n) implies p == n by {
        lemma_one_modulo_divisor(pow(b, x as nat), n, p);
        let r = lemma_order_exists(b, p, x as nat);
        lemma_pow1(b);
        assert(x * 1 == x);
        lemma_order_has_factor(n, b, x, 1, w, p, r);
        lemma_order_bound(b, p, r);
        lemma_small_mod(r, x as nat);
    }
    lemma_no_small_divisor(n, x);
}

/// A number is prime where the product of two different primes, a product at least as large as its
/// root, is the order of some element: `b` to the power of `x * y` is one modulo `n`, and `b` to
/// the power of either, less one, has an inverse.
pub proof fn lemma_prime_by_order_two(n: int, x: int, y: int, b: int, w: int, v: int)
    requires
        n > 1,
        is_prime(x),
        is_prime(y),
        x < y,
        (x * y) * (x * y) >= n,
        pow(b, (x * y) as nat) % n == 1,
        ((pow(b, y as nat) - 1) * w) % n == 1,
        ((pow(b, x as nat) - 1) * v) % n == 1,
    ensures
        is_prime(n),
{
    assert(x * y == y * x && x * y > 0) by (nonlinear_arith)
        requires
            x > 1,
            y > 1,
    ;
    assert forall|p: int| 1 < p <= x * y && #[trigger] divides(p, n) implies p == n by {
        lemma_one_modulo_divisor(pow(b, (x * y) as nat), n, p);
        let r = lemma_order_exists(b, p, (x * y) as nat);
        lemma_order_has_factor(n, b, x, y as nat, w, p, r);
        lemma_order_has_factor(n, b, y, x as nat, v, p, r);
        lemma_order_bound(b, p, r);
        let c = lemma_cofactor(y, r as int);
        assert(!divides(x, y)) by {
            assert(1 < x < y);
        }
        assert(divides(x, y * c));
        lemma_prime_divides_factor(x, y, c);
        let e = lemma_cofactor(x, c);
        assert(r >= x * y) by (nonlinear_arith)
            requires
                r == y * c,
                c == x * e,
                r > 0,
                x > 1,
                y > 1,
        ;
    }
    lemma_no_small_divisor(n, x * y);
}

/// A prime that divides a product, and not the first factor, divides the second.
proof fn lemma_prime_divides_factor(x: int, a: int, c: int)
    requires
        is_prime(x),
        !divides(x, a),
        divides(x, a * c),
    ensures
        divides(x, c),
{
    let u = lemma_inverse_exists(x, a);
    lemma_mul_mod_noop_left(a * u, c, x);
    lemma_mul_mod_noop_left(a * c, u, x);
    assert((a * u) * c == (a * c) * u) by (nonlinear_arith);
    assert(0 * u == 0) by (nonlinear_arith);
    lemma_small_mod(0, x as nat);
}

} // verus!
