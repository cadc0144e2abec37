//! The group order is prime.
//!
//! The proof is a chain of primes that begins with the group order. Each of them but the smallest
//! three is prime because a later one, or the product of two later ones, is the order of an element
//! modulo it. The powers of the element that show this are computed bit by bit of the exponent, one
//! squaring a line, each line with the power before and the power after.
use vstd::arithmetic::div_mod::*;
use vstd::arithmetic::power::*;
use vstd::prelude::*;

use crate::field;
use crate::prime;

verus! {

/// The first power of `b`.
proof fn lemma_first(n: int, b: int) -> (k: nat)
    requires
        0 <= b < n,
    ensures
        k == 1,
        pow(b, k) % n == b,
{
    lemma_pow1(b);
    lemma_small_mod(b as nat, n as nat);
    1
}

/// From the power `x` of `b` to the power `y` with twice the exponent.
proof fn lemma_even(n: int, b: int, k: nat, x: int, y: int) -> (r: nat)
    requires
        n > 0,
        pow(b, k) % n == x,
        (x * x) % n == y,
    ensures
        r == 2 * k,
        pow(b, r) % n == y,
{
    lemma_pow_adds(b, k, k);
    lemma_mul_mod_noop_general(pow(b, k), pow(b, k), n);
    2 * k
}

/// From the power `x` of `b` to the power `y` with twice the exponent and one more.
proof fn lemma_odd(n: int, b: int, k: nat, x: int, y: int) -> (r: nat)
    requires
        n > 0,
        pow(b, k) % n == x,
        (x * x * b) % n == y,
    ensures
        r == 2 * k + 1,
        pow(b, r) % n == y,
{
    let twice = lemma_even(n, b, k, x, (x * x) % n);
    lemma_pow_adds(b, twice, 1);
    lemma_pow1(b);
    lemma_mul_mod_noop_left(pow(b, twice), b, n);
    lemma_mul_mod_noop_left(x * x, b, n);
    2 * k + 1
}

/// The power `x` of `b`, less one, has the inverse `w`.
proof fn lemma_inverse_of_power(n: int, b: int, k: nat, x: int, w: int)
    requires
        n > 1,
        pow(b, k) % n == x,
        ((x - 1) * w) % n == 1,
    ensures
        ((pow(b, k) - 1) * w) % n == 1,
{
    let d = pow(b, k) - 1;
    lemma_sub_mod_noop(pow(b, k), 1, n);
    lemma_small_mod(1, n as nat);
    lemma_mul_mod_noop_left(d, w, n);
    lemma_sub_mod_noop(x, 1, n);
    lemma_mod_bound(pow(b, k), n);
    lemma_small_mod(x as nat, n as nat);
    lemma_mul_mod_noop_left(x - 1, w, n);
}

/// The first prime of the chain, the group order.
#[verifier::inline]
spec fn p1() -> int {
    0x1000000000000000000000000000000014def9dea2f79cd65812631a5cf5d3edint
}

/// The second prime of the chain.
#[verifier::inline]
spec fn p2() -> int {
    0x32cdcafae152df290ed9fa9b80caa8174cbint
}

/// The third prime of the chain.
#[verifier::inline]
spec fn p3() -> int {
    0x3a0fc367dcf0ff0a5a1db0b1b7c3093f33int
}

/// The fourth prime of the chain.
#[verifier::inline]
spec fn p4() -> int {
    0x8e51fa3a480f89f9de5163int
}

/// The fifth prime of the chain.
#[verifier::inline]
spec fn p5() -> int {
    0x3d89490a0e5537efint
}

/// The sixth prime of the chain.
#[verifier::inline]
spec fn p6() -> int {
    0x477be711eceddint
}

/// The seventh prime of the chain.
#[verifier::inline]
spec fn p7() -> int {
    0x12af21int
}

/// The eighth prime of the chain.
#[verifier::inline]
spec fn p8() -> int {
    0x81c7dint
}

/// The ninth prime of the chain.
#[verifier::inline]
spec fn p9() -> int {
    0x9f7int
}

/// The tenth prime of the chain.
#[verifier::inline]
spec fn p10() -> int {
    0xed5int
}

/// The eleventh prime of the chain.
#[verifier::inline]
spec fn p11() -> int {
    73
}

/// The twelfth prime of the chain.
#[verifier::inline]
spec fn p12() -> int {
    17
}

/// The thirteenth prime of the chain.
#[verifier::inline]
spec fn p13() -> int {
    5
}

/// `p13()` is prime, since nothing up to its root divides it.
proof fn lemma_p13_prime()
    ensures
        prime::is_prime(p13()),
{
    assert(prime::no_divisor_up_to(p13(), 1));
    assert(prime::no_divisor_up_to(p13(), 2));
    prime::lemma_prime_by_trial(p13(), 3);
}

/// `p12()` is prime, since nothing up to its root divides it.
proof fn lemma_p12_prime()
    ensures
        prime::is_prime(p12()),
{
    assert(prime::no_divisor_up_to(p12(), 1));
    assert(prime::no_divisor_up_to(p12(), 2));
    assert(prime::no_divisor_up_to(p12(), 3));
    assert(prime::no_divisor_up_to(p12(), 4));
    prime::lemma_prime_by_trial(p12(), 5);
}

/// `p11()` is prime, since nothing up to its root divides it.
proof fn lemma_p11_prime()
    ensures
        prime::is_prime(p11()),
{
    assert(prime::no_divisor_up_to(p11(), 1));
    assert(prime::no_divisor_up_to(p11(), 2));
    assert(prime::no_divisor_up_to(p11(), 3));
    assert(prime::no_divisor_up_to(p11(), 4));
    assert(prime::no_divisor_up_to(p11(), 5));
    assert(prime::no_divisor_up_to(p11(), 6));
    assert(prime::no_divisor_up_to(p11(), 7));
    assert(prime::no_divisor_up_to(p11(), 8));
    prime::lemma_prime_by_trial(p11(), 9);
}

/// An element of the order `p11()` modulo `p10()`.
#[verifier::inline]
spec fn p10_base() -> int {
    0xdedint
}

/// `p10()` is prime, since `p11()` is.
proof fn lemma_p10_prime()
    requires
        prime::is_prime(p11()),
    ensures
        prime::is_prime(p10()),
{
    let k = lemma_first(p10(), p10_base());
    let k = lemma_even(p10(), p10_base(), k, 0xded, 0x29a);
    let k = lemma_even(p10(), p10_base(), k, 0x29a, 0xc20);
    let k = lemma_odd(p10(), p10_base(), k, 0xc20, 0x578);
    let k = lemma_even(p10(), p10_base(), k, 0x578, 0x2ec);
    let k = lemma_even(p10(), p10_base(), k, 0x2ec, 0x541);
    let k = lemma_odd(p10(), p10_base(), k, 0x541, 0x1);
    assert(k == p11());
    prime::lemma_prime_by_order(p10(), p11(), p10_base(), 0xd1d);
}

/// An element of the order `p13() * p12()` modulo `p9()`.
#[verifier::inline]
spec fn p9_base() -> int {
    0x19eint
}

/// The power of `p9_base()` with the exponent `p13()`.
proof fn lemma_p9_first_power()
    ensures
        pow(p9_base(), p13() as nat) % p9() == 0x829,
{
    let k = lemma_first(p9(), p9_base());
    let k = lemma_even(p9(), p9_base(), k, 0x19e, 0x1df);
    let k = lemma_odd(p9(), p9_base(), k, 0x1df, 0x829);
    assert(k == p13());
}

/// The power of `p9_base()` with the exponent `p12()`.
proof fn lemma_p9_second_power()
    ensures
        pow(p9_base(), p12() as nat) % p9() == 0x5dd,
{
    let k = lemma_first(p9(), p9_base());
    let k = lemma_even(p9(), p9_base(), k, 0x19e, 0x1df);
    let k = lemma_even(p9(), p9_base(), k, 0x1df, 0x962);
    let k = lemma_even(p9(), p9_base(), k, 0x962, 0x701);
    let k = lemma_odd(p9(), p9_base(), k, 0x701, 0x5dd);
    assert(k == p12());
}

/// The power of `p9_base()` with the exponent `p13() * p12()`.
proof fn lemma_p9_product_power()
    ensures
        pow(p9_base(), (p13() * p12()) as nat) % p9() == 0x1,
{
    let k = lemma_first(p9(), p9_base());
    let k = lemma_even(p9(), p9_base(), k, 0x19e, 0x1df);
    let k = lemma_odd(p9(), p9_base(), k, 0x1df, 0x829);
    let k = lemma_even(p9(), p9_base(), k, 0x829, 0x6af);
    let k = lemma_odd(p9(), p9_base(), k, 0x6af, 0x347);
    let k = lemma_even(p9(), p9_base(), k, 0x347, 0x95c);
    let k = lemma_odd(p9(), p9_base(), k, 0x95c, 0x1);
    assert(k == p13() * p12());
}

/// `p9()` is prime, since `p13()` and `p12()` are.
proof fn lemma_p9_prime()
    requires
        prime::is_prime(p13()),
        prime::is_prime(p12()),
    ensures
        prime::is_prime(p9()),
{
    lemma_p9_first_power();
    lemma_p9_second_power();
    lemma_p9_product_power();
    lemma_inverse_of_power(p9(), p9_base(), p12() as nat, 0x5dd, 0x6f8);
    lemma_inverse_of_power(p9(), p9_base(), p13() as nat, 0x829, 0x46f);
    prime::lemma_prime_by_order_two(p9(), p13(), p12(), p9_base(), 0x6f8, 0x46f);
}

/// An element of the order `p10()` modulo `p8()`.
#[verifier::inline]
spec fn p8_base() -> int {
    0x7e2dint
}

/// `p8()` is prime, since `p10()` is.
proof fn lemma_p8_prime()
    requires
        prime::is_prime(p10()),
    ensures
        prime::is_prime(p8()),
{
    let k = lemma_first(p8(), p8_base());
    let k = lemma_odd(p8(), p8_base(), k, 0x7e2d, 0x62137);
    let k = lemma_odd(p8(), p8_base(), k, 0x62137, 0x1f9d7);
    let k = lemma_even(p8(), p8_base(), k, 0x1f9d7, 0x38bbc);
    let k = lemma_odd(p8(), p8_base(), k, 0x38bbc, 0x4e02b);
    let k = lemma_odd(p8(), p8_base(), k, 0x4e02b, 0x4a88b);
    let k = lemma_even(p8(), p8_base(), k, 0x4a88b, 0x7991f);
    let k = lemma_odd(p8(), p8_base(), k, 0x7991f, 0x10c6a);
    let k = lemma_even(p8(), p8_base(), k, 0x10c6a, 0x1b2fa);
    let k = lemma_odd(p8(), p8_base(), k, 0x1b2fa, 0x47b3e);
    let k = lemma_even(p8(), p8_base(), k, 0x47b3e, 0x3a109);
    let k = lemma_odd(p8(), p8_base(), k, 0x3a109, 0x1);
    assert(k == p10());
    prime::lemma_prime_by_order(p8(), p10(), p8_base(), 0xc5f1);
}

/// An element of the order `p9()` modulo `p7()`.
#[verifier::inline]
spec fn p7_base() -> int {
    0xe103bint
}

/// `p7()` is prime, since `p9()` is.
proof fn lemma_p7_prime()
    requires
        prime::is_prime(p9()),
    ensures
        prime::is_prime(p7()),
{
    let k = lemma_first(p7(), p7_base());
    let k = lemma_even(p7(), p7_base(), k, 0xe103b, 0xf59fb);
    let k = lemma_even(p7(), p7_base(), k, 0xf59fb, 0x48ff8);
    let k = lemma_odd(p7(), p7_base(), k, 0x48ff8, 0x1091f9);
    let k = lemma_odd(p7(), p7_base(), k, 0x1091f9, 0x49aa0);
    let k = lemma_odd(p7(), p7_base(), k, 0x49aa0, 0xd881f);
    let k = lemma_odd(p7(), p7_base(), k, 0xd881f, 0xd3072);
    let k = lemma_odd(p7(), p7_base(), k, 0xd3072, 0x56a32);
    let k = lemma_even(p7(), p7_base(), k, 0x56a32, 0x8d3a9);
    let k = lemma_odd(p7(), p7_base(), k, 0x8d3a9, 0xbd2e7);
    let k = lemma_odd(p7(), p7_base(), k, 0xbd2e7, 0x126d7);
    let k = lemma_odd(p7(), p7_base(), k, 0x126d7, 0x1);
    assert(k == p9());
    prime::lemma_prime_by_order(p7(), p9(), p7_base(), 0x10cb57);
}

/// An element of the order `p8() * p7()` modulo `p6()`.
#[verifier::inline]
spec fn p6_base() -> int {
    0x32eee2b5f3cd5int
}

/// The power of `p6_base()` with the exponent `p8()`.
proof fn lemma_p6_first_power()
    ensures
        pow(p6_base(), p8() as nat) % p6() == 0x4735c3113b127int,
{
    let k = lemma_first(p6(), p6_base());
    let k = lemma_even(p6(), p6_base(), k, 0x32eee2b5f3cd5int, 0x3bf0fc8647d4eint);
    let k = lemma_even(p6(), p6_base(), k, 0x3bf0fc8647d4eint, 0x27f5dc3bd325aint);
    let k = lemma_even(p6(), p6_base(), k, 0x27f5dc3bd325aint, 0x3e0220310e050int);
    let k = lemma_even(p6(), p6_base(), k, 0x3e0220310e050int, 0x2d74e85ee63a0int);
    let k = lemma_even(p6(), p6_base(), k, 0x2d74e85ee63a0int, 0x37f27f886c8b9int);
    let k = lemma_even(p6(), p6_base(), k, 0x37f27f886c8b9int, 0xf422dd36f156int);
    let k = lemma_odd(p6(), p6_base(), k, 0xf422dd36f156int, 0x43e08f52695bint);
    let k = lemma_odd(p6(), p6_base(), k, 0x43e08f52695bint, 0x412da4092c465int);
    let k = lemma_odd(p6(), p6_base(), k, 0x412da4092c465int, 0x2360ca1e7d09eint);
    let k = lemma_even(p6(), p6_base(), k, 0x2360ca1e7d09eint, 0x2fb724eeb516int);
    let k = lemma_even(p6(), p6_base(), k, 0x2fb724eeb516int, 0xddce8cbbc733int);
    let k = lemma_even(p6(), p6_base(), k, 0xddce8cbbc733int, 0xfc74c8eaf0e9int);
    let k = lemma_odd(p6(), p6_base(), k, 0xfc74c8eaf0e9int, 0x1d23f43854e3eint);
    let k = lemma_odd(p6(), p6_base(), k, 0x1d23f43854e3eint, 0xcf492337429aint);
    let k = lemma_odd(p6(), p6_base(), k, 0xcf492337429aint, 0x1e68f4d6a2c54int);
    let k = lemma_odd(p6(), p6_base(), k, 0x1e68f4d6a2c54int, 0x37164d37318ceint);
    let k = lemma_odd(p6(), p6_base(), k, 0x37164d37318ceint, 0x16ab176dfc910int);
    let k = lemma_even(p6(), p6_base(), k, 0x16ab176dfc910int, 0x101f56e030b96int);
    let k = lemma_odd(p6(), p6_base(), k, 0x101f56e030b96int, 0x4735c3113b127int);
    assert(k == p8());
}

/// The power of `p6_base()` with the exponent `p7()`.
proof fn lemma_p6_second_power()
    ensures
        pow(p6_base(), p7() as nat) % p6() == 0x40cae279246b8int,
{
    let k = lemma_first(p6(), p6_base());
    let k = lemma_even(p6(), p6_base(), k, 0x32eee2b5f3cd5int, 0x3bf0fc8647d4eint);
    let k = lemma_even(p6(), p6_base(), k, 0x3bf0fc8647d4eint, 0x27f5dc3bd325aint);
    let k = lemma_odd(p6(), p6_base(), k, 0x27f5dc3bd325aint, 0x17f653babe402int);
    let k = lemma_even(p6(), p6_base(), k, 0x17f653babe402int, 0x368e0398b02c0int);
    let k = lemma_odd(p6(), p6_base(), k, 0x368e0398b02c0int, 0x3eb77f4ea7570int);
    let k = lemma_even(p6(), p6_base(), k, 0x3eb77f4ea7570int, 0x40ef09f4715d1int);
    let k = lemma_odd(p6(), p6_base(), k, 0x40ef09f4715d1int, 0x240c8a79b7d53int);
    let k = lemma_even(p6(), p6_base(), k, 0x240c8a79b7d53int, 0x1422c16d02e07int);
    let k = lemma_odd(p6(), p6_base(), k, 0x1422c16d02e07int, 0x2f5073580f450int);
    let k = lemma_odd(p6(), p6_base(), k, 0x2f5073580f450int, 0x2c06be7a6a7e6int);
    let k = lemma_odd(p6(), p6_base(), k, 0x2c06be7a6a7e6int, 0xdbf35d86549bint);
    let k = lemma_odd(p6(), p6_base(), k, 0xdbf35d86549bint, 0xd506cd73ec3int);
    let k = lemma_even(p6(), p6_base(), k, 0xd506cd73ec3int, 0x41220e64dc2b0int);
    let k = lemma_even(p6(), p6_base(), k, 0x41220e64dc2b0int, 0x1430cde7533acint);
    let k = lemma_odd(p6(), p6_base(), k, 0x1430cde7533acint, 0x2e177d63705a7int);
    let k = lemma_even(p6(), p6_base(), k, 0x2e177d63705a7int, 0xc2dc7499b547int);
    let k = lemma_even(p6(), p6_base(), k, 0xc2dc7499b547int, 0x342bedc651513int);
    let k = lemma_even(p6(), p6_base(), k, 0x342bedc651513int, 0x463f34ca8540eint);
    let k = lemma_even(p6(), p6_base(), k, 0x463f34ca8540eint, 0x8abf32969f0aint);
    let k = lemma_odd(p6(), p6_base(), k, 0x8abf32969f0aint, 0x40cae279246b8int);
    assert(k == p7());
}

/// The power of `p6_base()` with the exponent `p8() * p7()`.
proof fn lemma_p6_product_power()
    ensures
        pow(p6_base(), (p8() * p7()) as nat) % p6() == 0x1,
{
    let k = lemma_first(p6(), p6_base());
    let k = lemma_even(p6(), p6_base(), k, 0x32eee2b5f3cd5int, 0x3bf0fc8647d4eint);
    let k = lemma_even(p6(), p6_base(), k, 0x3bf0fc8647d4eint, 0x27f5dc3bd325aint);
    let k = lemma_odd(p6(), p6_base(), k, 0x27f5dc3bd325aint, 0x17f653babe402int);
    let k = lemma_even(p6(), p6_base(), k, 0x17f653babe402int, 0x368e0398b02c0int);
    let k = lemma_odd(p6(), p6_base(), k, 0x368e0398b02c0int, 0x3eb77f4ea7570int);
    let k = lemma_odd(p6(), p6_base(), k, 0x3eb77f4ea7570int, 0x18fd8db3a0aa0int);
    let k = lemma_odd(p6(), p6_base(), k, 0x18fd8db3a0aa0int, 0x2d47176e02c64int);
    let k = lemma_odd(p6(), p6_base(), k, 0x2d47176e02c64int, 0x3ee72c716400cint);
    let k = lemma_even(p6(), p6_base(), k, 0x3ee72c716400cint, 0x410d837504704int);
    let k = lemma_even(p6(), p6_base(), k, 0x410d837504704int, 0x2663b58ef064int);
    let k = lemma_even(p6(), p6_base(), k, 0x2663b58ef064int, 0x4a8ac95159bdint);
    let k = lemma_odd(p6(), p6_base(), k, 0x4a8ac95159bdint, 0x1666b3e9fcf31int);
    let k = lemma_odd(p6(), p6_base(), k, 0x1666b3e9fcf31int, 0x3e7582ab180e9int);
    let k = lemma_even(p6(), p6_base(), k, 0x3e7582ab180e9int, 0x32f9bc7427204int);
    let k = lemma_odd(p6(), p6_base(), k, 0x32f9bc7427204int, 0x42ff2de5e4529int);
    let k = lemma_even(p6(), p6_base(), k, 0x42ff2de5e4529int, 0x2b0a0fe7f76c0int);
    let k = lemma_odd(p6(), p6_base(), k, 0x2b0a0fe7f76c0int, 0x1d96ebf47d794int);
    let k = lemma_even(p6(), p6_base(), k, 0x1d96ebf47d794int, 0x36bdfd84610cint);
    let k = lemma_even(p6(), p6_base(), k, 0x36bdfd84610cint, 0x38c87e36453a9int);
    let k = lemma_odd(p6(), p6_base(), k, 0x38c87e36453a9int, 0x24c862fa170int);
    let k = lemma_odd(p6(), p6_base(), k, 0x24c862fa170int, 0x330a6c442ccf5int);
    let k = lemma_odd(p6(), p6_base(), k, 0x330a6c442ccf5int, 0x41a6c09b22722int);
    let k = lemma_odd(p6(), p6_base(), k, 0x41a6c09b22722int, 0x1fc5944bd3806int);
    let k = lemma_even(p6(), p6_base(), k, 0x1fc5944bd3806int, 0x102f823f67813int);
    let k = lemma_even(p6(), p6_base(), k, 0x102f823f67813int, 0x38c864fc34210int);
    let k = lemma_even(p6(), p6_base(), k, 0x38c864fc34210int, 0x2b1d269c1f0eeint);
    let k = lemma_odd(p6(), p6_base(), k, 0x2b1d269c1f0eeint, 0x2f1dd9c00f5d0int);
    let k = lemma_odd(p6(), p6_base(), k, 0x2f1dd9c00f5d0int, 0x15dd8283e6054int);
    let k = lemma_odd(p6(), p6_base(), k, 0x15dd8283e6054int, 0x25e3d60ad58d8int);
    let k = lemma_odd(p6(), p6_base(), k, 0x25e3d60ad58d8int, 0x29f3122be3cafint);
    let k = lemma_odd(p6(), p6_base(), k, 0x29f3122be3cafint, 0x1f2c37373d4f0int);
    let k = lemma_even(p6(), p6_base(), k, 0x1f2c37373d4f0int, 0x37f925de3c959int);
    let k = lemma_even(p6(), p6_base(), k, 0x37f925de3c959int, 0x9061beb53376int);
    let k = lemma_even(p6(), p6_base(), k, 0x9061beb53376int, 0x1238cbca5ed9dint);
    let k = lemma_odd(p6(), p6_base(), k, 0x1238cbca5ed9dint, 0x1d7a6b278f5faint);
    let k = lemma_odd(p6(), p6_base(), k, 0x1d7a6b278f5faint, 0x390a4a199e55eint);
    let k = lemma_odd(p6(), p6_base(), k, 0x390a4a199e55eint, 0x127f45891262cint);
    let k = lemma_even(p6(), p6_base(), k, 0x127f45891262cint, 0x6e3dfe9ca8deint);
    let k = lemma_odd(p6(), p6_base(), k, 0x6e3dfe9ca8deint, 0x1);
    assert(k == p8() * p7());
}

/// `p6()` is prime, since `p8()` and `p7()` are.
proof fn lemma_p6_prime()
    requires
        prime::is_prime(p8()),
        prime::is_prime(p7()),
    ensures
        prime::is_prime(p6()),
{
    lemma_p6_first_power();
    lemma_p6_second_power();
    lemma_p6_product_power();
    lemma_inverse_of_power(p6(), p6_base(), p7() as nat, 0x40cae279246b8int, 0xc1a8109e02f6int);
    lemma_inverse_of_power(p6(), p6_base(), p8() as nat, 0x4735c3113b127int, 0x2cf51ccba75d1int);
    prime::lemma_prime_by_order_two(p6(), p8(), p7(), p6_base(), 0xc1a8109e02f6int, 0x2cf51ccba75d1int);
}

/// An element of the order `p6()` modulo `p5()`.
#[verifier::inline]
spec fn p5_base() -> int {
    0x5c52cd00a1f4ba7int
}

/// `p5()` is prime, since `p6()` is.
proof fn lemma_p5_prime()
    requires
        prime::is_prime(p6()),
    ensures
        prime::is_prime(p5()),
{
    let k = lemma_first(p5(), p5_base());
    let k = lemma_even(p5(), p5_base(), k, 0x5c52cd00a1f4ba7int, 0x2b08f3b0cfee8c13int);
    let k = lemma_even(p5(), p5_base(), k, 0x2b08f3b0cfee8c13int, 0x189bd270085d3e75int);
    let k = lemma_even(p5(), p5_base(), k, 0x189bd270085d3e75int, 0xfe5ad30ded56b28int);
    let k = lemma_odd(p5(), p5_base(), k, 0xfe5ad30ded56b28int, 0x2a7e2f8f022959cint);
    let k = lemma_odd(p5(), p5_base(), k, 0x2a7e2f8f022959cint, 0x2f4914ff9352ac16int);
    let k = lemma_odd(p5(), p5_base(), k, 0x2f4914ff9352ac16int, 0x2f8a3cf5cf6597cint);
    let k = lemma_even(p5(), p5_base(), k, 0x2f8a3cf5cf6597cint, 0x2762e9548333aa1aint);
    let k = lemma_odd(p5(), p5_base(), k, 0x2762e9548333aa1aint, 0x252d0447a20f9dbaint);
    let k = lemma_odd(p5(), p5_base(), k, 0x252d0447a20f9dbaint, 0x1401af293a77af76int);
    let k = lemma_odd(p5(), p5_base(), k, 0x1401af293a77af76int, 0x1746c2fb02babfcdint);
    let k = lemma_odd(p5(), p5_base(), k, 0x1746c2fb02babfcdint, 0x1c1bb8e6a45fb746int);
    let k = lemma_even(p5(), p5_base(), k, 0x1c1bb8e6a45fb746int, 0x30d6e7f3c4ba385fint);
    let k = lemma_odd(p5(), p5_base(), k, 0x30d6e7f3c4ba385fint, 0x1af681e829033c1int);
    let k = lemma_odd(p5(), p5_base(), k, 0x1af681e829033c1int, 0x39b9ac8e26cbca0aint);
    let k = lemma_odd(p5(), p5_base(), k, 0x39b9ac8e26cbca0aint, 0x2b2c1c7ae20592e7int);
    let k = lemma_odd(p5(), p5_base(), k, 0x2b2c1c7ae20592e7int, 0xbff082e91593abbint);
    let k = lemma_odd(p5(), p5_base(), k, 0xbff082e91593abbint, 0x92ac06ad7979b59int);
    let k = lemma_even(p5(), p5_base(), k, 0x92ac06ad7979b59int, 0x9bd98e3ba4e9a81int);
    let k = lemma_even(p5(), p5_base(), k, 0x9bd98e3ba4e9a81int, 0x76e7fb2a771100bint);
    let k = lemma_odd(p5(), p5_base(), k, 0x76e7fb2a771100bint, 0x23de926dae3ef8bint);
    let k = lemma_odd(p5(), p5_base(), k, 0x23de926dae3ef8bint, 0x8da10b49fbb79cbint);
    let k = lemma_odd(p5(), p5_base(), k, 0x8da10b49fbb79cbint, 0x22b6000ca3fdbbceint);
    let k = lemma_even(p5(), p5_base(), k, 0x22b6000ca3fdbbceint, 0xeecd4927a22108eint);
    let k = lemma_even(p5(), p5_base(), k, 0xeecd4927a22108eint, 0x1e92432f685a9b8dint);
    let k = lemma_even(p5(), p5_base(), k, 0x1e92432f685a9b8dint, 0x7a83f80edd40843int);
    let k = lemma_odd(p5(), p5_base(), k, 0x7a83f80edd40843int, 0x185d01be42a449e6int);
    let k = lemma_even(p5(), p5_base(), k, 0x185d01be42a449e6int, 0x38b202d324326241int);
    let k = lemma_even(p5(), p5_base(), k, 0x38b202d324326241int, 0x384e0cf6f05d1cf0int);
    let k = lemma_even(p5(), p5_base(), k, 0x384e0cf6f05d1cf0int, 0x32027d3b34a82055int);
    let k = lemma_odd(p5(), p5_base(), k, 0x32027d3b34a82055int, 0x3121495b842e975cint);
    let k = lemma_odd(p5(), p5_base(), k, 0x3121495b842e975cint, 0x154f0d8bdd3ad738int);
    let k = lemma_odd(p5(), p5_base(), k, 0x154f0d8bdd3ad738int, 0xbbe6cd12656bc26int);
    let k = lemma_odd(p5(), p5_base(), k, 0xbbe6cd12656bc26int, 0x362ed3b1a3842063int);
    let k = lemma_even(p5(), p5_base(), k, 0x362ed3b1a3842063int, 0x65e05e28afc3435int);
    let k = lemma_odd(p5(), p5_base(), k, 0x65e05e28afc3435int, 0x113cf7dfed74e5dbint);
    let k = lemma_odd(p5(), p5_base(), k, 0x113cf7dfed74e5dbint, 0x3194f3c82e0f7f1cint);
    let k = lemma_even(p5(), p5_base(), k, 0x3194f3c82e0f7f1cint, 0x1a1238b08efdd49fint);
    let k = lemma_even(p5(), p5_base(), k, 0x1a1238b08efdd49fint, 0x1edb00ecfca951bbint);
    let k = lemma_odd(p5(), p5_base(), k, 0x1edb00ecfca951bbint, 0xbcd3f85111987eaint);
    let k = lemma_odd(p5(), p5_base(), k, 0xbcd3f85111987eaint, 0xfce5e1e8eaf374eint);
    let k = lemma_odd(p5(), p5_base(), k, 0xfce5e1e8eaf374eint, 0x3cf02e349d10966bint);
    let k = lemma_even(p5(), p5_base(), k, 0x3cf02e349d10966bint, 0xee348c1365792adint);
    let k = lemma_odd(p5(), p5_base(), k, 0xee348c1365792adint, 0x4391369f8153c5eint);
    let k = lemma_odd(p5(), p5_base(), k, 0x4391369f8153c5eint, 0x3d4e9bf8b25db0f7int);
    let k = lemma_even(p5(), p5_base(), k, 0x3d4e9bf8b25db0f7int, 0x2a463a424802b9d2int);
    let k = lemma_odd(p5(), p5_base(), k, 0x2a463a424802b9d2int, 0xeb53f2a0758341bint);
    let k = lemma_odd(p5(), p5_base(), k, 0xeb53f2a0758341bint, 0x198e2106b867e94aint);
    let k = lemma_odd(p5(), p5_base(), k, 0x198e2106b867e94aint, 0x230deee621c74350int);
    let k = lemma_even(p5(), p5_base(), k, 0x230deee621c74350int, 0x34dc918452bf2534int);
    let k = lemma_odd(p5(), p5_base(), k, 0x34dc918452bf2534int, 0x1);
    assert(k == p6());
    prime::lemma_prime_by_order(p5(), p6(), p5_base(), 0xe0605543c5b9ae3int);
}

/// An element of the order `p5()` modulo `p4()`.
#[verifier::inline]
spec fn p4_base() -> int {
    0x43d06a01b28fc1632b40ebint
}

/// `p4()` is prime, since `p5()` is.
proof fn lemma_p4_prime()
    requires
        prime::is_prime(p5()),
    ensures
        prime::is_prime(p4()),
{
    let k = lemma_first(p4(), p4_base());
    let k = lemma_odd(p4(), p4_base(), k, 0x43d06a01b28fc1632b40ebint, 0x7f09a68d16f42ecb17621bint);
    let k = lemma_odd(p4(), p4_base(), k, 0x7f09a68d16f42ecb17621bint, 0x8ad0264862f3696ce5be41int);
    let k = lemma_odd(p4(), p4_base(), k, 0x8ad0264862f3696ce5be41int, 0x27f19b1b8eb74d760120ffint);
    let k = lemma_even(p4(), p4_base(), k, 0x27f19b1b8eb74d760120ffint, 0x31760b543c4e1aa8cf8d74int);
    let k = lemma_odd(p4(), p4_base(), k, 0x31760b543c4e1aa8cf8d74int, 0x7f9fff7af4771802eac29dint);
    let k = lemma_odd(p4(), p4_base(), k, 0x7f9fff7af4771802eac29dint, 0x77cc19a5b43314be272403int);
    let k = lemma_even(p4(), p4_base(), k, 0x77cc19a5b43314be272403int, 0x838c7c7bbeb722d3ada4f8int);
    let k = lemma_even(p4(), p4_base(), k, 0x838c7c7bbeb722d3ada4f8int, 0x41e9b6917afecf53c58c75int);
    let k = lemma_even(p4(), p4_base(), k, 0x41e9b6917afecf53c58c75int, 0x83a3d990e092e1894fb69bint);
    let k = lemma_odd(p4(), p4_base(), k, 0x83a3d990e092e1894fb69bint, 0x2b74dbda16cd3d60b5427aint);
    let k = lemma_even(p4(), p4_base(), k, 0x2b74dbda16cd3d60b5427aint, 0x6b46ff1a1217a87d0680cint);
    let k = lemma_even(p4(), p4_base(), k, 0x6b46ff1a1217a87d0680cint, 0x7467dec770ea7b1b11f0fbint);
    let k = lemma_odd(p4(), p4_base(), k, 0x7467dec770ea7b1b11f0fbint, 0x5472f07359f6732cf91fedint);
    let k = lemma_even(p4(), p4_base(), k, 0x5472f07359f6732cf91fedint, 0x4d653e1287d51ed885b3c8int);
    let k = lemma_odd(p4(), p4_base(), k, 0x4d653e1287d51ed885b3c8int, 0x7cfbd4b5d1cc1d739029a8int);
    let k = lemma_even(p4(), p4_base(), k, 0x7cfbd4b5d1cc1d739029a8int, 0x8d3bd708e741ae567e08c4int);
    let k = lemma_even(p4(), p4_base(), k, 0x8d3bd708e741ae567e08c4int, 0x88271a3e9ec889b29d0dc7int);
    let k = lemma_odd(p4(), p4_base(), k, 0x88271a3e9ec889b29d0dc7int, 0x6984217d4c9f0a3d44ee4eint);
    let k = lemma_even(p4(), p4_base(), k, 0x6984217d4c9f0a3d44ee4eint, 0x3c43b65949372f6d6fc2c0int);
    let k = lemma_even(p4(), p4_base(), k, 0x3c43b65949372f6d6fc2c0int, 0x7d151e28ca440419594b42int);
    let k = lemma_odd(p4(), p4_base(), k, 0x7d151e28ca440419594b42int, 0x270dfef42acba155759374int);
    let k = lemma_even(p4(), p4_base(), k, 0x270dfef42acba155759374int, 0x7c44201282269f960ea437int);
    let k = lemma_even(p4(), p4_base(), k, 0x7c44201282269f960ea437int, 0x3a95f2205a942710cab898int);
    let k = lemma_even(p4(), p4_base(), k, 0x3a95f2205a942710cab898int, 0x2eb1d25ece62c13b947a64int);
    let k = lemma_even(p4(), p4_base(), k, 0x2eb1d25ece62c13b947a64int, 0x1b50c2ecf543ae2da7c372int);
    let k = lemma_odd(p4(), p4_base(), k, 0x1b50c2ecf543ae2da7c372int, 0xc115a06a7222f01065ba8int);
    let k = lemma_even(p4(), p4_base(), k, 0xc115a06a7222f01065ba8int, 0x2f9b23338c5d502a0bcd43int);
    let k = lemma_odd(p4(), p4_base(), k, 0x2f9b23338c5d502a0bcd43int, 0x18429b2ebcfac1008ea309int);
    let k = lemma_even(p4(), p4_base(), k, 0x18429b2ebcfac1008ea309int, 0x21dc212de78f709834bc43int);
    let k = lemma_even(p4(), p4_base(), k, 0x21dc212de78f709834bc43int, 0x70b2c5e31a8b082d2bef1bint);
    let k = lemma_even(p4(), p4_base(), k, 0x70b2c5e31a8b082d2bef1bint, 0x44d135ee1312e5f12204ccint);
    let k = lemma_even(p4(), p4_base(), k, 0x44d135ee1312e5f12204ccint, 0x7daa0027040becd3521c7aint);
    let k = lemma_even(p4(), p4_base(), k, 0x7daa0027040becd3521c7aint, 0x5e514cd0936b8b94842c89int);
    let k = lemma_odd(p4(), p4_base(), k, 0x5e514cd0936b8b94842c89int, 0x5cd054287601dc7d94b4c0int);
    let k = lemma_odd(p4(), p4_base(), k, 0x5cd054287601dc7d94b4c0int, 0x485ff9cd32ba0b0082bf27int);
    let k = lemma_odd(p4(), p4_base(), k, 0x485ff9cd32ba0b0082bf27int, 0x646d84178ded4f5a5bddb5int);
    let k = lemma_even(p4(), p4_base(), k, 0x646d84178ded4f5a5bddb5int, 0xfcbe0bab5bc5812a65c8bint);
    let k = lemma_even(p4(), p4_base(), k, 0xfcbe0bab5bc5812a65c8bint, 0x312ed454d0f6f42e868c8cint);
    let k = lemma_odd(p4(), p4_base(), k, 0x312ed454d0f6f42e868c8cint, 0x447748785d934251426020int);
    let k = lemma_even(p4(), p4_base(), k, 0x447748785d934251426020int, 0x27a8ad2558448707cafa0int);
    let k = lemma_odd(p4(), p4_base(), k, 0x27a8ad2558448707cafa0int, 0x30a3fe0325184588993dd4int);
    let k = lemma_even(p4(), p4_base(), k, 0x30a3fe0325184588993dd4int, 0x75f8e16998ec936b3a16b7int);
    let k = lemma_odd(p4(), p4_base(), k, 0x75f8e16998ec936b3a16b7int, 0x816968afe8f717d8a9caf7int);
    let k = lemma_even(p4(), p4_base(), k, 0x816968afe8f717d8a9caf7int, 0x103c9a1ade9acdae13f674int);
    let k = lemma_odd(p4(), p4_base(), k, 0x103c9a1ade9acdae13f674int, 0x587f7d6a06cde03d4fabbeint);
    let k = lemma_even(p4(), p4_base(), k, 0x587f7d6a06cde03d4fabbeint, 0xaf902c9b1339361274398int);
    let k = lemma_even(p4(), p4_base(), k, 0xaf902c9b1339361274398int, 0x3831f97d04d8d12109bdd1int);
    let k = lemma_odd(p4(), p4_base(), k, 0x3831f97d04d8d12109bdd1int, 0x3ec7a4c0d46ab479abcae7int);
    let k = lemma_odd(p4(), p4_base(), k, 0x3ec7a4c0d46ab479abcae7int, 0x5ac47e4df58617612a20f6int);
    let k = lemma_even(p4(), p4_base(), k, 0x5ac47e4df58617612a20f6int, 0x6ab7c969261a2a9672b17cint);
    let k = lemma_odd(p4(), p4_base(), k, 0x6ab7c969261a2a9672b17cint, 0x3c1c579b87b28f946ad8e1int);
    let k = lemma_odd(p4(), p4_base(), k, 0x3c1c579b87b28f946ad8e1int, 0x4a86da45ef457a1505993dint);
    let k = lemma_odd(p4(), p4_base(), k, 0x4a86da45ef457a1505993dint, 0x1f5b78cc6a3cd42e3736eint);
    let k = lemma_odd(p4(), p4_base(), k, 0x1f5b78cc6a3cd42e3736eint, 0x1fbee565d1805310897e0cint);
    let k = lemma_odd(p4(), p4_base(), k, 0x1fbee565d1805310897e0cint, 0xf3e5089fde9d426524fb3int);
    let k = lemma_odd(p4(), p4_base(), k, 0xf3e5089fde9d426524fb3int, 0x5c1e5687012a092cd03077int);
    let k = lemma_even(p4(), p4_base(), k, 0x5c1e5687012a092cd03077int, 0x50b27d644f77417e11a622int);
    let k = lemma_odd(p4(), p4_base(), k, 0x50b27d644f77417e11a622int, 0x15c571829053a3b58859b5int);
    let k = lemma_odd(p4(), p4_base(), k, 0x15c571829053a3b58859b5int, 0x22576b62349256b80fa8cfint);
    let k = lemma_odd(p4(), p4_base(), k, 0x22576b62349256b80fa8cfint, 0x38c52be32bfebc68cae2dfint);
    let k = lemma_odd(p4(), p4_base(), k, 0x38c52be32bfebc68cae2dfint, 0x1);
    assert(k == p5());
    prime::lemma_prime_by_order(p4(), p5(), p4_base(), 0x7f9d1382843bc75f2bbbb0int);
}

/// An element of the order `p4()` modulo `p3()`.
#[verifier::inline]
spec fn p3_base() -> int {
    0x1ae2c2ca6b6676caa5c3933f166ac4090cint
}

/// `p3()` is prime, since `p4()` is.
proof fn lemma_p3_prime()
    requires
        prime::is_prime(p4()),
    ensures
        prime::is_prime(p3()),
{
    let k = lemma_first(p3(), p3_base());
    let k = lemma_even(p3(), p3_base(), k, 0x1ae2c2ca6b6676caa5c3933f166ac4090cint, 0x334a11ddb34626865e6f9ee42745f6e30eint);
    let k = lemma_even(p3(), p3_base(), k, 0x334a11ddb34626865e6f9ee42745f6e30eint, 0x2cd5965fd9bb194a9c1951d16a9bf9937cint);
    let k = lemma_even(p3(), p3_base(), k, 0x2cd5965fd9bb194a9c1951d16a9bf9937cint, 0x151e7ed66fcf06be0894ceef457408531cint);
    let k = lemma_odd(p3(), p3_base(), k, 0x151e7ed66fcf06be0894ceef457408531cint, 0x754678ff7c8036caa955d9aa2b07d1919int);
    let k = lemma_odd(p3(), p3_base(), k, 0x754678ff7c8036caa955d9aa2b07d1919int, 0x644015095959dc68130cde324eed2eedeint);
    let k = lemma_odd(p3(), p3_base(), k, 0x644015095959dc68130cde324eed2eedeint, 0x8efe863f059569b3c108a73d2ea2c7571int);
    let k = lemma_even(p3(), p3_base(), k, 0x8efe863f059569b3c108a73d2ea2c7571int, 0xbd516e7f89a5cb081278da2b7a2bffd27int);
    let k = lemma_even(p3(), p3_base(), k, 0xbd516e7f89a5cb081278da2b7a2bffd27int, 0x1e0ba24ddb39f1a54fd41a63c4ff71ea36int);
    let k = lemma_odd(p3(), p3_base(), k, 0x1e0ba24ddb39f1a54fd41a63c4ff71ea36int, 0x1b65cc2505541066d4f056eb093c196213int);
    let k = lemma_even(p3(), p3_base(), k, 0x1b65cc2505541066d4f056eb093c196213int, 0x3556f22207c279ffa4d31459ef494e4192int);
    let k = lemma_odd(p3(), p3_base(), k, 0x3556f22207c279ffa4d31459ef494e4192int, 0xd6e1fdc4404e10621cff0559ba87b29ecint);
    let k = lemma_even(p3(), p3_base(), k, 0xd6e1fdc4404e10621cff0559ba87b29ecint, 0x2478935d404c1f362d77a835cb7349f11eint);
    let k = lemma_even(p3(), p3_base(), k, 0x2478935d404c1f362d77a835cb7349f11eint, 0x2e68bd51effe71c8a0ac8428e7699155b9int);
    let k = lemma_even(p3(), p3_base(), k, 0x2e68bd51effe71c8a0ac8428e7699155b9int, 0x3242461d8fc11ab498c04d2ea858597b9bint);
    let k = lemma_odd(p3(), p3_base(), k, 0x3242461d8fc11ab498c04d2ea858597b9bint, 0x135507b31bcff12e42c6029d111ca78951int);
    let k = lemma_odd(p3(), p3_base(), k, 0x135507b31bcff12e42c6029d111ca78951int, 0x1e739cea8a7a51b11a0658c4a7d597f1faint);
    let k = lemma_odd(p3(), p3_base(), k, 0x1e739cea8a7a51b11a0658c4a7d597f1faint, 0x2db236e9ad030418fd98126a8e11d1d881int);
    let k = lemma_odd(p3(), p3_base(), k, 0x2db236e9ad030418fd98126a8e11d1d881int, 0xdd7debaaa615305d49238c98502b9d449int);
    let k = lemma_odd(p3(), p3_base(), k, 0xdd7debaaa615305d49238c98502b9d449int, 0x2a0b57796a5309b7aa08e1107223a953d3int);
    let k = lemma_odd(p3(), p3_base(), k, 0x2a0b57796a5309b7aa08e1107223a953d3int, 0x236c94caa6ef4f461ccc612f6aed8fe03fint);
    let k = lemma_even(p3(), p3_base(), k, 0x236c94caa6ef4f461ccc612f6aed8fe03fint, 0x546eda4615402d2fe7c46283a6674b2int);
    let k = lemma_odd(p3(), p3_base(), k, 0x546eda4615402d2fe7c46283a6674b2int, 0x1d025adde0a52a00165ab7176b5837e5aeint);
    let k = lemma_even(p3(), p3_base(), k, 0x1d025adde0a52a00165ab7176b5837e5aeint, 0x313f8093ea003936b8c88bc85b88100752int);
    let k = lemma_even(p3(), p3_base(), k, 0x313f8093ea003936b8c88bc85b88100752int, 0x912e29ec80c98e543892a6fee820d8c13int);
    let k = lemma_even(p3(), p3_base(), k, 0x912e29ec80c98e543892a6fee820d8c13int, 0x131117a2d1118c638edce96a0e89e944aaint);
    let k = lemma_odd(p3(), p3_base(), k, 0x131117a2d1118c638edce96a0e89e944aaint, 0x770a30c51e686b031b117a7c89531a89cint);
    let k = lemma_odd(p3(), p3_base(), k, 0x770a30c51e686b031b117a7c89531a89cint, 0x72fb5b304c111a48476ab739f7ec60070int);
    let k = lemma_odd(p3(), p3_base(), k, 0x72fb5b304c111a48476ab739f7ec60070int, 0x1d30535e7a91289795da4a1135c3907b53int);
    let k = lemma_even(p3(), p3_base(), k, 0x1d30535e7a91289795da4a1135c3907b53int, 0x1a356ee9b36b42ac3fff84b6a41fbc9bfcint);
    let k = lemma_odd(p3(), p3_base(), k, 0x1a356ee9b36b42ac3fff84b6a41fbc9bfcint, 0x1d3e49f81294f34c35e5f7fbfaf4624a18int);
    let k = lemma_even(p3(), p3_base(), k, 0x1d3e49f81294f34c35e5f7fbfaf4624a18int, 0x371fb6c1f8834014118643105e4351a7e1int);
    let k = lemma_even(p3(), p3_base(), k, 0x371fb6c1f8834014118643105e4351a7e1int, 0x373cf4f659a902a58eeff9a231c278a9eint);
    let k = lemma_odd(p3(), p3_base(), k, 0x373cf4f659a902a58eeff9a231c278a9eint, 0x18d2e09ebcd462af337069cfabc85b18c4int);
    let k = lemma_even(p3(), p3_base(), k, 0x18d2e09ebcd462af337069cfabc85b18c4int, 0x387859ed7683914921df2795d36bfc556bint);
    let k = lemma_even(p3(), p3_base(), k, 0x387859ed7683914921df2795d36bfc556bint, 0x103d32bb42cc3d496f2b5f60b4fd53aa6fint);
    let k = lemma_odd(p3(), p3_base(), k, 0x103d32bb42cc3d496f2b5f60b4fd53aa6fint, 0xa989ce1b1f5ce61daf3b4bc98f8036fe0int);
    let k = lemma_even(p3(), p3_base(), k, 0xa989ce1b1f5ce61daf3b4bc98f8036fe0int, 0x3040e7cd1e30d10c34e33528be0a096294int);
    let k = lemma_even(p3(), p3_base(), k, 0x3040e7cd1e30d10c34e33528be0a096294int, 0x271af0a6b297f293bff1bb9cc83f7f9674int);
    let k = lemma_even(p3(), p3_base(), k, 0x271af0a6b297f293bff1bb9cc83f7f9674int, 0x18904294e378cbc226538d476b43cd9303int);
    let k = lemma_even(p3(), p3_base(), k, 0x18904294e378cbc226538d476b43cd9303int, 0x9760b9f3bcd05aae23c0874bca0f6078eint);
    let k = lemma_even(p3(), p3_base(), k, 0x9760b9f3bcd05aae23c0874bca0f6078eint, 0x2f09328a59b8f8ae57babcdf37e2bbff54int);
    let k = lemma_even(p3(), p3_base(), k, 0x2f09328a59b8f8ae57babcdf37e2bbff54int, 0x324cd8da2acf184a796d4e38f7a6ff5e78int);
    let k = lemma_even(p3(), p3_base(), k, 0x324cd8da2acf184a796d4e38f7a6ff5e78int, 0x26f68dda0ca4ae9419d659692650e48e74int);
    let k = lemma_odd(p3(), p3_base(), k, 0x26f68dda0ca4ae9419d659692650e48e74int, 0x23d97d44897e2efd292fb9558e24420b98int);
    let k = lemma_odd(p3(), p3_base(), k, 0x23d97d44897e2efd292fb9558e24420b98int, 0x311c15b2560609dbb7c85c2373f5dd25afint);
    let k = lemma_odd(p3(), p3_base(), k, 0x311c15b2560609dbb7c85c2373f5dd25afint, 0x4cb2cdde88c5177271101f0defc0ea440int);
    let k = lemma_odd(p3(), p3_base(), k, 0x4cb2cdde88c5177271101f0defc0ea440int, 0x27d9f727f4e85584b4f6d6557f2b376259int);
    let k = lemma_odd(p3(), p3_base(), k, 0x27d9f727f4e85584b4f6d6557f2b376259int, 0x65f3d23d4a555ee5e8466200f2ec128d5int);
    let k = lemma_even(p3(), p3_base(), k, 0x65f3d23d4a555ee5e8466200f2ec128d5int, 0x38a1e6dbd6c3ae2f60899afdd3f851865int);
    let k = lemma_even(p3(), p3_base(), k, 0x38a1e6dbd6c3ae2f60899afdd3f851865int, 0x140b15b10a0127aacdbd348a97834bd119int);
    let k = lemma_even(p3(), p3_base(), k, 0x140b15b10a0127aacdbd348a97834bd119int, 0x197096472aa814b079b80facb0ba781332int);
    let k = lemma_odd(p3(), p3_base(), k, 0x197096472aa814b079b80facb0ba781332int, 0x332fbf55f2db69057e2c70e08bcafcd9a7int);
    let k = lemma_even(p3(), p3_base(), k, 0x332fbf55f2db69057e2c70e08bcafcd9a7int, 0x657c66796da3f11f83c43fb6e82e7463eint);
    let k = lemma_even(p3(), p3_base(), k, 0x657c66796da3f11f83c43fb6e82e7463eint, 0x145abdf701cdfd4589b9d571bd522fcbacint);
    let k = lemma_odd(p3(), p3_base(), k, 0x145abdf701cdfd4589b9d571bd522fcbacint, 0x184c15d2fd662c16754b495ffc9332f28eint);
    let k = lemma_odd(p3(), p3_base(), k, 0x184c15d2fd662c16754b495ffc9332f28eint, 0x2cc413b48cb33e1fafbf5dbc3179e84118int);
    let k = lemma_odd(p3(), p3_base(), k, 0x2cc413b48cb33e1fafbf5dbc3179e84118int, 0x33ad1d715d29b6659af4582f41f4b68e3cint);
    let k = lemma_odd(p3(), p3_base(), k, 0x33ad1d715d29b6659af4582f41f4b68e3cint, 0x266f46f89befa335feb852d6d190a13523int);
    let k = lemma_odd(p3(), p3_base(), k, 0x266f46f89befa335feb852d6d190a13523int, 0x173d250a697a68739ecb7e9816e176729cint);
    let k = lemma_odd(p3(), p3_base(), k, 0x173d250a697a68739ecb7e9816e176729cint, 0x390cdbbea9b311fd76e6af3733a6dd751fint);
    let k = lemma_even(p3(), p3_base(), k, 0x390cdbbea9b311fd76e6af3733a6dd751fint, 0x3340d56740eaee55ba6911c14b22d6e512int);
    let k = lemma_even(p3(), p3_base(), k, 0x3340d56740eaee55ba6911c14b22d6e512int, 0x2f20b403e56735db981880bed05e8fe414int);
    let k = lemma_odd(p3(), p3_base(), k, 0x2f20b403e56735db981880bed05e8fe414int, 0xad883b9dc6bb8408805598cb096cf5e00int);
    let k = lemma_odd(p3(), p3_base(), k, 0xad883b9dc6bb8408805598cb096cf5e00int, 0x183dcb732d5220593575f443349797eaa0int);
    let k = lemma_odd(p3(), p3_base(), k, 0x183dcb732d5220593575f443349797eaa0int, 0x163134acb14ad6e51dfbbdcabb2bb90707int);
    let k = lemma_even(p3(), p3_base(), k, 0x163134acb14ad6e51dfbbdcabb2bb90707int, 0x15fbaa64e5f19339fecb236e1e1be87846int);
    let k = lemma_odd(p3(), p3_base(), k, 0x15fbaa64e5f19339fecb236e1e1be87846int, 0x2203144a0510271da7ef0bbe7e861fc7b2int);
    let k = lemma_odd(p3(), p3_base(), k, 0x2203144a0510271da7ef0bbe7e861fc7b2int, 0x31721ef8310b3bd6bfde2eb8fe20fe77f7int);
    let k = lemma_odd(p3(), p3_base(), k, 0x31721ef8310b3bd6bfde2eb8fe20fe77f7int, 0x1e7eeccb078713353c7eeb4315b877cca4int);
    let k = lemma_odd(p3(), p3_base(), k, 0x1e7eeccb078713353c7eeb4315b877cca4int, 0x25f3e79434b788d9b02a39ca153f4e5972int);
    let k = lemma_even(p3(), p3_base(), k, 0x25f3e79434b788d9b02a39ca153f4e5972int, 0x19de6cc8ac620e1043791bb4bb7de17658int);
    let k = lemma_even(p3(), p3_base(), k, 0x19de6cc8ac620e1043791bb4bb7de17658int, 0x2c371a2a4c7849819bd5b7961d5b8a806eint);
    let k = lemma_odd(p3(), p3_base(), k, 0x2c371a2a4c7849819bd5b7961d5b8a806eint, 0x194a3c0b7b186dbe9fc846219906e974a0int);
    let k = lemma_even(p3(), p3_base(), k, 0x194a3c0b7b186dbe9fc846219906e974a0int, 0x338a0cbda247fe9345e515b950d9659215int);
    let k = lemma_odd(p3(), p3_base(), k, 0x338a0cbda247fe9345e515b950d9659215int, 0x3901ad9e94ce7063e215952bff20e70062int);
    let k = lemma_even(p3(), p3_base(), k, 0x3901ad9e94ce7063e215952bff20e70062int, 0x37d5a9a9cfdb42e62bd8f65f37e6dd0e4fint);
    let k = lemma_even(p3(), p3_base(), k, 0x37d5a9a9cfdb42e62bd8f65f37e6dd0e4fint, 0x29649b69079391d4dfc44f0c6e5be5a393int);
    let k = lemma_even(p3(), p3_base(), k, 0x29649b69079391d4dfc44f0c6e5be5a393int, 0x3f1199c8583ab778152a053f6dda8254fint);
    let k = lemma_odd(p3(), p3_base(), k, 0x3f1199c8583ab778152a053f6dda8254fint, 0xa8616bf5a31802fcf7f2ef9954130b01dint);
    let k = lemma_even(p3(), p3_base(), k, 0xa8616bf5a31802fcf7f2ef9954130b01dint, 0x1326784f7d9a8f78ba8451b3282a09f1d4int);
    let k = lemma_odd(p3(), p3_base(), k, 0x1326784f7d9a8f78ba8451b3282a09f1d4int, 0x1fd09445e83a8d4b34d9597f759d17d77bint);
    let k = lemma_odd(p3(), p3_base(), k, 0x1fd09445e83a8d4b34d9597f759d17d77bint, 0xdcce9fabbfdd0845c9d51aac9219557a4int);
    let k = lemma_even(p3(), p3_base(), k, 0xdcce9fabbfdd0845c9d51aac9219557a4int, 0x39ff89ecdac2ceb10530aa416914983792int);
    let k = lemma_even(p3(), p3_base(), k, 0x39ff89ecdac2ceb10530aa416914983792int, 0x2cd7dc38f576cbde3c041d431e15adde01int);
    let k = lemma_even(p3(), p3_base(), k, 0x2cd7dc38f576cbde3c041d431e15adde01int, 0x30109f4a1b44c12e63a81691a12887e0d8int);
    let k = lemma_odd(p3(), p3_base(), k, 0x30109f4a1b44c12e63a81691a12887e0d8int, 0x37faa9a88a9c9fc6a012bf055085d267fbint);
    let k = lemma_odd(p3(), p3_base(), k, 0x37faa9a88a9c9fc6a012bf055085d267fbint, 0x1);
    assert(k == p4());
    prime::lemma_prime_by_order(p3(), p4(), p3_base(), 0x301ca9f38446aff6c3063f39e6ef47be52int);
}

/// An element of the order `p3()` modulo `p2()`.
#[verifier::inline]
spec fn p2_base() -> int {
    0x4000int
}

/// `p2()` is prime, since `p3()` is.
proof fn lemma_p2_prime()
    requires
        prime::is_prime(p3()),
    ensures
        prime::is_prime(p2()),
{
    let k = lemma_first(p2(), p2_base());
    let k = lemma_odd(p2(), p2_base(), k, 0x4000, 0x40000000000int);
    let k = lemma_odd(p2(), p2_base(), k, 0x40000000000int, 0x4000000000000000000000000int);
    let k = lemma_even(p2(), p2_base(), k, 0x4000000000000000000000000int, 0x1784b39dc4f7061d71864d3815dd731a233int);
    let k = lemma_odd(p2(), p2_base(), k, 0x1784b39dc4f7061d71864d3815dd731a233int, 0x271878a756acb6b6f13286ef6c6775712d8int);
    let k = lemma_even(p2(), p2_base(), k, 0x271878a756acb6b6f13286ef6c6775712d8int, 0x1cc27d3c1528c687e70c140e837daf80e86int);
    let k = lemma_even(p2(), p2_base(), k, 0x1cc27d3c1528c687e70c140e837daf80e86int, 0x6fcaa75f14e44ffc01fedd926af593873aint);
    let k = lemma_even(p2(), p2_base(), k, 0x6fcaa75f14e44ffc01fedd926af593873aint, 0x2a192f9c6d64b754f5b05e18a425fd8b142int);
    let k = lemma_even(p2(), p2_base(), k, 0x2a192f9c6d64b754f5b05e18a425fd8b142int, 0x1f46f6982ee2c6917e8fa5577ca09d0b569int);
    let k = lemma_even(p2(), p2_base(), k, 0x1f46f6982ee2c6917e8fa5577ca09d0b569int, 0x1fc46d4015de4efd0f8ffca57324e8dcc49int);
    let k = lemma_odd(p2(), p2_base(), k, 0x1fc46d4015de4efd0f8ffca57324e8dcc49int, 0x3811691944a83b0547195d5aa74cce00edint);
    let k = lemma_odd(p2(), p2_base(), k, 0x3811691944a83b0547195d5aa74cce00edint, 0x3d0a57c7ca98ddf81e193c9bacb4d96cb1int);
    let k = lemma_odd(p2(), p2_base(), k, 0x3d0a57c7ca98ddf81e193c9bacb4d96cb1int, 0x260528d5d369b872a52f9ed912770818423int);
    let k = lemma_odd(p2(), p2_base(), k, 0x260528d5d369b872a52f9ed912770818423int, 0x161c2a55ae98d8a34395a6f6e989b5a2e5eint);
    let k = lemma_odd(p2(), p2_base(), k, 0x161c2a55ae98d8a34395a6f6e989b5a2e5eint, 0x2b748eccff6c4d92e59c8b21b926fd3a5adint);
    let k = lemma_odd(p2(), p2_base(), k, 0x2b748eccff6c4d92e59c8b21b926fd3a5adint, 0x22182d7a923348203cb188eec81c9632ffcint);
    let k = lemma_even(p2(), p2_base(), k, 0x22182d7a923348203cb188eec81c9632ffcint, 0x444beb3193c6f96e68606cd202ef07d9c3int);
    let k = lemma_even(p2(), p2_base(), k, 0x444beb3193c6f96e68606cd202ef07d9c3int, 0x22372e67013a7053d50047ec9f3b873ba0fint);
    let k = lemma_even(p2(), p2_base(), k, 0x22372e67013a7053d50047ec9f3b873ba0fint, 0x1450628605d38fb31e684512ff6e57958b3int);
    let k = lemma_even(p2(), p2_base(), k, 0x1450628605d38fb31e684512ff6e57958b3int, 0x26d843fb412b55eefecb24d56e5d7ee2dccint);
    let k = lemma_odd(p2(), p2_base(), k, 0x26d843fb412b55eefecb24d56e5d7ee2dccint, 0xbfc967e478b4a4584fb3a3bcdedc1df0d4int);
    let k = lemma_odd(p2(), p2_base(), k, 0xbfc967e478b4a4584fb3a3bcdedc1df0d4int, 0x1a3914ecf93c9dccbf9bae206764eddfaa6int);
    let k = lemma_even(p2(), p2_base(), k, 0x1a3914ecf93c9dccbf9bae206764eddfaa6int, 0xd0ef9f58cb4a3b9a3829ee81b43d482445int);
    let k = lemma_odd(p2(), p2_base(), k, 0xd0ef9f58cb4a3b9a3829ee81b43d482445int, 0x30f9b99b383cf920c74f43090bc7fbb3794int);
    let k = lemma_odd(p2(), p2_base(), k, 0x30f9b99b383cf920c74f43090bc7fbb3794int, 0x1e1446b8365427075e01a6f78b5c4d2f71dint);
    let k = lemma_even(p2(), p2_base(), k, 0x1e1446b8365427075e01a6f78b5c4d2f71dint, 0x24039a9e7b63b84d565300d98f2b5d47272int);
    let k = lemma_even(p2(), p2_base(), k, 0x24039a9e7b63b84d565300d98f2b5d47272int, 0x3191c9e34322e40d3d7e3ee1671a900c4f9int);
    let k = lemma_odd(p2(), p2_base(), k, 0x3191c9e34322e40d3d7e3ee1671a900c4f9int, 0x1d1283626f09b4d2cb62cddcc08e4384b86int);
    let k = lemma_odd(p2(), p2_base(), k, 0x1d1283626f09b4d2cb62cddcc08e4384b86int, 0xc574016a61491c598ed5666b6957a420b5int);
    let k = lemma_odd(p2(), p2_base(), k, 0xc574016a61491c598ed5666b6957a420b5int, 0x223a6fa7ba5e1bf7cbe81716ec60eb8d8c0int);
    let k = lemma_odd(p2(), p2_base(), k, 0x223a6fa7ba5e1bf7cbe81716ec60eb8d8c0int, 0x1f2778fa2ff275257babedbbce0bc76d5e9int);
    let k = lemma_odd(p2(), p2_base(), k, 0x1f2778fa2ff275257babedbbce0bc76d5e9int, 0x6fd382b50d6f6daee224bc0b5a51392e92int);
    let k = lemma_even(p2(), p2_base(), k, 0x6fd382b50d6f6daee224bc0b5a51392e92int, 0x1ead4a417266a72c3537519fa12111b2eefint);
    let k = lemma_odd(p2(), p2_base(), k, 0x1ead4a417266a72c3537519fa12111b2eefint, 0x10a9d651f99cb3c38ad99a44289dbc89b51int);
    let k = lemma_odd(p2(), p2_base(), k, 0x10a9d651f99cb3c38ad99a44289dbc89b51int, 0x9c305f0229e79019bb9e950585c4f83834int);
    let k = lemma_odd(p2(), p2_base(), k, 0x9c305f0229e79019bb9e950585c4f83834int, 0x1c3972e91003be4ef5e32a1dbf2fe5ac42cint);
    let k = lemma_even(p2(), p2_base(), k, 0x1c3972e91003be4ef5e32a1dbf2fe5ac42cint, 0x241889e9da3e60fd67f126a30b164716fb2int);
    let k = lemma_even(p2(), p2_base(), k, 0x241889e9da3e60fd67f126a30b164716fb2int, 0x2a38f95ffd820620cfded9d8b4eeeb0feadint);
    let k = lemma_odd(p2(), p2_base(), k, 0x2a38f95ffd820620cfded9d8b4eeeb0feadint, 0x28f95b8a0e41037bb32ff347ba99a0b5473int);
    let k = lemma_odd(p2(), p2_base(), k, 0x28f95b8a0e41037bb32ff347ba99a0b5473int, 0x2326b79199c0862a1e84998022dc85b9b92int);
    let k = lemma_odd(p2(), p2_base(), k, 0x2326b79199c0862a1e84998022dc85b9b92int, 0x763a7d6240c00d6d556935b16879e645a6int);
    let k = lemma_odd(p2(), p2_base(), k, 0x763a7d6240c00d6d556935b16879e645a6int, 0xd23359a6e298ec9b80b703d21571025675int);
    let k = lemma_even(p2(), p2_base(), k, 0xd23359a6e298ec9b80b703d21571025675int, 0x208c0d05737a1478e9347f80d39c28d1078int);
    let k = lemma_even(p2(), p2_base(), k, 0x208c0d05737a1478e9347f80d39c28d1078int, 0x1170c489bc74d3968387181b3f49ad4057cint);
    let k = lemma_even(p2(), p2_base(), k, 0x1170c489bc74d3968387181b3f49ad4057cint, 0x1e8df1526ba13729b1256f95df77032abc2int);
    let k = lemma_even(p2(), p2_base(), k, 0x1e8df1526ba13729b1256f95df77032abc2int, 0x216a8901ae882e58c68dc6968b4b5af618fint);
    let k = lemma_odd(p2(), p2_base(), k, 0x216a8901ae882e58c68dc6968b4b5af618fint, 0xecaf311a891586edda8fc3b09e67621cc6int);
    let k = lemma_odd(p2(), p2_base(), k, 0xecaf311a891586edda8fc3b09e67621cc6int, 0x8d25ecef6f39a46c43ef351303698d9013int);
    let k = lemma_odd(p2(), p2_base(), k, 0x8d25ecef6f39a46c43ef351303698d9013int, 0x1113ee6316b3c02326757c0927d1b7b69a8int);
    let k = lemma_odd(p2(), p2_base(), k, 0x1113ee6316b3c02326757c0927d1b7b69a8int, 0x1447ccdf9004c739cc154f8fe33e5e94443int);
    let k = lemma_odd(p2(), p2_base(), k, 0x1447ccdf9004c739cc154f8fe33e5e94443int, 0x91d68e4e7347dc48af158aff0e566ec94fint);
    let k = lemma_odd(p2(), p2_base(), k, 0x91d68e4e7347dc48af158aff0e566ec94fint, 0x18bed316db5f53291570178cecb140c6886int);
    let k = lemma_odd(p2(), p2_base(), k, 0x18bed316db5f53291570178cecb140c6886int, 0xa5d142bedb201b5f9e3ec2d78608618c84int);
    let k = lemma_odd(p2(), p2_base(), k, 0xa5d142bedb201b5f9e3ec2d78608618c84int, 0x1b737776c299c4b706050a9964d3a9149faint);
    let k = lemma_even(p2(), p2_base(), k, 0x1b737776c299c4b706050a9964d3a9149faint, 0x2eb4861e023caf813b6078fed9cf8596ea5int);
    let k = lemma_even(p2(), p2_base(), k, 0x2eb4861e023caf813b6078fed9cf8596ea5int, 0x1b7310b501800eab2421547d20177521242int);
    let k = lemma_even(p2(), p2_base(), k, 0x1b7310b501800eab2421547d20177521242int, 0x31839ac50801f80978fa28df009e99b955bint);
    let k = lemma_even(p2(), p2_base(), k, 0x31839ac50801f80978fa28df009e99b955bint, 0x314e9379e0b8a6cb198e1b74997277a3737int);
    let k = lemma_odd(p2(), p2_base(), k, 0x314e9379e0b8a6cb198e1b74997277a3737int, 0x3a3c1def681ada30d27376177df4e3ade6int);
    let k = lemma_even(p2(), p2_base(), k, 0x3a3c1def681ada30d27376177df4e3ade6int, 0x20e9112a9dbc14e8ada2afa3c03f9678a8dint);
    let k = lemma_odd(p2(), p2_base(), k, 0x20e9112a9dbc14e8ada2afa3c03f9678a8dint, 0xf22b5e9dd5850585738297bfa33e9d7c2eint);
    let k = lemma_even(p2(), p2_base(), k, 0xf22b5e9dd5850585738297bfa33e9d7c2eint, 0x11b29314701d9c8e2438b86a33a9f063da2int);
    let k = lemma_even(p2(), p2_base(), k, 0x11b29314701d9c8e2438b86a33a9f063da2int, 0x20402da185801a6ef657d4740a691daf4eaint);
    let k = lemma_odd(p2(), p2_base(), k, 0x20402da185801a6ef657d4740a691daf4eaint, 0x2c3ce21b879b43caa5b17545bf314e1e320int);
    let k = lemma_even(p2(), p2_base(), k, 0x2c3ce21b879b43caa5b17545bf314e1e320int, 0x17cb508926454ab47688cb41ec1719994f8int);
    let k = lemma_odd(p2(), p2_base(), k, 0x17cb508926454ab47688cb41ec1719994f8int, 0x68c7966f3f46fc6d15e921aa805b1ebb9dint);
    let k = lemma_odd(p2(), p2_base(), k, 0x68c7966f3f46fc6d15e921aa805b1ebb9dint, 0x231ab68c7f2dbcd322b7497da27dd9e91a8int);
    let k = lemma_even(p2(), p2_base(), k, 0x231ab68c7f2dbcd322b7497da27dd9e91a8int, 0x2327380af877dc23c0e2413e21ffa662e46int);
    let k = lemma_odd(p2(), p2_base(), k, 0x2327380af877dc23c0e2413e21ffa662e46int, 0x7c8be4fab6873595ce0b12f0851bdcbcabint);
    let k = lemma_even(p2(), p2_base(), k, 0x7c8be4fab6873595ce0b12f0851bdcbcabint, 0x305bbdb23e1b48faa246ef18e945259d44fint);
    let k = lemma_even(p2(), p2_base(), k, 0x305bbdb23e1b48faa246ef18e945259d44fint, 0x22083501428424106632a9c33589220d5a4int);
    let k = lemma_even(p2(), p2_base(), k, 0x22083501428424106632a9c33589220d5a4int, 0x2426616e4391ee5cb05b6e46b35626d99edint);
    let k = lemma_even(p2(), p2_base(), k, 0x2426616e4391ee5cb05b6e46b35626d99edint, 0x2d649d0edcd6e54b0fb34a0bf2dfbcf9cfeint);
    let k = lemma_odd(p2(), p2_base(), k, 0x2d649d0edcd6e54b0fb34a0bf2dfbcf9cfeint, 0xbac28d47201992dc0b47be66dcc0173d6aint);
    let k = lemma_odd(p2(), p2_base(), k, 0xbac28d47201992dc0b47be66dcc0173d6aint, 0x1bb7e62cd4504e8e1bfd658ffef4457135fint);
    let k = lemma_odd(p2(), p2_base(), k, 0x1bb7e62cd4504e8e1bfd658ffef4457135fint, 0x1644ce83a4e7580e13ebdcc6709b95b3555int);
    let k = lemma_even(p2(), p2_base(), k, 0x1644ce83a4e7580e13ebdcc6709b95b3555int, 0x2e40b4e299ca1cac46c538d61756b206dc5int);
    let k = lemma_odd(p2(), p2_base(), k, 0x2e40b4e299ca1cac46c538d61756b206dc5int, 0x1a47f6a2252adc43e66096c6995c95032c7int);
    let k = lemma_odd(p2(), p2_base(), k, 0x1a47f6a2252adc43e66096c6995c95032c7int, 0xa11b831435197f35f80896cdc6ffb35b8eint);
    let k = lemma_even(p2(), p2_base(), k, 0xa11b831435197f35f80896cdc6ffb35b8eint, 0x16558cabf3893517a959284844cd0c7c7bcint);
    let k = lemma_odd(p2(), p2_base(), k, 0x16558cabf3893517a959284844cd0c7c7bcint, 0x128849a94d19f1102f9a4bb673531df3d5fint);
    let k = lemma_odd(p2(), p2_base(), k, 0x128849a94d19f1102f9a4bb673531df3d5fint, 0x19d1cfce39e54e9cd818319ca8682224e8aint);
    let k = lemma_even(p2(), p2_base(), k, 0x19d1cfce39e54e9cd818319ca8682224e8aint, 0x107e314ef115dd3db73b2f03fd8cbea35f0int);
    let k = lemma_even(p2(), p2_base(), k, 0x107e314ef115dd3db73b2f03fd8cbea35f0int, 0x1fc41ca8b0d181951acb26f919a17e81427int);
    let k = lemma_even(p2(), p2_base(), k, 0x1fc41ca8b0d181951acb26f919a17e81427int, 0x3194445650effd70be9fa58452257ec0519int);
    let k = lemma_even(p2(), p2_base(), k, 0x3194445650effd70be9fa58452257ec0519int, 0x50dd09e0f24696263f741ccaf788614f7cint);
    let k = lemma_odd(p2(), p2_base(), k, 0x50dd09e0f24696263f741ccaf788614f7cint, 0x1b1b38e02b39f2bfa4a5b13fd7de2c385b7int);
    let k = lemma_even(p2(), p2_base(), k, 0x1b1b38e02b39f2bfa4a5b13fd7de2c385b7int, 0x18d463cd59ac0d2c7697bbb221da36bb8c4int);
    let k = lemma_odd(p2(), p2_base(), k, 0x18d463cd59ac0d2c7697bbb221da36bb8c4int, 0x1c70ca700114fc4ee2b895a13bb1a05f16dint);
    let k = lemma_odd(p2(), p2_base(), k, 0x1c70ca700114fc4ee2b895a13bb1a05f16dint, 0x190e0e5cb1b179f994ba3144dd2fb376137int);
    let k = lemma_even(p2(), p2_base(), k, 0x190e0e5cb1b179f994ba3144dd2fb376137int, 0xd632593316dfa1c984a84103cc269f4a52int);
    let k = lemma_even(p2(), p2_base(), k, 0xd632593316dfa1c984a84103cc269f4a52int, 0xe91b6458992704bf97c49d0e6a2c1d57b0int);
    let k = lemma_even(p2(), p2_base(), k, 0xe91b6458992704bf97c49d0e6a2c1d57b0int, 0x154f9910f9207ef8f0d2cd913eb0d15477dint);
    let k = lemma_odd(p2(), p2_base(), k, 0x154f9910f9207ef8f0d2cd913eb0d15477dint, 0x124b7a290c859f84e47294bc049ef6e7f8eint);
    let k = lemma_odd(p2(), p2_base(), k, 0x124b7a290c859f84e47294bc049ef6e7f8eint, 0x152799e7c38f182e7ec616a4f5631852a86int);
    let k = lemma_even(p2(), p2_base(), k, 0x152799e7c38f182e7ec616a4f5631852a86int, 0x2dcec424d952b4166dc1254c44d9426a845int);
    let k = lemma_odd(p2(), p2_base(), k, 0x2dcec424d952b4166dc1254c44d9426a845int, 0x14e0f18fe37bc532a5c974e560cdddb3a80int);
    let k = lemma_odd(p2(), p2_base(), k, 0x14e0f18fe37bc532a5c974e560cdddb3a80int, 0x8a93800cc3ac6b25fd592f22739f8e21int);
    let k = lemma_even(p2(), p2_base(), k, 0x8a93800cc3ac6b25fd592f22739f8e21int, 0x60b0064b25944d98e863acfbb799ee90cint);
    let k = lemma_odd(p2(), p2_base(), k, 0x60b0064b25944d98e863acfbb799ee90cint, 0x3b2484a2e1213c42c2ba056e702842b03aint);
    let k = lemma_odd(p2(), p2_base(), k, 0x3b2484a2e1213c42c2ba056e702842b03aint, 0x218f2ed0c2bf5020c9c0a448774976c4a8bint);
    let k = lemma_odd(p2(), p2_base(), k, 0x218f2ed0c2bf5020c9c0a448774976c4a8bint, 0x296226b841bd6f47094afd657a8a9cfaf46int);
    let k = lemma_odd(p2(), p2_base(), k, 0x296226b841bd6f47094afd657a8a9cfaf46int, 0x1c87604eab7cfc9cc957816df4e84d31b74int);
    let k = lemma_odd(p2(), p2_base(), k, 0x1c87604eab7cfc9cc957816df4e84d31b74int, 0x21a327d662f1dde4974011979b7e85abd3dint);
    let k = lemma_even(p2(), p2_base(), k, 0x21a327d662f1dde4974011979b7e85abd3dint, 0x1e66f00e054f85da356dbb72d660a36573int);
    let k = lemma_even(p2(), p2_base(), k, 0x1e66f00e054f85da356dbb72d660a36573int, 0x164898153b816c4f2593080b6c0b7c53ec8int);
    let k = lemma_even(p2(), p2_base(), k, 0x164898153b816c4f2593080b6c0b7c53ec8int, 0x12a66507b474847fd757f71b1ef394f44e1int);
    let k = lemma_even(p2(), p2_base(), k, 0x12a66507b474847fd757f71b1ef394f44e1int, 0x1d3a73d901d71dc6e48631b3d4ac76fc42aint);
    let k = lemma_odd(p2(), p2_base(), k, 0x1d3a73d901d71dc6e48631b3d4ac76fc42aint, 0x2de8e981d300397fb918b4ef85a3cb192ecint);
    let k = lemma_odd(p2(), p2_base(), k, 0x2de8e981d300397fb918b4ef85a3cb192ecint, 0xb27ce908892a1f5e39a86e0c18b16f1ac1int);
    let k = lemma_even(p2(), p2_base(), k, 0xb27ce908892a1f5e39a86e0c18b16f1ac1int, 0xcab9d52d4fe43a0c917919008a44dd09c9int);
    let k = lemma_even(p2(), p2_base(), k, 0xcab9d52d4fe43a0c917919008a44dd09c9int, 0x106e8591ff208a0a0bbf071f6cf4dd4726aint);
    let k = lemma_even(p2(), p2_base(), k, 0x106e8591ff208a0a0bbf071f6cf4dd4726aint, 0x13c0e2beff514b70e9d25a93e94cf99571aint);
    let k = lemma_even(p2(), p2_base(), k, 0x13c0e2beff514b70e9d25a93e94cf99571aint, 0x32473eac1092198766815822994e6f2b604int);
    let k = lemma_odd(p2(), p2_base(), k, 0x32473eac1092198766815822994e6f2b604int, 0x28915d88775b218aa9f02812bc77bec6960int);
    let k = lemma_even(p2(), p2_base(), k, 0x28915d88775b218aa9f02812bc77bec6960int, 0x2e298ed5431867a1152c55fc14fe629ac7cint);
    let k = lemma_even(p2(), p2_base(), k, 0x2e298ed5431867a1152c55fc14fe629ac7cint, 0x2b130fa1d196328613af9098273919ea5cbint);
    let k = lemma_odd(p2(), p2_base(), k, 0x2b130fa1d196328613af9098273919ea5cbint, 0x2d869aa891dd13e844307b24265153fe164int);
    let k = lemma_even(p2(), p2_base(), k, 0x2d869aa891dd13e844307b24265153fe164int, 0x18e52465c2bfe5785081830879b99072684int);
    let k = lemma_even(p2(), p2_base(), k, 0x18e52465c2bfe5785081830879b99072684int, 0xf873abc62fd02883566f7f23014c4ef6e9int);
    let k = lemma_odd(p2(), p2_base(), k, 0xf873abc62fd02883566f7f23014c4ef6e9int, 0x2f09fda0c861c5f7b49603879082466f99int);
    let k = lemma_odd(p2(), p2_base(), k, 0x2f09fda0c861c5f7b49603879082466f99int, 0x1d717c0b8609d85224467fcc312dd685ea5int);
    let k = lemma_odd(p2(), p2_base(), k, 0x1d717c0b8609d85224467fcc312dd685ea5int, 0x29690f594d82314e9075d53d1e99af0bc23int);
    let k = lemma_odd(p2(), p2_base(), k, 0x29690f594d82314e9075d53d1e99af0bc23int, 0x1c5081d8de1ec8cb380bc90ef96de6f3c81int);
    let k = lemma_odd(p2(), p2_base(), k, 0x1c5081d8de1ec8cb380bc90ef96de6f3c81int, 0x14e375907e488f8c817ccb7c98c1a0818bdint);
    let k = lemma_odd(p2(), p2_base(), k, 0x14e375907e488f8c817ccb7c98c1a0818bdint, 0x19edbe37a66736743f18cf255000d0fbfe1int);
    let k = lemma_even(p2(), p2_base(), k, 0x19edbe37a66736743f18cf255000d0fbfe1int, 0x3d476d2dd71fa90b0b79a8288e22e59322int);
    let k = lemma_even(p2(), p2_base(), k, 0x3d476d2dd71fa90b0b79a8288e22e59322int, 0x1b1d1947a0e70e4690a5a21122d381b7f20int);
    let k = lemma_odd(p2(), p2_base(), k, 0x1b1d1947a0e70e4690a5a21122d381b7f20int, 0x262efb70fdf01241b60f55a44776f374eaeint);
    let k = lemma_odd(p2(), p2_base(), k, 0x262efb70fdf01241b60f55a44776f374eaeint, 0x262117c25fcc2ed99909e17c7d3e023591cint);
    let k = lemma_even(p2(), p2_base(), k, 0x262117c25fcc2ed99909e17c7d3e023591cint, 0x3106b18ff5cd8372730e481aed56ab13f5eint);
    let k = lemma_even(p2(), p2_base(), k, 0x3106b18ff5cd8372730e481aed56ab13f5eint, 0x282801c229a0ca8c21e34cb84a66d16490aint);
    let k = lemma_odd(p2(), p2_base(), k, 0x282801c229a0ca8c21e34cb84a66d16490aint, 0x274b2afe0a461899c17c97d4459cbe02055int);
    let k = lemma_odd(p2(), p2_base(), k, 0x274b2afe0a461899c17c97d4459cbe02055int, 0x1);
    assert(k == p3());
    prime::lemma_prime_by_order(p2(), p3(), p2_base(), 0x114761f57a17276184231256cbd81b2ad93int);
}

/// An element of the order `p2()` modulo `p1()`.
#[verifier::inline]
spec fn p1_base() -> int {
    0x6941747825185c74c21c65c0572a638494435ae0b3ba38e09b97aa8d26faec1int
}

/// `p1()` is prime, since `p2()` is.
proof fn lemma_p1_prime()
    requires
        prime::is_prime(p2()),
    ensures
        prime::is_prime(p1()),
{
    let k = lemma_first(p1(), p1_base());
    let k = lemma_odd(p1(), p1_base(), k, 0x6941747825185c74c21c65c0572a638494435ae0b3ba38e09b97aa8d26faec1int, 0x81a732e5e696fce4dcf08a863dd06b9e0963962ec8aa594458f77b2a81a90cfint);
    let k = lemma_even(p1(), p1_base(), k, 0x81a732e5e696fce4dcf08a863dd06b9e0963962ec8aa594458f77b2a81a90cfint, 0x648dbd78a50413202a236c9a126a9ed29db336aaf72dc42a03832d229afdd1cint);
    let k = lemma_even(p1(), p1_base(), k, 0x648dbd78a50413202a236c9a126a9ed29db336aaf72dc42a03832d229afdd1cint, 0xb60e77845c6e528bca372908c9616d85209022c306131ae7af9cb2852bf7bcfint);
    let k = lemma_odd(p1(), p1_base(), k, 0xb60e77845c6e528bca372908c9616d85209022c306131ae7af9cb2852bf7bcfint, 0xd1fbf031931f111a0553c76f8c274c1abbe33e18a5c897bdbb543e461ce2042int);
    let k = lemma_even(p1(), p1_base(), k, 0xd1fbf031931f111a0553c76f8c274c1abbe33e18a5c897bdbb543e461ce2042int, 0xfdd6ff16c32ad2f785160cb502d0cd7a6ea0f4c5ab65bb9557bf5f5e3d44d31int);
    let k = lemma_odd(p1(), p1_base(), k, 0xfdd6ff16c32ad2f785160cb502d0cd7a6ea0f4c5ab65bb9557bf5f5e3d44d31int, 0x68da1e97fa41dc4292749b1c7e7bb62e1210c45e39a6fa722e0d44847c9064dint);
    let k = lemma_odd(p1(), p1_base(), k, 0x68da1e97fa41dc4292749b1c7e7bb62e1210c45e39a6fa722e0d44847c9064dint, 0xf32fe381648aa44706a292fa5bdd83bd3bd85237bee5d548ecf367db83328b3int);
    let k = lemma_even(p1(), p1_base(), k, 0xf32fe381648aa44706a292fa5bdd83bd3bd85237bee5d548ecf367db83328b3int, 0xf6b55bf77948b174c610ca851bbd715c6d568f8a9f099ce6ae6ecb37f3dfb95int);
    let k = lemma_even(p1(), p1_base(), k, 0xf6b55bf77948b174c610ca851bbd715c6d568f8a9f099ce6ae6ecb37f3dfb95int, 0xdb9566e6ba572f515df9ff05ab916cb916e827b7af96bd0a0a72ab4738be541int);
    let k = lemma_odd(p1(), p1_base(), k, 0xdb9566e6ba572f515df9ff05ab916cb916e827b7af96bd0a0a72ab4738be541int, 0xb40618c8be25adb31d5ad35ffdcb8df6e653c5ade8547070a04908701b0ed89int);
    let k = lemma_odd(p1(), p1_base(), k, 0xb40618c8be25adb31d5ad35ffdcb8df6e653c5ade8547070a04908701b0ed89int, 0x83ea22ee270e69922bb8f51c90027c1c0cb2ccc7b45763bbde06025dba18364int);
    let k = lemma_even(p1(), p1_base(), k, 0x83ea22ee270e69922bb8f51c90027c1c0cb2ccc7b45763bbde06025dba18364int, 0xfc7ac81424bc4964250031c1331666ea206eaf35e7a1f0992ce96ac1c3b1aafint);
    let k = lemma_odd(p1(), p1_base(), k, 0xfc7ac81424bc4964250031c1331666ea206eaf35e7a1f0992ce96ac1c3b1aafint, 0x53f2001b9198551eb73bc50494421e63e1c8c9699850df2441269d9f486bd5eint);
    let k = lemma_odd(p1(), p1_base(), k, 0x53f2001b9198551eb73bc50494421e63e1c8c9699850df2441269d9f486bd5eint, 0xe2989e98e2787106604932f0feac8f4f54da482e898d9938ccd7e3a7b9ff2adint);
    let k = lemma_odd(p1(), p1_base(), k, 0xe2989e98e2787106604932f0feac8f4f54da482e898d9938ccd7e3a7b9ff2adint, 0x5d0015a0525ec7eabd9bec258104fef28ebeb0677bda8a3d2f701f66fb2cc7int);
    let k = lemma_even(p1(), p1_base(), k, 0x5d0015a0525ec7eabd9bec258104fef28ebeb0677bda8a3d2f701f66fb2cc7int, 0x670376b5f51b78513b9d7cd787cd7f0e9190f10ec852d7fae01eec4fde53388int);
    let k = lemma_even(p1(), p1_base(), k, 0x670376b5f51b78513b9d7cd787cd7f0e9190f10ec852d7fae01eec4fde53388int, 0x21f5b6b8b294bb88e208064bade1919a98b5a8d883c65807e2c42e31d74a95dint);
    let k = lemma_odd(p1(), p1_base(), k, 0x21f5b6b8b294bb88e208064bade1919a98b5a8d883c65807e2c42e31d74a95dint, 0x6924b6079851d083f9049a15f13b0126b4d6b9cded35438a343a30377b5c9c1int);
    let k = lemma_even(p1(), p1_base(), k, 0x6924b6079851d083f9049a15f13b0126b4d6b9cded35438a343a30377b5c9c1int, 0x36ce84b6ec3463ee8e9e8d3377d0f681cb537bc658725ddec43c1ee90092525int);
    let k = lemma_odd(p1(), p1_base(), k, 0x36ce84b6ec3463ee8e9e8d3377d0f681cb537bc658725ddec43c1ee90092525int, 0xa10d5fd997ec80a98fe37228321f7b9b521fa7ed9c4929deebdc72ab4054cbeint);
    let k = lemma_even(p1(), p1_base(), k, 0xa10d5fd997ec80a98fe37228321f7b9b521fa7ed9c4929deebdc72ab4054cbeint, 0x118d64da060cbd612995c426aece4c80f73502b7333199b7fc0801f07d6f10int);
    let k = lemma_odd(p1(), p1_base(), k, 0x118d64da060cbd612995c426aece4c80f73502b7333199b7fc0801f07d6f10int, 0x53ce6fd84a1e08960fa3a1c48593c1891077da77d41b99136b9800210030a34int);
    let k = lemma_odd(p1(), p1_base(), k, 0x53ce6fd84a1e08960fa3a1c48593c1891077da77d41b99136b9800210030a34int, 0x6c3c437ec06c24e310e0b578f6e7a88ee0754744de67877c9ded20076e6ead4int);
    let k = lemma_odd(p1(), p1_base(), k, 0x6c3c437ec06c24e310e0b578f6e7a88ee0754744de67877c9ded20076e6ead4int, 0xf155d90449fb629febe29a5ead48c210085e0194bdbe4cc25106646e80dbdd8int);
    let k = lemma_odd(p1(), p1_base(), k, 0xf155d90449fb629febe29a5ead48c210085e0194bdbe4cc25106646e80dbdd8int, 0x61a9ca651e3cffea94741129a0e64f7602a4a2a08d2c78fb544f2013048565fint);
    let k = lemma_odd(p1(), p1_base(), k, 0x61a9ca651e3cffea94741129a0e64f7602a4a2a08d2c78fb544f2013048565fint, 0x52bccc5d5fe22503c3866dc583de9ba50c593a624dbcdfaa0b272e63ed77971int);
    let k = lemma_even(p1(), p1_base(), k, 0x52bccc5d5fe22503c3866dc583de9ba50c593a624dbcdfaa0b272e63ed77971int, 0x72fcee756e0eb6cc28127a77b79c5f71e9fb298333346acead4195574a0c649int);
    let k = lemma_odd(p1(), p1_base(), k, 0x72fcee756e0eb6cc28127a77b79c5f71e9fb298333346acead4195574a0c649int, 0x227fa19b316129fe09aa5dd31fa45db569e89af3c0919d57f7b2ccd170ad2feint);
    let k = lemma_even(p1(), p1_base(), k, 0x227fa19b316129fe09aa5dd31fa45db569e89af3c0919d57f7b2ccd170ad2feint, 0xffd318003b435e7294a95204486895688215a4fdf0aa9567016dc0d92d62eeeint);
    let k = lemma_odd(p1(), p1_base(), k, 0xffd318003b435e7294a95204486895688215a4fdf0aa9567016dc0d92d62eeeint, 0x2f651edd9311fba375296ad183ccf2f5d0679956c576acd679cb80f164ab45eint);
    let k = lemma_odd(p1(), p1_base(), k, 0x2f651edd9311fba375296ad183ccf2f5d0679956c576acd679cb80f164ab45eint, 0x880bb85fd290c69f14177c734a0a87647bfdcff1de22e9cddd2c3d9fee4750fint);
    let k = lemma_odd(p1(), p1_base(), k, 0x880bb85fd290c69f14177c734a0a87647bfdcff1de22e9cddd2c3d9fee4750fint, 0xa9090f416144ce0cd503fc851c948ba19c0b275b71ea51413afe5f4f95c7445int);
    let k = lemma_even(p1(), p1_base(), k, 0xa9090f416144ce0cd503fc851c948ba19c0b275b71ea51413afe5f4f95c7445int, 0xc183c2a7aebf5e50fed99b5798db590c5aa75c706237abb837bed07a9527fb5int);
    let k = lemma_even(p1(), p1_base(), k, 0xc183c2a7aebf5e50fed99b5798db590c5aa75c706237abb837bed07a9527fb5int, 0x87ca5814732ee531aba02650aaec282edcd5f2fc7fc0ac4b0d8bfec977913e5int);
    let k = lemma_even(p1(), p1_base(), k, 0x87ca5814732ee531aba02650aaec282edcd5f2fc7fc0ac4b0d8bfec977913e5int, 0x3ba0fbdb737bd931801f7f4afb5d912aff191aa239f25656f9df07ab8dcf509int);
    let k = lemma_even(p1(), p1_base(), k, 0x3ba0fbdb737bd931801f7f4afb5d912aff191aa239f25656f9df07ab8dcf509int, 0x321f7b1f000b1c1c546ba0acbb5bb7ab952e48cd83501401c20e76d1f243952int);
    let k = lemma_odd(p1(), p1_base(), k, 0x321f7b1f000b1c1c546ba0acbb5bb7ab952e48cd83501401c20e76d1f243952int, 0x5091717fcfeab02f311ee3ea022a65718e2b1cebf2962a1a250ea5135510824int);
    let k = lemma_even(p1(), p1_base(), k, 0x5091717fcfeab02f311ee3ea022a65718e2b1cebf2962a1a250ea5135510824int, 0xfbd2908215260317037f97576542c250655092f55eb9c2dca7b22096bf267e3int);
    let k = lemma_odd(p1(), p1_base(), k, 0xfbd2908215260317037f97576542c250655092f55eb9c2dca7b22096bf267e3int, 0xd900e9cd2e08a4e399f0817a2bae6aeb754b5e5530d6f24fe810834e66ae463int);
    let k = lemma_even(p1(), p1_base(), k, 0xd900e9cd2e08a4e399f0817a2bae6aeb754b5e5530d6f24fe810834e66ae463int, 0xbc7b0864cf3f611cf8f3efd1f313963096aaeac3b8092ec71193b825b372214int);
    let k = lemma_odd(p1(), p1_base(), k, 0xbc7b0864cf3f611cf8f3efd1f313963096aaeac3b8092ec71193b825b372214int, 0xb347348fee86204d0630914e11e01be3813b3ebb5d45c49078d3aa4bcec937dint);
    let k = lemma_even(p1(), p1_base(), k, 0xb347348fee86204d0630914e11e01be3813b3ebb5d45c49078d3aa4bcec937dint, 0x3cca24846faf9f73e5495bf869b5df91b42fc80d4e25714d78dd0d2f0179a79int);
    let k = lemma_even(p1(), p1_base(), k, 0x3cca24846faf9f73e5495bf869b5df91b42fc80d4e25714d78dd0d2f0179a79int, 0xf3a3bdab152f0afdbb92174800a500269e574ac0eb63105d8067bfc9dce7408int);
    let k = lemma_odd(p1(), p1_base(), k, 0xf3a3bdab152f0afdbb92174800a500269e574ac0eb63105d8067bfc9dce7408int, 0xc379d2d7d85d9c9a94da6fe4302b2851feb330ad4d003418f2cd441529190b4int);
    let k = lemma_even(p1(), p1_base(), k, 0xc379d2d7d85d9c9a94da6fe4302b2851feb330ad4d003418f2cd441529190b4int, 0xb1519b9ae2e932644fe35db18bd65885a30325060be5c126a5409b21dbb00aint);
    let k = lemma_odd(p1(), p1_base(), k, 0xb1519b9ae2e932644fe35db18bd65885a30325060be5c126a5409b21dbb00aint, 0x8e9d2328c1e8bb67620293972e6d19a355f09cdbcbec290dab8b81692128c52int);
    let k = lemma_odd(p1(), p1_base(), k, 0x8e9d2328c1e8bb67620293972e6d19a355f09cdbcbec290dab8b81692128c52int, 0xef013c0fb1fc058872642045950723478b9ae9038ee0b0801f156f5b0a9f187int);
    let k = lemma_even(p1(), p1_base(), k, 0xef013c0fb1fc058872642045950723478b9ae9038ee0b0801f156f5b0a9f187int, 0x5dd1b7767aa318b76abe23b3be2defb06a07f32e65d66072ac340e4fbf65d8bint);
    let k = lemma_odd(p1(), p1_base(), k, 0x5dd1b7767aa318b76abe23b3be2defb06a07f32e65d66072ac340e4fbf65d8bint, 0x105c0b6075d67f698b2d87c7284e6a025d9af1fe579c1e41698a9eba9a483cbint);
    let k = lemma_odd(p1(), p1_base(), k, 0x105c0b6075d67f698b2d87c7284e6a025d9af1fe579c1e41698a9eba9a483cbint, 0x26a1eba5d039095dc12605969e83ae91337c19eff61983e9192130184c331b4int);
    let k = lemma_odd(p1(), p1_base(), k, 0x26a1eba5d039095dc12605969e83ae91337c19eff61983e9192130184c331b4int, 0xbfc7e274e038ce966a774d3d116b75c6be5b5dc26379255bd32db01691af89bint);
    let k = lemma_odd(p1(), p1_base(), k, 0xbfc7e274e038ce966a774d3d116b75c6be5b5dc26379255bd32db01691af89bint, 0x732361e30f99c2cb68a5d180fadd9d8e34a96dc490daeb8b18648b3e9216316int);
    let k = lemma_odd(p1(), p1_base(), k, 0x732361e30f99c2cb68a5d180fadd9d8e34a96dc490daeb8b18648b3e9216316int, 0x2ddcff8f74ccd7291f6eba6a662ce62bcc2d3f1a6e8d0835119e69a4cc47504int);
    let k = lemma_even(p1(), p1_base(), k, 0x2ddcff8f74ccd7291f6eba6a662ce62bcc2d3f1a6e8d0835119e69a4cc47504int, 0xad093fb6369e4e03eff16fbada103d7beb7b910ce32a4a7a96aac2a1f07eca3int);
    let k = lemma_even(p1(), p1_base(), k, 0xad093fb6369e4e03eff16fbada103d7beb7b910ce32a4a7a96aac2a1f07eca3int, 0x98563b2336c5e465d3fcf53fdb75abdb220882ad4f03486a4831525833af22cint);
    let k = lemma_odd(p1(), p1_base(), k, 0x98563b2336c5e465d3fcf53fdb75abdb220882ad4f03486a4831525833af22cint, 0x5a60827d54ae753e7dfe50d0da824a2e942e37f808109f3c0aed3099e40b7d9int);
    let k = lemma_even(p1(), p1_base(), k, 0x5a60827d54ae753e7dfe50d0da824a2e942e37f808109f3c0aed3099e40b7d9int, 0x2efa43752b5bf70cb3ec3df0dc7ae4ca4ebb646bd396ccef183eca9f1c75f24int);
    let k = lemma_odd(p1(), p1_base(), k, 0x2efa43752b5bf70cb3ec3df0dc7ae4ca4ebb646bd396ccef183eca9f1c75f24int, 0xfc5e9344d19fd0294ef726c2d3c82aa192fed25a5702e1d185573e9cb75f678int);
    let k = lemma_even(p1(), p1_base(), k, 0xfc5e9344d19fd0294ef726c2d3c82aa192fed25a5702e1d185573e9cb75f678int, 0x6ab35bd6b490543692a91d275acff3b856a88368afbe8542ffd1be8cdf1862int);
    let k = lemma_even(p1(), p1_base(), k, 0x6ab35bd6b490543692a91d275acff3b856a88368afbe8542ffd1be8cdf1862int, 0xd281c8ba7caac476972b1c2e52286ee74fe81b61aab51067ee8d5628baf638fint);
    let k = lemma_odd(p1(), p1_base(), k, 0xd281c8ba7caac476972b1c2e52286ee74fe81b61aab51067ee8d5628baf638fint, 0xe915baf8791c1c0b3884dbc5f17d85751e855e87ca2a3ca6a6daffecf34506int);
    let k = lemma_even(p1(), p1_base(), k, 0xe915baf8791c1c0b3884dbc5f17d85751e855e87ca2a3ca6a6daffecf34506int, 0xfbc65fccc57f0b0b38e05485bdd764d9c5a1f31e4a9d207da5b3804de016333int);
    let k = lemma_even(p1(), p1_base(), k, 0xfbc65fccc57f0b0b38e05485bdd764d9c5a1f31e4a9d207da5b3804de016333int, 0x8d23e16485725ee785f9d439584bf098de22a07b4465662a1ef3f4617d4fd29int);
    let k = lemma_even(p1(), p1_base(), k, 0x8d23e16485725ee785f9d439584bf098de22a07b4465662a1ef3f4617d4fd29int, 0x7b77b0ba6d99f1d37b99c282eb2d0c7505a756ffff636be870c151ed972db3eint);
    let k = lemma_even(p1(), p1_base(), k, 0x7b77b0ba6d99f1d37b99c282eb2d0c7505a756ffff636be870c151ed972db3eint, 0xcc98848802a930e349dcd5979dce0866d6e04808e0935aa53885090d8bccf73int);
    let k = lemma_odd(p1(), p1_base(), k, 0xcc98848802a930e349dcd5979dce0866d6e04808e0935aa53885090d8bccf73int, 0xcf4009f31a0e4c293ee82ab6a7f96aa2c0473e6fe290cfe27587418b36493dbint);
    let k = lemma_odd(p1(), p1_base(), k, 0xcf4009f31a0e4c293ee82ab6a7f96aa2c0473e6fe290cfe27587418b36493dbint, 0x2019831229d9563beb9a127aa50d4f32bab2539cd0cf81ddbd21febab4b2496int);
    let k = lemma_odd(p1(), p1_base(), k, 0x2019831229d9563beb9a127aa50d4f32bab2539cd0cf81ddbd21febab4b2496int, 0x1366ef3a98bf188b2259e2c55a92542142b54cd2ce8825c6caf8570e14486eint);
    let k = lemma_even(p1(), p1_base(), k, 0x1366ef3a98bf188b2259e2c55a92542142b54cd2ce8825c6caf8570e14486eint, 0x3a90c79edac717491611e7985c3b55f767fab5ecfa413e9d31a49ff8740b71dint);
    let k = lemma_odd(p1(), p1_base(), k, 0x3a90c79edac717491611e7985c3b55f767fab5ecfa413e9d31a49ff8740b71dint, 0x7bb9c641cc3ddd4a6756042404823b47d8bb496cdd29985857f8f03246d5861int);
    let k = lemma_odd(p1(), p1_base(), k, 0x7bb9c641cc3ddd4a6756042404823b47d8bb496cdd29985857f8f03246d5861int, 0x1aa7ecce1b937353cfb10a08018f2f5b3f5e01eb8578d15cbbebd26ba71dcc6int);
    let k = lemma_even(p1(), p1_base(), k, 0x1aa7ecce1b937353cfb10a08018f2f5b3f5e01eb8578d15cbbebd26ba71dcc6int, 0x70bf29342a086cd90087b897dbdfa4f9bbb42c8f1636040ac8eb54584f06796int);
    let k = lemma_odd(p1(), p1_base(), k, 0x70bf29342a086cd90087b897dbdfa4f9bbb42c8f1636040ac8eb54584f06796int, 0xaa4e782cef570f207eb9f912a4a3a44ba9aa507ae57fbede24ff769346704b2int);
    let k = lemma_odd(p1(), p1_base(), k, 0xaa4e782cef570f207eb9f912a4a3a44ba9aa507ae57fbede24ff769346704b2int, 0x997dd58966d8a1ffd174cd1ad9fd217e367102833ccff3efba039cf7d8753bfint);
    let k = lemma_even(p1(), p1_base(), k, 0x997dd58966d8a1ffd174cd1ad9fd217e367102833ccff3efba039cf7d8753bfint, 0xd0a02041c55ae0b5e32cd0609d9cdf7ef0ca51b0571f5a819e455e7600ab3caint);
    let k = lemma_even(p1(), p1_base(), k, 0xd0a02041c55ae0b5e32cd0609d9cdf7ef0ca51b0571f5a819e455e7600ab3caint, 0x6b2b44b8f9ffab0c6b02b9b469d547569f311baa78a10921d082ddc69c38468int);
    let k = lemma_odd(p1(), p1_base(), k, 0x6b2b44b8f9ffab0c6b02b9b469d547569f311baa78a10921d082ddc69c38468int, 0x5264a9477dbaf09536960a361b18e76b6a4ae7291320c81e8f2b745c367faaint);
    let k = lemma_odd(p1(), p1_base(), k, 0x5264a9477dbaf09536960a361b18e76b6a4ae7291320c81e8f2b745c367faaint, 0x1b7576fea18234a8b7a445e46323170d9f3993efff5c1fc2bebcac5739791e4int);
    let k = lemma_odd(p1(), p1_base(), k, 0x1b7576fea18234a8b7a445e46323170d9f3993efff5c1fc2bebcac5739791e4int, 0xe04496998be282d669f4be2599649e834b90db5609b4283d1f89aec841ebf5bint);
    let k = lemma_odd(p1(), p1_base(), k, 0xe04496998be282d669f4be2599649e834b90db5609b4283d1f89aec841ebf5bint, 0xd1a0285c124efef3c47e97b784fb291c818c029c9171b3d497105b1efd5df07int);
    let k = lemma_odd(p1(), p1_base(), k, 0xd1a0285c124efef3c47e97b784fb291c818c029c9171b3d497105b1efd5df07int, 0x39d3c271ca5bae6de0a0b14fbe4f3ec48ef02bd8389ef03790253e4afa1ac74int);
    let k = lemma_odd(p1(), p1_base(), k, 0x39d3c271ca5bae6de0a0b14fbe4f3ec48ef02bd8389ef03790253e4afa1ac74int, 0x2d6bbc151908c818c2cbc857be997969cbbe04555785ea56727e7b60d48b6e2int);
    let k = lemma_even(p1(), p1_base(), k, 0x2d6bbc151908c818c2cbc857be997969cbbe04555785ea56727e7b60d48b6e2int, 0xae24ba53809dd575d68134292620b60d61e032d86c726fdb9338a48ee4edb53int);
    let k = lemma_odd(p1(), p1_base(), k, 0xae24ba53809dd575d68134292620b60d61e032d86c726fdb9338a48ee4edb53int, 0x648666ce750d6a30ff6873cad8603ce7494cb2c10acd633f7334e7e8cd6cb13int);
    let k = lemma_even(p1(), p1_base(), k, 0x648666ce750d6a30ff6873cad8603ce7494cb2c10acd633f7334e7e8cd6cb13int, 0xd4a67047bd7748b7769d7bc15c4d4bb5b32ee9ae7427f1e163246544a1b257bint);
    let k = lemma_odd(p1(), p1_base(), k, 0xd4a67047bd7748b7769d7bc15c4d4bb5b32ee9ae7427f1e163246544a1b257bint, 0x13f5564235e6f2545c3c011bb70be51a8413a6e7878da4a68d9e0c7f8d0931eint);
    let k = lemma_even(p1(), p1_base(), k, 0x13f5564235e6f2545c3c011bb70be51a8413a6e7878da4a68d9e0c7f8d0931eint, 0x4d86d54d20bb95409cf94460970c6fd1db2997c46b520faa6298318cc46d2c9int);
    let k = lemma_even(p1(), p1_base(), k, 0x4d86d54d20bb95409cf94460970c6fd1db2997c46b520faa6298318cc46d2c9int, 0x3fd159f1e57b3d527b9bef2fd3f6004dc1ab7f292abcee48762fe8f1ff24aaint);
    let k = lemma_odd(p1(), p1_base(), k, 0x3fd159f1e57b3d527b9bef2fd3f6004dc1ab7f292abcee48762fe8f1ff24aaint, 0xe2ebb2f70d2abe568d3427a59b460b886dd92abcdfbb74714cddd6ed8314d5int);
    let k = lemma_odd(p1(), p1_base(), k, 0xe2ebb2f70d2abe568d3427a59b460b886dd92abcdfbb74714cddd6ed8314d5int, 0xb643961c875921f10e42570c4a5a70576f127853c515dd889fe8bb7f87425a3int);
    let k = lemma_even(p1(), p1_base(), k, 0xb643961c875921f10e42570c4a5a70576f127853c515dd889fe8bb7f87425a3int, 0xa0490d464f037973534f2fad19161c6f6c4e76ac699f1fbee811ae72ee86bbeint);
    let k = lemma_odd(p1(), p1_base(), k, 0xa0490d464f037973534f2fad19161c6f6c4e76ac699f1fbee811ae72ee86bbeint, 0xc3bd13f74e687ddc7a561600a49478e9ecde4ed2f5746b235d0d852a0583b0aint);
    let k = lemma_odd(p1(), p1_base(), k, 0xc3bd13f74e687ddc7a561600a49478e9ecde4ed2f5746b235d0d852a0583b0aint, 0xf42aba3cb3e8af9154f2926dda5320c49adabacebbdc5d4b5c343e6a793aafbint);
    let k = lemma_odd(p1(), p1_base(), k, 0xf42aba3cb3e8af9154f2926dda5320c49adabacebbdc5d4b5c343e6a793aafbint, 0x876db34c65593d6adafc09803f114fb87c45a96db9d9ddc514c94f6968c56f1int);
    let k = lemma_even(p1(), p1_base(), k, 0x876db34c65593d6adafc09803f114fb87c45a96db9d9ddc514c94f6968c56f1int, 0x2bfa20667f0bba2193ac8827bcfdca590a9165656d9df20fe2b05438ce3532fint);
    let k = lemma_even(p1(), p1_base(), k, 0x2bfa20667f0bba2193ac8827bcfdca590a9165656d9df20fe2b05438ce3532fint, 0x389599ed418ce37ce5885ad6adf9f03f2004ff586e5fdaf27bd86e01945c918int);
    let k = lemma_even(p1(), p1_base(), k, 0x389599ed418ce37ce5885ad6adf9f03f2004ff586e5fdaf27bd86e01945c918int, 0x685424f867f00017ca76a11094722efc64b5c456ddbbfb998de9c2a4067f79bint);
    let k = lemma_even(p1(), p1_base(), k, 0x685424f867f00017ca76a11094722efc64b5c456ddbbfb998de9c2a4067f79bint, 0xad625cd5b41d2d6fb8481be0e1a591daf837adb2daa25c5ad24fac79c8c866aint);
    let k = lemma_even(p1(), p1_base(), k, 0xad625cd5b41d2d6fb8481be0e1a591daf837adb2daa25c5ad24fac79c8c866aint, 0x260a31ced8219840cd73bb3f86cee9c975228ac2c892d2277b0a074dc53f3dint);
    let k = lemma_even(p1(), p1_base(), k, 0x260a31ced8219840cd73bb3f86cee9c975228ac2c892d2277b0a074dc53f3dint, 0xab677424e5ba0ad0bdd10e534a6dcd040f0236487953048f27401b237b17905int);
    let k = lemma_even(p1(), p1_base(), k, 0xab677424e5ba0ad0bdd10e534a6dcd040f0236487953048f27401b237b17905int, 0x6b94e397862dbc3266f82f155428c74bfa12f25caa5683e732c78b72b905164int);
    let k = lemma_odd(p1(), p1_base(), k, 0x6b94e397862dbc3266f82f155428c74bfa12f25caa5683e732c78b72b905164int, 0x645237f9cfce9ac955366c71409cb15731cfd53739e93556f859ee3b8295b19int);
    let k = lemma_odd(p1(), p1_base(), k, 0x645237f9cfce9ac955366c71409cb15731cfd53739e93556f859ee3b8295b19int, 0x70bdb9763efd2308a185f40e1c656f527bff21bfc1a06dfda04d71971e245a4int);
    let k = lemma_even(p1(), p1_base(), k, 0x70bdb9763efd2308a185f40e1c656f527bff21bfc1a06dfda04d71971e245a4int, 0xe8abe89f7664e21fd8cd88df5a147e94bf75ddf8149a88f46f13799b2c6b983int);
    let k = lemma_even(p1(), p1_base(), k, 0xe8abe89f7664e21fd8cd88df5a147e94bf75ddf8149a88f46f13799b2c6b983int, 0x54f0e8631311a2aaeee10650ff7af57b4276824073c8f176c9b445d7bbeac21int);
    let k = lemma_odd(p1(), p1_base(), k, 0x54f0e8631311a2aaeee10650ff7af57b4276824073c8f176c9b445d7bbeac21int, 0xd9b39d97f7534810e9424eb902c2968618b8e9acccf3c2fd728481b2b042f7dint);
    let k = lemma_even(p1(), p1_base(), k, 0xd9b39d97f7534810e9424eb902c2968618b8e9acccf3c2fd728481b2b042f7dint, 0x2afb492a8ecb926cece00ce3ae6cc6392e8fe85f1154b32c849ca049de3fcfaint);
    let k = lemma_odd(p1(), p1_base(), k, 0x2afb492a8ecb926cece00ce3ae6cc6392e8fe85f1154b32c849ca049de3fcfaint, 0x9593b924195901d8e2b8d873ddcd33863c5f1cb7d522dc6856eb1dd41490185int);
    let k = lemma_even(p1(), p1_base(), k, 0x9593b924195901d8e2b8d873ddcd33863c5f1cb7d522dc6856eb1dd41490185int, 0x36f7508feb5e3cb9cdce6cb6a2e338574efd99174ea1db9662972950bd53651int);
    let k = lemma_odd(p1(), p1_base(), k, 0x36f7508feb5e3cb9cdce6cb6a2e338574efd99174ea1db9662972950bd53651int, 0x457deb054ad60576feb81f52676fe258a9d2f1eb6e063f5178ea7e5688f10f9int);
    let k = lemma_even(p1(), p1_base(), k, 0x457deb054ad60576feb81f52676fe258a9d2f1eb6e063f5178ea7e5688f10f9int, 0x447183e872da9a39ff4a4d1e87168864a9091250527b7608b33513e281126c7int);
    let k = lemma_odd(p1(), p1_base(), k, 0x447183e872da9a39ff4a4d1e87168864a9091250527b7608b33513e281126c7int, 0xbf28be26137a810e28b79728f83c0697782dbe8a82b0027dda1a41959b47d19int);
    let k = lemma_even(p1(), p1_base(), k, 0xbf28be26137a810e28b79728f83c0697782dbe8a82b0027dda1a41959b47d19int, 0xd8e4993e231b4e0fbe48d27c98a70e5ec7071a7b04a9f044114e64e12f3106cint);
    let k = lemma_odd(p1(), p1_base(), k, 0xd8e4993e231b4e0fbe48d27c98a70e5ec7071a7b04a9f044114e64e12f3106cint, 0x65f4824dc69f4c68625905a37614602ef67b15a6e331ab2c274ab02d0b99fc8int);
    let k = lemma_even(p1(), p1_base(), k, 0x65f4824dc69f4c68625905a37614602ef67b15a6e331ab2c274ab02d0b99fc8int, 0x2ecd39df612b6b1ffcf77e79e33284716f6e186f39d34f0e389e1f2b8c0b5fint);
    let k = lemma_even(p1(), p1_base(), k, 0x2ecd39df612b6b1ffcf77e79e33284716f6e186f39d34f0e389e1f2b8c0b5fint, 0x5f75221c9ba7773896d2dc73a840540db0404740e7446c47f9929cb38d7524dint);
    let k = lemma_even(p1(), p1_base(), k, 0x5f75221c9ba7773896d2dc73a840540db0404740e7446c47f9929cb38d7524dint, 0x86c15240be5637ea41d249605a763b457e5d50adfa7d0091551e3a5150f1ee2int);
    let k = lemma_even(p1(), p1_base(), k, 0x86c15240be5637ea41d249605a763b457e5d50adfa7d0091551e3a5150f1ee2int, 0xd4a7caf805e5ec190d3cdfbd67167aeff6e24eaa2b9ee3e75411fb66591127dint);
    let k = lemma_even(p1(), p1_base(), k, 0xd4a7caf805e5ec190d3cdfbd67167aeff6e24eaa2b9ee3e75411fb66591127dint, 0x6e1d3b4c3e2af58e5835b740f40b21b58f003d5dbf7b9df7db7b0aacfa6d742int);
    let k = lemma_even(p1(), p1_base(), k, 0x6e1d3b4c3e2af58e5835b740f40b21b58f003d5dbf7b9df7db7b0aacfa6d742int, 0xb4b8b904162187f75d97fdf963fa15235cde37368ecd82c7bf1687056b68b7dint);
    let k = lemma_odd(p1(), p1_base(), k, 0xb4b8b904162187f75d97fdf963fa15235cde37368ecd82c7bf1687056b68b7dint, 0x8f8975ee11bc0be9ec5882dc7de20d86766eb617e067d33db8071171b6c291eint);
    let k = lemma_even(p1(), p1_base(), k, 0x8f8975ee11bc0be9ec5882dc7de20d86766eb617e067d33db8071171b6c291eint, 0x410ea19f632cbf75af972cfa24c2307513820d0934884cc03f4e14e4e69a73bint);
    let k = lemma_odd(p1(), p1_base(), k, 0x410ea19f632cbf75af972cfa24c2307513820d0934884cc03f4e14e4e69a73bint, 0x53460200ff54f5f871d0a7ca8ea17e5c6331be0eb73aee2ba779590905418f1int);
    let k = lemma_odd(p1(), p1_base(), k, 0x53460200ff54f5f871d0a7ca8ea17e5c6331be0eb73aee2ba779590905418f1int, 0xae09fb70c72159467a14318339d35fde1b43254719fe3858674cedaf99c5a0fint);
    let k = lemma_odd(p1(), p1_base(), k, 0xae09fb70c72159467a14318339d35fde1b43254719fe3858674cedaf99c5a0fint, 0xfa249c5b0423d44014bc1b21506f8647cc7f0251d8eb95e6372fc3341c28849int);
    let k = lemma_even(p1(), p1_base(), k, 0xfa249c5b0423d44014bc1b21506f8647cc7f0251d8eb95e6372fc3341c28849int, 0xf8ca1e0b77ed358d6565e9384cd352f479b3a5ca9b73afe518c5d7ccbcfdf48int);
    let k = lemma_odd(p1(), p1_base(), k, 0xf8ca1e0b77ed358d6565e9384cd352f479b3a5ca9b73afe518c5d7ccbcfdf48int, 0x1ac19d07bce39a6247ad066742e4778d07f37a839b2b5266a2035aeae934d0dint);
    let k = lemma_even(p1(), p1_base(), k, 0x1ac19d07bce39a6247ad066742e4778d07f37a839b2b5266a2035aeae934d0dint, 0xf1260b7284f253e90cb1c7ee3c2a6ef4b930055192b8ba5deb910b583326f97int);
    let k = lemma_even(p1(), p1_base(), k, 0xf1260b7284f253e90cb1c7ee3c2a6ef4b930055192b8ba5deb910b583326f97int, 0x14273449e4c1c81f220eebccb62405d75532b9f026e707a0823370a02e6125eint);
    let k = lemma_odd(p1(), p1_base(), k, 0x14273449e4c1c81f220eebccb62405d75532b9f026e707a0823370a02e6125eint, 0xc706eb64b5b05b652f135b951dd7e3553a5b01b51a77b27479e175ebc0471f8int);
    let k = lemma_odd(p1(), p1_base(), k, 0xc706eb64b5b05b652f135b951dd7e3553a5b01b51a77b27479e175ebc0471f8int, 0x84d21ccfefd12ff29934941efe60ee3fbda4f0ca60f19ed7f8b78160358ff87int);
    let k = lemma_even(p1(), p1_base(), k, 0x84d21ccfefd12ff29934941efe60ee3fbda4f0ca60f19ed7f8b78160358ff87int, 0x5302bae34ed509ebc9e246d5460d9164075334553cc3fbfb3c38904befb314cint);
    let k = lemma_even(p1(), p1_base(), k, 0x5302bae34ed509ebc9e246d5460d9164075334553cc3fbfb3c38904befb314cint, 0xfc30597c9e7d0cf52e553f4031062810972a7fabcb62efb4c7cccb3a16f4f35int);
    let k = lemma_odd(p1(), p1_base(), k, 0xfc30597c9e7d0cf52e553f4031062810972a7fabcb62efb4c7cccb3a16f4f35int, 0xc6cb70f0c69b2352bae4a1ccec803fd3ff5b8a487e6cb586e3448c23bf0b3int);
    let k = lemma_even(p1(), p1_base(), k, 0xc6cb70f0c69b2352bae4a1ccec803fd3ff5b8a487e6cb586e3448c23bf0b3int, 0xdd3dea2c4a473d33f12e89b2053340555ccd0afac9647fafebd735dbbe2d838int);
    let k = lemma_odd(p1(), p1_base(), k, 0xdd3dea2c4a473d33f12e89b2053340555ccd0afac9647fafebd735dbbe2d838int, 0xbd162630298d2acca9c63c7a4328046a49909d5d621a37bed46fcbe2cd20c43int);
    let k = lemma_odd(p1(), p1_base(), k, 0xbd162630298d2acca9c63c7a4328046a49909d5d621a37bed46fcbe2cd20c43int, 0x1);
    assert(k == p2());
    prime::lemma_prime_by_order(p1(), p2(), p1_base(), 0x4f00a20dc254447a5cb50de6926ccd209ebc28f00f1664a7d2f3930fbe411aeint);
}

/// The group order is prime.
pub proof fn lemma_group_order_prime()
    ensures
        prime::is_prime(field::group_order()),
{
    reveal(field::group_order);
    lemma_p13_prime();
    lemma_p12_prime();
    lemma_p11_prime();
    lemma_p10_prime();
    lemma_p9_prime();
    lemma_p8_prime();
    lemma_p7_prime();
    lemma_p6_prime();
    lemma_p5_prime();
    lemma_p4_prime();
    lemma_p3_prime();
    lemma_p2_prime();
    lemma_p1_prime();
}

} // verus!
