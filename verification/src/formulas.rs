//! The formulas of the protocol, written out over integers, bytes and lists.
use rand::rngs::ThreadRng;
use vstd::arithmetic::div_mod::*;
use vstd::arithmetic::power::*;
use vstd::arithmetic::power2::*;
use vstd::prelude::*;
use vstd::std_specs::cmp::PartialEqSpec;

use crate::commitment;
use crate::commitment::{NoncePair, SigningCommitment};
use crate::field;
use crate::group;
use crate::group::RistrettoPoint;
use crate::hash;
use crate::helpers;
use crate::keygen::KeyPair;
use crate::laws;
use crate::scalar;
use crate::scalar::Scalar;
use crate::sign;
use crate::sign::{Signature, SigningResponse};

verus! {

/// The group order is `2^252 + 27742317777372353535851937790883648493`.
pub proof fn law_group_order()
    ensures
        field::group_order() == pow2(252) + 27742317777372353535851937790883648493int,
        field::group_order()
            == 7237005577332262213973186563042994240857116359379907606001950938285454250989int,
{
    reveal(field::group_order);
    lemma2_to64();
    lemma_pow2_adds(32, 32);
    lemma_pow2_adds(64, 64);
    lemma_pow2_adds(128, 64);
    lemma_pow2_adds(192, 60);
    lemma2_to64_rest();
}

/// Reducing takes the remainder of the division by the group order.
pub proof fn law_reduction(a: int)
    ensures
        field::reduce(a) == a % field::group_order(),
        0 <= field::reduce(a) < field::group_order(),
        (a - field::reduce(a)) % field::group_order() == 0,
{
    field::lemma_reduce_bound(a);
    lemma_fundamental_div_mod(a, field::group_order());
    lemma_mod_multiples_basic(
        a / field::group_order(),
        field::group_order(),
    );
    let q = a / field::group_order();
    let n = field::group_order();
    assert(n * q == q * n) by (nonlinear_arith);
}

/// Congruence is divisibility of the difference by the group order.
pub proof fn law_congruence(a: int, b: int)
    ensures
        field::cong(a, b) <==> (a - b) % field::group_order() == 0,
{
    field::lemma_group_order_large();
    field::lemma_reduce_small(0);
    field::lemma_reduce_sub(a, b);
    if field::cong(a, b) {
        field::lemma_cong_ops(a, b, b, b);
    } else {
        if field::reduce(a - b) == 0 {
            field::lemma_cong_ops(a - b, 0, b, b);
        }
    }
}

/// What an inverse modulo the group order is, and that everything but zero has one.
pub proof fn law_inverse(a: int, u: int)
    ensures
        field::is_inverse(a, u) <==> 0 <= u < field::group_order() && (a * u)
            % field::group_order() == 1,
        field::invertible(a) <==> a % field::group_order() != 0,
        a % field::group_order() != 0 ==> {
            &&& 0 <= field::inverse(a) < field::group_order()
            &&& (a * field::inverse(a)) % field::group_order() == 1
        },
{
    if field::reduce(a) != 0 {
        field::lemma_nonzero_invertible(a);
        assert(field::is_inverse(a, field::inverse(a)));
    } else if field::invertible(a) {
        let v = field::inverse(a);
        assert(field::is_inverse(a, v));
        field::lemma_group_order_large();
        field::lemma_reduce_mul(a, v);
        field::lemma_reduce_small(0);
        assert(0 * v == 0) by (nonlinear_arith);
    }
}

/// The bytes of a little-endian number are its digits to the base 256, the least significant
/// first.
pub proof fn law_little_endian(bytes: Seq<u8>)
    ensures
        0 <= field::le_value(bytes) < pow(256, bytes.len()),
        forall|i: int|
            0 <= i < bytes.len() ==> #[trigger] bytes[i] == field::le_value(bytes) / pow(
                256,
                i as nat,
            ) % 256,
    decreases bytes.len(),
{
    reveal(pow);
    let v = field::le_value(bytes);
    if bytes.len() > 0 {
        let rest = bytes.drop_first();
        let w = field::le_value(rest);
        law_little_endian(rest);
        assert forall|i: int| 0 <= i < bytes.len() implies #[trigger] bytes[i] == v / pow(
            256,
            i as nat,
        ) % 256 by {
            if i > 0 {
                let p = pow(256, (i - 1) as nat);
                assert(bytes[i] == rest[i - 1]);
                lemma_pow_positive(256, (i - 1) as nat);
                lemma_div_denominator(v, 256, p);
                assert(v / 256 == w);
                assert(pow(256, i as nat) == 256 * p);
            } else {
                lemma_pow0(256);
                assert(v / 1 == v);
                assert(v % 256 == bytes[0]);
            }
        }
    }
}

/// The four bytes of an integer are its digits to the base 256, the most significant first.
pub proof fn law_big_endian(x: u32)
    ensures
        hash::be_bytes(x).len() == 4,
        hash::be_bytes(x)[0] * 0x100_0000 + hash::be_bytes(x)[1] * 0x1_0000 + hash::be_bytes(x)[2]
            * 0x100 + hash::be_bytes(x)[3] == x,
{
}

/// Scalars and group elements are equal exactly where they stand for the same integer, and group
/// elements exactly where their encodings are the same.
pub proof fn law_equality(a: Scalar, b: Scalar, p: RistrettoPoint, q: RistrettoPoint)
    requires
        p.wf(),
        q.wf(),
    ensures
        a.eq_spec(&b) <==> a@ == b@,
        p.eq_spec(&q) <==> p@ == q@,
        p.eq_spec(&q) <==> p.encoding() == q.encoding(),
{
    p.lemma_same(q);
}

/// What the group elements are: the multiples of the basepoint by the integers below the group
/// order, each with an encoding of its own, of 32 bytes.
pub proof fn law_group_elements(encoding: Seq<u8>, p: RistrettoPoint)
    requires
        p.wf(),
    ensures
        group::is_point(encoding) <==> exists|k: int|
            0 <= k < field::group_order() && #[trigger] group::basepoint_multiple(k) == encoding,
        0 <= p@ < field::group_order(),
        p.encoding() == group::basepoint_multiple(p@),
        p.encoding().len() == 32,
{
    p.lemma_view();
    if group::is_point(encoding) {
        let k = choose|k: int| group::is_log(encoding, k);
        assert(group::basepoint_multiple(k) == encoding);
    }
    if exists|k: int|
        0 <= k < field::group_order() && #[trigger] group::basepoint_multiple(k) == encoding {
        let k = choose|k: int|
            0 <= k < field::group_order() && #[trigger] group::basepoint_multiple(k) == encoding;
        assert(group::is_log(encoding, k));
    }
}

/// The product of a Lagrange coefficient is a fold over the indices.
proof fn lemma_product_fold(x: int, i: u32, indices: Seq<u32>, f: spec_fn(int, u32) -> int)
    requires
        forall|acc: int, j: u32| #[trigger]
            f(acc, j) == if j == i {
                acc
            } else {
                acc * (j - x)
            },
    ensures
        helpers::lagrange_product(x, i, indices) == indices.fold_left(1int, f),
    decreases indices.len(),
{
    if indices.len() > 0 {
        lemma_product_fold(x, i, indices.drop_last(), f);
    }
}

/// The Lagrange coefficient of the index `i` at `x` is the reduced quotient of two products over
/// the indices `j` other than `i`: that of `j - x` by that of `j - i`, which is not zero.
pub proof fn law_lagrange_coefficient(x: int, i: u32, indices: Seq<u32>)
    ensures
        0 <= helpers::lagrange_coeff(x, i, indices) < field::group_order(),
        (helpers::lagrange_coeff(x, i, indices) * indices.fold_left(
            1int,
            |acc: int, j: u32| if j == i {
                acc
            } else {
                acc * (j - i)
            },
        )) % field::group_order() == indices.fold_left(
            1int,
            |acc: int, j: u32| if j == i {
                acc
            } else {
                acc * (j - x)
            },
        ) % field::group_order(),
        indices.fold_left(
            1int,
            |acc: int, j: u32| if j == i {
                acc
            } else {
                acc * (j - i)
            },
        ) % field::group_order() != 0,
{
    let over = |acc: int, j: u32| if j == i {
        acc
    } else {
        acc * (j - x)
    };
    let under = |acc: int, j: u32| if j == i {
        acc
    } else {
        acc * (j - i)
    };
    lemma_product_fold(x, i, indices, over);
    lemma_product_fold(i as int, i, indices, under);
    helpers::lemma_denominator_invertible(i, indices);
    let n = helpers::lagrange_product(x, i, indices);
    let d = helpers::lagrange_product(i as int, i, indices);
    let u = field::inverse(d);
    assert(field::is_inverse(d, u));
    field::lemma_group_order_large();
    field::lemma_reduce_bound(n * u);
    field::lemma_reduce_small(1);
    field::lemma_reduce_mul(n * u, d);
    field::lemma_cong_ops(n, n, d * u, 1);
    assert((n * u) * d == n * (d * u)) by (nonlinear_arith);
    assert(n * 1 == n);
}

/// What the challenge hashes is the 32 bytes of the group commitment and then the bytes of the
/// message, and nothing else; the challenge is the SHA-256 digest of that, read as a little-endian
/// number and reduced modulo the group order.
pub proof fn law_challenge(msg: Seq<char>, commitment: RistrettoPoint)
    requires
        commitment.wf(),
    ensures
        sign::challenge_preimage(msg, commitment@).len() == 32 + vstd::utf8::encode_utf8(msg).len(),
        sign::challenge_preimage(msg, commitment@).take(32) == commitment.encoding(),
        sign::challenge_preimage(msg, commitment@).skip(32) == vstd::utf8::encode_utf8(msg),
        sign::challenge(msg, commitment@) == field::le_value(
            hash::sha256_digest(commitment.encoding() + vstd::utf8::encode_utf8(msg)),
        ) % field::group_order(),
{
    commitment.lemma_view();
    let input = sign::challenge_preimage(msg, commitment@);
    assert(input.take(32) =~= commitment.encoding());
    assert(input.skip(32) =~= vstd::utf8::encode_utf8(msg));
}

/// Where the parts of the commitment at `k` stand in the encoding of a list of commitments.
proof fn lemma_commitment_place(commitments: Seq<SigningCommitment>, k: int)
    requires
        forall|i: int| 0 <= i < commitments.len() ==> (#[trigger] commitments[i]).wf(),
        0 <= k < commitments.len(),
    ensures
        sign::commitments_encoding(commitments).len() == 68 * commitments.len(),
        sign::commitments_encoding(commitments).subrange(68 * k, 68 * k + 4) == hash::be_bytes(
            commitments[k].index(),
        ),
        sign::commitments_encoding(commitments).subrange(68 * k + 4, 68 * k + 36)
            == commitments[k].d().encoding(),
        sign::commitments_encoding(commitments).subrange(68 * k + 36, 68 * k + 68)
            == commitments[k].e().encoding(),
    decreases commitments.len(),
{
    let all = sign::commitments_encoding(commitments);
    let init = commitments.drop_last();
    let start = sign::commitments_encoding(init);
    let last = commitments[commitments.len() - 1];
    laws::lemma_commitments_encoding_len(commitments);
    laws::lemma_commitments_encoding_len(init);
    assert(last.wf());
    last.d().lemma_view();
    last.e().lemma_view();
    if k == commitments.len() - 1 {
        assert(all.subrange(68 * k, 68 * k + 4) =~= hash::be_bytes(last.index()));
        assert(all.subrange(68 * k + 4, 68 * k + 36) =~= last.d().encoding());
        assert(all.subrange(68 * k + 36, 68 * k + 68) =~= last.e().encoding());
    } else {
        lemma_commitment_place(init, k);
        assert(init[k] == commitments[k]);
        assert(all.subrange(68 * k, 68 * k + 4) =~= start.subrange(68 * k, 68 * k + 4));
        assert(all.subrange(68 * k + 4, 68 * k + 36) =~= start.subrange(68 * k + 4, 68 * k + 36));
        assert(all.subrange(68 * k + 36, 68 * k + 68) =~= start.subrange(
            68 * k + 36,
            68 * k + 68,
        ));
    }
}

/// Four bytes that denote an integer are its bytes.
proof fn lemma_big_endian_digits(bytes: Seq<u8>, x: u32)
    requires
        bytes.len() == 4,
        bytes[0] * 0x100_0000 + bytes[1] * 0x1_0000 + bytes[2] * 0x100 + bytes[3] == x,
    ensures
        bytes == hash::be_bytes(x),
{
    let (b0, b1, b2, b3) = (bytes[0] as int, bytes[1] as int, bytes[2] as int, bytes[3] as int);
    let n = x as int;
    assert(n / 0x100_0000 == b0 && n / 0x1_0000 == b0 * 0x100 + b1) by {
        lemma_fundamental_div_mod_converse(n, 0x100_0000, b0, b1 * 0x1_0000 + b2 * 0x100 + b3);
        lemma_fundamental_div_mod_converse(n, 0x1_0000, b0 * 0x100 + b1, b2 * 0x100 + b3);
    }
    assert(n / 0x100 == b0 * 0x1_0000 + b1 * 0x100 + b2 && n % 0x100 == b3) by {
        lemma_fundamental_div_mod_converse(n, 0x100, b0 * 0x1_0000 + b1 * 0x100 + b2, b3);
    }
    assert((b0 * 0x100 + b1) % 0x100 == b1) by {
        lemma_fundamental_div_mod_converse(b0 * 0x100 + b1, 0x100, b0, b1);
    }
    assert((b0 * 0x1_0000 + b1 * 0x100 + b2) % 0x100 == b2) by {
        lemma_fundamental_div_mod_converse(
            b0 * 0x1_0000 + b1 * 0x100 + b2,
            0x100,
            b0 * 0x100 + b1,
            b2,
        );
    }
    assert(bytes =~= hash::be_bytes(x));
}

/// Byte strings that hold an integer, an encoding and another at one place agree there.
proof fn lemma_same_place(s: Seq<u8>, t: Seq<u8>, at: int, x: u32, d: Seq<u8>, e: Seq<u8>, q: int)
    requires
        0 <= at <= q < at + 68 <= s.len(),
        at + 68 <= t.len(),
        s[at] * 0x100_0000 + s[at + 1] * 0x1_0000 + s[at + 2] * 0x100 + s[at + 3] == x,
        t[at] * 0x100_0000 + t[at + 1] * 0x1_0000 + t[at + 2] * 0x100 + t[at + 3] == x,
        s.subrange(at + 4, at + 36) == d,
        t.subrange(at + 4, at + 36) == d,
        s.subrange(at + 36, at + 68) == e,
        t.subrange(at + 36, at + 68) == e,
    ensures
        s[q] == t[q],
{
    if q < at + 4 {
        lemma_big_endian_digits(s.subrange(at, at + 4), x);
        lemma_big_endian_digits(t.subrange(at, at + 4), x);
        assert(s.subrange(at, at + 4)[q - at] == t.subrange(at, at + 4)[q - at]);
    } else if q < at + 36 {
        assert(s.subrange(at + 4, at + 36)[q - at - 4] == d[q - at - 4]);
        assert(t.subrange(at + 4, at + 36)[q - at - 4] == d[q - at - 4]);
    } else {
        assert(s.subrange(at + 36, at + 68)[q - at - 36] == e[q - at - 36]);
        assert(t.subrange(at + 36, at + 68)[q - at - 36] == e[q - at - 36]);
    }
}

/// What the binding factor of a signer hashes, part for part: the letter `I`, the four bytes of the
/// index of that very signer, the bytes of the message, and 68 bytes for each commitment, in the
/// order of the list, which are the four bytes of its index and the 32 of each of its parts.
pub proof fn law_binding_factor_input(
    index: u32,
    msg: Seq<char>,
    commitments: Seq<SigningCommitment>,
)
    requires
        forall|i: int| 0 <= i < commitments.len() ==> (#[trigger] commitments[i]).wf(),
    ensures
        ({
            let input = sign::rho_preimage(index, msg, commitments);
            let text = vstd::utf8::encode_utf8(msg);
            let start = 5 + text.len();
            &&& input.len() == start + 68 * commitments.len()
            &&& input[0] == 0x49
            &&& input[1] * 0x100_0000 + input[2] * 0x1_0000 + input[3] * 0x100 + input[4] == index
            &&& input.subrange(5, start as int) == text
            &&& forall|k: int|
                0 <= k < commitments.len() ==> {
                    let at = start + 68 * k;
                    let c = #[trigger] commitments[k];
                    &&& input[at] * 0x100_0000 + input[at + 1] * 0x1_0000 + input[at + 2] * 0x100
                        + input[at + 3] == c.index()
                    &&& input.subrange(at + 4, at + 36) == c.d().encoding()
                    &&& input.subrange(at + 36, at + 68) == c.e().encoding()
                }
        }),
{
    let input = sign::rho_preimage(index, msg, commitments);
    let text = vstd::utf8::encode_utf8(msg);
    let start = (5 + text.len()) as int;
    let list = sign::commitments_encoding(commitments);
    laws::lemma_commitments_encoding_len(commitments);
    law_big_endian(index);
    assert(forall|j: int| 0 <= j < 4 ==> input[1 + j] == #[trigger] hash::be_bytes(index)[j]);
    assert(input[1] == hash::be_bytes(index)[0]);
    assert(input[2] == hash::be_bytes(index)[1]);
    assert(input[3] == hash::be_bytes(index)[2]);
    assert(input[4] == hash::be_bytes(index)[3]);
    assert(input.subrange(5, start) =~= text);
    assert forall|k: int| 0 <= k < commitments.len() implies {
        let at = start + 68 * k;
        let c = #[trigger] commitments[k];
        &&& input[at] * 0x100_0000 + input[at + 1] * 0x1_0000 + input[at + 2] * 0x100 + input[at
            + 3] == c.index()
        &&& input.subrange(at + 4, at + 36) == c.d().encoding()
        &&& input.subrange(at + 36, at + 68) == c.e().encoding()
    } by {
        let at = start + 68 * k;
        let c = commitments[k];
        lemma_commitment_place(commitments, k);
        law_big_endian(c.index());
        let four = list.subrange(68 * k, 68 * k + 4);
        assert(input[at] == four[0]);
        assert(input[at + 1] == four[1]);
        assert(input[at + 2] == four[2]);
        assert(input[at + 3] == four[3]);
        assert(input.subrange(at + 4, at + 36) =~= list.subrange(68 * k + 4, 68 * k + 36));
        assert(input.subrange(at + 36, at + 68) =~= list.subrange(68 * k + 36, 68 * k + 68));
    }
}

/// The binding factor of a signer is the SHA-256 digest, read as a little-endian number and reduced
/// modulo the group order, of the letter `I`, the four bytes of the signer's index, the bytes of the
/// message, and for each commitment in the order of the list the four bytes of its index and the 32
/// of each of its parts. Signing and aggregating use it for each signer who committed.
pub proof fn law_binding_factor(
    index: u32,
    msg: Seq<char>,
    commitments: Seq<SigningCommitment>,
    input: Seq<u8>,
)
    requires
        forall|i: int| 0 <= i < commitments.len() ==> (#[trigger] commitments[i]).wf(),
        ({
            let text = vstd::utf8::encode_utf8(msg);
            let start = 5 + text.len();
            &&& input.len() == start + 68 * commitments.len()
            &&& input[0] == 0x49
            &&& input[1] * 0x100_0000 + input[2] * 0x1_0000 + input[3] * 0x100 + input[4] == index
            &&& input.subrange(5, start as int) == text
            &&& forall|k: int|
                0 <= k < commitments.len() ==> {
                    let at = start + 68 * k;
                    let c = #[trigger] commitments[k];
                    &&& input[at] * 0x100_0000 + input[at + 1] * 0x1_0000 + input[at + 2] * 0x100
                        + input[at + 3] == c.index()
                    &&& input.subrange(at + 4, at + 36) == c.d().encoding()
                    &&& input.subrange(at + 36, at + 68) == c.e().encoding()
                }
        }),
    ensures
        sign::rho(index, msg, commitments) == field::le_value(hash::sha256_digest(input))
            % field::group_order(),
        sign::rhos(msg, commitments).contains_key(index) <==> exists|k: int|
            0 <= k < commitments.len() && (#[trigger] commitments[k]).index() == index,
        sign::rhos(msg, commitments).contains_key(index) ==> sign::rhos(msg, commitments)[index]
            == field::le_value(hash::sha256_digest(input)) % field::group_order(),
{
    let same = sign::rho_preimage(index, msg, commitments);
    let text = vstd::utf8::encode_utf8(msg);
    let start = (5 + text.len()) as int;
    law_binding_factor_input(index, msg, commitments);
    assert forall|q: int| 0 <= q < input.len() implies input[q] == same[q] by {
        if 1 <= q < 5 {
            lemma_big_endian_digits(input.subrange(1, 5), index);
            lemma_big_endian_digits(same.subrange(1, 5), index);
            assert(input.subrange(1, 5)[q - 1] == same.subrange(1, 5)[q - 1]);
        } else if 5 <= q < start {
            assert(input.subrange(5, start)[q - 5] == same.subrange(5, start)[q - 5]);
        } else if q >= start {
            let k = (q - start) / 68;
            let c = commitments[k];
            lemma_same_place(
                input,
                same,
                start + 68 * k,
                c.index(),
                c.d().encoding(),
                c.e().encoding(),
                q,
            );
        }
    }
    assert(input =~= same);
    let all = sign::indices(commitments);
    if all.contains(index) {
        let k = choose|k: int| 0 <= k < all.len() && all[k] == index;
        assert(commitments[k].index() == index);
    }
    if exists|k: int| 0 <= k < commitments.len() && (#[trigger] commitments[k]).index() == index {
        let k = choose|k: int|
            0 <= k < commitments.len() && (#[trigger] commitments[k]).index() == index;
        assert(all[k] == index);
    }
}

/// The indices of commitments and of responses, in their order, and the integers that a map of
/// scalars holds.
pub proof fn law_indices(
    commitments: Seq<SigningCommitment>,
    responses: Seq<SigningResponse>,
    bindings: Map<u32, Scalar>,
    i: u32,
)
    ensures
        sign::indices(commitments) == commitments.map_values(|c: SigningCommitment| c.index()),
        sign::response_indices(responses) == responses.map_values(|r: SigningResponse| r.index),
        sign::binding_values(bindings).contains_key(i) <==> bindings.contains_key(i),
        bindings.contains_key(i) ==> sign::binding_values(bindings)[i] == bindings[i]@,
{
    assert(sign::indices(commitments) =~= commitments.map_values(
        |c: SigningCommitment| c.index(),
    ));
    assert(sign::response_indices(responses) =~= responses.map_values(
        |r: SigningResponse| r.index,
    ));
}

/// The group commitment is a fold over the commitments.
proof fn lemma_group_commitment_fold(
    commitments: Seq<SigningCommitment>,
    rhos: Map<u32, int>,
    f: spec_fn(int, SigningCommitment) -> int,
)
    requires
        forall|acc: int, c: SigningCommitment| #[trigger]
            f(acc, c) == acc + (c.d()@ + c.e()@ * rhos[c.index()]),
    ensures
        sign::group_commitment(commitments, rhos) == field::reduce(
            commitments.fold_left(0int, f),
        ),
    decreases commitments.len(),
{
    field::lemma_group_order_large();
    field::lemma_reduce_small(0);
    if commitments.len() > 0 {
        let init = commitments.drop_last();
        let c = commitments.last();
        lemma_group_commitment_fold(init, rhos, f);
        field::lemma_reduce_add(init.fold_left(0int, f), c.d()@ + c.e()@ * rhos[c.index()]);
    }
}

/// The group commitment is the sum, over all the commitments, of the first part plus the second by
/// the binding factor of the signer, reduced modulo the group order, whatever the indices.
pub proof fn law_group_commitment(commitments: Seq<SigningCommitment>, rhos: Map<u32, int>)
    ensures
        sign::group_commitment(commitments, rhos) == commitments.fold_left(
            0int,
            |acc: int, c: SigningCommitment| acc + (c.d()@ + c.e()@ * rhos[c.index()]),
        ) % field::group_order(),
{
    lemma_group_commitment_fold(
        commitments,
        rhos,
        |acc: int, c: SigningCommitment| acc + (c.d()@ + c.e()@ * rhos[c.index()]),
    );
}

/// The equations that responses and signatures are checked by.
pub proof fn law_checks(r: int, z: int, pubkey: int, lambda: int, commitment: int, c: int)
    ensures
        sign::response_is_valid(z, pubkey, lambda, commitment, c) <==> z == (commitment + pubkey * (c
            * lambda)) % field::group_order(),
        sign::signature_is_valid(r, z, pubkey, c) <==> r == (z - pubkey * c)
            % field::group_order(),
{
}

/// A signer who did not commit gets an error, and keeps the nonces.
pub proof fn law_sign_without_commitment(
    keypair: KeyPair,
    commitments: Seq<SigningCommitment>,
    rhos: Map<u32, int>,
    c: int,
    before: Seq<NoncePair>,
    after: Seq<NoncePair>,
    r: Result<SigningResponse, &'static str>,
)
    requires
        sign::sign_outcome(keypair, commitments, rhos, c, before, after, r),
        forall|k: int|
            0 <= k < commitments.len() ==> (#[trigger] commitments[k]).index() != keypair.index,
    ensures
        r matches Err(m) && m@ == "No signing commitment for signer"@,
        after == before,
{
    let all = sign::indices(commitments);
    if all.contains(keypair.index) {
        let k = choose|k: int| 0 <= k < all.len() && all[k] == keypair.index;
        assert(commitments[k].index() == keypair.index);
    }
}

/// The first commitment of a signer is the one that signing and aggregating go by.
proof fn lemma_first_commitment(commitments: Seq<SigningCommitment>, index: u32, p: int)
    requires
        0 <= p < commitments.len(),
        commitments[p].index() == index,
        forall|q: int| 0 <= q < p ==> (#[trigger] commitments[q]).index() != index,
    ensures
        sign::indices(commitments).contains(index),
        sign::commitment_of(commitments, index) == commitments[p],
{
    assert(sign::indices(commitments)[p] == index);
    assert(sign::is_first_commitment(commitments, index, p));
    let q = choose|q: int| sign::is_first_commitment(commitments, index, q);
    assert(p == q);
}

/// A signer without the nonces of the first commitment gets an error, and keeps the nonces.
pub proof fn law_sign_without_nonces(
    keypair: KeyPair,
    commitments: Seq<SigningCommitment>,
    rhos: Map<u32, int>,
    c: int,
    before: Seq<NoncePair>,
    after: Seq<NoncePair>,
    r: Result<SigningResponse, &'static str>,
    p: int,
)
    requires
        sign::sign_outcome(keypair, commitments, rhos, c, before, after, r),
        0 <= p < commitments.len(),
        commitments[p].index() == keypair.index,
        forall|q: int| 0 <= q < p ==> (#[trigger] commitments[q]).index() != keypair.index,
        forall|j: int|
            0 <= j < before.len() ==> {
                ||| (#[trigger] before[j]).d().public()@ != commitments[p].d()@
                ||| before[j].e().public()@ != commitments[p].e()@
            },
    ensures
        r matches Err(m) && m@ == "No matching signing nonce for signer"@,
        after == before,
{
    lemma_first_commitment(commitments, keypair.index, p);
}

/// A signer with the nonces of the first commitment answers with the hiding nonce, plus the binding
/// nonce by the binding factor of the signer, plus the Lagrange coefficient among all who committed
/// by the key share and the challenge, reduced modulo the group order; and the first matching pair of
/// nonces, and no other, is deleted.
pub proof fn law_sign_response(
    keypair: KeyPair,
    commitments: Seq<SigningCommitment>,
    rhos: Map<u32, int>,
    c: int,
    before: Seq<NoncePair>,
    after: Seq<NoncePair>,
    r: Result<SigningResponse, &'static str>,
    p: int,
    j: int,
)
    requires
        sign::sign_outcome(keypair, commitments, rhos, c, before, after, r),
        0 <= p < commitments.len(),
        commitments[p].index() == keypair.index,
        forall|q: int| 0 <= q < p ==> (#[trigger] commitments[q]).index() != keypair.index,
        0 <= j < before.len(),
        before[j].d().public()@ == commitments[p].d()@,
        before[j].e().public()@ == commitments[p].e()@,
        forall|q: int|
            0 <= q < j ==> {
                ||| (#[trigger] before[q]).d().public()@ != commitments[p].d()@
                ||| before[q].e().public()@ != commitments[p].e()@
            },
    ensures
        r is Ok,
        r->Ok_0.index == keypair.index,
        r->Ok_0.response@ == (before[j].d().secret()@ + before[j].e().secret()@
            * rhos[keypair.index] + helpers::lagrange_coeff(
            0,
            keypair.index,
            commitments.map_values(|c: SigningCommitment| c.index()),
        ) * keypair.secret@ * c) % field::group_order(),
        after == before.take(j) + before.skip(j + 1),
{
    let commitment = commitments[p];
    lemma_first_commitment(commitments, keypair.index, p);
    assert(sign::nonce_matches(before[j], commitment));
    assert(sign::is_first_nonce(before, commitment, j));
    let q = choose|q: int| sign::is_first_nonce(before, commitment, q);
    assert(q == j);
    assert(sign::indices(commitments) =~= commitments.map_values(
        |c: SigningCommitment| c.index(),
    ));
    assert(before.remove(j) =~= before.take(j) + before.skip(j + 1));
}

/// Signing a message goes by the binding factors of the message and the commitments, and by the
/// challenge of the message and the group commitment that these binding factors give.
pub proof fn law_sign_message(
    keypair: KeyPair,
    commitments: Seq<SigningCommitment>,
    msg: Seq<char>,
    before: Seq<NoncePair>,
    after: Seq<NoncePair>,
    r: Result<SigningResponse, &'static str>,
    rhos: Map<u32, int>,
)
    requires
        sign::signed(keypair, commitments, msg, before, after, r),
        forall|i: u32| #[trigger]
            rhos.contains_key(i) <==> exists|k: int|
                0 <= k < commitments.len() && (#[trigger] commitments[k]).index() == i,
        forall|i: u32| #[trigger]
            rhos.contains_key(i) ==> rhos[i] == sign::rho(i, msg, commitments),
    ensures
        sign::sign_outcome(
            keypair,
            commitments,
            rhos,
            sign::challenge(
                msg,
                commitments.fold_left(
                    0int,
                    |acc: int, c: SigningCommitment| acc + (c.d()@ + c.e()@ * rhos[c.index()]),
                ) % field::group_order(),
            ),
            before,
            after,
            r,
        ),
{
    lemma_rhos(msg, commitments, rhos);
    law_group_commitment(commitments, rhos);
}

/// The binding factors of a message and a list of commitments are those of the signers who
/// committed.
proof fn lemma_rhos(msg: Seq<char>, commitments: Seq<SigningCommitment>, rhos: Map<u32, int>)
    requires
        forall|i: u32| #[trigger]
            rhos.contains_key(i) <==> exists|k: int|
                0 <= k < commitments.len() && (#[trigger] commitments[k]).index() == i,
        forall|i: u32| #[trigger]
            rhos.contains_key(i) ==> rhos[i] == sign::rho(i, msg, commitments),
    ensures
        rhos == sign::rhos(msg, commitments),
{
    let all = sign::indices(commitments);
    assert forall|i: u32| #[trigger] rhos.contains_key(i) <==> all.contains(i) by {
        if all.contains(i) {
            let k = choose|k: int| 0 <= k < all.len() && all[k] == i;
            assert(commitments[k].index() == i);
        }
        if rhos.contains_key(i) {
            let k = choose|k: int|
                0 <= k < commitments.len() && (#[trigger] commitments[k]).index() == i;
            assert(all[k] == i);
        }
    }
    assert(rhos =~= sign::rhos(msg, commitments));
}

/// The sum of the responses is a fold over them.
proof fn lemma_response_fold(
    responses: Seq<SigningResponse>,
    f: spec_fn(int, SigningResponse) -> int,
)
    requires
        forall|acc: int, r: SigningResponse| #[trigger] f(acc, r) == acc + r.response@,
    ensures
        sign::response_sum(responses) == field::reduce(responses.fold_left(0int, f)),
    decreases responses.len(),
{
    field::lemma_group_order_large();
    field::lemma_reduce_small(0);
    if responses.len() > 0 {
        let init = responses.drop_last();
        lemma_response_fold(init, f);
        field::lemma_reduce_add(init.fold_left(0int, f), responses.last().response@);
    }
}

/// Responses without a fault before the place `k`, and with one there, have that as the first.
proof fn lemma_first_fault_at(
    responses: Seq<SigningResponse>,
    commitments: Seq<SigningCommitment>,
    pubkeys: Map<u32, RistrettoPoint>,
    rhos: Map<u32, int>,
    c: int,
    k: int,
)
    requires
        0 <= k <= responses.len(),
        forall|q: int|
            0 <= q < k ==> sign::response_fault(
                #[trigger] responses[q],
                commitments,
                pubkeys,
                rhos,
                c,
            ) is None,
        k < responses.len() ==> sign::response_fault(
            responses[k],
            commitments,
            pubkeys,
            rhos,
            c,
        ) is Some,
    ensures
        sign::first_fault(responses, commitments, pubkeys, rhos, c) == if k < responses.len() {
            sign::response_fault(responses[k], commitments, pubkeys, rhos, c)
        } else {
            None
        },
    decreases responses.len(),
{
    if responses.len() > 0 {
        let init = responses.drop_last();
        assert forall|q: int| 0 <= q < k && q < init.len() implies sign::response_fault(
            #[trigger] init[q],
            commitments,
            pubkeys,
            rhos,
            c,
        ) is None by {
            assert(init[q] == responses[q]);
        }
        if k < responses.len() - 1 {
            assert(init[k] == responses[k]);
            lemma_first_fault_at(init, commitments, pubkeys, rhos, c, k);
        } else {
            lemma_first_fault_at(init, commitments, pubkeys, rhos, c, init.len() as int);
            assert(responses[responses.len() - 1] == responses.last());
        }
    }
}

/// What is wrong with a response, where `p` is the place of its signer's first commitment.
///
/// Nothing, exactly where the signer has a public key and the response is the first part of the
/// commitment, plus the second by the binding factor of the signer, plus the public key by the
/// challenge and the Lagrange coefficient among all who committed, reduced modulo the group order.
pub proof fn law_response_fault(
    response: SigningResponse,
    commitments: Seq<SigningCommitment>,
    pubkeys: Map<u32, RistrettoPoint>,
    rhos: Map<u32, int>,
    c: int,
    p: int,
)
    requires
        0 <= p < commitments.len(),
        commitments[p].index() == response.index,
        forall|q: int| 0 <= q < p ==> (#[trigger] commitments[q]).index() != response.index,
    ensures
        sign::response_fault(response, commitments, pubkeys, rhos, c) == if !pubkeys.contains_key(
            response.index,
        ) {
            Some("commitment does not have a matching signer public key!"@)
        } else if response.response@ != (commitments[p].d()@ + commitments[p].e()@
            * rhos[response.index] + pubkeys[response.index]@ * (c * helpers::lagrange_coeff(
            0,
            response.index,
            commitments.map_values(|c: SigningCommitment| c.index()),
        ))) % field::group_order() {
            Some("Invalid signer response"@)
        } else {
            None
        },
{
    let i = response.index;
    let k = commitments[p];
    lemma_first_commitment(commitments, i, p);
    let all = commitments.map_values(|c: SigningCommitment| c.index());
    assert(sign::indices(commitments) =~= all);
    let lambda = helpers::lagrange_coeff(0, i, all);
    field::lemma_reduce_add(k.d()@ + k.e()@ * rhos[i], pubkeys[i]@ * (c * lambda));
}

/// Responses without a fault add up to the second part of the signature, whose first part is the
/// group commitment.
pub proof fn law_aggregate_signature(
    commitments: Seq<SigningCommitment>,
    responses: Seq<SigningResponse>,
    pubkeys: Map<u32, RistrettoPoint>,
    rhos: Map<u32, int>,
    group_commitment: int,
    c: int,
    r: Result<Signature, &'static str>,
)
    requires
        sign::aggregate_outcome(commitments, responses, pubkeys, rhos, group_commitment, c, r),
        forall|k: int|
            0 <= k < responses.len() ==> sign::response_fault(
                #[trigger] responses[k],
                commitments,
                pubkeys,
                rhos,
                c,
            ) is None,
    ensures
        r is Ok,
        r->Ok_0.r@ == group_commitment,
        r->Ok_0.z@ == responses.fold_left(0int, |acc: int, r: SigningResponse| acc + r.response@)
            % field::group_order(),
{
    lemma_first_fault_at(responses, commitments, pubkeys, rhos, c, responses.len() as int);
    lemma_response_fold(responses, |acc: int, r: SigningResponse| acc + r.response@);
}

/// The first response with a fault decides: its fault is the error.
pub proof fn law_aggregate_error(
    commitments: Seq<SigningCommitment>,
    responses: Seq<SigningResponse>,
    pubkeys: Map<u32, RistrettoPoint>,
    rhos: Map<u32, int>,
    group_commitment: int,
    c: int,
    r: Result<Signature, &'static str>,
    k: int,
)
    requires
        sign::aggregate_outcome(commitments, responses, pubkeys, rhos, group_commitment, c, r),
        0 <= k < responses.len(),
        forall|q: int|
            0 <= q < k ==> sign::response_fault(
                #[trigger] responses[q],
                commitments,
                pubkeys,
                rhos,
                c,
            ) is None,
        sign::response_fault(responses[k], commitments, pubkeys, rhos, c) is Some,
    ensures
        r matches Err(m) && Some(m@) == sign::response_fault(
            responses[k],
            commitments,
            pubkeys,
            rhos,
            c,
        ),
{
    lemma_first_fault_at(responses, commitments, pubkeys, rhos, c, k);
}

/// Aggregating the responses to a message asks for as many responses as commitments and for the same
/// indices, each as often; then it goes by the binding factors of the message and the commitments,
/// the group commitment that these give, and the challenge of the message and that.
pub proof fn law_aggregate_message(
    msg: Seq<char>,
    commitments: Seq<SigningCommitment>,
    responses: Seq<SigningResponse>,
    pubkeys: Map<u32, RistrettoPoint>,
    r: Result<Signature, &'static str>,
    rhos: Map<u32, int>,
)
    requires
        sign::aggregated(msg, commitments, responses, pubkeys, r),
        forall|i: u32| #[trigger]
            rhos.contains_key(i) <==> exists|k: int|
                0 <= k < commitments.len() && (#[trigger] commitments[k]).index() == i,
        forall|i: u32| #[trigger]
            rhos.contains_key(i) ==> rhos[i] == sign::rho(i, msg, commitments),
    ensures
        commitments.len() != responses.len() ==> (r matches Err(m) && m@
            == "Mismatched number of commitments and responses"@),
        commitments.len() == responses.len() && commitments.map_values(
            |c: SigningCommitment| c.index(),
        ).to_multiset() != responses.map_values(|r: SigningResponse| r.index).to_multiset() ==> (
        r matches Err(m) && m@ == "Mismatched commitment without corresponding response"@),
        commitments.len() == responses.len() && commitments.map_values(
            |c: SigningCommitment| c.index(),
        ).to_multiset() == responses.map_values(|r: SigningResponse| r.index).to_multiset() ==> ({
            let group = commitments.fold_left(
                0int,
                |acc: int, c: SigningCommitment| acc + (c.d()@ + c.e()@ * rhos[c.index()]),
            ) % field::group_order();
            sign::aggregate_outcome(
                commitments,
                responses,
                pubkeys,
                rhos,
                group,
                sign::challenge(msg, group),
                r,
            )
        }),
{
    lemma_rhos(msg, commitments, rhos);
    law_group_commitment(commitments, rhos);
    assert(sign::indices(commitments) =~= commitments.map_values(
        |c: SigningCommitment| c.index(),
    ));
    assert(sign::response_indices(responses) =~= responses.map_values(
        |r: SigningResponse| r.index,
    ));
}

/// What commitments and nonces are: a commitment is two group elements other than the identity, and
/// each nonce is a secret other than zero and the multiple of the basepoint by it.
pub proof fn law_commitments_and_nonces(commitment: SigningCommitment, nonces: NoncePair)
    requires
        commitment.wf(),
        nonces.wf(),
    ensures
        commitment.d().wf() && commitment.d()@ != 0,
        commitment.e().wf() && commitment.e()@ != 0,
        nonces.d().public().wf() && nonces.d().public()@ == nonces.d().secret()@
            && nonces.d().secret()@ != 0,
        nonces.e().public().wf() && nonces.e().public()@ == nonces.e().secret()@
            && nonces.e().secret()@ != 0,
{
}

/// The commitments of a participant to pairs of nonces have the participant's index and the points
/// of the nonces in the same places.
pub proof fn law_commit(
    commitments: Seq<SigningCommitment>,
    participant_index: u32,
    nonces: Seq<NoncePair>,
)
    requires
        commitment::all_commit_to(commitments, participant_index, nonces),
    ensures
        commitments.len() == nonces.len(),
        forall|k: int|
            0 <= k < commitments.len() ==> {
                &&& (#[trigger] commitments[k]).index() == participant_index
                &&& commitments[k].d() == nonces[k].d().public()
                &&& commitments[k].e() == nonces[k].e().public()
            },
{
}

/// What preprocessing makes of secrets: an error exactly where one of them is zero; otherwise, for
/// the `k`-th two secrets, the `k`-th pair of nonces with these secrets and their points, and the
/// `k`-th commitment with the participant's index and the same points.
pub proof fn law_preprocess_from_secrets(
    participant_index: u32,
    secrets: Seq<(Scalar, Scalar)>,
    r: Result<(Vec<SigningCommitment>, Vec<NoncePair>), &'static str>,
)
    requires
        commitment::preprocessed(participant_index, secrets, r),
    ensures
        r is Err <==> exists|k: int|
            0 <= k < secrets.len() && ((#[trigger] secrets[k]).0@ == 0 || secrets[k].1@ == 0),
        r matches Err(m) ==> m@ == "Invalid nonce commitment"@,
        r is Ok ==> r->Ok_0.0@.len() == secrets.len() && r->Ok_0.1@.len() == secrets.len(),
        r is Ok ==> forall|k: int|
            0 <= k < secrets.len() ==> {
                let c = r->Ok_0.0@[k];
                let n = r->Ok_0.1@[k];
                let (d, e) = #[trigger] secrets[k];
                &&& n.d().secret() == d && n.e().secret() == e
                &&& n.d().public()@ == d@ && n.e().public()@ == e@
                &&& c.index() == participant_index
                &&& c.d()@ == d@ && c.e()@ == e@
            },
{
    if r is Ok {
        let (cs, ns) = r->Ok_0;
        assert forall|k: int| 0 <= k < secrets.len() implies {
            let c = cs@[k];
            let n = ns@[k];
            let (d, e) = #[trigger] secrets[k];
            &&& n.d().secret() == d && n.e().secret() == e
            &&& n.d().public()@ == d@ && n.e().public()@ == e@
            &&& c.index() == participant_index
            &&& c.d()@ == d@ && c.e()@ == e@
        } by {
            assert(ns@[k].wf());
            assert(commitment::commits_to(cs@[k], participant_index, ns@[k]));
        }
    }
}

/// Preprocessing takes its secrets from the generator: there are states that the generator went
/// through, from the one before the call to the one after it, and secrets, each the outcome of the
/// draw between two neighbouring states, so that nothing is drawn twice or left unused; and the
/// result is made of these secrets. There are as many pairs as asked for, unless a zero was drawn,
/// which ends the drawing and is the only way to fail.
pub proof fn law_preprocess_draws(
    number: nat,
    participant_index: u32,
    before: ThreadRng,
    r: Result<(Vec<SigningCommitment>, Vec<NoncePair>), &'static str>,
    after: ThreadRng,
)
    requires
        commitment::preprocessed_from(number, participant_index, before, r, after),
    ensures
        exists|states: Seq<ThreadRng>, secrets: Seq<(Scalar, Scalar)>|
            #![trigger commitment::drawn_along(states, secrets)]
            {
                &&& commitment::drawn_along(states, secrets)
                &&& commitment::preprocessed(participant_index, secrets, r)
                &&& states.len() == 2 * secrets.len() + 1
                &&& states[0] == before
                &&& states[2 * secrets.len() as int] == after
                &&& forall|k: int|
                    0 <= k < secrets.len() ==> {
                        &&& scalar::is_draw(
                            states[2 * k],
                            (#[trigger] secrets[k]).0,
                            states[2 * k + 1],
                        )
                        &&& scalar::is_draw(states[2 * k + 1], secrets[k].1, states[2 * k + 2])
                    }
                &&& forall|k: int|
                    0 <= k < secrets.len() - 1 ==> (#[trigger] secrets[k]).0@ != 0
                        && secrets[k].1@ != 0
                &&& r is Ok ==> secrets.len() == number
                &&& r is Err ==> 0 < secrets.len() <= number && (
                secrets[secrets.len() - 1].0@ == 0 || secrets[secrets.len() - 1].1@ == 0)
            },
{
    let secrets = choose|secrets: Seq<(Scalar, Scalar)>| #[trigger]
        commitment::drawn_secrets(number, before, secrets, after) && commitment::preprocessed(
            participant_index,
            secrets,
            r,
        );
    let states = choose|states: Seq<ThreadRng>| #[trigger]
        commitment::drawn_along(states, secrets) && states[0] == before && states.last() == after;
    assert forall|k: int| 0 <= k < secrets.len() - 1 implies (#[trigger] secrets[k]).0@ != 0
        && secrets[k].1@ != 0 by {
        assert(secrets.drop_last()[k] == secrets[k]);
    }
    law_preprocess_from_secrets(participant_index, secrets, r);
    if r is Err {
        let k = choose|k: int|
            0 <= k < secrets.len() && ((#[trigger] secrets[k]).0@ == 0 || secrets[k].1@ == 0);
        assert(k == secrets.len() - 1);
    }
    assert(commitment::drawn_along(states, secrets));
}

/// A pair of nonces takes its secrets from two draws, the second from the generator that the first
/// leaves, and fails exactly where one of them is zero.
pub proof fn law_nonces_draw(
    before: ThreadRng,
    r: Result<NoncePair, &'static str>,
    after: ThreadRng,
)
    requires
        commitment::drawn_nonces(before, r, after),
    ensures
        exists|d: Scalar, between: ThreadRng, e: Scalar|
            #![trigger scalar::is_draw(before, d, between), scalar::is_draw(between, e, after)]
            {
                &&& scalar::is_draw(before, d, between)
                &&& scalar::is_draw(between, e, after)
                &&& r is Err <==> d@ == 0 || e@ == 0
                &&& r is Ok ==> r->Ok_0.d().secret() == d && r->Ok_0.e().secret() == e
            },
{
}

} // verus!
