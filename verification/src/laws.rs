//! What the parts of the protocol promise together.
use vstd::prelude::*;

use crate::commitment;
use crate::commitment::{NoncePair, SigningCommitment};
use crate::field;
use crate::group::RistrettoPoint;
use crate::hash;
use crate::helpers;
use crate::interpolation;
use crate::keygen::KeyPair;
use crate::scalar::Scalar;
use crate::sign;
use crate::sign::{Signature, SigningResponse};

verus! {

/// The group key that the public keys of the signers make up: each by the Lagrange coefficient
/// of its signer, added up.
pub open spec fn interpolated_key(
    indices: Seq<u32>,
    pubkeys: Map<u32, RistrettoPoint>,
) -> int {
    field::reduce(interpolation::weighted_sum(indices, |i: u32| pubkeys[i]@))
}

/// Whether a key pair holds the share of a secret that was shared by the polynomial with the
/// coefficients `coeffs`, along with the matching public keys.
pub open spec fn is_share(keypair: KeyPair, coeffs: Seq<int>) -> bool {
    &&& keypair.secret@ == field::reduce(interpolation::eval(coeffs, keypair.index as int))
    &&& keypair.public@ == keypair.secret@
    &&& keypair.group_public@ == field::reduce(interpolation::eval(coeffs, 0))
}

/// A signature holds exactly where its second part is its first part plus the secret key by the
/// challenge: so the holder of the secret key can sign alone, and only that second part will do.
pub proof fn law_schnorr(sig: Signature, pubkey: RistrettoPoint, c: Scalar)
    requires
        sig.r.wf(),
        sig.z.wf(),
    ensures
        sign::signature_is_valid(sig.r@, sig.z@, pubkey@, c@) <==> sig.z@ == field::reduce(
            sig.r@ + pubkey@ * c@,
        ),
{
    let r = sig.r@;
    let z = sig.z@;
    let k = pubkey@ * c@;
    sig.r.lemma_view();
    field::lemma_reduce_small(r);
    field::lemma_reduce_small(z);
    field::lemma_reduce_add(z - k, k);
    field::lemma_reduce_sub(r + k, k);
}

/// The response that a signer gives is the one that the aggregator accepts from that signer.
pub proof fn law_signed_response_is_accepted(
    keypair: KeyPair,
    commitments: Seq<SigningCommitment>,
    msg: Seq<char>,
    before: Seq<NoncePair>,
    after: Seq<NoncePair>,
    response: SigningResponse,
    pubkeys: Map<u32, RistrettoPoint>,
)
    requires
        forall|i: int| 0 <= i < before.len() ==> (#[trigger] before[i]).wf(),
        sign::signed(keypair, commitments, msg, before, after, Ok(response)),
        pubkeys.contains_key(keypair.index),
        pubkeys[keypair.index]@ == keypair.secret@,
    ensures
        sign::response_fault(
            response,
            commitments,
            pubkeys,
            sign::rhos(msg, commitments),
            sign::challenge(
                msg,
                sign::group_commitment(commitments, sign::rhos(msg, commitments)),
            ),
        ) is None,
{
    let values = sign::rhos(msg, commitments);
    let c = sign::challenge(msg, sign::group_commitment(commitments, values));
    let commitment = sign::commitment_of(commitments, keypair.index);
    let p = sign::nonce_position(before, commitment);
    let q = choose|q: int|
        0 <= q < before.len() && sign::nonce_matches(#[trigger] before[q], commitment);
    lemma_first_nonce(before, commitment, q);
    let nonce = before[p];
    assert(nonce.wf());
    let d = nonce.d().secret()@;
    let e = nonce.e().secret()@;
    let rho = values[keypair.index];
    let lambda = helpers::lagrange_coeff(0, keypair.index, sign::indices(commitments));
    let secret = keypair.secret@;
    field::lemma_reduce_add(d + e * rho, secret * (c * lambda));
    assert(lambda * secret * c == secret * (c * lambda)) by (nonlinear_arith);
}

/// Where one of the pairs of nonces matches a commitment, the place that signing uses is that of
/// a matching pair.
proof fn lemma_first_nonce(nonces: Seq<NoncePair>, commitment: SigningCommitment, q: int)
    requires
        0 <= q < nonces.len(),
        sign::nonce_matches(nonces[q], commitment),
    ensures
        sign::is_first_nonce(nonces, commitment, sign::nonce_position(nonces, commitment)),
    decreases q,
{
    if exists|k: int| 0 <= k < q && sign::nonce_matches(#[trigger] nonces[k], commitment) {
        let k = choose|k: int| 0 <= k < q && sign::nonce_matches(#[trigger] nonces[k], commitment);
        lemma_first_nonce(nonces, commitment, k);
    } else {
        assert(sign::is_first_nonce(nonces, commitment, q));
    }
}

/// A response that the aggregator accepts is the only one that it accepts from that signer: any
/// other value is refused as invalid.
pub proof fn law_other_response_is_refused(
    response: SigningResponse,
    other: SigningResponse,
    commitments: Seq<SigningCommitment>,
    pubkeys: Map<u32, RistrettoPoint>,
    rhos: Map<u32, int>,
    c: int,
)
    requires
        sign::response_fault(response, commitments, pubkeys, rhos, c) is None,
        other.index == response.index,
        other.response@ != response.response@,
    ensures
        sign::response_fault(other, commitments, pubkeys, rhos, c) == Some(
            "Invalid signer response"@,
        ),
{
}

/// A signer can sign who committed to a pair of nonces and still has it.
pub proof fn law_committed_signer_signs(
    keypair: KeyPair,
    commitments: Seq<SigningCommitment>,
    msg: Seq<char>,
    before: Seq<NoncePair>,
    after: Seq<NoncePair>,
    r: Result<SigningResponse, &'static str>,
    k: int,
)
    requires
        sign::indices(commitments).contains(keypair.index),
        0 <= k < before.len(),
        commitment::commits_to(
            sign::commitment_of(commitments, keypair.index),
            keypair.index,
            before[k],
        ),
        sign::signed(keypair, commitments, msg, before, after, r),
    ensures
        r is Ok,
{
    assert(sign::nonce_matches(before[k], sign::commitment_of(commitments, keypair.index)));
}

/// A pair of nonces signs once: where no other pair matches the same commitment, signing again
/// with the nonces that signing left fails, whatever the message.
pub proof fn law_nonce_is_used_once(
    keypair: KeyPair,
    commitments: Seq<SigningCommitment>,
    msg: Seq<char>,
    before: Seq<NoncePair>,
    after: Seq<NoncePair>,
    response: SigningResponse,
    next_msg: Seq<char>,
    last: Seq<NoncePair>,
    r: Result<SigningResponse, &'static str>,
)
    requires
        sign::signed(keypair, commitments, msg, before, after, Ok(response)),
        forall|i: int, j: int|
            #![trigger before[i], before[j]]
            0 <= i < before.len() && 0 <= j < before.len() && sign::nonce_matches(
                before[i],
                sign::commitment_of(commitments, keypair.index),
            ) && sign::nonce_matches(
                before[j],
                sign::commitment_of(commitments, keypair.index),
            ) ==> i == j,
        sign::signed(keypair, commitments, next_msg, after, last, r),
    ensures
        after.len() == before.len() - 1,
        r matches Err(m) && m@ == "No matching signing nonce for signer"@,
        last == after,
{
    let commitment = sign::commitment_of(commitments, keypair.index);
    let p = sign::nonce_position(before, commitment);
    let q = choose|q: int|
        0 <= q < before.len() && sign::nonce_matches(#[trigger] before[q], commitment);
    lemma_first_nonce(before, commitment, q);
    assert forall|k: int| 0 <= k < after.len() implies !sign::nonce_matches(
        #[trigger] after[k],
        commitment,
    ) by {
        let k2 = if k < p { k } else { k + 1 };
        assert(after[k] == before[k2]);
        assert(before[p] == before[p]);
    }
}

/// Responses without a fault each are responses without a first fault, and the other way round.
proof fn lemma_first_fault_none(
    responses: Seq<SigningResponse>,
    commitments: Seq<SigningCommitment>,
    pubkeys: Map<u32, RistrettoPoint>,
    rhos: Map<u32, int>,
    c: int,
)
    ensures
        sign::first_fault(responses, commitments, pubkeys, rhos, c) is None <==> forall|i: int|
            0 <= i < responses.len() ==> sign::response_fault(
                #[trigger] responses[i],
                commitments,
                pubkeys,
                rhos,
                c,
            ) is None,
    decreases responses.len(),
{
    if responses.len() > 0 {
        let init = responses.drop_last();
        lemma_first_fault_none(init, commitments, pubkeys, rhos, c);
        assert(forall|i: int| 0 <= i < init.len() ==> init[i] == responses[i]);
        assert(responses[responses.len() - 1] == responses.last());
        if sign::first_fault(responses, commitments, pubkeys, rhos, c) is None {
            assert forall|i: int| 0 <= i < responses.len() implies sign::response_fault(
                #[trigger] responses[i],
                commitments,
                pubkeys,
                rhos,
                c,
            ) is None by {
                if i < init.len() {
                    assert(init[i] == responses[i]);
                }
            }
        }
    }
}

/// One response with a fault is enough for the aggregator to refuse them all.
pub proof fn law_faulty_response_is_refused(
    msg: Seq<char>,
    commitments: Seq<SigningCommitment>,
    responses: Seq<SigningResponse>,
    pubkeys: Map<u32, RistrettoPoint>,
    r: Result<Signature, &'static str>,
    k: int,
)
    requires
        0 <= k < responses.len(),
        sign::response_fault(
            responses[k],
            commitments,
            pubkeys,
            sign::rhos(msg, commitments),
            sign::challenge(
                msg,
                sign::group_commitment(commitments, sign::rhos(msg, commitments)),
            ),
        ) is Some,
        sign::aggregated(msg, commitments, responses, pubkeys, r),
    ensures
        r is Err,
{
    let values = sign::rhos(msg, commitments);
    let c = sign::challenge(msg, sign::group_commitment(commitments, values));
    lemma_first_fault_none(responses, commitments, pubkeys, values, c);
}

/// The response of one signer does not stand in for that of another: where every signer committed
/// once and two responses have one index, the aggregator refuses them all.
pub proof fn law_repeated_response_is_refused(
    msg: Seq<char>,
    commitments: Seq<SigningCommitment>,
    responses: Seq<SigningResponse>,
    pubkeys: Map<u32, RistrettoPoint>,
    r: Result<Signature, &'static str>,
    j: int,
    k: int,
)
    requires
        sign::indices(commitments).no_duplicates(),
        0 <= j < k < responses.len(),
        responses[j].index == responses[k].index,
        sign::aggregated(msg, commitments, responses, pubkeys, r),
    ensures
        r is Err,
{
    let all = sign::indices(commitments);
    let resp_all = sign::response_indices(responses);
    if all.to_multiset() == resp_all.to_multiset() {
        all.lemma_multiset_has_no_duplicates();
        all.to_multiset_ensures();
        resp_all.to_multiset_ensures();
        let x = responses[k].index;
        let rest = resp_all.remove(k);
        assert(resp_all[k] == x);
        assert(rest[j] == x);
        rest.to_multiset_ensures();
        assert(rest.contains(x));
        assert(resp_all.contains(x));
        assert(resp_all.to_multiset().contains(x));
        assert(resp_all.to_multiset().remove(x).count(x) > 0);
    }
}

/// The responses add up to the sum of what `f` is at their indices, where each is that.
proof fn lemma_response_sum(responses: Seq<SigningResponse>, f: spec_fn(u32) -> int)
    requires
        forall|i: int|
            0 <= i < responses.len() ==> (#[trigger] responses[i]).response@ == field::reduce(
                f(responses[i].index),
            ),
    ensures
        sign::response_sum(responses) == field::reduce(
            interpolation::sum(sign::response_indices(responses), f),
        ),
    decreases responses.len(),
{
    field::lemma_group_order_large();
    field::lemma_reduce_small(0);
    if responses.len() > 0 {
        let init = responses.drop_last();
        let all = sign::response_indices(responses);
        lemma_response_sum(init, f);
        assert(all.drop_last() =~= sign::response_indices(init));
        assert(responses[responses.len() - 1] == responses.last());
        field::lemma_reduce_add(
            interpolation::sum(sign::response_indices(init), f),
            f(all.last()),
        );
    }
}

/// The group commitment is the sum of what `g` is at the indices, where each commitment
/// contributes that.
proof fn lemma_group_commitment(
    commitments: Seq<SigningCommitment>,
    rhos: Map<u32, int>,
    g: spec_fn(u32) -> int,
)
    requires
        forall|i: int|
            0 <= i < commitments.len() ==> sign::commitment_share(
                #[trigger] commitments[i],
                rhos[commitments[i].index()],
            ) == g(commitments[i].index()),
    ensures
        sign::group_commitment(commitments, rhos) == field::reduce(
            interpolation::sum(sign::indices(commitments), g),
        ),
    decreases commitments.len(),
{
    field::lemma_group_order_large();
    field::lemma_reduce_small(0);
    if commitments.len() > 0 {
        let init = commitments.drop_last();
        let all = sign::indices(commitments);
        lemma_group_commitment(init, rhos, g);
        assert(all.drop_last() =~= sign::indices(init));
        assert(commitments[commitments.len() - 1] == commitments.last());
        field::lemma_reduce_add(interpolation::sum(sign::indices(init), g), g(all.last()));
    }
}

/// Where no index occurs twice, each commitment is the first of its signer.
proof fn lemma_only_commitment(commitments: Seq<SigningCommitment>, k: int)
    requires
        sign::indices(commitments).no_duplicates(),
        0 <= k < commitments.len(),
    ensures
        sign::commitment_of(commitments, commitments[k].index()) == commitments[k],
{
    let index = commitments[k].index();
    let all = sign::indices(commitments);
    assert forall|q: int| 0 <= q < k implies (#[trigger] commitments[q]).index() != index by {
        assert(all[q] != all[k]);
    }
    assert(sign::is_first_commitment(commitments, index, k));
    let p = choose|p: int| sign::is_first_commitment(commitments, index, p);
    assert(all[p] == index && all[k] == index);
}

/// The message, the commitments and the public keys determine the signature: from whatever
/// responses the aggregator makes one, it makes the same.
pub proof fn law_signature_is_determined(
    msg: Seq<char>,
    commitments: Seq<SigningCommitment>,
    pubkeys: Map<u32, RistrettoPoint>,
    responses: Seq<SigningResponse>,
    sig: Signature,
    other_responses: Seq<SigningResponse>,
    other_sig: Signature,
)
    requires
        sign::aggregated(msg, commitments, responses, pubkeys, Ok(sig)),
        sign::aggregated(msg, commitments, other_responses, pubkeys, Ok(other_sig)),
    ensures
        sig.r@ == other_sig.r@,
        sig.z@ == other_sig.z@,
{
    lemma_accepted_responses(msg, commitments, responses, pubkeys, sig);
    lemma_accepted_responses(msg, commitments, other_responses, pubkeys, other_sig);
}

/// The response that the aggregator expects from the signer with an index, before reduction: the
/// contribution to the group commitment, plus the public key by the Lagrange coefficient and the
/// challenge.
spec fn expected_response(
    msg: Seq<char>,
    commitments: Seq<SigningCommitment>,
    pubkeys: Map<u32, RistrettoPoint>,
) -> spec_fn(u32) -> int {
    let values = sign::rhos(msg, commitments);
    let c = sign::challenge(msg, sign::group_commitment(commitments, values));
    |i: u32|
        sign::commitment_share(sign::commitment_of(commitments, i), values[i]) + c * (pubkeys[i]@
            * helpers::lagrange_coeff(0, i, sign::indices(commitments)))
}

/// Responses that the aggregator accepts add up to what it expects.
proof fn lemma_accepted_responses(
    msg: Seq<char>,
    commitments: Seq<SigningCommitment>,
    responses: Seq<SigningResponse>,
    pubkeys: Map<u32, RistrettoPoint>,
    sig: Signature,
)
    requires
        sign::aggregated(msg, commitments, responses, pubkeys, Ok(sig)),
    ensures
        sig.r@ == sign::group_commitment(commitments, sign::rhos(msg, commitments)),
        sig.z@ == field::reduce(
            interpolation::sum(
                sign::indices(commitments),
                expected_response(msg, commitments, pubkeys),
            ),
        ),
{
    let values = sign::rhos(msg, commitments);
    let all = sign::indices(commitments);
    let resp_all = sign::response_indices(responses);
    let c = sign::challenge(msg, sign::group_commitment(commitments, values));
    let f = expected_response(msg, commitments, pubkeys);
    lemma_first_fault_none(responses, commitments, pubkeys, values, c);
    assert forall|k: int| 0 <= k < responses.len() implies (#[trigger] responses[k]).response@
        == field::reduce(f(responses[k].index)) by {
        let i = responses[k].index;
        assert(sign::response_fault(responses[k], commitments, pubkeys, values, c) is None);
        let lambda = helpers::lagrange_coeff(0, i, all);
        let pk = pubkeys[i]@;
        assert(pk * (c * lambda) == c * (pk * lambda)) by (nonlinear_arith);
    }
    lemma_response_sum(responses, f);
    interpolation::lemma_sum_permutation(all, resp_all, f);
}

/// A signature that the aggregator makes holds for the group key that the public keys of the
/// signers make up, whoever sent the responses and in whatever order.
pub proof fn law_aggregated_signature_is_valid(
    msg: Seq<char>,
    commitments: Seq<SigningCommitment>,
    responses: Seq<SigningResponse>,
    pubkeys: Map<u32, RistrettoPoint>,
    sig: Signature,
)
    requires
        sign::indices(commitments).no_duplicates(),
        sign::aggregated(msg, commitments, responses, pubkeys, Ok(sig)),
    ensures
        sign::signature_is_valid(
            sig.r@,
            sig.z@,
            interpolated_key(sign::indices(commitments), pubkeys),
            sign::challenge(msg, sig.r@),
        ),
{
    let values = sign::rhos(msg, commitments);
    let all = sign::indices(commitments);
    let c = sign::challenge(msg, sign::group_commitment(commitments, values));
    let g = |i: u32| sign::commitment_share(sign::commitment_of(commitments, i), values[i]);
    let key = |i: u32| pubkeys[i]@;
    let key_terms = |i: u32| key(i) * helpers::lagrange_coeff(0, i, all);
    let f = expected_response(msg, commitments, pubkeys);
    lemma_accepted_responses(msg, commitments, responses, pubkeys, sig);
    assert forall|k: int| 0 <= k < commitments.len() implies sign::commitment_share(
        #[trigger] commitments[k],
        values[commitments[k].index()],
    ) == g(commitments[k].index()) by {
        lemma_only_commitment(commitments, k);
    }
    lemma_group_commitment(commitments, values, g);
    interpolation::lemma_sum_linear(all, f, c, g, key_terms);
    // The signature is `reduce(total)` and `reduce(total + c * keys)`, and the group key is
    // `reduce(keys)`.
    let total = interpolation::sum(all, g);
    let keys = interpolation::sum(all, key_terms);
    assert(interpolated_key(all, pubkeys) == field::reduce(keys)) by {
        assert(interpolation::weighted_sum(all, key) == keys);
    }
    let group = field::reduce(keys);
    field::lemma_cong_reduce(keys);
    field::lemma_cong_reduce(total + c * keys);
    field::lemma_cong_ops(group, keys, c, c);
    field::lemma_cong_ops(sig.z@, total + c * keys, group * c, keys * c);
    assert(total + c * keys - keys * c == total) by (nonlinear_arith);
}

/// The public keys of shares make up the public key of the secret, where there are at least as
/// many shares as the polynomial has coefficients.
pub proof fn law_shares_make_up_group_key(
    indices: Seq<u32>,
    coeffs: Seq<int>,
    pubkeys: Map<u32, RistrettoPoint>,
)
    requires
        indices.no_duplicates(),
        coeffs.len() <= indices.len(),
        forall|i: u32| #[trigger]
            indices.contains(i) ==> pubkeys[i]@ == field::reduce(
                interpolation::eval(coeffs, i as int),
            ),
    ensures
        interpolated_key(indices, pubkeys) == field::reduce(interpolation::eval(coeffs, 0)),
{
    lemma_keys_add_up(indices, coeffs, pubkeys);
    interpolation::law_shares_determine_secret(indices, coeffs);
}

/// The public keys of shares make up what the shares add up to.
proof fn lemma_keys_add_up(indices: Seq<u32>, coeffs: Seq<int>, pubkeys: Map<u32, RistrettoPoint>)
    requires
        forall|i: u32| #[trigger]
            indices.contains(i) ==> pubkeys[i]@ == field::reduce(
                interpolation::eval(coeffs, i as int),
            ),
    ensures
        interpolated_key(indices, pubkeys) == field::reduce(
            interpolation::weighted_sum(
                indices,
                |i: u32| interpolation::eval(coeffs, i as int),
            ),
        ),
{
    let p = |i: u32| interpolation::eval(coeffs, i as int);
    let key = |i: u32| pubkeys[i]@;
    let p_terms = |i: u32| p(i) * helpers::lagrange_coeff(0, i, indices);
    let key_terms = |i: u32| key(i) * helpers::lagrange_coeff(0, i, indices);
    assert forall|i: u32| #[trigger] indices.contains(i) implies field::cong(
        key_terms(i),
        p_terms(i),
    ) by {
        let lambda = helpers::lagrange_coeff(0, i, indices);
        field::lemma_cong_reduce(p(i));
        field::lemma_cong_ops(key(i), p(i), lambda, lambda);
    }
    interpolation::lemma_sum_cong(indices, key_terms, p_terms);
    assert(interpolation::weighted_sum(indices, p) == interpolation::sum(indices, p_terms));
    assert(interpolation::weighted_sum(indices, key) == interpolation::sum(indices, key_terms));
}

/// Threshold signing works: where signers hold shares of a secret, at least as many of them as
/// the polynomial has coefficients, and each of them signs a message, the aggregator makes a
/// signature of their responses, in whatever order they come, and the signature holds for the
/// group key.
pub proof fn law_threshold_signing(
    msg: Seq<char>,
    coeffs: Seq<int>,
    commitments: Seq<SigningCommitment>,
    keypairs: Seq<KeyPair>,
    before: Seq<Seq<NoncePair>>,
    after: Seq<Seq<NoncePair>>,
    responses: Seq<SigningResponse>,
    pubkeys: Map<u32, RistrettoPoint>,
    r: Result<Signature, &'static str>,
)
    requires
        sign::indices(commitments).no_duplicates(),
        coeffs.len() <= commitments.len(),
        keypairs.len() == responses.len(),
        before.len() == responses.len(),
        after.len() == responses.len(),
        forall|k: int, i: int|
            #![trigger before[k][i]]
            0 <= k < before.len() && 0 <= i < before[k].len() ==> before[k][i].wf(),
        forall|k: int|
            0 <= k < responses.len() ==> {
                &&& is_share(#[trigger] keypairs[k], coeffs)
                &&& pubkeys.contains_key(keypairs[k].index)
                &&& pubkeys[keypairs[k].index]@ == keypairs[k].public@
                &&& sign::signed(
                    keypairs[k],
                    commitments,
                    msg,
                    before[k],
                    after[k],
                    Ok(responses[k]),
                )
            },
        sign::indices(commitments).to_multiset() == sign::response_indices(
            responses,
        ).to_multiset(),
        sign::aggregated(msg, commitments, responses, pubkeys, r),
    ensures
        r matches Ok(sig) && sign::signature_is_valid(
            sig.r@,
            sig.z@,
            field::reduce(interpolation::eval(coeffs, 0)),
            sign::challenge(msg, sig.r@),
        ),
        forall|k: int|
            0 <= k < keypairs.len() ==> (#[trigger] keypairs[k]).group_public@ == field::reduce(
                interpolation::eval(coeffs, 0),
            ),
{
    let values = sign::rhos(msg, commitments);
    let all = sign::indices(commitments);
    let resp_all = sign::response_indices(responses);
    let c = sign::challenge(msg, sign::group_commitment(commitments, values));
    all.to_multiset_ensures();
    resp_all.to_multiset_ensures();
    assert(commitments.len() == responses.len());
    assert forall|k: int| 0 <= k < responses.len() implies sign::response_fault(
        #[trigger] responses[k],
        commitments,
        pubkeys,
        values,
        c,
    ) is None by {
        let keypair = keypairs[k];
        assert forall|i: int| 0 <= i < before[k].len() implies (#[trigger] before[k][i]).wf() by {}
        law_signed_response_is_accepted(
            keypair,
            commitments,
            msg,
            before[k],
            after[k],
            responses[k],
            pubkeys,
        );
    }
    lemma_first_fault_none(responses, commitments, pubkeys, values, c);
    let sig = r->Ok_0;
    law_aggregated_signature_is_valid(msg, commitments, responses, pubkeys, sig);
    assert forall|i: u32| #[trigger] all.contains(i) implies pubkeys[i]@
        == field::reduce(interpolation::eval(coeffs, i as int)) by {
        assert(all.to_multiset().count(i) > 0);
        assert(resp_all.contains(i));
        let k = choose|k: int| 0 <= k < resp_all.len() && resp_all[k] == i;
        assert(responses[k].index == i);
        assert(is_share(keypairs[k], coeffs));
    }
    law_shares_make_up_group_key(all, coeffs, pubkeys);
}

/// Threshold signing takes the threshold: one signer less than the polynomial has coefficients
/// can make a signature, but it does not hold for the public key of the secret, where the leading
/// coefficient and the challenge are not zero and no signer holds the secret itself.
pub proof fn law_one_signer_too_few(
    msg: Seq<char>,
    coeffs: Seq<int>,
    commitments: Seq<SigningCommitment>,
    responses: Seq<SigningResponse>,
    pubkeys: Map<u32, RistrettoPoint>,
    sig: Signature,
    group_public: RistrettoPoint,
)
    requires
        sign::indices(commitments).no_duplicates(),
        !sign::indices(commitments).contains(0),
        coeffs.len() == commitments.len() + 1,
        field::reduce(coeffs.last()) != 0,
        forall|i: u32| #[trigger]
            sign::indices(commitments).contains(i) ==> pubkeys[i]@ == field::reduce(
                interpolation::eval(coeffs, i as int),
            ),
        group_public@ == field::reduce(interpolation::eval(coeffs, 0)),
        sign::aggregated(msg, commitments, responses, pubkeys, Ok(sig)),
        sign::challenge(msg, sig.r@) != 0,
    ensures
        !sign::signature_is_valid(
            sig.r@,
            sig.z@,
            group_public@,
            sign::challenge(msg, sig.r@),
        ),
{
    let all = sign::indices(commitments);
    let c = sign::challenge(msg, sig.r@);
    let key = interpolated_key(all, pubkeys);
    law_aggregated_signature_is_valid(msg, commitments, responses, pubkeys, sig);
    lemma_keys_add_up(all, coeffs, pubkeys);
    interpolation::law_one_share_too_few(all, coeffs);
    let digest = field::le_value(hash::sha256_digest(sign::challenge_preimage(msg, sig.r@)));
    field::lemma_cong_reduce(digest);
    if sign::signature_is_valid(sig.r@, sig.z@, group_public@, c) {
        let w = interpolation::weighted_sum(
            all,
            |i: u32| interpolation::eval(coeffs, i as int),
        );
        field::lemma_cong_reduce(w);
        field::lemma_cong_reduce(interpolation::eval(coeffs, 0));
        lemma_same_key(sig.r@, sig.z@, key, group_public@, c);
    }
}

/// A signature says whose it is: where it holds for two public keys, under a challenge other than
/// zero, the two are the same.
pub proof fn law_signature_binds_key(
    sig: Signature,
    pubkey: RistrettoPoint,
    other: RistrettoPoint,
    c: int,
)
    requires
        pubkey.wf(),
        other.wf(),
        field::reduce(c) != 0,
        sign::signature_is_valid(sig.r@, sig.z@, pubkey@, c),
        sign::signature_is_valid(sig.r@, sig.z@, other@, c),
    ensures
        pubkey@ == other@,
{
    lemma_same_key(sig.r@, sig.z@, pubkey@, other@, c);
    pubkey.lemma_view();
    other.lemma_view();
    field::lemma_reduce_small(pubkey@);
    field::lemma_reduce_small(other@);
}

/// The keys that a signature holds for are congruent, under a challenge other than zero.
proof fn lemma_same_key(r: int, z: int, a: int, b: int, c: int)
    requires
        field::reduce(c) != 0,
        sign::signature_is_valid(r, z, a, c),
        sign::signature_is_valid(r, z, b, c),
    ensures
        field::cong(a, b),
{
    field::lemma_nonzero_invertible(c);
    field::lemma_cong_ops(z, z, z - a * c, z - b * c);
    assert(z - (z - a * c) == c * a) by (nonlinear_arith);
    assert(z - (z - b * c) == c * b) by (nonlinear_arith);
    field::lemma_cong_cancel(c, a, b);
}

/// Preprocessing in two goes is preprocessing in one: what is made of some secrets and then of
/// others is what is made of them all, the lists one after the other.
pub proof fn law_preprocessing_splits(
    participant_index: u32,
    secrets: Seq<(Scalar, Scalar)>,
    more_secrets: Seq<(Scalar, Scalar)>,
    r1: Result<(Vec<SigningCommitment>, Vec<NoncePair>), &'static str>,
    r2: Result<(Vec<SigningCommitment>, Vec<NoncePair>), &'static str>,
    r: Result<(Vec<SigningCommitment>, Vec<NoncePair>), &'static str>,
)
    requires
        commitment::preprocessed(participant_index, secrets, r1),
        commitment::preprocessed(participant_index, more_secrets, r2),
        commitment::preprocessed(participant_index, secrets + more_secrets, r),
    ensures
        r is Ok <==> r1 is Ok && r2 is Ok,
        r is Ok ==> r->Ok_0.0@ == r1->Ok_0.0@ + r2->Ok_0.0@,
        r is Ok ==> r->Ok_0.1@ == r1->Ok_0.1@ + r2->Ok_0.1@,
{
    let all = secrets + more_secrets;
    if commitment::all_nonzero(all) {
        assert forall|i: int| 0 <= i < secrets.len() implies (#[trigger] secrets[i]).0@ != 0
            && secrets[i].1@ != 0 by {
            assert(all[i] == secrets[i]);
        }
        assert forall|i: int| 0 <= i < more_secrets.len() implies (#[trigger] more_secrets[i]).0@
            != 0 && more_secrets[i].1@ != 0 by {
            assert(all[secrets.len() + i] == more_secrets[i]);
        }
    }
    if r is Ok {
        let (cs, ns) = r->Ok_0;
        let (cs1, ns1) = r1->Ok_0;
        let (cs2, ns2) = r2->Ok_0;
        let ns12 = ns1@ + ns2@;
        let cs12 = cs1@ + cs2@;
        assert forall|i: int| 0 <= i < all.len() implies ns@[i] == ns12[i] && cs@[i]
            == cs12[i] by {
            assert(ns@[i].wf() && ns12[i].wf());
            ns@[i].lemma_same(ns12[i]);
            assert(commitment::commits_to(cs@[i], participant_index, ns@[i]));
            assert(commitment::commits_to(cs12[i], participant_index, ns12[i]));
            cs@[i].lemma_same(cs12[i]);
        }
        assert(ns@ =~= ns12);
        assert(cs@ =~= cs12);
    }
}

/// The `j`-th scalar drawn for a list of pairs of secrets.
pub open spec fn drawn_at(secrets: Seq<(Scalar, Scalar)>, j: int) -> int {
    if j % 2 == 0 {
        secrets[j / 2].0@
    } else {
        secrets[j / 2].1@
    }
}

/// The `j`-th secret of a list of pairs of nonces.
pub open spec fn secret_at(nonces: Seq<NoncePair>, j: int) -> int {
    if j % 2 == 0 {
        nonces[j / 2].d().secret()@
    } else {
        nonces[j / 2].e().secret()@
    }
}

/// Every scalar that is drawn becomes one secret, in the order of the draws: where no scalar is
/// drawn twice, no secret is used twice.
pub proof fn law_secrets_are_the_draws(
    participant_index: u32,
    secrets: Seq<(Scalar, Scalar)>,
    commitments: Vec<SigningCommitment>,
    nonces: Vec<NoncePair>,
)
    requires
        commitment::preprocessed(participant_index, secrets, Ok((commitments, nonces))),
    ensures
        nonces@.len() == secrets.len(),
        forall|j: int|
            0 <= j < 2 * nonces@.len() ==> #[trigger] secret_at(nonces@, j) == drawn_at(secrets, j),
        (forall|j: int, k: int|
            0 <= j < k < 2 * secrets.len() ==> #[trigger] drawn_at(secrets, j)
                != #[trigger] drawn_at(secrets, k)) ==> (forall|j: int, k: int|
            0 <= j < k < 2 * nonces@.len() ==> #[trigger] secret_at(nonces@, j)
                != #[trigger] secret_at(nonces@, k)),
{
    assert forall|j: int| 0 <= j < 2 * nonces@.len() implies #[trigger] secret_at(nonces@, j)
        == drawn_at(secrets, j) by {
        assert(nonces@[j / 2].wf());
    }
}

/// Whether two byte strings have one digest, taken as a scalar, without being the same.
pub open spec fn collide(a: Seq<u8>, b: Seq<u8>) -> bool {
    &&& a != b
    &&& field::reduce(field::le_value(hash::sha256_digest(a))) == field::reduce(
        field::le_value(hash::sha256_digest(b)),
    )
}

/// Two byte strings in two parts each, the first or the second parts of one length, are the same
/// exactly where the parts are.
pub proof fn lemma_split(a: Seq<u8>, x: Seq<u8>, b: Seq<u8>, y: Seq<u8>)
    requires
        a.len() == b.len() || x.len() == y.len(),
    ensures
        a + x == b + y <==> a == b && x == y,
{
    if a + x == b + y {
        let s = a + x;
        assert(s.len() == a.len() + x.len());
        assert(s.len() == b.len() + y.len());
        assert(a =~= s.take(a.len() as int));
        assert(b =~= s.take(b.len() as int));
        assert(x =~= s.skip(a.len() as int));
        assert(y =~= s.skip(b.len() as int));
    }
}

/// Different texts have different encodings.
proof fn lemma_utf8_injective(a: Seq<char>, b: Seq<char>)
    ensures
        vstd::utf8::encode_utf8(a) == vstd::utf8::encode_utf8(b) <==> a == b,
{
    vstd::utf8::encode_utf8_decode_utf8(a);
    vstd::utf8::encode_utf8_decode_utf8(b);
}

/// What the challenge hashes determines the message and the group commitment.
pub proof fn law_challenge_input_is_unambiguous(
    msg: Seq<char>,
    commitment: RistrettoPoint,
    other_msg: Seq<char>,
    other: RistrettoPoint,
)
    requires
        commitment.wf(),
        other.wf(),
    ensures
        sign::challenge_preimage(msg, commitment@) == sign::challenge_preimage(other_msg, other@)
            <==> msg == other_msg && commitment@ == other@,
{
    commitment.lemma_view();
    other.lemma_view();
    lemma_utf8_injective(msg, other_msg);
    lemma_split(
        commitment.encoding(),
        vstd::utf8::encode_utf8(msg),
        other.encoding(),
        vstd::utf8::encode_utf8(other_msg),
    );
}

/// The challenge binds the message and the group commitment: short of a collision of the hash
/// function, two challenges are the same exactly where messages and commitments are.
pub proof fn law_challenge_binds(
    msg: Seq<char>,
    commitment: RistrettoPoint,
    other_msg: Seq<char>,
    other: RistrettoPoint,
)
    requires
        commitment.wf(),
        other.wf(),
        !collide(
            sign::challenge_preimage(msg, commitment@),
            sign::challenge_preimage(other_msg, other@),
        ),
    ensures
        sign::challenge(msg, commitment@) == sign::challenge(other_msg, other@) <==> msg
            == other_msg && commitment@ == other@,
{
    law_challenge_input_is_unambiguous(msg, commitment, other_msg, other);
}

/// Different integers have different bytes.
proof fn lemma_be_bytes_injective(x: u32, y: u32)
    ensures
        hash::be_bytes(x) == hash::be_bytes(y) <==> x == y,
{
    let a = hash::be_bytes(x);
    let b = hash::be_bytes(y);
    if a == b {
        assert(a[0] == b[0] && a[1] == b[1] && a[2] == b[2] && a[3] == b[3]);
        assert(x / 0x100_0000 < 0x100 && y / 0x100_0000 < 0x100);
        assert(x / 0x100_0000 == y / 0x100_0000);
        assert(x / 0x1_0000 % 0x100 == y / 0x1_0000 % 0x100);
        assert(x / 0x100 % 0x100 == y / 0x100 % 0x100);
        assert(x % 0x100 == y % 0x100);
    }
}

/// The bytes that the list of commitments contributes to the input of a binding factor: as many
/// for each.
pub proof fn lemma_commitments_encoding_len(commitments: Seq<SigningCommitment>)
    requires
        forall|i: int| 0 <= i < commitments.len() ==> (#[trigger] commitments[i]).wf(),
    ensures
        sign::commitments_encoding(commitments).len() == 68 * commitments.len(),
    decreases commitments.len(),
{
    if commitments.len() > 0 {
        let last = commitments[commitments.len() - 1];
        assert(last.wf());
        last.d().lemma_view();
        last.e().lemma_view();
        lemma_commitments_encoding_len(commitments.drop_last());
    }
}

/// Different lists of commitments have different encodings.
proof fn lemma_commitments_encoding_injective(
    commitments: Seq<SigningCommitment>,
    others: Seq<SigningCommitment>,
)
    requires
        forall|i: int| 0 <= i < commitments.len() ==> (#[trigger] commitments[i]).wf(),
        forall|i: int| 0 <= i < others.len() ==> (#[trigger] others[i]).wf(),
        sign::commitments_encoding(commitments) == sign::commitments_encoding(others),
    ensures
        commitments == others,
    decreases commitments.len(),
{
    lemma_commitments_encoding_len(commitments);
    lemma_commitments_encoding_len(others);
    if commitments.len() > 0 {
        let init = commitments.drop_last();
        let other_init = others.drop_last();
        let a = commitments[commitments.len() - 1];
        let b = others[others.len() - 1];
        assert(a.wf() && b.wf());
        a.d().lemma_view();
        a.e().lemma_view();
        b.d().lemma_view();
        b.e().lemma_view();
        let x = sign::commitments_encoding(init);
        let y = sign::commitments_encoding(other_init);
        let ai = hash::be_bytes(a.index());
        let bi = hash::be_bytes(b.index());
        lemma_split(
            x + ai + a.d().encoding(),
            a.e().encoding(),
            y + bi + b.d().encoding(),
            b.e().encoding(),
        );
        lemma_split(x + ai, a.d().encoding(), y + bi, b.d().encoding());
        lemma_split(x, ai, y, bi);
        lemma_be_bytes_injective(a.index(), b.index());
        a.d().lemma_same(b.d());
        a.e().lemma_same(b.e());
        a.lemma_same(b);
        lemma_commitments_encoding_injective(init, other_init);
        assert(commitments =~= init.push(a));
        assert(others =~= other_init.push(b));
    } else {
        assert(commitments =~= others);
    }
}

/// What a binding factor hashes determines the signer's index, the message, and every commitment
/// and its place in the list, where the messages are the same or the lists are of one length.
pub proof fn law_binding_factor_input_is_unambiguous(
    index: u32,
    msg: Seq<char>,
    commitments: Seq<SigningCommitment>,
    other_index: u32,
    other_msg: Seq<char>,
    others: Seq<SigningCommitment>,
)
    requires
        forall|i: int| 0 <= i < commitments.len() ==> (#[trigger] commitments[i]).wf(),
        forall|i: int| 0 <= i < others.len() ==> (#[trigger] others[i]).wf(),
        msg == other_msg || commitments.len() == others.len(),
    ensures
        sign::rho_preimage(index, msg, commitments) == sign::rho_preimage(
            other_index,
            other_msg,
            others,
        ) <==> index == other_index && msg == other_msg && commitments == others,
{
    let tag = seq![0x49u8];
    let i = hash::be_bytes(index);
    let j = hash::be_bytes(other_index);
    let m = vstd::utf8::encode_utf8(msg);
    let n = vstd::utf8::encode_utf8(other_msg);
    let x = sign::commitments_encoding(commitments);
    let y = sign::commitments_encoding(others);
    lemma_commitments_encoding_len(commitments);
    lemma_commitments_encoding_len(others);
    lemma_split(tag + i + m, x, tag + j + n, y);
    lemma_split(tag + i, m, tag + j, n);
    lemma_split(tag, i, tag, j);
    lemma_be_bytes_injective(index, other_index);
    lemma_utf8_injective(msg, other_msg);
    if x == y {
        lemma_commitments_encoding_injective(commitments, others);
    }
}

/// A binding factor binds the signer's index and every commitment and its place in the list: short
/// of a collision of the hash function, two binding factors for one message are the same exactly
/// where indices and lists are.
pub proof fn law_binding_factor_binds(
    msg: Seq<char>,
    index: u32,
    commitments: Seq<SigningCommitment>,
    other_index: u32,
    others: Seq<SigningCommitment>,
)
    requires
        forall|i: int| 0 <= i < commitments.len() ==> (#[trigger] commitments[i]).wf(),
        forall|i: int| 0 <= i < others.len() ==> (#[trigger] others[i]).wf(),
        !collide(
            sign::rho_preimage(index, msg, commitments),
            sign::rho_preimage(other_index, msg, others),
        ),
    ensures
        sign::rho(index, msg, commitments) == sign::rho(other_index, msg, others) <==> index
            == other_index && commitments == others,
{
    law_binding_factor_input_is_unambiguous(
        index,
        msg,
        commitments,
        other_index,
        msg,
        others,
    );
}

} // verus!
