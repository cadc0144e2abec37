//! The second round: responses, and the signature that they add up to.
use std::collections::HashMap;
use vstd::prelude::*;

use crate::commitment::{NoncePair, SigningCommitment};
use crate::field;
use crate::group;
use crate::group::RistrettoPoint;
use crate::hash;
use crate::helpers;
use crate::keygen::KeyPair;
use crate::scalar::Scalar;

verus! {

/// The answer of the participant `index` to a request to sign.
#[derive(Clone, Copy)]
pub struct SigningResponse {
    pub response: Scalar,
    pub index: u32,
}

/// A Schnorr signature.
pub struct Signature {
    pub r: RistrettoPoint,
    pub z: Scalar,
}

/// Whether `z` answers the challenge `c`, for a signer with the public key `pubkey`, the Lagrange
/// coefficient `lambda` and the nonce commitment `commitment`: the multiple of the basepoint by
/// `z` is the commitment plus the multiple of the public key by `c * lambda`.
pub open spec fn response_is_valid(
    z: int,
    pubkey: int,
    lambda: int,
    commitment: int,
    c: int,
) -> bool {
    z == field::reduce(commitment + pubkey * (c * lambda))
}

impl SigningResponse {
    /// Checks the response of a signer.
    pub fn is_valid(
        &self,
        pubkey: &RistrettoPoint,
        lambda_i: Scalar,
        commitment: &RistrettoPoint,
        challenge: Scalar,
    ) -> (r: bool)
        ensures
            r == response_is_valid(
                self.response@,
                pubkey@,
                lambda_i@,
                commitment@,
                challenge@,
            ),
    {
        proof {
            field::lemma_reduce_mul(pubkey@, challenge@ * lambda_i@);
            field::lemma_reduce_add(commitment@, pubkey@ * (challenge@ * lambda_i@));
        }
        RistrettoPoint::mul_base(&self.response) == commitment.add(
            &pubkey.mul(&challenge.mul(&lambda_i)),
        )
    }
}

/// What the challenge hashes: the encoding of the group commitment with the discrete logarithm
/// `r`, then the message.
pub open spec fn challenge_preimage(msg: Seq<char>, r: int) -> Seq<u8> {
    group::basepoint_multiple(r) + vstd::utf8::encode_utf8(msg)
}

/// The challenge for a message and the group commitment with the discrete logarithm `r`.
pub open spec fn challenge(msg: Seq<char>, r: int) -> int {
    field::reduce(field::le_value(hash::sha256_digest(challenge_preimage(msg, r))))
}

/// generates the challenge value H(m, R) used for both signing and verification.
/// ed25519_ph hashes the message first, and derives the challenge as H(H(m), R),
/// this would be a better optimization but incompatibility with other
/// implementations may be undesirable.
pub fn generate_challenge(msg: &str, group_commitment: RistrettoPoint) -> (r: Scalar)
    ensures
        r@ == challenge(msg@, group_commitment@),
{
    let mut data: Vec<u8> = Vec::new();
    hash::append(&mut data, &group_commitment.to_bytes());
    hash::append(&mut data, msg.as_bytes());
    assert(data@ =~= challenge_preimage(msg@, group_commitment@));
    Scalar::from_bytes_mod_order(hash::sha256(&data))
}

/// The indices, and the two parts, of a list of commitments, one commitment after the other.
pub open spec fn commitments_encoding(commitments: Seq<SigningCommitment>) -> Seq<u8>
    decreases commitments.len(),
{
    if commitments.len() == 0 {
        seq![]
    } else {
        commitments_encoding(commitments.drop_last()) + hash::be_bytes(commitments.last().index())
            + group::basepoint_multiple(commitments.last().d()@) + group::basepoint_multiple(
            commitments.last().e()@,
        )
    }
}

/// What the binding factor of the signer `index` hashes: the letter `I`, the index, the message,
/// and the list of commitments.
pub open spec fn rho_preimage(
    index: u32,
    msg: Seq<char>,
    commitments: Seq<SigningCommitment>,
) -> Seq<u8> {
    seq![0x49u8] + hash::be_bytes(index) + vstd::utf8::encode_utf8(msg) + commitments_encoding(
        commitments,
    )
}

/// The binding factor of the signer `index`.
pub open spec fn rho(index: u32, msg: Seq<char>, commitments: Seq<SigningCommitment>) -> int {
    field::reduce(field::le_value(hash::sha256_digest(rho_preimage(index, msg, commitments))))
}

/// Computes the binding factor of the signer `index`.
pub fn gen_rho_i(index: u32, msg: &str, signing_commitments: &Vec<SigningCommitment>) -> (r: Scalar)
    ensures
        r@ == rho(index, msg@, signing_commitments@),
{
    let ghost comms = signing_commitments@;
    let mut data: Vec<u8> = Vec::new();
    data.push(0x49);
    hash::append_be(&mut data, index);
    hash::append(&mut data, msg.as_bytes());
    let ghost head = data@;
    assert(head =~= seq![0x49u8] + hash::be_bytes(index) + vstd::utf8::encode_utf8(msg@));
    let mut i: usize = 0;
    assert(data@ =~= head + commitments_encoding(comms.take(0)));
    while i < signing_commitments.len()
        invariant
            i <= signing_commitments.len(),
            comms == signing_commitments@,
            data@ == head + commitments_encoding(comms.take(i as int)),
        decreases signing_commitments.len() - i,
    {
        let item = signing_commitments[i];
        hash::append_be(&mut data, item.index());
        hash::append(&mut data, &item.d().to_bytes());
        hash::append(&mut data, &item.e().to_bytes());
        i += 1;
        proof {
            assert(comms.take(i as int).drop_last() =~= comms.take(i - 1));
            assert(data@ =~= head + commitments_encoding(comms.take(i as int)));
        }
    }
    assert(comms.take(i as int) =~= comms);
    assert(data@ =~= rho_preimage(index, msg@, comms));
    Scalar::from_bytes_mod_order(hash::sha256(&data))
}

/// The indices of the signers who committed, in the order of their commitments.
pub open spec fn indices(commitments: Seq<SigningCommitment>) -> Seq<u32> {
    Seq::new(commitments.len(), |i: int| commitments[i].index())
}

/// The indices of the signers who responded, in the order of their responses.
pub open spec fn response_indices(responses: Seq<SigningResponse>) -> Seq<u32> {
    Seq::new(responses.len(), |i: int| responses[i].index)
}

/// The binding factors of the signers who committed, by their indices.
pub open spec fn rhos(msg: Seq<char>, commitments: Seq<SigningCommitment>) -> Map<u32, int> {
    Map::new(|i: u32| indices(commitments).contains(i), |i: u32| rho(i, msg, commitments))
}

/// The integers that a map of scalars holds.
pub open spec fn binding_values(bindings: Map<u32, Scalar>) -> Map<u32, int> {
    bindings.map_values(|s: Scalar| s@)
}

/// What a commitment contributes to the group commitment under the binding factor `rho`.
pub open spec fn commitment_share(commitment: SigningCommitment, rho: int) -> int {
    field::reduce(commitment.d()@ + commitment.e()@ * rho)
}

/// The sum of what the commitments contribute under the binding factors `rhos`.
pub open spec fn group_commitment(
    commitments: Seq<SigningCommitment>,
    rhos: Map<u32, int>,
) -> int
    decreases commitments.len(),
{
    if commitments.len() == 0 {
        0
    } else {
        field::reduce(
            group_commitment(commitments.drop_last(), rhos) + commitment_share(
                commitments.last(),
                rhos[commitments.last().index()],
            ),
        )
    }
}

/// Computes the binding factors of the signers who committed.
fn gen_bindings(msg: &str, signing_commitments: &Vec<SigningCommitment>) -> (r: HashMap<
    u32,
    Scalar,
>)
    ensures
        binding_values(r@) == rhos(msg@, signing_commitments@),
        forall|i: u32| #[trigger]
            r@.contains_key(i) <==> indices(signing_commitments@).contains(i),
{
    broadcast use vstd::std_specs::hash::group_hash_axioms;

    let ghost comms = signing_commitments@;
    let mut bindings: HashMap<u32, Scalar> = HashMap::with_capacity(signing_commitments.len());
    let mut k: usize = 0;
    while k < signing_commitments.len()
        invariant
            k <= signing_commitments.len(),
            comms == signing_commitments@,
            forall|i: u32| #[trigger]
                bindings@.contains_key(i) ==> indices(comms).contains(i) && bindings@[i]@ == rho(
                    i,
                    msg@,
                    comms,
                ),
            forall|j: int| 0 <= j < k ==> bindings@.contains_key(#[trigger] indices(comms)[j]),
        decreases signing_commitments.len() - k,
    {
        let comm = signing_commitments[k];
        let rho_i = gen_rho_i(comm.index(), msg, signing_commitments);
        assert(indices(comms)[k as int] == comm.index());
        bindings.insert(comm.index(), rho_i);
        k += 1;
    }
    assert(binding_values(bindings@) =~= rhos(msg@, comms));
    bindings
}

/// Adds up what the commitments contribute under the binding factors `bindings`.
pub fn gen_group_commitment(
    signing_commitments: &Vec<SigningCommitment>,
    bindings: &HashMap<u32, Scalar>,
) -> (r: Result<RistrettoPoint, &'static str>)
    requires
        forall|i: int|
            0 <= i < signing_commitments@.len() ==> bindings@.contains_key(
                (#[trigger] signing_commitments@[i]).index(),
            ),
    ensures
        r is Ok,
        r->Ok_0@ == group_commitment(signing_commitments@, binding_values(bindings@)),
{
    broadcast use vstd::std_specs::hash::group_hash_axioms;

    let ghost comms = signing_commitments@;
    let ghost values = binding_values(bindings@);
    let mut accumulator = RistrettoPoint::identity();
    let mut i: usize = 0;
    while i < signing_commitments.len()
        invariant
            i <= signing_commitments.len(),
            comms == signing_commitments@,
            values == binding_values(bindings@),
            forall|i: int|
                0 <= i < comms.len() ==> bindings@.contains_key((#[trigger] comms[i]).index()),
            accumulator@ == group_commitment(comms.take(i as int), values),
        decreases signing_commitments.len() - i,
    {
        let commitment = signing_commitments[i];
        let rho_i = *bindings.get(&commitment.index()).unwrap();
        let share = commitment.d().add(&commitment.e().mul(&rho_i));
        proof {
            field::lemma_reduce_add(commitment.d()@, commitment.e()@ * rho_i@);
            assert(comms.take(i + 1).drop_last() =~= comms.take(i as int));
        }
        accumulator = accumulator.add(&share);
        i += 1;
    }
    assert(comms.take(i as int) =~= comms);
    Ok(accumulator)
}

/// Whether the commitment at `p` is the first one of the signer `index`.
pub open spec fn is_first_commitment(
    commitments: Seq<SigningCommitment>,
    index: u32,
    p: int,
) -> bool {
    &&& 0 <= p < commitments.len()
    &&& commitments[p].index() == index
    &&& forall|q: int| 0 <= q < p ==> (#[trigger] commitments[q]).index() != index
}

/// The first commitment of the signer `index`.
pub open spec fn commitment_of(
    commitments: Seq<SigningCommitment>,
    index: u32,
) -> SigningCommitment {
    commitments[choose|p: int| is_first_commitment(commitments, index, p)]
}

/// Finds the first commitment of the signer `index`.
fn find_commitment(signing_commitments: &Vec<SigningCommitment>, index: u32) -> (r: Option<
    SigningCommitment,
>)
    ensures
        r is Some <==> indices(signing_commitments@).contains(index),
        r matches Some(c) ==> c == commitment_of(signing_commitments@, index) && c.index() == index,
{
    let ghost comms = signing_commitments@;
    let mut p: usize = 0;
    while p < signing_commitments.len()
        invariant
            p <= signing_commitments.len(),
            comms == signing_commitments@,
            forall|q: int| 0 <= q < p ==> (#[trigger] comms[q]).index() != index,
        decreases signing_commitments.len() - p,
    {
        let item = signing_commitments[p];
        if item.index() == index {
            proof {
                assert(is_first_commitment(comms, index, p as int));
                let q = choose|q: int| is_first_commitment(comms, index, q);
                assert(p == q);
                assert(indices(comms)[p as int] == index);
            }
            return Some(item);
        }
        p += 1;
    }
    proof {
        if indices(comms).contains(index) {
            let q = choose|q: int| 0 <= q < comms.len() && indices(comms)[q] == index;
            assert(comms[q].index() == index);
        }
    }
    None
}

/// The indices of the signers who committed, in the order of their commitments.
fn commitment_index_list(signing_commitments: &Vec<SigningCommitment>) -> (r: Vec<u32>)
    ensures
        r@ == indices(signing_commitments@),
{
    let mut list: Vec<u32> = Vec::new();
    let mut i: usize = 0;
    while i < signing_commitments.len()
        invariant
            i <= signing_commitments.len(),
            list@ == indices(signing_commitments@).take(i as int),
        decreases signing_commitments.len() - i,
    {
        list.push(signing_commitments[i].index());
        i += 1;
        assert(list@ =~= indices(signing_commitments@).take(i as int));
    }
    assert(list@ =~= indices(signing_commitments@));
    list
}

/// Whether a pair of nonces is the one that a commitment commits to.
pub open spec fn nonce_matches(nonces: NoncePair, commitment: SigningCommitment) -> bool {
    nonces.d().public()@ == commitment.d()@ && nonces.e().public()@ == commitment.e()@
}

/// Whether one of the pairs of nonces is the one that a commitment commits to.
pub open spec fn has_nonce(nonces: Seq<NoncePair>, commitment: SigningCommitment) -> bool {
    exists|p: int| 0 <= p < nonces.len() && nonce_matches(#[trigger] nonces[p], commitment)
}

/// Whether the pair of nonces at `p` is the first one that a commitment commits to.
pub open spec fn is_first_nonce(
    nonces: Seq<NoncePair>,
    commitment: SigningCommitment,
    p: int,
) -> bool {
    &&& 0 <= p < nonces.len()
    &&& nonce_matches(nonces[p], commitment)
    &&& forall|q: int| 0 <= q < p ==> !nonce_matches(#[trigger] nonces[q], commitment)
}

/// The place of the first pair of nonces that a commitment commits to.
pub open spec fn nonce_position(nonces: Seq<NoncePair>, commitment: SigningCommitment) -> int {
    choose|p: int| is_first_nonce(nonces, commitment, p)
}

/// Finds the first pair of nonces that a commitment commits to.
fn find_nonce(signing_nonces: &Vec<NoncePair>, commitment: &SigningCommitment) -> (r: Option<usize>)
    ensures
        r is Some <==> has_nonce(signing_nonces@, *commitment),
        r matches Some(p) ==> p < signing_nonces@.len() && p == nonce_position(
            signing_nonces@,
            *commitment,
        ),
{
    let ghost nonces = signing_nonces@;
    let mut p: usize = 0;
    while p < signing_nonces.len()
        invariant
            p <= signing_nonces.len(),
            nonces == signing_nonces@,
            forall|q: int| 0 <= q < p ==> !nonce_matches(#[trigger] nonces[q], *commitment),
        decreases signing_nonces.len() - p,
    {
        let item = signing_nonces[p];
        if item.d().public() == commitment.d() && item.e().public() == commitment.e() {
            proof {
                assert(is_first_nonce(nonces, *commitment, p as int));
                let q = choose|q: int| is_first_nonce(nonces, *commitment, q);
                assert(p == q);
            }
            return Some(p);
        }
        p += 1;
    }
    None
}

/// The response of a signer who holds the key share `secret`: the hiding nonce, plus the binding
/// nonce by the binding factor, plus the key share by the Lagrange coefficient and the challenge.
pub open spec fn response_value(
    nonces: NoncePair,
    rho: int,
    lambda: int,
    secret: int,
    c: int,
) -> int {
    field::reduce(nonces.d().secret()@ + nonces.e().secret()@ * rho + lambda * secret * c)
}

/// What signing does, under the binding factors `rhos` and the challenge `c`, where `before` are
/// the signer's nonces before and `after` those after.
///
/// Without a commitment of the signer, or without a pair of nonces that the first such commitment
/// commits to, it fails and keeps the nonces. Otherwise it uses the first such pair and deletes
/// it.
pub open spec fn sign_outcome(
    keypair: KeyPair,
    commitments: Seq<SigningCommitment>,
    rhos: Map<u32, int>,
    c: int,
    before: Seq<NoncePair>,
    after: Seq<NoncePair>,
    r: Result<SigningResponse, &'static str>,
) -> bool {
    let commitment = commitment_of(commitments, keypair.index);
    let p = nonce_position(before, commitment);
    if !indices(commitments).contains(keypair.index) {
        &&& r matches Err(m)
        &&& m@ == "No signing commitment for signer"@
        &&& after == before
    } else if !has_nonce(before, commitment) {
        &&& r matches Err(m)
        &&& m@ == "No matching signing nonce for signer"@
        &&& after == before
    } else {
        &&& r matches Ok(response)
        &&& response.index == keypair.index
        &&& response.response@ == response_value(
            before[p],
            rhos[keypair.index],
            helpers::lagrange_coeff(0, keypair.index, indices(commitments)),
            keypair.secret@,
            c,
        )
        &&& 0 <= p < before.len()
        &&& after == before.remove(p)
    }
}

/// What signing a message does: the binding factors and the challenge are those of the message
/// and the commitments.
pub open spec fn signed(
    keypair: KeyPair,
    commitments: Seq<SigningCommitment>,
    msg: Seq<char>,
    before: Seq<NoncePair>,
    after: Seq<NoncePair>,
    r: Result<SigningResponse, &'static str>,
) -> bool {
    let values = rhos(msg, commitments);
    sign_outcome(
        keypair,
        commitments,
        values,
        challenge(msg, group_commitment(commitments, values)),
        before,
        after,
        r,
    )
}

/// Signs under binding factors and a challenge that were computed before.
pub fn sign_with_challenge(
    keypair: &KeyPair,
    signing_commitments: &Vec<SigningCommitment>,
    signing_nonces: &mut Vec<NoncePair>,
    bindings: &HashMap<u32, Scalar>,
    challenge: Scalar,
) -> (r: Result<SigningResponse, &'static str>)
    requires
        indices(signing_commitments@).contains(keypair.index) ==> bindings@.contains_key(
            keypair.index,
        ),
    ensures
        sign_outcome(
            *keypair,
            signing_commitments@,
            binding_values(bindings@),
            challenge@,
            old(signing_nonces)@,
            final(signing_nonces)@,
            r,
        ),
{
    broadcast use vstd::std_specs::hash::group_hash_axioms;

    let indices = commitment_index_list(signing_commitments);
    let lambda_i = match helpers::get_lagrange_coeff(0, keypair.index, &indices) {
        Ok(lambda_i) => lambda_i,
        Err(m) => return Err(m),
    };

    // find the corresponding nonces for this participant
    let my_comm = match find_commitment(signing_commitments, keypair.index) {
        Some(my_comm) => my_comm,
        None => return Err("No signing commitment for signer"),
    };
    let position: usize = match find_nonce(signing_nonces, &my_comm) {
        Some(position) => position,
        None => return Err("No matching signing nonce for signer"),
    };
    let signing_nonce = signing_nonces[position];
    let my_rho_i = *bindings.get(&keypair.index).unwrap();
    let hiding = signing_nonce.d().secret();
    let binding = signing_nonce.e().secret().mul(&my_rho_i);
    let key_part = lambda_i.mul(&keypair.secret).mul(&challenge);
    let response = hiding.add(&binding).add(&key_part);
    proof {
        let h = hiding@;
        let b = signing_nonce.e().secret()@ * my_rho_i@;
        let k = lambda_i@ * keypair.secret@;
        field::lemma_reduce_add(h, b);
        field::lemma_reduce_mul(k, challenge@);
        field::lemma_reduce_add(h + b, k * challenge@);
    }
    // Now that this nonce has been used, delete it
    signing_nonces.remove(position);
    Ok(SigningResponse { response, index: keypair.index })
}

/// sign is performed by each participant selected for the signing
/// operation; these responses are then aggregated into the final FROST
/// signature by the signature aggregator performing the aggregate function
/// with each response.
pub fn sign(
    keypair: &KeyPair,
    signing_commitments: &Vec<SigningCommitment>,
    signing_nonces: &mut Vec<NoncePair>,
    msg: &str,
) -> (r: Result<SigningResponse, &'static str>)
    ensures
        signed(
            *keypair,
            signing_commitments@,
            msg@,
            old(signing_nonces)@,
            final(signing_nonces)@,
            r,
        ),
{
    let bindings = gen_bindings(msg, signing_commitments);
    proof {
        lemma_indices_contain(signing_commitments@);
    }
    let group_commitment = match gen_group_commitment(signing_commitments, &bindings) {
        Ok(group_commitment) => group_commitment,
        Err(m) => return Err(m),
    };
    let c = generate_challenge(msg, group_commitment);
    sign_with_challenge(keypair, signing_commitments, signing_nonces, &bindings, c)
}

/// The index of every commitment is among the indices.
proof fn lemma_indices_contain(commitments: Seq<SigningCommitment>)
    ensures
        forall|i: int|
            0 <= i < commitments.len() ==> indices(commitments).contains(
                (#[trigger] commitments[i]).index(),
            ),
{
    assert forall|i: int| 0 <= i < commitments.len() implies indices(commitments).contains(
        (#[trigger] commitments[i]).index(),
    ) by {
        assert(indices(commitments)[i] == commitments[i].index());
    }
}

/// What is wrong with a response, under the binding factors `rhos` and the challenge `c`, where
/// `pubkeys` are the public keys of the signers: nothing, or what the error says.
pub open spec fn response_fault(
    response: SigningResponse,
    commitments: Seq<SigningCommitment>,
    pubkeys: Map<u32, RistrettoPoint>,
    rhos: Map<u32, int>,
    c: int,
) -> Option<Seq<char>> {
    let commitment = commitment_of(commitments, response.index);
    if !pubkeys.contains_key(response.index) {
        Some("commitment does not have a matching signer public key!"@)
    } else if !response_is_valid(
        response.response@,
        pubkeys[response.index]@,
        helpers::lagrange_coeff(0, response.index, indices(commitments)),
        commitment_share(commitment, rhos[response.index]),
        c,
    ) {
        Some("Invalid signer response"@)
    } else {
        None
    }
}

/// What is wrong with the first response that something is wrong with.
pub open spec fn first_fault(
    responses: Seq<SigningResponse>,
    commitments: Seq<SigningCommitment>,
    pubkeys: Map<u32, RistrettoPoint>,
    rhos: Map<u32, int>,
    c: int,
) -> Option<Seq<char>>
    decreases responses.len(),
{
    if responses.len() == 0 {
        None
    } else {
        match first_fault(responses.drop_last(), commitments, pubkeys, rhos, c) {
            Some(m) => Some(m),
            None => response_fault(responses.last(), commitments, pubkeys, rhos, c),
        }
    }
}

/// The sum of the responses.
pub open spec fn response_sum(responses: Seq<SigningResponse>) -> int
    decreases responses.len(),
{
    if responses.len() == 0 {
        0
    } else {
        field::reduce(response_sum(responses.drop_last()) + responses.last().response@)
    }
}

/// What aggregating does with responses that match the commitments, under the binding factors
/// `rhos`, the group commitment `group_commitment` and the challenge `c`.
///
/// The first response with a fault is refused; without faults, the group commitment and the sum
/// of the responses are the signature.
pub open spec fn aggregate_outcome(
    commitments: Seq<SigningCommitment>,
    responses: Seq<SigningResponse>,
    pubkeys: Map<u32, RistrettoPoint>,
    rhos: Map<u32, int>,
    group_commitment: int,
    c: int,
    r: Result<Signature, &'static str>,
) -> bool {
    match first_fault(responses, commitments, pubkeys, rhos, c) {
        Some(fault) => r matches Err(m) && m@ == fault,
        None => r matches Ok(sig) && sig.r@ == group_commitment && sig.z@ == response_sum(responses),
    }
}

/// What aggregating the responses to a message does.
///
/// There have to be as many responses as commitments, and each index has to occur as often among
/// the ones as among the others.
pub open spec fn aggregated(
    msg: Seq<char>,
    commitments: Seq<SigningCommitment>,
    responses: Seq<SigningResponse>,
    pubkeys: Map<u32, RistrettoPoint>,
    r: Result<Signature, &'static str>,
) -> bool {
    let values = rhos(msg, commitments);
    let group = group_commitment(commitments, values);
    if commitments.len() != responses.len() {
        r matches Err(m) && m@ == "Mismatched number of commitments and responses"@
    } else if indices(commitments).to_multiset() != response_indices(responses).to_multiset() {
        r matches Err(m) && m@ == "Mismatched commitment without corresponding response"@
    } else {
        aggregate_outcome(commitments, responses, pubkeys, values, group, challenge(msg, group), r)
    }
}

/// The indices of the signers who responded, in the order of their responses.
fn response_index_list(signing_responses: &Vec<SigningResponse>) -> (r: Vec<u32>)
    ensures
        r@ == response_indices(signing_responses@),
{
    let mut list: Vec<u32> = Vec::new();
    let mut i: usize = 0;
    while i < signing_responses.len()
        invariant
            i <= signing_responses.len(),
            list@ == response_indices(signing_responses@).take(i as int),
        decreases signing_responses.len() - i,
    {
        list.push(signing_responses[i].index);
        i += 1;
        assert(list@ =~= response_indices(signing_responses@).take(i as int));
    }
    assert(list@ =~= response_indices(signing_responses@));
    list
}

/// Checks and adds up responses that match the commitments, under binding factors, a group
/// commitment and a challenge that were computed before.
pub fn aggregate_with_challenge(
    signing_commitments: &Vec<SigningCommitment>,
    signing_responses: &Vec<SigningResponse>,
    signer_pubkeys: &HashMap<u32, RistrettoPoint>,
    bindings: &HashMap<u32, Scalar>,
    group_commitment: RistrettoPoint,
    challenge: Scalar,
) -> (r: Result<Signature, &'static str>)
    requires
        forall|i: int|
            0 <= i < signing_responses@.len() ==> {
                &&& indices(signing_commitments@).contains((#[trigger] signing_responses@[i]).index)
                &&& bindings@.contains_key(signing_responses@[i].index)
            },
    ensures
        aggregate_outcome(
            signing_commitments@,
            signing_responses@,
            signer_pubkeys@,
            binding_values(bindings@),
            group_commitment@,
            challenge@,
            r,
        ),
{
    broadcast use vstd::std_specs::hash::group_hash_axioms;

    let ghost comms = signing_commitments@;
    let ghost resps = signing_responses@;
    let ghost keys = signer_pubkeys@;
    let ghost values = binding_values(bindings@);
    let ghost c = challenge@;
    let indices = commitment_index_list(signing_commitments);
    let mut group_resp = Scalar::zero();

    // check the validity of each participant's response
    let mut i: usize = 0;
    while i < signing_responses.len()
        invariant
            i <= signing_responses.len(),
            comms == signing_commitments@,
            resps == signing_responses@,
            keys == signer_pubkeys@,
            values == binding_values(bindings@),
            c == challenge@,
            indices@ == crate::sign::indices(comms),
            forall|i: int|
                0 <= i < resps.len() ==> {
                    &&& crate::sign::indices(comms).contains((#[trigger] resps[i]).index)
                    &&& bindings@.contains_key(resps[i].index)
                },
            first_fault(resps.take(i as int), comms, keys, values, c) is None,
            group_resp@ == response_sum(resps.take(i as int)),
        decreases signing_responses.len() - i,
    {
        let resp = signing_responses[i];
        proof {
            assert(resps.take(i + 1).drop_last() =~= resps.take(i as int));
            assert(resps.take(i + 1).last() == resp);
            if response_fault(resp, comms, keys, values, c) is Some {
                lemma_first_fault_stays(resps, i + 1, comms, keys, values, c);
            }
        }
        let matching_rho_i = *bindings.get(&resp.index).unwrap();
        let lambda_i = match helpers::get_lagrange_coeff(0, resp.index, &indices) {
            Ok(lambda_i) => lambda_i,
            Err(m) => return Err(m),
        };
        let matching_commitment = match find_commitment(signing_commitments, resp.index) {
            Some(matching_commitment) => matching_commitment,
            None => return Err("No matching commitment for response"),
        };
        let commitment_i = matching_commitment.d().add(
            &matching_commitment.e().mul(&matching_rho_i),
        );
        proof {
            field::lemma_reduce_add(
                matching_commitment.d()@,
                matching_commitment.e()@ * matching_rho_i@,
            );
        }
        let signer_pubkey = match signer_pubkeys.get(&matching_commitment.index()) {
            Some(signer_pubkey) => signer_pubkey,
            None => return Err("commitment does not have a matching signer public key!"),
        };
        if !resp.is_valid(signer_pubkey, lambda_i, &commitment_i, challenge) {
            return Err("Invalid signer response");
        }
        group_resp = group_resp.add(&resp.response);
        i += 1;
    }
    assert(resps.take(i as int) =~= resps);
    Ok(Signature { r: group_commitment, z: group_resp })
}

/// A fault among the first `n` responses is the first fault of all.
proof fn lemma_first_fault_stays(
    responses: Seq<SigningResponse>,
    n: int,
    commitments: Seq<SigningCommitment>,
    pubkeys: Map<u32, RistrettoPoint>,
    rhos: Map<u32, int>,
    c: int,
)
    requires
        0 <= n <= responses.len(),
        first_fault(responses.take(n), commitments, pubkeys, rhos, c) is Some,
    ensures
        first_fault(responses, commitments, pubkeys, rhos, c) == first_fault(
            responses.take(n),
            commitments,
            pubkeys,
            rhos,
            c,
        ),
    decreases responses.len(),
{
    if n == responses.len() {
        assert(responses.take(n) =~= responses);
    } else {
        assert(responses.drop_last().take(n) =~= responses.take(n));
        lemma_first_fault_stays(responses.drop_last(), n, commitments, pubkeys, rhos, c);
    }
}

/// aggregate collects all responses from participants. It first performs a
/// validity check for each participant's response, and will return an error in the
/// case the response is invalid. If all responses are valid, it aggregates these
/// into a single signature that is published. This function is executed
/// by the entity performing the signature aggregator role.
pub fn aggregate(
    msg: &str,
    signing_commitments: &Vec<SigningCommitment>,
    signing_responses: &Vec<SigningResponse>,
    signer_pubkeys: &HashMap<u32, RistrettoPoint>,
) -> (r: Result<Signature, &'static str>)
    ensures
        aggregated(msg@, signing_commitments@, signing_responses@, signer_pubkeys@, r),
{
    if signing_commitments.len() != signing_responses.len() {
        return Err("Mismatched number of commitments and responses");
    }
    // first, make sure that each commitment corresponds to exactly one response
    let commitment_indices = helpers::sorted(&commitment_index_list(signing_commitments));
    let response_indices = helpers::sorted(&response_index_list(signing_responses));
    proof {
        helpers::lemma_ascending_unique(commitment_indices@, response_indices@);
    }
    if !(commitment_indices == response_indices) {
        return Err("Mismatched commitment without corresponding response");
    }
    assert(commitment_indices@ =~= response_indices@);
    let bindings = gen_bindings(msg, signing_commitments);
    proof {
        lemma_indices_contain(signing_commitments@);
        lemma_responses_covered(signing_commitments@, signing_responses@);
    }
    let group_commitment = match gen_group_commitment(signing_commitments, &bindings) {
        Ok(group_commitment) => group_commitment,
        Err(m) => return Err(m),
    };
    let challenge = generate_challenge(msg, group_commitment);
    aggregate_with_challenge(
        signing_commitments,
        signing_responses,
        signer_pubkeys,
        &bindings,
        group_commitment,
        challenge,
    )
}

/// Where commitments and responses have the same indices, every response has a commitment.
proof fn lemma_responses_covered(
    commitments: Seq<SigningCommitment>,
    responses: Seq<SigningResponse>,
)
    requires
        indices(commitments).to_multiset() == response_indices(responses).to_multiset(),
    ensures
        forall|i: int|
            0 <= i < responses.len() ==> indices(commitments).contains(
                (#[trigger] responses[i]).index,
            ),
{
    indices(commitments).to_multiset_ensures();
    response_indices(responses).to_multiset_ensures();
    assert forall|i: int| 0 <= i < responses.len() implies indices(commitments).contains(
        (#[trigger] responses[i]).index,
    ) by {
        assert(response_indices(responses)[i] == responses[i].index);
        assert(response_indices(responses).contains(responses[i].index));
        assert(response_indices(responses).to_multiset().count(responses[i].index) > 0);
    }
}

/// Whether a signature holds for a public key under the challenge `c`: its first part is the
/// multiple of the basepoint by the second less the multiple of the public key by `c`.
pub open spec fn signature_is_valid(r: int, z: int, pubkey: int, c: int) -> bool {
    r == field::reduce(z - pubkey * c)
}

/// Checks a signature under a challenge that was computed before.
pub fn validate_with_challenge(sig: &Signature, pubkey: RistrettoPoint, challenge: Scalar) -> (r:
    Result<(), &'static str>)
    ensures
        r is Ok <==> signature_is_valid(sig.r@, sig.z@, pubkey@, challenge@),
        r matches Err(m) ==> m@ == "Signature is invalid"@,
{
    proof {
        field::lemma_reduce_sub(sig.z@, pubkey@ * challenge@);
    }
    if sig.r != RistrettoPoint::mul_base(&sig.z).sub(&pubkey.mul(&challenge)) {
        return Err("Signature is invalid");
    }
    Ok(())
}

/// validate performs a plain Schnorr validation operation; this is identical
/// to performing validation of a Schnorr signature that has been signed by a
/// single party.
pub fn validate(msg: &str, sig: &Signature, pubkey: RistrettoPoint) -> (r: Result<(), &'static str>)
    ensures
        r is Ok <==> signature_is_valid(sig.r@, sig.z@, pubkey@, challenge(msg@, sig.r@)),
        r matches Err(m) ==> m@ == "Signature is invalid"@,
{
    let challenge = generate_challenge(msg, sig.r);
    validate_with_challenge(sig, pubkey, challenge)
}

} // verus!
