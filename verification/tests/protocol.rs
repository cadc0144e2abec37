//! The steps of the protocol on fixed values, and what they promise together.
use std::collections::HashMap;

use curve25519_dalek::scalar::Scalar as DalekScalar;
use frost::commitment::{
    commit, preprocess, preprocess_from_secrets, NoncePair, SigningCommitment,
};
use frost::group::RistrettoPoint;
use frost::keygen::KeyPair;
use frost::scalar::Scalar;
use frost::sign::{
    aggregate, aggregate_with_challenge, gen_group_commitment, gen_rho_i, generate_challenge, sign,
    sign_with_challenge, validate, validate_with_challenge, Signature, SigningResponse,
};
use sha2::{Digest, Sha256};

const NO_COMMITMENT: &str = "No signing commitment for signer";
const NO_NONCE: &str = "No matching signing nonce for signer";
const NUMBER_MISMATCH: &str = "Mismatched number of commitments and responses";
const INDEX_MISMATCH: &str = "Mismatched commitment without corresponding response";
const NO_PUBLIC_KEY: &str = "commitment does not have a matching signer public key!";
const BAD_RESPONSE: &str = "Invalid signer response";
const BAD_SIGNATURE: &str = "Signature is invalid";

fn scalar(x: u32) -> Scalar {
    Scalar::from_u32(x)
}

fn point(x: u32) -> RistrettoPoint {
    RistrettoPoint::mul_base(&scalar(x))
}

fn nonce_pair(d: u32, e: u32) -> NoncePair {
    NoncePair::from_secrets(scalar(d), scalar(e)).unwrap()
}

fn commitment_to(index: u32, nonces: &NoncePair) -> SigningCommitment {
    SigningCommitment::new(index, nonces.d().public(), nonces.e().public()).unwrap()
}

/// The shares of the secret `coefficients[0]` for the given participants.
fn shares(coefficients: &[u32], indices: &[u32]) -> Vec<KeyPair> {
    indices
        .iter()
        .map(|index| {
            let x = scalar(*index);
            let secret = coefficients
                .iter()
                .rev()
                .fold(Scalar::zero(), |acc, a| acc.mul(&x).add(&scalar(*a)));
            KeyPair {
                index: *index,
                secret,
                public: RistrettoPoint::mul_base(&secret),
                group_public: point(coefficients[0]),
            }
        })
        .collect()
}

fn public_keys(keypairs: &[KeyPair]) -> HashMap<u32, RistrettoPoint> {
    keypairs.iter().map(|keypair| (keypair.index, keypair.public)).collect()
}

/// A pair of nonces for each of the participants, and the commitments to them.
fn first_round(keypairs: &[KeyPair]) -> (Vec<SigningCommitment>, Vec<Vec<NoncePair>>) {
    let nonces: Vec<Vec<NoncePair>> = keypairs
        .iter()
        .map(|keypair| vec![nonce_pair(100 + keypair.index, 200 + keypair.index)])
        .collect();
    let commitments = keypairs
        .iter()
        .zip(nonces.iter())
        .map(|(keypair, list)| commitment_to(keypair.index, &list[0]))
        .collect();
    (commitments, nonces)
}

/// Lets every participant sign.
fn second_round(
    keypairs: &[KeyPair],
    commitments: &Vec<SigningCommitment>,
    nonces: &[Vec<NoncePair>],
    msg: &str,
) -> Vec<SigningResponse> {
    keypairs
        .iter()
        .zip(nonces.iter())
        .map(|(keypair, list)| sign(keypair, commitments, &mut list.clone(), msg).unwrap())
        .collect()
}

/// Two signers with the shares 11 and 13, whose nonces are 3, 4 and 5, 6, and the binding factors
/// 7 and 8.
fn two_signers() -> (Vec<KeyPair>, Vec<SigningCommitment>, Vec<Vec<NoncePair>>, HashMap<u32, Scalar>)
{
    let keypairs = vec![
        KeyPair { index: 1, secret: scalar(11), public: point(11), group_public: point(9) },
        KeyPair { index: 2, secret: scalar(13), public: point(13), group_public: point(9) },
    ];
    let nonces = vec![vec![nonce_pair(3, 4)], vec![nonce_pair(5, 6)]];
    let commitments = vec![commitment_to(1, &nonces[0][0]), commitment_to(2, &nonces[1][0])];
    let bindings = HashMap::from([(1, scalar(7)), (2, scalar(8))]);
    (keypairs, commitments, nonces, bindings)
}

#[test]
fn commitment_of_identity_is_refused() {
    let identity = RistrettoPoint::identity();
    let refused = Some("Invalid signing commitment");
    assert_eq!(SigningCommitment::new(1, identity, point(2)).err(), refused);
    assert_eq!(SigningCommitment::new(1, point(2), identity).err(), refused);
    assert_eq!(SigningCommitment::new(1, identity, identity).err(), refused);
}

#[test]
fn commitment_keeps_its_parts() {
    let commitment = SigningCommitment::new(7, point(2), point(3)).unwrap();
    assert_eq!(commitment.index(), 7);
    assert!(commitment.d() == point(2));
    assert!(commitment.e() == point(3));
}

#[test]
fn nonces_of_zero_are_refused() {
    let refused = Some("Invalid nonce commitment");
    assert_eq!(NoncePair::from_secrets(Scalar::zero(), scalar(2)).err(), refused);
    assert_eq!(NoncePair::from_secrets(scalar(2), Scalar::zero()).err(), refused);
}

#[test]
fn nonces_hold_the_points_of_their_secrets() {
    let nonces = nonce_pair(3, 4);
    assert!(nonces.d().secret() == scalar(3));
    assert!(nonces.d().public() == point(3));
    assert!(nonces.e().secret() == scalar(4));
    assert!(nonces.e().public() == point(4));
}

#[test]
fn nonces_drawn_at_random_hold_the_points_of_their_secrets() {
    let mut rng = rand::thread_rng();
    let nonces = NoncePair::new(&mut rng).unwrap();
    assert!(nonces.d().public() == RistrettoPoint::mul_base(&nonces.d().secret()));
    assert!(nonces.e().public() == RistrettoPoint::mul_base(&nonces.e().secret()));
    assert!(nonces.d().secret() != nonces.e().secret());
}

#[test]
fn commitments_go_with_the_nonces_in_the_same_place() {
    let nonces = vec![nonce_pair(3, 4), nonce_pair(5, 6)];
    let commitments = commit(9, &nonces).unwrap();
    assert_eq!(commitments.len(), 2);
    assert_eq!(commitments[0].index(), 9);
    assert!(commitments[0].d() == point(3) && commitments[0].e() == point(4));
    assert_eq!(commitments[1].index(), 9);
    assert!(commitments[1].d() == point(5) && commitments[1].e() == point(6));
    assert!(commit(9, &vec![]).unwrap().is_empty());
}

#[test]
fn preprocess_commits_to_what_it_draws() {
    let mut rng = rand::thread_rng();
    let (commitments, nonces) = preprocess(3, 4, &mut rng).unwrap();
    assert_eq!(commitments.len(), 3);
    assert_eq!(nonces.len(), 3);
    for (commitment, pair) in commitments.iter().zip(nonces.iter()) {
        assert_eq!(commitment.index(), 4);
        assert!(commitment.d() == pair.d().public());
        assert!(commitment.e() == pair.e().public());
    }
}

#[test]
fn preprocess_of_none_is_empty() {
    let mut rng = rand::thread_rng();
    let (commitments, nonces) = preprocess(0, 4, &mut rng).unwrap();
    assert!(commitments.is_empty());
    assert!(nonces.is_empty());
}

#[test]
fn preprocess_makes_each_pair_of_its_own_draws() {
    let secrets = vec![
        (scalar(3), scalar(4)),
        (scalar(5), scalar(6)),
        (scalar(7), scalar(8)),
        (scalar(9), scalar(10)),
        (scalar(11), scalar(12)),
    ];
    let (commitments, nonces) = preprocess_from_secrets(1, &secrets).unwrap();
    assert_eq!(commitments.len(), 5);
    assert_eq!(nonces.len(), 5);
    for k in 0..5 {
        assert!(nonces[k].d().secret() == scalar(3 + 2 * k as u32));
        assert!(nonces[k].e().secret() == scalar(4 + 2 * k as u32));
        assert_eq!(commitments[k].index(), 1);
        assert!(commitments[k].d() == point(3 + 2 * k as u32));
        assert!(commitments[k].e() == point(4 + 2 * k as u32));
    }
}

#[test]
fn preprocess_refuses_a_zero_anywhere() {
    let refused = Some("Invalid nonce commitment");
    for place in 0..3 {
        let mut secrets = vec![(scalar(3), scalar(4)); 3];
        secrets[place].0 = Scalar::zero();
        assert_eq!(preprocess_from_secrets(1, &secrets).err(), refused);
        let mut secrets = vec![(scalar(3), scalar(4)); 3];
        secrets[place].1 = Scalar::zero();
        assert_eq!(preprocess_from_secrets(1, &secrets).err(), refused);
    }
    let (commitments, nonces) = preprocess_from_secrets(1, &vec![]).unwrap();
    assert!(commitments.is_empty() && nonces.is_empty());
}

#[test]
fn preprocess_in_two_goes_is_preprocess_in_one() {
    let all = vec![(scalar(3), scalar(4)), (scalar(5), scalar(6)), (scalar(7), scalar(8))];
    let (commitments, nonces) = preprocess_from_secrets(2, &all).unwrap();
    let (mut commitments_1, mut nonces_1) =
        preprocess_from_secrets(2, &all[..1].to_vec()).unwrap();
    let (commitments_2, nonces_2) = preprocess_from_secrets(2, &all[1..].to_vec()).unwrap();
    commitments_1.extend(commitments_2);
    nonces_1.extend(nonces_2);
    assert_eq!(commitments.len(), commitments_1.len());
    assert_eq!(nonces.len(), nonces_1.len());
    for k in 0..3 {
        assert_eq!(commitments[k].index(), commitments_1[k].index());
        assert!(commitments[k].d() == commitments_1[k].d());
        assert!(commitments[k].e() == commitments_1[k].e());
        assert!(nonces[k].d().secret() == nonces_1[k].d().secret());
        assert!(nonces[k].e().secret() == nonces_1[k].e().secret());
    }
}

#[test]
fn preprocess_draws_different_secrets() {
    let mut rng = rand::thread_rng();
    let (_, nonces) = preprocess(5, 1, &mut rng).unwrap();
    let secrets: Vec<Scalar> =
        nonces.iter().flat_map(|pair| [pair.d().secret(), pair.e().secret()]).collect();
    for j in 0..secrets.len() {
        for k in 0..j {
            assert!(secrets[j] != secrets[k]);
        }
    }
}

#[test]
fn binding_factor_binds_index_order_and_every_part() {
    let a = commitment_to(1, &nonce_pair(3, 4));
    let b = commitment_to(2, &nonce_pair(5, 6));
    let rho = gen_rho_i(1, "msg", &vec![a, b]);
    assert!(rho == gen_rho_i(1, "msg", &vec![a, b]));
    assert!(rho != gen_rho_i(2, "msg", &vec![a, b]));
    assert!(rho != gen_rho_i(1, "msh", &vec![a, b]));
    assert!(rho != gen_rho_i(1, "msg", &vec![b, a]));
    assert!(rho != gen_rho_i(1, "msg", &vec![a]));
    assert!(rho != gen_rho_i(1, "msg", &vec![a, commitment_to(3, &nonce_pair(5, 6))]));
    assert!(rho != gen_rho_i(1, "msg", &vec![a, commitment_to(2, &nonce_pair(7, 6))]));
    assert!(rho != gen_rho_i(1, "msg", &vec![a, commitment_to(2, &nonce_pair(5, 7))]));
}

#[test]
fn challenge_hashes_commitment_and_message() {
    let msg = "Grüße, 世界";
    let mut hasher = Sha256::new();
    hasher.update(point(5).to_bytes());
    hasher.update(msg);
    let expected = DalekScalar::from_bytes_mod_order(hasher.finalize().into());
    assert_eq!(generate_challenge(msg, point(5)).to_bytes(), expected.to_bytes());
    assert!(generate_challenge(msg, point(5)) != generate_challenge(msg, point(6)));
    assert!(generate_challenge("a", point(5)) != generate_challenge("b", point(5)));
}

#[test]
fn challenge_of_the_identity_and_no_message() {
    let expected = DalekScalar::from_bytes_mod_order(Sha256::digest(&[0u8; 32]).into());
    assert_eq!(generate_challenge("", RistrettoPoint::identity()).to_bytes(), expected.to_bytes());
}

#[test]
fn binding_factor_hashes_index_message_and_commitments() {
    let (_, commitments, _, _) = two_signers();
    let msg = "déjeuner";
    let index: u32 = 0x01020304;
    let mut hasher = Sha256::new();
    hasher.update(b"I");
    hasher.update(index.to_be_bytes());
    hasher.update(msg.as_bytes());
    for (i, d, e) in [(1u32, 3, 4), (2u32, 5, 6)] {
        hasher.update(i.to_be_bytes());
        hasher.update(point(d).to_bytes());
        hasher.update(point(e).to_bytes());
    }
    let expected = DalekScalar::from_bytes_mod_order(hasher.finalize().into());
    assert_eq!(gen_rho_i(index, msg, &commitments).to_bytes(), expected.to_bytes());
    assert!(gen_rho_i(1, msg, &commitments) != gen_rho_i(2, msg, &commitments));
}

#[test]
fn binding_factor_without_commitments() {
    let expected = DalekScalar::from_bytes_mod_order(Sha256::digest(b"I\x00\x00\x00\x07hi").into());
    assert_eq!(gen_rho_i(7, "hi", &vec![]).to_bytes(), expected.to_bytes());
}

#[test]
fn group_commitment_adds_the_shares_up() {
    let (_, commitments, _, bindings) = two_signers();
    // (3 + 4 * 7) + (5 + 6 * 8)
    assert!(gen_group_commitment(&commitments, &bindings).unwrap() == point(84));
    let none = gen_group_commitment(&vec![], &bindings).unwrap();
    assert!(none == RistrettoPoint::identity());
}

#[test]
fn response_is_checked_against_key_and_commitment() {
    // 31 + 11 * (9 * 2)
    let response = SigningResponse { response: scalar(229), index: 1 };
    assert!(response.is_valid(&point(11), scalar(2), &point(31), scalar(9)));
    assert!(!response.is_valid(&point(12), scalar(2), &point(31), scalar(9)));
    assert!(!response.is_valid(&point(11), scalar(3), &point(31), scalar(9)));
    assert!(!response.is_valid(&point(11), scalar(2), &point(30), scalar(9)));
    assert!(!response.is_valid(&point(11), scalar(2), &point(31), scalar(8)));
    let other = SigningResponse { response: scalar(228), index: 1 };
    assert!(!other.is_valid(&point(11), scalar(2), &point(31), scalar(9)));
}

#[test]
fn responses_under_a_given_challenge() {
    let (keypairs, commitments, mut nonces, bindings) = two_signers();
    let c = scalar(9);
    let first =
        sign_with_challenge(&keypairs[0], &commitments, &mut nonces[0], &bindings, c).unwrap();
    assert_eq!(first.index, 1);
    // 3 + 4 * 7 + 2 * 11 * 9
    assert!(first.response == scalar(229));
    assert!(nonces[0].is_empty());
    let second =
        sign_with_challenge(&keypairs[1], &commitments, &mut nonces[1], &bindings, c).unwrap();
    assert_eq!(second.index, 2);
    // 5 + 6 * 8 - 13 * 9
    assert!(second.response == Scalar::zero().sub(&scalar(64)));
}

#[test]
fn signature_under_a_given_challenge() {
    let (keypairs, commitments, mut nonces, bindings) = two_signers();
    let c = scalar(9);
    let responses: Vec<SigningResponse> = (0..2)
        .map(|i| {
            sign_with_challenge(&keypairs[i], &commitments, &mut nonces[i], &bindings, c).unwrap()
        })
        .collect();
    let sig = aggregate_with_challenge(
        &commitments,
        &responses,
        &public_keys(&keypairs),
        &bindings,
        point(84),
        c,
    )
    .unwrap();
    assert!(sig.r == point(84));
    assert!(sig.z == scalar(165));
    // The group key is that of 2 * 11 - 13.
    assert!(validate_with_challenge(&sig, point(9), c).is_ok());
    assert_eq!(validate_with_challenge(&sig, point(10), c).err(), Some(BAD_SIGNATURE));
}

#[test]
fn signing_uses_the_matching_nonces_and_keeps_the_others() {
    let (keypairs, commitments, _, _) = two_signers();
    let mut nonces = vec![nonce_pair(21, 22), nonce_pair(3, 4), nonce_pair(23, 24)];
    let mut alone = vec![nonce_pair(3, 4)];
    let response = sign(&keypairs[0], &commitments, &mut nonces, "msg").unwrap();
    let expected = sign(&keypairs[0], &commitments, &mut alone, "msg").unwrap();
    assert!(response.response == expected.response);
    assert_eq!(nonces.len(), 2);
    assert!(nonces[0].d().secret() == scalar(21));
    assert!(nonces[1].d().secret() == scalar(23));
}

#[test]
fn signing_without_commitment_fails() {
    let (keypairs, commitments, mut nonces, _) = two_signers();
    let stranger = KeyPair { index: 3, ..keypairs[0] };
    assert_eq!(sign(&stranger, &commitments, &mut nonces[0], "msg").err(), Some(NO_COMMITMENT));
    assert_eq!(nonces[0].len(), 1);
    assert_eq!(sign(&keypairs[0], &vec![], &mut nonces[0], "msg").err(), Some(NO_COMMITMENT));
}

#[test]
fn signing_without_matching_nonces_fails() {
    let (keypairs, commitments, _, _) = two_signers();
    let mut nonces = vec![nonce_pair(3, 5), nonce_pair(9, 4)];
    assert_eq!(sign(&keypairs[0], &commitments, &mut nonces, "msg").err(), Some(NO_NONCE));
    assert_eq!(nonces.len(), 2);
}

#[test]
fn signing_goes_by_the_first_commitment_of_the_signer() {
    let (keypairs, _, _, _) = two_signers();
    let early = nonce_pair(3, 4);
    let late = nonce_pair(5, 6);
    let commitments = vec![commitment_to(1, &early), commitment_to(1, &late)];
    let mut nonces = vec![late];
    assert_eq!(sign(&keypairs[0], &commitments, &mut nonces, "msg").err(), Some(NO_NONCE));
    let mut nonces = vec![late, early];
    assert!(sign(&keypairs[0], &commitments, &mut nonces, "msg").is_ok());
    assert!(nonces[0].d().secret() == scalar(5));
}

#[test]
fn nonces_sign_once() {
    let keypairs = shares(&[42, 7], &[1, 2]);
    let (commitments, mut nonces) = first_round(&keypairs);
    assert!(sign(&keypairs[0], &commitments, &mut nonces[0], "one").is_ok());
    assert_eq!(sign(&keypairs[0], &commitments, &mut nonces[0], "one").err(), Some(NO_NONCE));
    assert_eq!(sign(&keypairs[0], &commitments, &mut nonces[0], "two").err(), Some(NO_NONCE));
}

#[test]
fn committed_signer_can_sign() {
    let mut rng = rand::thread_rng();
    let keypairs = shares(&[42, 7], &[5]);
    let (commitments, mut nonces) = preprocess(2, 5, &mut rng).unwrap();
    for commitment in commitments {
        assert!(sign(&keypairs[0], &vec![commitment], &mut nonces, "msg").is_ok());
    }
    assert!(nonces.is_empty());
}

#[test]
fn aggregating_a_different_number_of_responses_fails() {
    let keypairs = shares(&[42, 7], &[1, 2]);
    let (commitments, nonces) = first_round(&keypairs);
    let mut responses = second_round(&keypairs, &commitments, &nonces, "msg");
    responses.pop();
    let res = aggregate("msg", &commitments, &responses, &public_keys(&keypairs));
    assert_eq!(res.err(), Some(NUMBER_MISMATCH));
}

#[test]
fn aggregating_responses_of_other_signers_fails() {
    let keypairs = shares(&[42, 7], &[1, 2]);
    let (commitments, nonces) = first_round(&keypairs);
    let mut responses = second_round(&keypairs, &commitments, &nonces, "msg");
    responses[1].index = 3;
    let res = aggregate("msg", &commitments, &responses, &public_keys(&keypairs));
    assert_eq!(res.err(), Some(INDEX_MISMATCH));
}

#[test]
fn aggregating_a_repeated_response_fails() {
    let keypairs = shares(&[42, 7], &[1, 2]);
    let (commitments, nonces) = first_round(&keypairs);
    let responses = second_round(&keypairs, &commitments, &nonces, "msg");
    let repeated = vec![responses[0], responses[0]];
    let res = aggregate("msg", &commitments, &repeated, &public_keys(&keypairs));
    assert_eq!(res.err(), Some(INDEX_MISMATCH));
}

#[test]
fn aggregating_without_a_public_key_fails() {
    let keypairs = shares(&[42, 7], &[1, 2]);
    let (commitments, nonces) = first_round(&keypairs);
    let responses = second_round(&keypairs, &commitments, &nonces, "msg");
    let res = aggregate("msg", &commitments, &responses, &public_keys(&keypairs[..1]));
    assert_eq!(res.err(), Some(NO_PUBLIC_KEY));
}

#[test]
fn aggregating_any_other_response_fails() {
    let keypairs = shares(&[42, 7], &[1, 2]);
    let (commitments, nonces) = first_round(&keypairs);
    let responses = second_round(&keypairs, &commitments, &nonces, "msg");
    for place in 0..2 {
        let mut changed = responses.clone();
        changed[place].response = changed[place].response.add(&scalar(1));
        let res = aggregate("msg", &commitments, &changed, &public_keys(&keypairs));
        assert_eq!(res.err(), Some(BAD_RESPONSE));
    }
}

#[test]
fn aggregating_reports_the_first_fault() {
    let keypairs = shares(&[42, 7], &[1, 2]);
    let (commitments, nonces) = first_round(&keypairs);
    let mut responses = second_round(&keypairs, &commitments, &nonces, "msg");
    responses[0].response = scalar(1);
    let some_keys = public_keys(&keypairs[..1]);
    let res = aggregate("msg", &commitments, &responses, &some_keys);
    assert_eq!(res.err(), Some(BAD_RESPONSE));
    responses.reverse();
    let res = aggregate("msg", &commitments, &responses, &some_keys);
    assert_eq!(res.err(), Some(NO_PUBLIC_KEY));
}

#[test]
fn aggregating_responses_to_another_message_fails() {
    let keypairs = shares(&[42, 7], &[1, 2]);
    let (commitments, nonces) = first_round(&keypairs);
    let responses = second_round(&keypairs, &commitments, &nonces, "one");
    let res = aggregate("two", &commitments, &responses, &public_keys(&keypairs));
    assert_eq!(res.err(), Some(BAD_RESPONSE));
}

#[test]
fn aggregating_nothing_gives_the_empty_signature() {
    let sig = aggregate("msg", &vec![], &vec![], &HashMap::new()).unwrap();
    assert!(sig.r == RistrettoPoint::identity());
    assert!(sig.z == Scalar::zero());
}

#[test]
fn shares_sign_for_the_group_key() {
    let keypairs = shares(&[42, 7, 3], &[9, 2, 4]);
    let (commitments, nonces) = first_round(&keypairs);
    let responses = second_round(&keypairs, &commitments, &nonces, "msg");
    let sig = aggregate("msg", &commitments, &responses, &public_keys(&keypairs)).unwrap();
    assert!(validate("msg", &sig, point(42)).is_ok());
    assert_eq!(validate("other", &sig, point(42)).err(), Some(BAD_SIGNATURE));
}

#[test]
fn the_order_of_the_responses_does_not_matter() {
    let keypairs = shares(&[42, 7, 3], &[1, 2, 3]);
    let (commitments, nonces) = first_round(&keypairs);
    let mut responses = second_round(&keypairs, &commitments, &nonces, "msg");
    let keys = public_keys(&keypairs);
    let sig = aggregate("msg", &commitments, &responses, &keys).unwrap();
    responses.rotate_left(1);
    let rotated = aggregate("msg", &commitments, &responses, &keys).unwrap();
    assert!(sig.r == rotated.r);
    assert!(sig.z == rotated.z);
}

#[test]
fn more_shares_than_needed_sign_too() {
    let keypairs = shares(&[42, 7], &[1, 2, 3, 4]);
    let (commitments, nonces) = first_round(&keypairs);
    let responses = second_round(&keypairs, &commitments, &nonces, "msg");
    let sig = aggregate("msg", &commitments, &responses, &public_keys(&keypairs)).unwrap();
    assert!(validate("msg", &sig, point(42)).is_ok());
}

#[test]
fn one_share_too_few_signs_for_another_key() {
    let keypairs = shares(&[42, 7, 3], &[1, 2]);
    let (commitments, nonces) = first_round(&keypairs);
    let responses = second_round(&keypairs, &commitments, &nonces, "msg");
    let sig = aggregate("msg", &commitments, &responses, &public_keys(&keypairs)).unwrap();
    assert_eq!(validate("msg", &sig, point(42)).err(), Some(BAD_SIGNATURE));
    // 2 * 52 - 68, which is 42 less 3 * (-1) * (-2)
    assert!(validate("msg", &sig, point(36)).is_ok());
}

#[test]
fn signature_holds_for_one_key_only() {
    let c = generate_challenge("msg", point(5));
    let sig = Signature { r: point(5), z: scalar(5).add(&scalar(42).mul(&c)) };
    assert!(validate("msg", &sig, point(42)).is_ok());
    for other in [0, 1, 41, 43] {
        assert_eq!(validate("msg", &sig, point(other)).err(), Some(BAD_SIGNATURE));
    }
}

#[test]
fn signature_has_one_second_part_only() {
    let c = generate_challenge("msg", point(5));
    let z = scalar(5).add(&scalar(42).mul(&c));
    let sig = Signature { r: point(5), z: z.add(&scalar(1)) };
    assert_eq!(validate("msg", &sig, point(42)).err(), Some(BAD_SIGNATURE));
    let sig = Signature { r: point(6), z };
    assert_eq!(validate("msg", &sig, point(42)).err(), Some(BAD_SIGNATURE));
}
