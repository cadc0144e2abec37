//! Whole signing operations, from the keys to the validated signature.
use std::collections::HashMap;

use frost::commitment::{preprocess, NoncePair, SigningCommitment};
use frost::group::RistrettoPoint;
use frost::keygen::KeyPair;
use frost::scalar::Scalar;
use frost::sign::{aggregate, generate_challenge, sign, validate, Signature, SigningResponse};
use rand::rngs::ThreadRng;

#[test]
fn preprocess_generates_values() {
    let mut rng: ThreadRng = rand::thread_rng();
    let (signing_commitments, signing_nonces) = preprocess(5, 1, &mut rng).unwrap();
    assert!(signing_commitments.len() == 5);
    assert!(signing_nonces.len() == 5);

    let expected_length = signing_nonces.len() * 2;
    let mut seen_nonces = Vec::with_capacity(expected_length);
    for nonce in signing_nonces {
        seen_nonces.push(nonce.d().secret());
        seen_nonces.push(nonce.e().secret());
    }
    seen_nonces.dedup();

    // ensure that each secret is unique
    assert!(seen_nonces.len() == expected_length);
}

fn gen_signing_helper(
    num_signers: u32,
    keypairs: &Vec<KeyPair>,
    rng: &mut ThreadRng,
) -> (Vec<SigningCommitment>, HashMap<u32, Vec<NoncePair>>) {
    let mut nonces: HashMap<u32, Vec<NoncePair>> = HashMap::with_capacity(num_signers as usize);
    let mut signing_commitments: Vec<SigningCommitment> = Vec::with_capacity(num_signers as usize);
    let number_nonces_to_generate = 1;

    for counter in 0..num_signers {
        let signing_keypair = &keypairs[counter as usize];
        let (participant_commitments, participant_nonces) =
            preprocess(number_nonces_to_generate, signing_keypair.index, rng).unwrap();

        signing_commitments.push(participant_commitments[0]);
        nonces.insert(counter, participant_nonces);
    }
    assert!(nonces.len() == (num_signers as usize));
    (signing_commitments, nonces)
}

fn get_signer_pubkeys(keypairs: &Vec<KeyPair>) -> HashMap<u32, RistrettoPoint> {
    let mut signer_pubkeys: HashMap<u32, RistrettoPoint> = HashMap::with_capacity(keypairs.len());

    for keypair in keypairs {
        signer_pubkeys.insert(keypair.index, keypair.public);
    }

    signer_pubkeys
}

/// The coefficients of a random polynomial.
fn random_polynomial(threshold: u32, rng: &mut ThreadRng) -> Vec<Scalar> {
    (0..threshold).map(|_| Scalar::random(rng)).collect()
}

/// The value of a polynomial at a participant's index.
fn share_of(coefficients: &[Scalar], index: u32) -> Scalar {
    let x = Scalar::from_u32(index);
    coefficients.iter().rev().fold(Scalar::zero(), |acc, a| acc.mul(&x).add(a))
}

/// One dealer shares a secret among all participants.
fn keygen_with_dealer(num_signers: u32, threshold: u32, rng: &mut ThreadRng) -> Vec<KeyPair> {
    let coefficients = random_polynomial(threshold, rng);
    let group_public = RistrettoPoint::mul_base(&coefficients[0]);
    (1..=num_signers)
        .map(|index| {
            let secret = share_of(&coefficients, index);
            KeyPair { index, secret, public: RistrettoPoint::mul_base(&secret), group_public }
        })
        .collect()
}

/// Every participant shares a secret of its own among all, and the shares are added up.
fn gen_keypairs_dkg_helper(num_shares: u32, threshold: u32) -> Vec<KeyPair> {
    let mut rng: ThreadRng = rand::thread_rng();
    let polynomials: Vec<Vec<Scalar>> =
        (0..num_shares).map(|_| random_polynomial(threshold, &mut rng)).collect();
    let group_public = polynomials
        .iter()
        .fold(RistrettoPoint::identity(), |acc, p| acc.add(&RistrettoPoint::mul_base(&p[0])));
    (1..=num_shares)
        .map(|index| {
            let secret =
                polynomials.iter().fold(Scalar::zero(), |acc, p| acc.add(&share_of(p, index)));
            KeyPair { index, secret, public: RistrettoPoint::mul_base(&secret), group_public }
        })
        .collect()
}

/// Lets the first participants sign, each with a copy of its nonces.
fn responses_of(
    count: u32,
    keypairs: &Vec<KeyPair>,
    signing_package: &Vec<SigningCommitment>,
    signing_nonces: &HashMap<u32, Vec<NoncePair>>,
    msg: &str,
) -> Vec<SigningResponse> {
    let mut all_responses: Vec<SigningResponse> = Vec::with_capacity(count as usize);
    for counter in 0..count {
        let mut my_signing_nonces = signing_nonces[&counter].clone();
        assert!(my_signing_nonces.len() == 1);
        let res = sign(
            &keypairs[counter as usize],
            signing_package,
            &mut my_signing_nonces,
            msg,
        )
        .unwrap();

        all_responses.push(res);
    }
    all_responses
}

#[test]
fn valid_sign_with_single_dealer() {
    let num_signers = 5;
    let threshold = 3;
    let mut rng: ThreadRng = rand::thread_rng();

    let keypairs = keygen_with_dealer(num_signers, threshold, &mut rng);

    let msg = "testing sign";
    let (signing_package, signing_nonces) = gen_signing_helper(threshold, &keypairs, &mut rng);
    let all_responses = responses_of(threshold, &keypairs, &signing_package, &signing_nonces, msg);

    let signer_pubkeys = get_signer_pubkeys(&keypairs);
    let group_sig = aggregate(msg, &signing_package, &all_responses, &signer_pubkeys).unwrap();
    let group_pubkey = keypairs[1].group_public;
    assert!(validate(msg, &group_sig, group_pubkey).is_ok());
}

#[test]
fn valid_sign_with_dkg_threshold_signers() {
    let num_signers = 5;
    let threshold = 3;
    let mut rng: ThreadRng = rand::thread_rng();

    let keypairs = gen_keypairs_dkg_helper(num_signers, threshold);

    let msg = "testing sign";
    let (signing_package, signing_nonces) = gen_signing_helper(threshold, &keypairs, &mut rng);
    let all_responses = responses_of(threshold, &keypairs, &signing_package, &signing_nonces, msg);

    let signer_pubkeys = get_signer_pubkeys(&keypairs);
    let group_sig = aggregate(msg, &signing_package, &all_responses, &signer_pubkeys).unwrap();
    let group_pubkey = keypairs[1].group_public;
    assert!(validate(msg, &group_sig, group_pubkey).is_ok());
}

#[test]
fn valid_sign_with_dkg_larger_than_threshold_signers() {
    let num_signers = 5;
    let threshold = 3;
    let mut rng: ThreadRng = rand::thread_rng();

    let keypairs = gen_keypairs_dkg_helper(num_signers, threshold);

    let msg = "testing sign";
    let number_signers = threshold + 1;
    let (signing_package, signing_nonces) = gen_signing_helper(number_signers, &keypairs, &mut rng);
    let all_responses =
        responses_of(number_signers, &keypairs, &signing_package, &signing_nonces, msg);

    let signer_pubkeys = get_signer_pubkeys(&keypairs);
    let group_sig = aggregate(msg, &signing_package, &all_responses, &signer_pubkeys).unwrap();
    let group_pubkey = keypairs[1].group_public;
    assert!(validate(msg, &group_sig, group_pubkey).is_ok());
}

#[test]
fn valid_sign_with_dkg_larger_params() {
    let num_signers = 10;
    let threshold = 6;
    let mut rng: ThreadRng = rand::thread_rng();

    let keypairs = gen_keypairs_dkg_helper(num_signers, threshold);

    let msg = "testing larger params sign";
    let (signing_package, signing_nonces) = gen_signing_helper(threshold, &keypairs, &mut rng);
    let all_responses = responses_of(threshold, &keypairs, &signing_package, &signing_nonces, msg);

    let signer_pubkeys = get_signer_pubkeys(&keypairs);
    let group_sig = aggregate(msg, &signing_package, &all_responses, &signer_pubkeys).unwrap();
    let group_pubkey = keypairs[1].group_public;
    assert!(validate(msg, &group_sig, group_pubkey).is_ok());
}

#[test]
fn invalid_sign_too_few_responses_with_dkg() {
    let num_signers = 5;
    let threshold = 3;
    let mut rng: ThreadRng = rand::thread_rng();

    let keypairs = gen_keypairs_dkg_helper(num_signers, threshold);

    let msg = "testing sign";
    let (signing_package, signing_nonces) = gen_signing_helper(threshold, &keypairs, &mut rng);
    let mut all_responses =
        responses_of(threshold - 1, &keypairs, &signing_package, &signing_nonces, msg);

    // duplicate a share
    all_responses.push(all_responses[0]);

    let signer_pubkeys = get_signer_pubkeys(&keypairs);
    let res = aggregate(msg, &signing_package, &all_responses, &signer_pubkeys);
    assert!(!res.is_ok());
}

#[test]
fn invalid_sign_invalid_response_with_dkg() {
    let num_signers = 5;
    let threshold = 3;
    let mut rng: ThreadRng = rand::thread_rng();

    let keypairs = gen_keypairs_dkg_helper(num_signers, threshold);

    let msg = "testing sign";
    let (signing_package, signing_nonces) = gen_signing_helper(threshold, &keypairs, &mut rng);
    let mut all_responses =
        responses_of(threshold, &keypairs, &signing_package, &signing_nonces, msg);

    // create a totally invalid response
    all_responses[0].response = Scalar::from_u32(42u32);

    let signer_pubkeys = get_signer_pubkeys(&keypairs);
    let res = aggregate(msg, &signing_package, &all_responses, &signer_pubkeys);
    assert!(!res.is_ok());
}

#[test]
fn invalid_sign_bad_group_public_key_with_dkg() {
    let num_signers = 5;
    let threshold = 3;
    let mut rng: ThreadRng = rand::thread_rng();

    let keypairs = gen_keypairs_dkg_helper(num_signers, threshold);

    let msg = "testing different message sign";
    let (signing_package, signing_nonces) = gen_signing_helper(threshold, &keypairs, &mut rng);
    let all_responses = responses_of(threshold, &keypairs, &signing_package, &signing_nonces, msg);

    let signer_pubkeys = get_signer_pubkeys(&keypairs);
    let group_sig = aggregate(msg, &signing_package, &all_responses, &signer_pubkeys).unwrap();
    // use one of the participant's public keys instead
    let invalid_group_pubkey = keypairs[0 as usize].public;
    assert!(!validate(msg, &group_sig, invalid_group_pubkey).is_ok());
}

#[test]
fn invalid_sign_used_nonce_with_dkg() {
    let num_signers = 5;
    let threshold = 3;
    let mut rng: ThreadRng = rand::thread_rng();

    let keypairs = gen_keypairs_dkg_helper(num_signers, threshold);

    let msg = "testing sign";
    let (signing_package, signing_nonces) = gen_signing_helper(threshold, &keypairs, &mut rng);

    let mut my_signing_nonces = signing_nonces[&0].clone();

    my_signing_nonces.remove(0);

    let res = sign(&keypairs[0], &signing_package, &mut my_signing_nonces, msg);

    assert!(!res.is_ok());
}

#[test]
fn invalid_sign_with_dealer() {
    let num_signers = 5;
    let threshold = 3;
    let mut rng: ThreadRng = rand::thread_rng();

    let keypairs = keygen_with_dealer(num_signers, threshold, &mut rng);

    let msg = "testing sign";
    let (signing_package, signing_nonces) = gen_signing_helper(threshold, &keypairs, &mut rng);

    {
        // test duplicated participants
        let all_responses =
            responses_of(threshold, &keypairs, &signing_package, &signing_nonces, msg);

        let signer_pubkeys = get_signer_pubkeys(&keypairs);
        let group_sig =
            aggregate(msg, &signing_package, &all_responses, &signer_pubkeys).unwrap();
        let invalid_group_pubkey = RistrettoPoint::identity();
        assert!(!validate(msg, &group_sig, invalid_group_pubkey).is_ok());
    }
}

#[test]
fn valid_validate_single_party() {
    let privkey = Scalar::from_u32(42u32);
    let pubkey = RistrettoPoint::mul_base(&privkey);

    let msg = "testing sign";
    let nonce = Scalar::from_u32(5u32); // random nonce
    let commitment = RistrettoPoint::mul_base(&nonce);
    let c = generate_challenge(msg, commitment);

    let z = nonce.add(&privkey.mul(&c));

    let sig = Signature { r: commitment, z: z };
    assert!(validate(msg, &sig, pubkey).is_ok());
}

#[test]
fn invalid_validate_single_party() {
    let privkey = Scalar::from_u32(42u32);
    let pubkey = RistrettoPoint::mul_base(&privkey);

    let msg = "testing sign";
    let nonce = Scalar::from_u32(5u32); // random nonce
    let commitment = RistrettoPoint::mul_base(&nonce);
    let c = generate_challenge(msg, commitment);

    let invalid_nonce = Scalar::from_u32(100u32); // random nonce
    let z = invalid_nonce.add(&privkey.mul(&c));

    let sig = Signature { r: commitment, z: z };
    assert!(!validate(msg, &sig, pubkey).is_ok());
}
