//! The keys that signers hold.
use vstd::prelude::*;

use crate::group::RistrettoPoint;
use crate::scalar::Scalar;

verus! {

/// What a participant holds after key generation: the share of the group's secret key that
/// belongs to the participant's index, the public key of that share, and the group's public key.
#[derive(Clone, Copy)]
pub struct KeyPair {
    pub index: u32,
    pub secret: Scalar,
    pub public: RistrettoPoint,
    pub group_public: RistrettoPoint,
}

} // verus!
