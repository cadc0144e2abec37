//! FROST threshold Schnorr signatures over the Ristretto group.

pub mod certificate;
pub mod commitment;
pub mod field;
pub mod formulas;
pub mod group;
pub mod hash;
pub mod helpers;
pub mod interpolation;
pub mod keygen;
pub mod laws;
pub mod prime;
pub mod scalar;
pub mod sign;
