# frost

FROST threshold Schnorr signatures over the Ristretto group, verified with Verus.

A group of participants holds shares of a secret key. To sign, each selected participant draws
nonces and publishes the commitments to them (`preprocess`), then answers with a response (`sign`).
An aggregator checks the responses and adds them up to one signature (`aggregate`), which anyone
can check against the group's public key (`validate`).

## Layout

- `src/scalar.rs`, `src/group.rs`, `src/hash.rs`: scalars, group elements and the hash, each a thin
  layer over `curve25519-dalek` and `sha2`. These hold all the contracts that are taken on trust.
- `src/field.rs`: arithmetic modulo the group order; `src/prime.rs` and `src/certificate.rs` prove
  that order prime.
- `src/helpers.rs`, `src/interpolation.rs`: Lagrange coefficients, and why they recover a secret.
- `src/commitment.rs`, `src/sign.rs`, `src/keygen.rs`: the protocol.
- `src/laws.rs`: what the steps of the protocol promise together; `law_threshold_signing` is the
  one from shares to a valid signature.
- `app/`: a command-line program that signs with key shares on disk.
