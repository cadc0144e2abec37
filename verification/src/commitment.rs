//! The first round: nonces, which a participant keeps, and the commitments to them, which the
//! participant publishes.
use rand::rngs::ThreadRng;
use vstd::prelude::*;

use crate::group::RistrettoPoint;
use crate::scalar;
use crate::scalar::Scalar;

verus! {

/// The commitment of the participant `index` to a pair of nonces.
#[derive(Clone, Copy)]
pub struct SigningCommitment {
    index: u32,
    d: RistrettoPoint,
    e: RistrettoPoint,
}

impl SigningCommitment {
    pub closed spec fn index_spec(&self) -> u32 {
        self.index
    }

    pub closed spec fn d_spec(&self) -> RistrettoPoint {
        self.d
    }

    pub closed spec fn e_spec(&self) -> RistrettoPoint {
        self.e
    }

    /// The parts of a commitment are group elements, and neither is the identity of the group.
    #[verifier::type_invariant]
    pub open spec fn wf(self) -> bool {
        self.d().wf() && self.e().wf() && self.d()@ != 0 && self.e()@ != 0
    }

    /// Commitments with the same parts are the same.
    pub proof fn lemma_same(self, other: SigningCommitment)
        requires
            self.index() == other.index(),
            self.d() == other.d(),
            self.e() == other.e(),
        ensures
            self == other,
    {
    }

    /// Makes a commitment of two points, neither of which may be the identity of the group.
    pub fn new(index: u32, d: RistrettoPoint, e: RistrettoPoint) -> (r: Result<
        SigningCommitment,
        &'static str,
    >)
        ensures
            r is Ok <==> d@ != 0 && e@ != 0,
            r matches Ok(c) ==> c.wf() && c.index() == index && c.d() == d && c.e() == e,
            r matches Err(m) ==> m@ == "Invalid signing commitment"@,
    {
        if d == RistrettoPoint::identity() || e == RistrettoPoint::identity() {
            return Err("Invalid signing commitment");
        }
        proof {
            use_type_invariant(&d);
            use_type_invariant(&e);
        }
        Ok(SigningCommitment { d, e, index })
    }

    /// The participant whose commitment it is.
    #[verifier::when_used_as_spec(index_spec)]
    pub fn index(&self) -> (r: u32)
        ensures
            r == self.index(),
    {
        self.index
    }

    /// The commitment to the hiding nonce.
    #[verifier::when_used_as_spec(d_spec)]
    pub fn d(&self) -> (r: RistrettoPoint)
        ensures
            r == self.d(),
    {
        self.d
    }

    /// The commitment to the binding nonce.
    #[verifier::when_used_as_spec(e_spec)]
    pub fn e(&self) -> (r: RistrettoPoint)
        ensures
            r == self.e(),
    {
        self.e
    }
}

/// A secret scalar and its public point.
#[derive(Clone, Copy)]
pub struct Nonce {
    secret: Scalar,
    public: RistrettoPoint,
}

impl Nonce {
    pub closed spec fn secret_spec(&self) -> Scalar {
        self.secret
    }

    pub closed spec fn public_spec(&self) -> RistrettoPoint {
        self.public
    }

    /// The public point is the multiple of the basepoint by the secret, and not the identity.
    #[verifier::type_invariant]
    pub open spec fn wf(self) -> bool {
        self.public().wf() && self.public()@ == self.secret()@ && self.public()@ != 0
    }

    /// The secret of the nonce.
    #[verifier::when_used_as_spec(secret_spec)]
    pub fn secret(&self) -> (r: Scalar)
        ensures
            r == self.secret(),
    {
        self.secret
    }

    /// The public point of the nonce.
    #[verifier::when_used_as_spec(public_spec)]
    pub fn public(&self) -> (r: RistrettoPoint)
        ensures
            r == self.public(),
    {
        self.public
    }
}

/// The hiding and the binding nonce of one signing operation.
#[derive(Clone, Copy)]
pub struct NoncePair {
    d: Nonce,
    e: Nonce,
}

impl NoncePair {
    pub closed spec fn d_spec(&self) -> Nonce {
        self.d
    }

    pub closed spec fn e_spec(&self) -> Nonce {
        self.e
    }

    /// Both nonces are well formed.
    #[verifier::type_invariant]
    pub open spec fn wf(self) -> bool {
        self.d().wf() && self.e().wf()
    }

    /// Pairs of nonces with the same secrets are the same.
    pub proof fn lemma_same(self, other: NoncePair)
        requires
            self.wf(),
            other.wf(),
            self.d().secret() == other.d().secret(),
            self.e().secret() == other.e().secret(),
        ensures
            self == other,
    {
        self.d.public.lemma_same(other.d.public);
        self.e.public.lemma_same(other.e.public);
    }

    /// Draws a pair of nonces at random.
    ///
    /// The secrets are the outcomes of two draws, one after the other. Which outcomes they are is
    /// left to chance, and so is whether one of them is zero, which is refused.
    pub fn new(rng: &mut ThreadRng) -> (r: Result<NoncePair, &'static str>)
        ensures
            r matches Ok(n) ==> n.wf(),
            r matches Err(m) ==> m@ == "Invalid nonce commitment"@,
            drawn_nonces(*old(rng), r, *final(rng)),
    {
        let ghost before = *rng;
        let d = Scalar::random(rng);
        let ghost between = *rng;
        let e = Scalar::random(rng);
        assert(scalar::is_draw(before, d, between) && scalar::is_draw(between, e, *rng));
        NoncePair::from_secrets(d, e)
    }

    /// Makes a pair of nonces of two secrets, neither of which may be zero.
    pub fn from_secrets(d: Scalar, e: Scalar) -> (r: Result<NoncePair, &'static str>)
        ensures
            r is Ok <==> d@ != 0 && e@ != 0,
            r matches Ok(n) ==> n.wf() && n.d().secret() == d && n.e().secret() == e,
            r matches Ok(n) ==> n.d().public()@ == d@ && n.e().public()@ == e@,
            r matches Err(m) ==> m@ == "Invalid nonce commitment"@,
    {
        let d_pub = RistrettoPoint::mul_base(&d);
        let e_pub = RistrettoPoint::mul_base(&e);
        if d_pub == RistrettoPoint::identity() || e_pub == RistrettoPoint::identity() {
            return Err("Invalid nonce commitment");
        }
        proof {
            use_type_invariant(&d_pub);
            use_type_invariant(&e_pub);
        }
        Ok(NoncePair { d: Nonce { secret: d, public: d_pub }, e: Nonce { secret: e, public: e_pub } })
    }

    /// The hiding nonce.
    #[verifier::when_used_as_spec(d_spec)]
    pub fn d(&self) -> (r: Nonce)
        ensures
            r == self.d(),
    {
        self.d
    }

    /// The binding nonce.
    #[verifier::when_used_as_spec(e_spec)]
    pub fn e(&self) -> (r: Nonce)
        ensures
            r == self.e(),
    {
        self.e
    }
}

/// What is made of two draws, the second from the generator that the first leaves: a pair of nonces
/// with these secrets, or nothing where one of them is zero.
pub open spec fn drawn_nonces(
    before: ThreadRng,
    r: Result<NoncePair, &'static str>,
    after: ThreadRng,
) -> bool {
    exists|d: Scalar, between: ThreadRng, e: Scalar|
        #![trigger scalar::is_draw(before, d, between), scalar::is_draw(between, e, after)]
        {
            &&& scalar::is_draw(before, d, between)
            &&& scalar::is_draw(between, e, after)
            &&& r is Ok <==> d@ != 0 && e@ != 0
            &&& r matches Ok(n) ==> n.d().secret() == d && n.e().secret() == e
        }
}

/// Whether a commitment is the one of the participant `index` to a pair of nonces.
pub open spec fn commits_to(commitment: SigningCommitment, index: u32, nonces: NoncePair) -> bool {
    &&& commitment.index() == index
    &&& commitment.d() == nonces.d().public()
    &&& commitment.e() == nonces.e().public()
}

/// Whether commitments are those of the participant `index` to pairs of nonces, each to the pair in
/// the same place.
pub open spec fn all_commit_to(
    commitments: Seq<SigningCommitment>,
    index: u32,
    nonces: Seq<NoncePair>,
) -> bool {
    &&& commitments.len() == nonces.len()
    &&& forall|i: int|
        0 <= i < commitments.len() ==> commits_to(#[trigger] commitments[i], index, nonces[i])
}

/// Makes the commitments of a participant to pairs of nonces that were drawn before, one to each.
///
/// The points of a nonce are not the identity of the group, so every commitment can be made.
pub fn commit(participant_index: u32, nonces: &Vec<NoncePair>) -> (r: Result<
    Vec<SigningCommitment>,
    &'static str,
>)
    ensures
        r is Ok,
        all_commit_to(r->Ok_0@, participant_index, nonces@),
        forall|i: int| 0 <= i < nonces@.len() ==> (#[trigger] r->Ok_0@[i]).wf(),
{
    let mut commitments: Vec<SigningCommitment> = Vec::new();
    let mut i: usize = 0;
    while i < nonces.len()
        invariant
            i <= nonces.len(),
            all_commit_to(commitments@, participant_index, nonces@.take(i as int)),
            forall|j: int| 0 <= j < i ==> (#[trigger] commitments@[j]).wf(),
        decreases nonces.len() - i,
    {
        let nonce_pair = nonces[i];
        proof {
            use_type_invariant(&nonce_pair);
        }
        let commitment = match SigningCommitment::new(
            participant_index,
            nonce_pair.d.public,
            nonce_pair.e.public,
        ) {
            Ok(commitment) => commitment,
            Err(m) => return Err(m),
        };
        commitments.push(commitment);
        i += 1;
    }
    assert(nonces@.take(i as int) =~= nonces@);
    Ok(commitments)
}

/// Whether no secret of a list of pairs of secrets is zero.
pub open spec fn all_nonzero(secrets: Seq<(Scalar, Scalar)>) -> bool {
    forall|i: int|
        0 <= i < secrets.len() ==> (#[trigger] secrets[i]).0@ != 0 && secrets[i].1@ != 0
}

/// Whether pairs of nonces are made of pairs of secrets, each of the pair in the same place.
pub open spec fn made_of(nonces: Seq<NoncePair>, secrets: Seq<(Scalar, Scalar)>) -> bool {
    &&& nonces.len() == secrets.len()
    &&& forall|i: int|
        0 <= i < nonces.len() ==> {
            &&& (#[trigger] nonces[i]).wf()
            &&& nonces[i].d().secret() == secrets[i].0
            &&& nonces[i].e().secret() == secrets[i].1
        }
}

/// What preprocessing makes of the secrets that were drawn for it.
///
/// It fails exactly where one of them is zero. Otherwise each pair of nonces is made of the pair of
/// secrets in the same place, and each commitment is the one to the pair of nonces in the same
/// place.
pub open spec fn preprocessed(
    participant_index: u32,
    secrets: Seq<(Scalar, Scalar)>,
    r: Result<(Vec<SigningCommitment>, Vec<NoncePair>), &'static str>,
) -> bool {
    &&& r is Ok <==> all_nonzero(secrets)
    &&& r matches Ok((commitments, nonces)) ==> {
        &&& made_of(nonces@, secrets)
        &&& all_commit_to(commitments@, participant_index, nonces@)
        &&& forall|i: int| 0 <= i < commitments@.len() ==> (#[trigger] commitments@[i]).wf()
    }
    &&& r matches Err(m) ==> m@ == "Invalid nonce commitment"@
}

/// Makes the nonces and the commitments of a participant of secrets that were drawn before.
pub fn preprocess_from_secrets(participant_index: u32, secrets: &Vec<(Scalar, Scalar)>) -> (r:
    Result<(Vec<SigningCommitment>, Vec<NoncePair>), &'static str>)
    ensures
        preprocessed(participant_index, secrets@, r),
{
    let mut nonces: Vec<NoncePair> = Vec::new();
    let mut i: usize = 0;
    while i < secrets.len()
        invariant
            i <= secrets.len(),
            all_nonzero(secrets@.take(i as int)),
            made_of(nonces@, secrets@.take(i as int)),
        decreases secrets.len() - i,
    {
        let (d, e) = secrets[i];
        match NoncePair::from_secrets(d, e) {
            Ok(nonce_pair) => nonces.push(nonce_pair),
            Err(m) => return Err(m),
        }
        i += 1;
    }
    assert(secrets@.take(i as int) =~= secrets@);
    let commitments = match commit(participant_index, &nonces) {
        Ok(commitments) => commitments,
        Err(m) => return Err(m),
    };
    Ok((commitments, nonces))
}

/// Whether a list of pairs of secrets is what was drawn while a generator went through `states`:
/// each draw from the state that the draw before left.
pub open spec fn drawn_along(states: Seq<ThreadRng>, secrets: Seq<(Scalar, Scalar)>) -> bool {
    &&& states.len() == 2 * secrets.len() + 1
    &&& forall|k: int|
        0 <= k < secrets.len() ==> {
            &&& scalar::is_draw(states[2 * k], (#[trigger] secrets[k]).0, states[2 * k + 1])
            &&& scalar::is_draw(states[2 * k + 1], secrets[k].1, states[2 * k + 2])
        }
}

/// Whether a list of pairs of secrets is drawn for `number` pairs of nonces, by draws that take the
/// generator from `before` to `after`: as many as asked for, but none after a pair with a zero.
pub open spec fn drawn_secrets(
    number: nat,
    before: ThreadRng,
    secrets: Seq<(Scalar, Scalar)>,
    after: ThreadRng,
) -> bool {
    &&& secrets.len() <= number
    &&& secrets.len() < number ==> !all_nonzero(secrets)
    &&& secrets.len() > 0 ==> all_nonzero(secrets.drop_last())
    &&& exists|states: Seq<ThreadRng>| #[trigger]
        drawn_along(states, secrets) && states[0] == before && states.last() == after
}

/// What preprocessing does with a generator: it draws, and makes the nonces and the commitments of
/// what it drew.
pub open spec fn preprocessed_from(
    number: nat,
    participant_index: u32,
    before: ThreadRng,
    r: Result<(Vec<SigningCommitment>, Vec<NoncePair>), &'static str>,
    after: ThreadRng,
) -> bool {
    exists|secrets: Seq<(Scalar, Scalar)>| #[trigger]
        drawn_secrets(number, before, secrets, after) && preprocessed(participant_index, secrets, r)
}

/// Draws pairs of secrets at random, as many as asked for, but none after a pair with a zero.
fn draw_secrets(number: usize, rng: &mut ThreadRng) -> (r: Vec<(Scalar, Scalar)>)
    ensures
        r@.len() <= number,
        r@.len() < number ==> !all_nonzero(r@),
        r@.len() > 0 ==> all_nonzero(r@.drop_last()),
        drawn_secrets(number as nat, *old(rng), r@, *final(rng)),
{
    let mut secrets: Vec<(Scalar, Scalar)> = Vec::new();
    let ghost first = *rng;
    let ghost mut states: Seq<ThreadRng> = seq![*rng];
    let mut met_zero = false;
    while !met_zero && secrets.len() < number
        invariant
            secrets@.len() <= number,
            met_zero == !all_nonzero(secrets@),
            secrets@.len() > 0 ==> all_nonzero(secrets@.drop_last()),
            drawn_along(states, secrets@),
            states[0] == first,
            states.last() == *rng,
        decreases number - secrets.len(),
    {
        let ghost before = secrets@;
        let ghost states_before = states;
        let d = Scalar::random(rng);
        let ghost between = *rng;
        let e = Scalar::random(rng);
        secrets.push((d, e));
        proof {
            states = states.push(between).push(*rng);
            assert(secrets@.drop_last() =~= before);
            assert forall|k: int| 0 <= k < secrets@.len() implies {
                &&& scalar::is_draw(states[2 * k], (#[trigger] secrets@[k]).0, states[2 * k + 1])
                &&& scalar::is_draw(states[2 * k + 1], secrets@[k].1, states[2 * k + 2])
            } by {
                if k < before.len() {
                    assert(secrets@[k] == before[k]);
                    assert(states[2 * k] == states_before[2 * k]);
                    assert(states[2 * k + 1] == states_before[2 * k + 1]);
                    assert(states[2 * k + 2] == states_before[2 * k + 2]);
                } else {
                    assert(secrets@[k] == (d, e));
                    assert(states[2 * k] == states_before.last());
                }
            }
        }
        met_zero = d == Scalar::zero() || e == Scalar::zero();
        assert(secrets@[before.len() as int] == (d, e));
        assert(met_zero == !all_nonzero(secrets@)) by {
            assert forall|k: int| 0 <= k < before.len() implies secrets@[k] == before[k] by {}
        }
    }
    secrets
}

/// preprocess is performed by each participant; their commitments are published
/// and stored in an external location for later use in signing, while their
/// signing nonces are stored locally.
///
/// The secrets of the nonces are the outcomes of draws from the generator, each used once and in
/// the order of the draws. Which outcomes they are is left to chance; `preprocess_from_secrets` says
/// what is made of them.
pub fn preprocess(
    number_commitments: usize,
    participant_index: u32,
    rng: &mut ThreadRng,
) -> (r: Result<(Vec<SigningCommitment>, Vec<NoncePair>), &'static str>)
    ensures
        number_commitments == 0 ==> r is Ok,
        r matches Ok((commitments, nonces)) ==> {
            &&& nonces@.len() == number_commitments
            &&& all_commit_to(commitments@, participant_index, nonces@)
            &&& forall|i: int| 0 <= i < number_commitments ==> (#[trigger] nonces@[i]).wf()
            &&& forall|i: int| 0 <= i < number_commitments ==> (#[trigger] commitments@[i]).wf()
        },
        r matches Err(m) ==> m@ == "Invalid nonce commitment"@,
        preprocessed_from(number_commitments as nat, participant_index, *old(rng), r, *final(rng)),
{
    let secrets = draw_secrets(number_commitments, rng);
    preprocess_from_secrets(participant_index, &secrets)
}

} // verus!
