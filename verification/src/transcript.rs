//! A Fiat-Shamir transcript over Keccak-256, as snarkjs derives PLONK
//! challenges: proof elements are appended big-endian, and a challenge is
//! the hash of what was appended, taken modulo the scalar-field order.

use vstd::prelude::*;
use crate::bytes::{be_bytes, be_value};
use crate::limbs::pow256;
use crate::montgomery::{modulus, reduce_limbs};
use crate::types::{g1_bytes, G1Point, U256};

verus! {

/// The Keccak-256 digest of a byte string.
pub uninterp spec fn keccak256_digest(input: Seq<u8>) -> Seq<u8>;

/// Calls `near_sdk::env::keccak256`, which hashes the bytes with Keccak-256
/// (the Ethereum variant, not SHA-3). The result is taken to be a function
/// of the input alone and to be 32 bytes long.
#[verifier::external_body]
fn keccak256(input: &[u8]) -> (r: Vec<u8>)
    ensures
        r@ == keccak256_digest(input@),
        r@.len() == 32,
{
    near_sdk::env::keccak256(input)
}

/// The field element that a hash stands for: its bytes as a big-endian
/// number, wrapped into 256 bits, modulo the scalar-field order.
pub open spec fn field_of_hash(hash: Seq<u8>) -> nat {
    (be_value(hash) % pow256()) % modulus()
}

/// The challenge that a transcript holding `state` gives.
pub open spec fn challenge_of(state: Seq<u8>) -> nat {
    field_of_hash(keccak256_digest(state))
}

/// The challenge that a transcript holding `state` gives when the hash is
/// hashed once more.
pub open spec fn double_challenge_of(state: Seq<u8>) -> nat {
    field_of_hash(keccak256_digest(keccak256_digest(state)))
}

/// Reads a hash as a field element.
pub fn hash_to_field(hash: &[u8]) -> (r: U256)
    ensures
        r@ == field_of_hash(hash@),
{
    let value = U256::from_be_bytes(hash);
    U256(reduce_limbs(&value.0))
}

/// A transcript: the bytes appended since it was made or last cleared.
#[derive(Clone, Debug)]
pub struct FiatShamirTranscript {
    state: Vec<u8>,
}

impl View for FiatShamirTranscript {
    type V = Seq<u8>;

    closed spec fn view(&self) -> Seq<u8> {
        self.state@
    }
}

impl Default for FiatShamirTranscript {
    fn default() -> (r: Self)
        ensures
            r@ == Seq::<u8>::empty(),
    {
        Self::new()
    }
}

impl FiatShamirTranscript {
    /// An empty transcript.
    pub fn new() -> (r: Self)
        ensures
            r@ == Seq::<u8>::empty(),
    {
        Self { state: Vec::with_capacity(1024) }
    }

    /// Forgets what was appended.
    pub fn reset(&mut self)
        ensures
            final(self)@ == Seq::<u8>::empty(),
    {
        self.state.clear();
    }

    /// Appends a G1 point: 64 bytes, `x` then `y`, each big-endian.
    pub fn append_g1(&mut self, point: &G1Point)
        ensures
            final(self)@ == old(self)@ + g1_bytes(*point),
    {
        let bytes = point.to_bytes();
        self.state.extend_from_slice(bytes.as_slice());
    }

    /// Appends G1 points in order.
    pub fn append_g1_vec(&mut self, points: &[G1Point])
        ensures
            final(self)@ == old(self)@ + g1_run(points@),
    {
        for i in 0..points.len()
            invariant
                self@ == old(self)@ + g1_run(points@.take(i as int)),
        {
            proof {
                assert(points@.take(i + 1).drop_last() =~= points@.take(i as int));
            }
            self.append_g1(&points[i]);
            proof {
                assert(self@ =~= old(self)@ + g1_run(points@.take(i + 1)));
            }
        }
        proof {
            assert(points@.take(points@.len() as int) =~= points@);
        }
    }

    /// Appends a scalar: 32 bytes, big-endian.
    pub fn append_scalar(&mut self, scalar: &U256)
        ensures
            final(self)@ == old(self)@ + be_bytes(scalar@, 32),
    {
        let bytes = scalar.to_be_bytes();
        self.state.extend_from_slice(bytes.as_slice());
    }

    /// Appends scalars in order.
    pub fn append_scalars(&mut self, scalars: &[U256])
        ensures
            final(self)@ == old(self)@ + scalar_run(scalars@),
    {
        for i in 0..scalars.len()
            invariant
                self@ == old(self)@ + scalar_run(scalars@.take(i as int)),
        {
            proof {
                assert(scalars@.take(i + 1).drop_last() =~= scalars@.take(i as int));
            }
            self.append_scalar(&scalars[i]);
            proof {
                assert(self@ =~= old(self)@ + scalar_run(scalars@.take(i + 1)));
            }
        }
        proof {
            assert(scalars@.take(scalars@.len() as int) =~= scalars@);
        }
    }

    /// Appends raw bytes.
    pub fn append_bytes(&mut self, bytes: &[u8])
        ensures
            final(self)@ == old(self)@ + bytes@,
    {
        self.state.extend_from_slice(bytes);
    }

    /// The challenge of what was appended. The transcript keeps its bytes.
    pub fn challenge(&self) -> (r: U256)
        ensures
            r@ == challenge_of(self@),
    {
        let hash = keccak256(self.state.as_slice());
        hash_to_field(hash.as_slice())
    }

    /// The challenge of what was appended; the transcript is then cleared.
    pub fn squeeze_challenge(&mut self) -> (r: U256)
        ensures
            r@ == challenge_of(old(self)@),
            final(self)@ == Seq::<u8>::empty(),
    {
        let challenge = self.challenge();
        self.reset();
        challenge
    }

    /// The challenge of the hash of what was appended.
    pub fn challenge_double_hash(&self) -> (r: U256)
        ensures
            r@ == double_challenge_of(self@),
    {
        let hash1 = keccak256(self.state.as_slice());
        let hash2 = keccak256(hash1.as_slice());
        hash_to_field(hash2.as_slice())
    }

    /// The number of bytes appended.
    pub fn state_len(&self) -> (r: usize)
        ensures
            r == self@.len(),
    {
        self.state.len()
    }

    /// Round 1: `beta` and `gamma` from the wire commitments. `beta` is the
    /// challenge of `a || b || c`, `gamma` that of its hash. The transcript
    /// is left holding the three points.
    pub fn round1_challenges(&mut self, a: &G1Point, b: &G1Point, c: &G1Point) -> (r: (U256, U256))
        ensures
            final(self)@ == g1_bytes(*a) + g1_bytes(*b) + g1_bytes(*c),
            r.0@ == challenge_of(final(self)@),
            r.1@ == double_challenge_of(final(self)@),
    {
        self.reset();
        self.append_g1(a);
        self.append_g1(b);
        self.append_g1(c);
        proof {
            assert(self@ =~= g1_bytes(*a) + g1_bytes(*b) + g1_bytes(*c));
        }
        let beta = self.challenge();
        let gamma = self.challenge_double_hash();
        (beta, gamma)
    }

    /// Round 2: `alpha` from the permutation commitment.
    pub fn round2_challenge(&mut self, z: &G1Point) -> (r: U256)
        ensures
            r@ == challenge_of(g1_bytes(*z)),
            final(self)@ == Seq::<u8>::empty(),
    {
        self.reset();
        self.append_g1(z);
        proof {
            assert(self@ =~= g1_bytes(*z));
        }
        self.squeeze_challenge()
    }

    /// Round 3: `zeta` from the quotient commitments.
    pub fn round3_challenge(&mut self, t1: &G1Point, t2: &G1Point, t3: &G1Point) -> (r: U256)
        ensures
            r@ == challenge_of(g1_bytes(*t1) + g1_bytes(*t2) + g1_bytes(*t3)),
            final(self)@ == Seq::<u8>::empty(),
    {
        self.reset();
        self.append_g1(t1);
        self.append_g1(t2);
        self.append_g1(t3);
        proof {
            assert(self@ =~= g1_bytes(*t1) + g1_bytes(*t2) + g1_bytes(*t3));
        }
        self.squeeze_challenge()
    }

    /// Round 4: `v` from the six polynomial evaluations.
    pub fn round4_challenge(
        &mut self,
        a_eval: &U256,
        b_eval: &U256,
        c_eval: &U256,
        s1_eval: &U256,
        s2_eval: &U256,
        z_shifted_eval: &U256,
    ) -> (r: U256)
        ensures
            r@ == challenge_of(
                scalar_run(seq![*a_eval, *b_eval, *c_eval, *s1_eval, *s2_eval, *z_shifted_eval]),
            ),
            final(self)@ == Seq::<u8>::empty(),
    {
        self.reset();
        self.append_scalar(a_eval);
        self.append_scalar(b_eval);
        self.append_scalar(c_eval);
        self.append_scalar(s1_eval);
        self.append_scalar(s2_eval);
        self.append_scalar(z_shifted_eval);
        proof {
            let all = seq![*a_eval, *b_eval, *c_eval, *s1_eval, *s2_eval, *z_shifted_eval];
            reveal_with_fuel(scalar_run, 7);
            assert(all.drop_last() =~= seq![*a_eval, *b_eval, *c_eval, *s1_eval, *s2_eval]);
            assert(all.drop_last().drop_last() =~= seq![*a_eval, *b_eval, *c_eval, *s1_eval]);
            assert(all.drop_last().drop_last().drop_last() =~= seq![*a_eval, *b_eval, *c_eval]);
            assert(all.drop_last().drop_last().drop_last().drop_last() =~= seq![*a_eval, *b_eval]);
            assert(all.drop_last().drop_last().drop_last().drop_last().drop_last() =~= seq![
                *a_eval,
            ]);
            assert(self@ =~= scalar_run(all));
        }
        self.squeeze_challenge()
    }

    /// Round 5: `u` from the opening proofs.
    pub fn round5_challenge(&mut self, w_xi: &G1Point, w_xi_omega: &G1Point) -> (r: U256)
        ensures
            r@ == challenge_of(g1_bytes(*w_xi) + g1_bytes(*w_xi_omega)),
            final(self)@ == Seq::<u8>::empty(),
    {
        self.reset();
        self.append_g1(w_xi);
        self.append_g1(w_xi_omega);
        proof {
            assert(self@ =~= g1_bytes(*w_xi) + g1_bytes(*w_xi_omega));
        }
        self.squeeze_challenge()
    }
}

/// The writings of a run of G1 points, joined in order.
pub open spec fn g1_run(points: Seq<G1Point>) -> Seq<u8>
    decreases points.len(),
{
    if points.len() == 0 {
        Seq::<u8>::empty()
    } else {
        g1_run(points.drop_last()) + g1_bytes(points.last())
    }
}

/// The 32-byte big-endian writings of a run of scalars, joined in order.
pub open spec fn scalar_run(scalars: Seq<U256>) -> Seq<u8>
    decreases scalars.len(),
{
    if scalars.len() == 0 {
        Seq::<u8>::empty()
    } else {
        scalar_run(scalars.drop_last()) + be_bytes(scalars.last()@, 32)
    }
}

/// The six challenges of a PLONK verification.
#[derive(Clone, Debug)]
pub struct PlonkChallenges {
    pub beta: U256,
    pub gamma: U256,
    pub alpha: U256,
    pub zeta: U256,
    pub v: U256,
    pub u: U256,
}

impl PlonkChallenges {
    /// Derives all six challenges from the parts of a proof: wire
    /// commitments `a, b, c`, permutation commitment `z`, quotient
    /// commitments `t1, t2, t3`, the six evaluations and the two opening
    /// proofs. Each round hashes its own elements alone.
    pub fn derive(
        a: &G1Point,
        b: &G1Point,
        c: &G1Point,
        z: &G1Point,
        t1: &G1Point,
        t2: &G1Point,
        t3: &G1Point,
        evaluations: &[U256; 6],
        w_xi: &G1Point,
        w_xi_omega: &G1Point,
    ) -> (r: Self)
        ensures
            r.beta@ == challenge_of(g1_bytes(*a) + g1_bytes(*b) + g1_bytes(*c)),
            r.gamma@ == double_challenge_of(g1_bytes(*a) + g1_bytes(*b) + g1_bytes(*c)),
            r.alpha@ == challenge_of(g1_bytes(*z)),
            r.zeta@ == challenge_of(g1_bytes(*t1) + g1_bytes(*t2) + g1_bytes(*t3)),
            r.v@ == challenge_of(scalar_run(evaluations@)),
            r.u@ == challenge_of(g1_bytes(*w_xi) + g1_bytes(*w_xi_omega)),
    {
        let mut transcript = FiatShamirTranscript::new();
        let (beta, gamma) = transcript.round1_challenges(a, b, c);
        let alpha = transcript.round2_challenge(z);
        let zeta = transcript.round3_challenge(t1, t2, t3);
        let v = transcript.round4_challenge(
            &evaluations[0],
            &evaluations[1],
            &evaluations[2],
            &evaluations[3],
            &evaluations[4],
            &evaluations[5],
        );
        let u = transcript.round5_challenge(w_xi, w_xi_omega);
        proof {
            assert(evaluations@ =~= seq![
                evaluations[0],
                evaluations[1],
                evaluations[2],
                evaluations[3],
                evaluations[4],
                evaluations[5],
            ]);
        }
        Self { beta, gamma, alpha, zeta, v, u }
    }
}

/// A transcript that only gathers bytes and hashes them on request.
#[derive(Clone, Debug)]
pub struct SimpleTranscript {
    data: Vec<u8>,
}

impl View for SimpleTranscript {
    type V = Seq<u8>;

    closed spec fn view(&self) -> Seq<u8> {
        self.data@
    }
}

impl Default for SimpleTranscript {
    fn default() -> (r: Self)
        ensures
            r@ == Seq::<u8>::empty(),
    {
        Self::new()
    }
}

impl SimpleTranscript {
    /// An empty transcript.
    pub fn new() -> (r: Self)
        ensures
            r@ == Seq::<u8>::empty(),
    {
        Self { data: Vec::new() }
    }

    /// Appends raw bytes.
    pub fn append(&mut self, bytes: &[u8])
        ensures
            final(self)@ == old(self)@ + bytes@,
    {
        self.data.extend_from_slice(bytes);
    }

    /// Appends a G1 point: 64 bytes, `x` then `y`, each big-endian.
    pub fn append_g1(&mut self, p: &G1Point)
        ensures
            final(self)@ == old(self)@ + g1_bytes(*p),
    {
        let bytes = p.to_bytes();
        self.data.extend_from_slice(bytes.as_slice());
    }

    /// Appends a scalar: 32 bytes, big-endian.
    pub fn append_scalar(&mut self, s: &U256)
        ensures
            final(self)@ == old(self)@ + be_bytes(s@, 32),
    {
        let bytes = s.to_be_bytes();
        self.data.extend_from_slice(bytes.as_slice());
    }

    /// The Keccak-256 digest of what was appended.
    pub fn hash(&self) -> (r: [u8; 32])
        ensures
            r@ == keccak256_digest(self@),
    {
        let digest = keccak256(self.data.as_slice());
        let mut r: [u8; 32] = [0u8; 32];
        for i in 0..32usize
            invariant
                digest@.len() == 32,
                forall|j: int| 0 <= j < i ==> r[j] == digest@[j],
        {
            r[i] = digest[i];
        }
        proof {
            assert(r@ =~= digest@);
        }
        r
    }

    /// The challenge of what was appended.
    pub fn challenge(&self) -> (r: U256)
        ensures
            r@ == challenge_of(self@),
    {
        let digest = self.hash();
        hash_to_field(digest.as_slice())
    }

    /// Forgets what was appended.
    pub fn clear(&mut self)
        ensures
            final(self)@ == Seq::<u8>::empty(),
    {
        self.data.clear();
    }

    /// The bytes appended so far.
    pub fn state(&self) -> (r: &[u8])
        ensures
            r@ == self@,
    {
        self.data.as_slice()
    }
}

} // verus!
