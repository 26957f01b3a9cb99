use vstd::prelude::*;
use crate::group::{hash_to_scalar, point_add, point_mul, is_scalar_inverse, scalar_add, zero_bytes, Point, Scalar};
use crate::messages::{
    copy_points, same_share, AggregatedProof, DealerError, GeneratorsView, InnerProductInput, PolyChallenge,
    PolyCommitment, ProofShare, ProofShareVerifier, ValueChallenge, ValueCommitment,
};
use crate::transcript::{u64_le, ProofTranscript};

verus! {

pub open spec fn is_power_of_two(x: nat) -> bool
    decreases x,
{
    if x == 0 {
        false
    } else if x == 1 {
        true
    } else {
        x % 2 == 0 && is_power_of_two(x / 2)
    }
}

/// Bit widths that a range proof supports.
pub open spec fn valid_bit_width(n: nat) -> bool {
    is_power_of_two(n) && n <= 64
}

/// The sequences of `s`, one after another.
pub open spec fn concat<A>(s: Seq<Seq<A>>) -> Seq<A>
    decreases s.len(),
{
    if s.len() == 0 {
        Seq::empty()
    } else {
        concat(s.drop_last()) + s.last()
    }
}

/// The group sum of encoded points, added in order from the identity.
pub open spec fn point_sum(s: Seq<Seq<u8>>) -> Seq<u8>
    decreases s.len(),
{
    if s.len() == 0 {
        zero_bytes()
    } else {
        point_add(point_sum(s.drop_last()), s.last())
    }
}

pub open spec fn v_encodings(s: Seq<ValueCommitment>) -> Seq<Seq<u8>> {
    s.map_values(|c: ValueCommitment| c.V.encoding())
}

pub open spec fn a_encodings(s: Seq<ValueCommitment>) -> Seq<Seq<u8>> {
    s.map_values(|c: ValueCommitment| c.A.encoding())
}

pub open spec fn s_encodings(s: Seq<ValueCommitment>) -> Seq<Seq<u8>> {
    s.map_values(|c: ValueCommitment| c.S.encoding())
}

pub open spec fn t1_encodings(s: Seq<PolyCommitment>) -> Seq<Seq<u8>> {
    s.map_values(|c: PolyCommitment| c.T_1.encoding())
}

pub open spec fn t2_encodings(s: Seq<PolyCommitment>) -> Seq<Seq<u8>> {
    s.map_values(|c: PolyCommitment| c.T_2.encoding())
}

/// The log once the value commitments are bound: each `V` in order, then the sums
/// of the `A`s and of the `S`s.
pub open spec fn value_round_log(log: Seq<u8>, s: Seq<ValueCommitment>) -> Seq<u8> {
    log + concat(v_encodings(s)) + point_sum(a_encodings(s)) + point_sum(s_encodings(s))
}

/// The log once the polynomial commitments are bound: the sums of the `T_1`s and `T_2`s.
pub open spec fn poly_round_log(log: Seq<u8>, s: Seq<PolyCommitment>) -> Seq<u8> {
    log + point_sum(t1_encodings(s)) + point_sum(t2_encodings(s))
}

/// The field sum of encoded scalars, added in order from zero.
pub open spec fn scalar_sum(s: Seq<Seq<u8>>) -> Seq<u8>
    decreases s.len(),
{
    if s.len() == 0 {
        zero_bytes()
    } else {
        scalar_add(scalar_sum(s.drop_last()), s.last())
    }
}

pub open spec fn share_values(s: Seq<ProofShare>) -> Seq<Point> {
    s.map_values(|p: ProofShare| p.value_commitment.V)
}

pub open spec fn share_a(s: Seq<ProofShare>) -> Seq<Seq<u8>> {
    s.map_values(|p: ProofShare| p.value_commitment.A.encoding())
}

pub open spec fn share_s(s: Seq<ProofShare>) -> Seq<Seq<u8>> {
    s.map_values(|p: ProofShare| p.value_commitment.S.encoding())
}

pub open spec fn share_t1(s: Seq<ProofShare>) -> Seq<Seq<u8>> {
    s.map_values(|p: ProofShare| p.poly_commitment.T_1.encoding())
}

pub open spec fn share_t2(s: Seq<ProofShare>) -> Seq<Seq<u8>> {
    s.map_values(|p: ProofShare| p.poly_commitment.T_2.encoding())
}

pub open spec fn share_t_x(s: Seq<ProofShare>) -> Seq<Seq<u8>> {
    s.map_values(|p: ProofShare| p.t_x.bytes@)
}

pub open spec fn share_t_x_blinding(s: Seq<ProofShare>) -> Seq<Seq<u8>> {
    s.map_values(|p: ProofShare| p.t_x_blinding.bytes@)
}

pub open spec fn share_e_blinding(s: Seq<ProofShare>) -> Seq<Seq<u8>> {
    s.map_values(|p: ProofShare| p.e_blinding.bytes@)
}

pub open spec fn share_l(s: Seq<ProofShare>) -> Seq<Seq<Scalar>> {
    s.map_values(|p: ProofShare| p.l_vec@)
}

pub open spec fn share_r(s: Seq<ProofShare>) -> Seq<Seq<Scalar>> {
    s.map_values(|p: ProofShare| p.r_vec@)
}

/// `v` is the record that lets party `j`'s share `s` be checked on its own.
pub open spec fn verifier_of(
    v: ProofShareVerifier,
    s: ProofShare,
    j: int,
    n: usize,
    vc: ValueChallenge,
    pc: PolyChallenge,
) -> bool {
    &&& same_share(v.proof_share, s)
    &&& v.j == j
    &&& v.n == n
    &&& v.value_challenge == vc
    &&& v.poly_challenge == pc
}

/// Appends the scalars of `v` to `out`.
fn append_scalars(out: &mut Vec<Scalar>, v: &Vec<Scalar>)
    ensures
        final(out)@ == old(out)@ + v@,
{
    let mut i: usize = 0;
    while i < v.len()
        invariant
            i <= v@.len(),
            out@ == old(out)@ + v@.subrange(0, i as int),
        decreases v@.len() - i,
    {
        out.push(v[i]);
        i = i + 1;
        assert(out@ =~= old(out)@ + v@.subrange(0, i as int));
    }
    assert(v@.subrange(0, v@.len() as int) =~= v@);
}

/// The pipeline is deterministic: from equal logs and equal inputs in equal order,
/// every round binds the same bytes and so derives the same challenges.
pub proof fn lemma_rounds_deterministic(
    log1: Seq<u8>,
    log2: Seq<u8>,
    v1: Seq<ValueCommitment>,
    v2: Seq<ValueCommitment>,
    p1: Seq<PolyCommitment>,
    p2: Seq<PolyCommitment>,
)
    requires
        log1 == log2,
        v1 == v2,
        p1 == p2,
    ensures
        hash_to_scalar(value_round_log(log1, v1)) == hash_to_scalar(value_round_log(log2, v2)),
        poly_round_log(value_round_log(log1, v1), p1) == poly_round_log(
            value_round_log(log2, v2),
            p2,
        ),
{
}

fn power_of_two(x: usize) -> (r: bool)
    ensures
        r == is_power_of_two(x as nat),
{
    let mut y: usize = x;
    while y > 1 && y % 2 == 0
        invariant
            is_power_of_two(y as nat) == is_power_of_two(x as nat),
        decreases y,
    {
        y = y / 2;
    }
    y == 1
}

/// The entry point of the dealer.
pub struct Dealer {}

/// The dealer before any commitment is in: it knows the sizes only.
pub struct DealerAwaitingValueCommitments {
    n: usize,
    m: usize,
    transcript: ProofTranscript,
}

/// The dealer after the value challenge.
pub struct DealerAwaitingPolyCommitments {
    n: usize,
    m: usize,
    transcript: ProofTranscript,
    value_challenge: ValueChallenge,
}

/// The dealer after the polynomial challenge.
pub struct DealerAwaitingProofShares {
    n: usize,
    m: usize,
    transcript: ProofTranscript,
    value_challenge: ValueChallenge,
    poly_challenge: PolyChallenge,
}

impl Dealer {
    /// Starts a dealer for `m` parties that prove `n`-bit ranges, binding `n` and `m`
    /// to the transcript.
    pub fn new(n: usize, m: usize, transcript: ProofTranscript) -> (r: Result<
        DealerAwaitingValueCommitments,
        DealerError,
    >)
        ensures
            !valid_bit_width(n as nat) ==> r == Err::<DealerAwaitingValueCommitments, _>(
                DealerError::InvalidBitWidth,
            ),
            valid_bit_width(n as nat) && !is_power_of_two(m as nat) ==> r == Err::<
                DealerAwaitingValueCommitments,
                _,
            >(DealerError::InvalidPartyCount),
            valid_bit_width(n as nat) && is_power_of_two(m as nat) ==> (r matches Ok(d) && d.n()
                == n && d.m() == m && d.log() == transcript@ + u64_le(n as u64) + u64_le(
                m as u64,
            )),
    {
        if !power_of_two(n) || n > 64 {
            return Err(DealerError::InvalidBitWidth);
        }
        if !power_of_two(m) {
            return Err(DealerError::InvalidPartyCount);
        }
        let mut transcript = transcript;
        transcript.commit_u64(n as u64);
        transcript.commit_u64(m as u64);
        Ok(DealerAwaitingValueCommitments { n, m, transcript })
    }
}

impl DealerAwaitingValueCommitments {
    pub closed spec fn n(self) -> usize {
        self.n
    }

    pub closed spec fn m(self) -> usize {
        self.m
    }

    pub closed spec fn log(self) -> Seq<u8> {
        self.transcript@
    }

    /// The transcript as it stands before the value commitments.
    pub fn transcript(&self) -> (r: &ProofTranscript)
        ensures
            r@ == self.log(),
    {
        &self.transcript
    }

    /// Binds every `V` in order and the sums of the `A`s and `S`s, then derives `y`
    /// and `z`.
    #[allow(non_snake_case)]
    pub fn receive_value_commitments(self, value_commitments: &Vec<ValueCommitment>) -> (r: Result<
        (DealerAwaitingPolyCommitments, ValueChallenge),
        DealerError,
    >)
        ensures
            value_commitments@.len() != self.m() ==> r == Err::<
                (DealerAwaitingPolyCommitments, ValueChallenge),
                _,
            >(DealerError::LengthMismatch),
            value_commitments@.len() == self.m() ==> (r matches Ok((next, ch)) && {
                let l = value_round_log(self.log(), value_commitments@);
                &&& ch.y.bytes@ == hash_to_scalar(l)
                &&& ch.z.bytes@ == hash_to_scalar(l + ch.y.bytes@)
                &&& next.log() == l + ch.y.bytes@ + ch.z.bytes@
                &&& next.value_challenge() == ch
                &&& next.n() == self.n()
                &&& next.m() == self.m()
            }),
    {
        if self.m != value_commitments.len() {
            return Err(DealerError::LengthMismatch);
        }
        let ghost vs = value_commitments@;
        let mut transcript = self.transcript;
        let mut A = Point::identity();
        let mut S = Point::identity();
        let mut i: usize = 0;
        while i < value_commitments.len()
            invariant
                i <= vs.len(),
                vs == value_commitments@,
                transcript@ == self.transcript@ + concat(v_encodings(vs.take(i as int))),
                A.encoding() == point_sum(a_encodings(vs.take(i as int))),
                S.encoding() == point_sum(s_encodings(vs.take(i as int))),
            decreases vs.len() - i,
        {
            let c = value_commitments[i];
            transcript.commit_bytes32(&c.V.to_bytes());
            A = A.plus(&c.A);
            S = S.plus(&c.S);
            proof {
                let t = vs.take(i + 1);
                assert(t.drop_last() =~= vs.take(i as int));
                assert(v_encodings(t).drop_last() =~= v_encodings(vs.take(i as int)));
                assert(a_encodings(t).drop_last() =~= a_encodings(vs.take(i as int)));
                assert(s_encodings(t).drop_last() =~= s_encodings(vs.take(i as int)));
            }
            i = i + 1;
        }
        assert(vs.take(vs.len() as int) =~= vs);
        transcript.commit_bytes32(&A.to_bytes());
        transcript.commit_bytes32(&S.to_bytes());
        let y = transcript.challenge_scalar();
        let z = transcript.challenge_scalar();
        let value_challenge = ValueChallenge { y, z };
        Ok((
            DealerAwaitingPolyCommitments {
                n: self.n,
                m: self.m,
                transcript,
                value_challenge,
            },
            value_challenge,
        ))
    }
}

impl DealerAwaitingPolyCommitments {
    pub closed spec fn n(self) -> usize {
        self.n
    }

    pub closed spec fn m(self) -> usize {
        self.m
    }

    pub closed spec fn log(self) -> Seq<u8> {
        self.transcript@
    }

    pub closed spec fn value_challenge(self) -> ValueChallenge {
        self.value_challenge
    }

    /// Binds the sums of the `T_1`s and `T_2`s, then derives `x`.
    #[allow(non_snake_case)]
    pub fn receive_poly_commitments(self, poly_commitments: &Vec<PolyCommitment>) -> (r: Result<
        (DealerAwaitingProofShares, PolyChallenge),
        DealerError,
    >)
        ensures
            poly_commitments@.len() != self.m() ==> r == Err::<
                (DealerAwaitingProofShares, PolyChallenge),
                _,
            >(DealerError::LengthMismatch),
            poly_commitments@.len() == self.m() ==> (r matches Ok((next, ch)) && {
                let l = poly_round_log(self.log(), poly_commitments@);
                &&& ch.x.bytes@ == hash_to_scalar(l)
                &&& next.log() == l + ch.x.bytes@
                &&& next.value_challenge() == self.value_challenge()
                &&& next.poly_challenge() == ch
                &&& next.n() == self.n()
                &&& next.m() == self.m()
            }),
    {
        if self.m != poly_commitments.len() {
            return Err(DealerError::LengthMismatch);
        }
        let ghost ps = poly_commitments@;
        let mut transcript = self.transcript;
        let mut T1 = Point::identity();
        let mut T2 = Point::identity();
        let mut i: usize = 0;
        while i < poly_commitments.len()
            invariant
                i <= ps.len(),
                ps == poly_commitments@,
                T1.encoding() == point_sum(t1_encodings(ps.take(i as int))),
                T2.encoding() == point_sum(t2_encodings(ps.take(i as int))),
            decreases ps.len() - i,
        {
            let c = poly_commitments[i];
            T1 = T1.plus(&c.T_1);
            T2 = T2.plus(&c.T_2);
            proof {
                let t = ps.take(i + 1);
                assert(t1_encodings(t).drop_last() =~= t1_encodings(ps.take(i as int)));
                assert(t2_encodings(t).drop_last() =~= t2_encodings(ps.take(i as int)));
            }
            i = i + 1;
        }
        assert(ps.take(ps.len() as int) =~= ps);
        transcript.commit_bytes32(&T1.to_bytes());
        transcript.commit_bytes32(&T2.to_bytes());
        let x = transcript.challenge_scalar();
        let poly_challenge = PolyChallenge { x };
        Ok((
            DealerAwaitingProofShares {
                n: self.n,
                m: self.m,
                transcript,
                value_challenge: self.value_challenge,
                poly_challenge,
            },
            poly_challenge,
        ))
    }
}

impl DealerAwaitingProofShares {
    pub closed spec fn n(self) -> usize {
        self.n
    }

    pub closed spec fn m(self) -> usize {
        self.m
    }

    pub closed spec fn log(self) -> Seq<u8> {
        self.transcript@
    }

    pub closed spec fn value_challenge(self) -> ValueChallenge {
        self.value_challenge
    }

    pub closed spec fn poly_challenge(self) -> PolyChallenge {
        self.poly_challenge
    }

    /// Builds a verifier record per share, sums the commitments and scalars of all
    /// shares, binds `t_x`, `t_x_blinding` and `e_blinding`, derives `w`, and returns
    /// the aggregated proof, the records and the transcript.
    #[allow(non_snake_case)]
    #[verifier::rlimit(50)]
    pub fn receive_shares(self, proof_shares: &Vec<ProofShare>, gen: &GeneratorsView) -> (r:
        Result<(AggregatedProof, Vec<ProofShareVerifier>, ProofTranscript), DealerError>)
        ensures
            proof_shares@.len() != self.m() ==> r == Err::<
                (AggregatedProof, Vec<ProofShareVerifier>, ProofTranscript),
                _,
            >(DealerError::LengthMismatch),
            proof_shares@.len() == self.m() ==> (r matches Ok((proof, verifiers, transcript)) && {
                let s = proof_shares@;
                let l = self.log() + proof.t_x.bytes@ + proof.t_x_blinding.bytes@
                    + proof.e_blinding.bytes@;
                let w = hash_to_scalar(l);
                &&& proof.n == self.n()
                &&& proof.value_commitments@ == share_values(s)
                &&& proof.A.encoding() == point_sum(share_a(s))
                &&& proof.S.encoding() == point_sum(share_s(s))
                &&& proof.T_1.encoding() == point_sum(share_t1(s))
                &&& proof.T_2.encoding() == point_sum(share_t2(s))
                &&& proof.t_x.bytes@ == scalar_sum(share_t_x(s))
                &&& proof.t_x_blinding.bytes@ == scalar_sum(share_t_x_blinding(s))
                &&& proof.e_blinding.bytes@ == scalar_sum(share_e_blinding(s))
                &&& proof.ipp_input.Q.encoding() == point_mul(w, gen.B.encoding())
                &&& is_scalar_inverse(
                    proof.ipp_input.y_inv.bytes@,
                    self.value_challenge().y.bytes@,
                )
                &&& proof.ipp_input.G@ == gen.G@
                &&& proof.ipp_input.H@ == gen.H@
                &&& proof.ipp_input.l_vec@ == concat(share_l(s))
                &&& proof.ipp_input.r_vec@ == concat(share_r(s))
                &&& transcript@ == l + w
                &&& verifiers@.len() == s.len()
                &&& forall|j: int|
                    0 <= j < s.len() ==> verifier_of(
                        #[trigger] verifiers@[j],
                        s[j],
                        j,
                        self.n(),
                        self.value_challenge(),
                        self.poly_challenge(),
                    )
            }),
    {
        if self.m != proof_shares.len() {
            return Err(DealerError::LengthMismatch);
        }
        let ghost s = proof_shares@;
        let mut share_verifiers: Vec<ProofShareVerifier> = Vec::new();
        let mut value_commitments: Vec<Point> = Vec::new();
        let mut A = Point::identity();
        let mut S = Point::identity();
        let mut T_1 = Point::identity();
        let mut T_2 = Point::identity();
        let mut t = Scalar::zero();
        let mut t_x_blinding = Scalar::zero();
        let mut e_blinding = Scalar::zero();
        let mut l_vec: Vec<Scalar> = Vec::new();
        let mut r_vec: Vec<Scalar> = Vec::new();
        let mut j: usize = 0;
        while j < proof_shares.len()
            invariant
                j <= s.len(),
                s == proof_shares@,
                share_verifiers@.len() == j,
                forall|k: int|
                    0 <= k < j ==> verifier_of(
                        #[trigger] share_verifiers@[k],
                        s[k],
                        k,
                        self.n,
                        self.value_challenge,
                        self.poly_challenge,
                    ),
                value_commitments@ == share_values(s.take(j as int)),
                A.encoding() == point_sum(share_a(s.take(j as int))),
                S.encoding() == point_sum(share_s(s.take(j as int))),
                T_1.encoding() == point_sum(share_t1(s.take(j as int))),
                T_2.encoding() == point_sum(share_t2(s.take(j as int))),
                t.bytes@ == scalar_sum(share_t_x(s.take(j as int))),
                t_x_blinding.bytes@ == scalar_sum(share_t_x_blinding(s.take(j as int))),
                e_blinding.bytes@ == scalar_sum(share_e_blinding(s.take(j as int))),
                l_vec@ == concat(share_l(s.take(j as int))),
                r_vec@ == concat(share_r(s.take(j as int))),
            decreases s.len() - j,
        {
            let ps = &proof_shares[j];
            share_verifiers.push(
                ProofShareVerifier {
                    proof_share: ps.duplicate(),
                    n: self.n,
                    j: j,
                    value_challenge: self.value_challenge,
                    poly_challenge: self.poly_challenge,
                },
            );
            value_commitments.push(ps.value_commitment.V);
            A = A.plus(&ps.value_commitment.A);
            S = S.plus(&ps.value_commitment.S);
            T_1 = T_1.plus(&ps.poly_commitment.T_1);
            T_2 = T_2.plus(&ps.poly_commitment.T_2);
            t = t.plus(&ps.t_x);
            t_x_blinding = t_x_blinding.plus(&ps.t_x_blinding);
            e_blinding = e_blinding.plus(&ps.e_blinding);
            append_scalars(&mut l_vec, &ps.l_vec);
            append_scalars(&mut r_vec, &ps.r_vec);
            proof {
                let p = s.take(j as int);
                let q = s.take(j + 1);
                assert(share_values(q) =~= share_values(p).push(s[j as int].value_commitment.V));
                assert(share_a(q).drop_last() =~= share_a(p));
                assert(share_s(q).drop_last() =~= share_s(p));
                assert(share_t1(q).drop_last() =~= share_t1(p));
                assert(share_t2(q).drop_last() =~= share_t2(p));
                assert(share_t_x(q).drop_last() =~= share_t_x(p));
                assert(share_t_x_blinding(q).drop_last() =~= share_t_x_blinding(p));
                assert(share_e_blinding(q).drop_last() =~= share_e_blinding(p));
                assert(share_l(q).drop_last() =~= share_l(p));
                assert(share_r(q).drop_last() =~= share_r(p));
            }
            j = j + 1;
        }
        assert(s.take(s.len() as int) =~= s);
        let mut transcript = self.transcript;
        transcript.commit_bytes32(&t.bytes);
        transcript.commit_bytes32(&t_x_blinding.bytes);
        transcript.commit_bytes32(&e_blinding.bytes);
        let w = transcript.challenge_scalar();
        let Q = gen.B.times(&w);
        let y_inv = self.value_challenge.y.inverse();
        let G = copy_points(&gen.G);
        let H = copy_points(&gen.H);
        let aggregated_proof = AggregatedProof {
            n: self.n,
            value_commitments,
            A,
            S,
            T_1,
            T_2,
            t_x: t,
            t_x_blinding,
            e_blinding,
            ipp_input: InnerProductInput { Q, y_inv, G, H, l_vec, r_vec },
        };
        Ok((aggregated_proof, share_verifiers, transcript))
    }
}

} // verus!
