use curve25519_dalek::constants::RISTRETTO_BASEPOINT_POINT;
use curve25519_dalek::ristretto::RistrettoPoint;
use curve25519_dalek::scalar::Scalar as FieldScalar;
use sha2::Sha512;

use rangeproof_dealer::dealer::{
    Dealer, DealerAwaitingPolyCommitments, DealerAwaitingProofShares,
    DealerAwaitingValueCommitments,
};
use rangeproof_dealer::group::{Point, Scalar};
use rangeproof_dealer::messages::{
    AggregatedProof, DealerError, GeneratorsView, PolyChallenge, PolyCommitment, ProofShare,
    ProofShareVerifier, ValueChallenge, ValueCommitment,
};
use rangeproof_dealer::transcript::ProofTranscript;

fn dalek_point(k: u64) -> RistrettoPoint {
    RISTRETTO_BASEPOINT_POINT * FieldScalar::from(k)
}

fn point(k: u64) -> Point {
    Point::from_bytes(dalek_point(k).compress().to_bytes()).unwrap()
}

fn scalar(k: u64) -> Scalar {
    Scalar::from_bytes(FieldScalar::from(k).to_bytes())
}

fn value_commitment(k: u64) -> ValueCommitment {
    ValueCommitment { V: point(k), A: point(k + 100), S: point(k + 200) }
}

fn poly_commitment(k: u64) -> PolyCommitment {
    PolyCommitment { T_1: point(k + 300), T_2: point(k + 400) }
}

fn proof_share(k: u64, n: usize) -> ProofShare {
    ProofShare {
        value_commitment: value_commitment(k),
        poly_commitment: poly_commitment(k),
        t_x: scalar(k + 10),
        t_x_blinding: scalar(k + 20),
        e_blinding: scalar(k + 30),
        l_vec: (0..n as u64).map(|i| scalar(k * 1000 + i)).collect(),
        r_vec: (0..n as u64).map(|i| scalar(k * 2000 + i)).collect(),
    }
}

fn start(n: usize, m: usize) -> DealerAwaitingValueCommitments {
    Dealer::new(n, m, ProofTranscript::new(b"dealer test")).ok().unwrap()
}

fn gens() -> GeneratorsView {
    GeneratorsView {
        B: point(7),
        G: (0..8u64).map(|i| point(500 + i)).collect(),
        H: (0..8u64).map(|i| point(600 + i)).collect(),
    }
}

fn run(
    n: usize,
    vcs: &Vec<ValueCommitment>,
    pcs: &Vec<PolyCommitment>,
    shares: &Vec<ProofShare>,
) -> (ValueChallenge, PolyChallenge, AggregatedProof, Vec<ProofShareVerifier>, Vec<u8>) {
    let dealer = start(n, vcs.len());
    let (dealer, vc) = dealer.receive_value_commitments(vcs).ok().unwrap();
    let (dealer, pc) = dealer.receive_poly_commitments(pcs).ok().unwrap();
    let (proof, verifiers, transcript) = dealer.receive_shares(shares, &gens()).ok().unwrap();
    (vc, pc, proof, verifiers, transcript.as_bytes().to_vec())
}

#[test]
fn setup_accepts_valid_sizes_and_binds_n_then_m() {
    for n in [1usize, 2, 4, 8, 16, 32, 64] {
        for m in [1usize, 2, 4, 8, 1024] {
            let dealer = Dealer::new(n, m, ProofTranscript::new(b"L")).ok().unwrap();
            let mut expected = b"L".to_vec();
            expected.extend_from_slice(&(n as u64).to_le_bytes());
            expected.extend_from_slice(&(m as u64).to_le_bytes());
            assert_eq!(dealer.transcript().as_bytes(), expected.as_slice());
        }
    }
}

#[test]
fn setup_rejects_bad_bit_width() {
    for n in [0usize, 3, 5, 12, 128] {
        assert!(matches!(
            Dealer::new(n, 2, ProofTranscript::new(b"L")),
            Err(DealerError::InvalidBitWidth)
        ));
    }
}

#[test]
fn setup_rejects_bad_party_count() {
    for m in [0usize, 3, 6, 7] {
        assert!(matches!(
            Dealer::new(8, m, ProofTranscript::new(b"L")),
            Err(DealerError::InvalidPartyCount)
        ));
    }
}

#[test]
fn bit_width_is_checked_before_party_count() {
    assert!(matches!(
        Dealer::new(3, 3, ProofTranscript::new(b"L")),
        Err(DealerError::InvalidBitWidth)
    ));
}

#[test]
fn value_commitments_of_wrong_length_are_refused() {
    for len in [0usize, 1, 3] {
        let vcs: Vec<ValueCommitment> = (0..len as u64).map(|k| value_commitment(k + 1)).collect();
        assert!(matches!(
            start(4, 2).receive_value_commitments(&vcs),
            Err(DealerError::LengthMismatch)
        ));
    }
}

#[test]
fn poly_commitments_of_wrong_length_are_refused() {
    let vcs = vec![value_commitment(1), value_commitment(2)];
    let (dealer, _) = start(4, 2).receive_value_commitments(&vcs).ok().unwrap();
    assert!(matches!(
        dealer.receive_poly_commitments(&vec![poly_commitment(1)]),
        Err(DealerError::LengthMismatch)
    ));
}

#[test]
fn proof_shares_of_wrong_length_are_refused() {
    let vcs = vec![value_commitment(1), value_commitment(2)];
    let pcs = vec![poly_commitment(1), poly_commitment(2)];
    let (dealer, _) = start(4, 2).receive_value_commitments(&vcs).ok().unwrap();
    let (dealer, _): (DealerAwaitingProofShares, _) =
        dealer.receive_poly_commitments(&pcs).ok().unwrap();
    let shares = vec![proof_share(1, 4), proof_share(2, 4), proof_share(3, 4)];
    assert!(matches!(dealer.receive_shares(&shares, &gens()), Err(DealerError::LengthMismatch)));
}

#[test]
fn value_round_binds_each_v_then_the_sums() {
    let vcs = vec![value_commitment(1), value_commitment(2)];
    let dealer = start(4, 2);
    let mut log = dealer.transcript().as_bytes().to_vec();
    let (_next, vc): (DealerAwaitingPolyCommitments, _) =
        dealer.receive_value_commitments(&vcs).ok().unwrap();
    log.extend_from_slice(&dalek_point(1).compress().to_bytes());
    log.extend_from_slice(&dalek_point(2).compress().to_bytes());
    log.extend_from_slice(&(dalek_point(101) + dalek_point(102)).compress().to_bytes());
    log.extend_from_slice(&(dalek_point(201) + dalek_point(202)).compress().to_bytes());
    let y = FieldScalar::hash_from_bytes::<Sha512>(&log);
    assert_eq!(vc.y.bytes, y.to_bytes());
    log.extend_from_slice(&y.to_bytes());
    let z = FieldScalar::hash_from_bytes::<Sha512>(&log);
    assert_eq!(vc.z.bytes, z.to_bytes());
    assert_ne!(vc.y, vc.z);
}

#[test]
fn reordering_shares_keeps_sums_and_changes_challenges() {
    let shares = vec![proof_share(1, 4), proof_share(2, 4)];
    let vcs: Vec<ValueCommitment> = shares.iter().map(|s| s.value_commitment).collect();
    let pcs: Vec<PolyCommitment> = shares.iter().map(|s| s.poly_commitment).collect();
    let rev_shares = vec![proof_share(2, 4), proof_share(1, 4)];
    let rev_vcs: Vec<ValueCommitment> = vcs.iter().rev().cloned().collect();
    let rev_pcs: Vec<PolyCommitment> = pcs.iter().rev().cloned().collect();
    let (vc1, _, p1, _, _) = run(4, &vcs, &pcs, &shares);
    let (vc2, _, p2, _, _) = run(4, &rev_vcs, &rev_pcs, &rev_shares);
    assert_ne!(vc1.y, vc2.y);
    assert_ne!(vc1.z, vc2.z);
    assert_eq!(p1.A, p2.A);
    assert_eq!(p1.S, p2.S);
    assert_eq!(p1.T_1, p2.T_1);
    assert_eq!(p1.T_2, p2.T_2);
    assert_eq!(p1.t_x, p2.t_x);
    assert_eq!(p1.A, point(101).plus(&point(102)));
    assert_eq!(p1.A.to_bytes(), (dalek_point(101) + dalek_point(102)).compress().to_bytes());
}

#[test]
fn pipeline_is_deterministic() {
    let shares = vec![proof_share(1, 4), proof_share(2, 4)];
    let vcs: Vec<ValueCommitment> = shares.iter().map(|s| s.value_commitment).collect();
    let pcs: Vec<PolyCommitment> = shares.iter().map(|s| s.poly_commitment).collect();
    let a = run(4, &vcs, &pcs, &shares);
    let b = run(4, &vcs, &pcs, &shares);
    assert_eq!(a.0, b.0);
    assert_eq!(a.1, b.1);
    assert_eq!(a.2, b.2);
    assert_eq!(a.3, b.3);
    assert_eq!(a.4, b.4);
}

#[test]
fn end_to_end_four_bits_two_parties() {
    let shares = vec![proof_share(1, 4), proof_share(2, 4)];
    let vcs: Vec<ValueCommitment> = shares.iter().map(|s| s.value_commitment).collect();
    let pcs: Vec<PolyCommitment> = shares.iter().map(|s| s.poly_commitment).collect();
    let (vc, pc, proof, verifiers, log) = run(4, &vcs, &pcs, &shares);
    assert_ne!(vc.y.bytes, [0u8; 32]);
    assert_ne!(vc.z.bytes, [0u8; 32]);
    assert_ne!(pc.x.bytes, [0u8; 32]);
    assert_eq!(proof.n, 4);
    assert_eq!(proof.value_commitments, vec![point(1), point(2)]);
    assert_eq!(proof.ipp_input.l_vec.len(), 8);
    assert_eq!(proof.ipp_input.r_vec.len(), 8);
    assert_eq!(proof.ipp_input.l_vec[4], scalar(2000));
    assert_eq!(proof.ipp_input.r_vec[3], scalar(2003));
    assert_eq!(verifiers.len(), 2);
    assert_eq!(verifiers[0].j, 0);
    assert_eq!(verifiers[1].j, 1);
    assert_eq!(verifiers[1].proof_share, shares[1]);
    assert_eq!(verifiers[0].value_challenge, vc);
    assert_eq!(verifiers[0].poly_challenge, pc);
    assert_eq!(verifiers[0].n, 4);
    let expected_t_x = FieldScalar::from(11u64) + FieldScalar::from(12u64);
    assert_eq!(proof.t_x.bytes, expected_t_x.to_bytes());
    // the last 32 bytes of the log are the combining scalar w
    let w = FieldScalar::from_bytes_mod_order(log[log.len() - 32..].try_into().unwrap());
    assert_eq!(proof.ipp_input.Q.to_bytes(), (w * dalek_point(7)).compress().to_bytes());
    assert_eq!(proof.ipp_input.G, gens().G);
    assert_eq!(proof.ipp_input.H[2], point(602));
    assert_eq!(proof.ipp_input.y_inv.bytes, FieldScalar::from_bytes_mod_order(vc.y.bytes).invert().to_bytes());
    let prefix = &log[..log.len() - 32];
    assert_eq!(FieldScalar::hash_from_bytes::<Sha512>(prefix), w);
}

#[test]
fn point_and_scalar_arithmetic_match_the_group() {
    assert_eq!(Point::identity().to_bytes(), [0u8; 32]);
    assert_eq!(point(3).plus(&point(4)), point(7));
    assert_eq!(point(5).times(&scalar(3)), point(15));
    assert_eq!(scalar(5).plus(&scalar(6)), scalar(11));
    assert_eq!(scalar(4).inverse().bytes, FieldScalar::from(4u64).invert().to_bytes());
    assert_ne!(scalar(4).inverse(), scalar(4));
    assert!(Point::from_bytes([0xffu8; 32]).is_none());
}

#[test]
fn challenges_differ_and_extend_the_log() {
    let mut t = ProofTranscript::new(b"abc");
    t.commit(b"xyz");
    t.commit_u64(258);
    assert_eq!(t.as_bytes(), b"abcxyz\x02\x01\0\0\0\0\0\0");
    let c1 = t.challenge_scalar();
    let c2 = t.challenge_scalar();
    assert_ne!(c1, c2);
    assert_eq!(t.as_bytes().len(), 14 + 64);
}
