use vstd::prelude::*;
use crate::group::{Point, Scalar};

verus! {

/// One party's commitment to its value and to its blinding vectors.
#[allow(non_snake_case)]
#[derive(Clone, Copy, PartialEq, Eq, Debug)]
pub struct ValueCommitment {
    pub V: Point,
    pub A: Point,
    pub S: Point,
}

/// One party's commitment to the coefficients of its blinding polynomial.
#[allow(non_snake_case)]
#[derive(Clone, Copy, PartialEq, Eq, Debug)]
pub struct PolyCommitment {
    pub T_1: Point,
    pub T_2: Point,
}

/// The challenges derived after the value commitments.
#[derive(Clone, Copy, PartialEq, Eq, Debug)]
pub struct ValueChallenge {
    pub y: Scalar,
    pub z: Scalar,
}

/// The challenge derived after the polynomial commitments.
#[derive(Clone, Copy, PartialEq, Eq, Debug)]
pub struct PolyChallenge {
    pub x: Scalar,
}

/// One party's final response.
#[derive(Clone, PartialEq, Eq, Debug)]
pub struct ProofShare {
    pub value_commitment: ValueCommitment,
    pub poly_commitment: PolyCommitment,
    pub t_x: Scalar,
    pub t_x_blinding: Scalar,
    pub e_blinding: Scalar,
    pub l_vec: Vec<Scalar>,
    pub r_vec: Vec<Scalar>,
}

/// What a verifier needs to check the share of party `j` on its own.
#[derive(Clone, PartialEq, Eq, Debug)]
pub struct ProofShareVerifier {
    pub proof_share: ProofShare,
    pub n: usize,
    pub j: usize,
    pub value_challenge: ValueChallenge,
    pub poly_challenge: PolyChallenge,
}

/// The statement handed to the inner-product argument: the combined base point
/// `Q`, the inverse of `y` whose powers weight `H`, the generator vectors, and the
/// concatenated response vectors of all parties.
#[allow(non_snake_case)]
#[derive(Clone, PartialEq, Eq, Debug)]
pub struct InnerProductInput {
    pub Q: Point,
    pub y_inv: Scalar,
    pub G: Vec<Point>,
    pub H: Vec<Point>,
    pub l_vec: Vec<Scalar>,
    pub r_vec: Vec<Scalar>,
}

/// The aggregated proof, with the input of its inner-product argument.
#[allow(non_snake_case)]
#[derive(Clone, PartialEq, Eq, Debug)]
pub struct AggregatedProof {
    pub n: usize,
    pub value_commitments: Vec<Point>,
    pub A: Point,
    pub S: Point,
    pub T_1: Point,
    pub T_2: Point,
    pub t_x: Scalar,
    pub t_x_blinding: Scalar,
    pub e_blinding: Scalar,
    pub ipp_input: InnerProductInput,
}

/// The fixed public generators: `B` is the primary Pedersen generator, `G` and `H`
/// the vectors of the inner-product argument.
#[allow(non_snake_case)]
#[derive(Clone, PartialEq, Eq, Debug)]
pub struct GeneratorsView {
    pub B: Point,
    pub G: Vec<Point>,
    pub H: Vec<Point>,
}

/// Why a stage of the dealer refused its input.
#[derive(Clone, Copy, PartialEq, Eq, Debug)]
pub enum DealerError {
    InvalidBitWidth,
    InvalidPartyCount,
    LengthMismatch,
}

/// Copies a vector of scalars.
pub fn copy_scalars(v: &Vec<Scalar>) -> (r: Vec<Scalar>)
    ensures
        r@ == v@,
{
    let mut r: Vec<Scalar> = Vec::new();
    let mut i: usize = 0;
    while i < v.len()
        invariant
            i <= v@.len(),
            r@ == v@.subrange(0, i as int),
        decreases v@.len() - i,
    {
        r.push(v[i]);
        i = i + 1;
        assert(r@ =~= v@.subrange(0, i as int));
    }
    assert(v@.subrange(0, v@.len() as int) =~= v@);
    r
}

/// Copies a vector of points.
pub fn copy_points(v: &Vec<Point>) -> (r: Vec<Point>)
    ensures
        r@ == v@,
{
    let mut r: Vec<Point> = Vec::new();
    let mut i: usize = 0;
    while i < v.len()
        invariant
            i <= v@.len(),
            r@ == v@.subrange(0, i as int),
        decreases v@.len() - i,
    {
        r.push(v[i]);
        i = i + 1;
        assert(r@ =~= v@.subrange(0, i as int));
    }
    assert(v@.subrange(0, v@.len() as int) =~= v@);
    r
}

/// Two shares that agree field by field.
pub open spec fn same_share(a: ProofShare, b: ProofShare) -> bool {
    &&& a.value_commitment == b.value_commitment
    &&& a.poly_commitment == b.poly_commitment
    &&& a.t_x == b.t_x
    &&& a.t_x_blinding == b.t_x_blinding
    &&& a.e_blinding == b.e_blinding
    &&& a.l_vec@ == b.l_vec@
    &&& a.r_vec@ == b.r_vec@
}

impl ProofShare {
    /// A field-by-field copy of the share.
    pub fn duplicate(&self) -> (r: ProofShare)
        ensures
            same_share(r, *self),
    {
        ProofShare {
            value_commitment: self.value_commitment,
            poly_commitment: self.poly_commitment,
            t_x: self.t_x,
            t_x_blinding: self.t_x_blinding,
            e_blinding: self.e_blinding,
            l_vec: copy_scalars(&self.l_vec),
            r_vec: copy_scalars(&self.r_vec),
        }
    }
}

} // verus!
