use vstd::prelude::*;
use crate::group::{hash_bytes_to_scalar, hash_to_scalar, Scalar};

verus! {

/// The eight little-endian bytes of `x`.
pub open spec fn u64_le(x: u64) -> Seq<u8> {
    Seq::new(8, |i: int| ((x >> ((8 * i) as u64)) & 0xffu64) as u8)
}

/// A Fiat-Shamir transcript: an append-only byte log from which challenges are derived.
pub struct ProofTranscript {
    log: Vec<u8>,
}

impl View for ProofTranscript {
    type V = Seq<u8>;

    closed spec fn view(&self) -> Seq<u8> {
        self.log@
    }
}

impl ProofTranscript {
    /// A transcript whose log starts with `label`.
    pub fn new(label: &[u8]) -> (r: ProofTranscript)
        ensures
            r@ == label@,
    {
        let mut t = ProofTranscript { log: Vec::new() };
        t.commit(label);
        assert(t@ =~= label@);
        t
    }

    /// The bytes absorbed so far.
    pub fn as_bytes(&self) -> (r: &[u8])
        ensures
            r@ == self@,
    {
        self.log.as_slice()
    }

    /// Absorbs `bytes` at the end of the log.
    pub fn commit(&mut self, bytes: &[u8])
        ensures
            final(self)@ == old(self)@ + bytes@,
    {
        let mut i: usize = 0;
        while i < bytes.len()
            invariant
                i <= bytes@.len(),
                self@ == old(self)@ + bytes@.subrange(0, i as int),
            decreases bytes@.len() - i,
        {
            self.log.push(bytes[i]);
            i = i + 1;
            assert(self@ =~= old(self)@ + bytes@.subrange(0, i as int));
        }
        assert(bytes@.subrange(0, bytes@.len() as int) =~= bytes@);
    }

    /// Absorbs a 32-byte value at the end of the log.
    pub fn commit_bytes32(&mut self, bytes: &[u8; 32])
        ensures
            final(self)@ == old(self)@ + bytes@,
    {
        let mut i: usize = 0;
        while i < 32
            invariant
                i <= 32,
                bytes@.len() == 32,
                self@ == old(self)@ + bytes@.subrange(0, i as int),
            decreases 32 - i,
        {
            self.log.push(bytes[i]);
            i = i + 1;
            assert(self@ =~= old(self)@ + bytes@.subrange(0, i as int));
        }
        assert(bytes@.subrange(0, 32) =~= bytes@);
    }

    /// Absorbs `x` as eight little-endian bytes.
    pub fn commit_u64(&mut self, x: u64)
        ensures
            final(self)@ == old(self)@ + u64_le(x),
    {
        let mut i: usize = 0;
        while i < 8
            invariant
                i <= 8,
                self@ == old(self)@ + u64_le(x).subrange(0, i as int),
            decreases 8 - i,
        {
            let b: u8 = ((x >> ((8 * i) as u64)) & 0xffu64) as u8;
            self.log.push(b);
            i = i + 1;
            assert(self@ =~= old(self)@ + u64_le(x).subrange(0, i as int));
        }
        assert(u64_le(x).subrange(0, 8) =~= u64_le(x));
    }

    /// Derives a scalar from everything absorbed so far, then absorbs that scalar,
    /// so that the next challenge differs.
    pub fn challenge_scalar(&mut self) -> (r: Scalar)
        ensures
            r.bytes@ == hash_to_scalar(old(self)@),
            final(self)@ == old(self)@ + r.bytes@,
    {
        let c = hash_bytes_to_scalar(&self.log);
        self.commit_bytes32(&c);
        Scalar { bytes: c }
    }
}

} // verus!
