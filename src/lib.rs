//! The dealer of an aggregated range proof: it collects the commitments and shares
//! of `m` parties, each proving that a value lies in `[0, 2^n)`, binds them to a
//! Fiat-Shamir transcript in a fixed order, and assembles the aggregated proof.
use vstd::prelude::*;

pub mod group;
pub mod transcript;
pub mod messages;
pub mod dealer;

verus! {

} // verus!
