//! What the prover hands to the verifier.

use vstd::prelude::*;
use crate::config::{rows_view, StarkConfig};

verus! {

/// A proof that a main trace, and the auxiliary trace built from it, satisfy
/// the constraints of a computation.
pub struct Proof<SC: StarkConfig> {
    /// The commitment to the main trace.
    pub main_commit: SC::Commitment,
    /// The commitment to the auxiliary trace, where the computation has one.
    pub aux_commit: Option<SC::Commitment>,
    /// The commitments to the chunks of the quotient, in order.
    pub quotient_commits: Vec<SC::Commitment>,
    /// The main trace opened at the out-of-domain point.
    pub main_local: Vec<SC::Challenge>,
    /// The main trace opened at the point after it.
    pub main_next: Vec<SC::Challenge>,
    /// The auxiliary trace opened at the out-of-domain point, one value for
    /// each coordinate of each column; empty where there is no such trace.
    pub aux_local: Vec<SC::Challenge>,
    /// The auxiliary trace opened at the point after it.
    pub aux_next: Vec<SC::Challenge>,
    /// Each chunk of the quotient opened at the out-of-domain point, one
    /// value for each coordinate.
    pub quotient_chunks: Vec<Vec<SC::Challenge>>,
    /// The opening argument of the commitment scheme.
    pub opening_proof: SC::OpeningProof,
    /// The binary logarithm of the height of the trace.
    pub log_degree: u8,
}

/// What a proof holds, as plain values.
pub struct ProofContents<SC: StarkConfig> {
    pub main_commit: SC::Commitment,
    pub aux_commit: Option<SC::Commitment>,
    pub quotient_commits: Seq<SC::Commitment>,
    pub main_local: Seq<SC::Challenge>,
    pub main_next: Seq<SC::Challenge>,
    pub aux_local: Seq<SC::Challenge>,
    pub aux_next: Seq<SC::Challenge>,
    pub quotient_chunks: Seq<Seq<SC::Challenge>>,
    pub opening_proof: SC::OpeningProof,
    pub log_degree: u8,
}

impl<SC: StarkConfig> Proof<SC> {
    /// What the proof holds, as plain values.
    pub open spec fn contents(&self) -> ProofContents<SC> {
        ProofContents {
            main_commit: self.main_commit,
            aux_commit: self.aux_commit,
            quotient_commits: self.quotient_commits@,
            main_local: self.main_local@,
            main_next: self.main_next@,
            aux_local: self.aux_local@,
            aux_next: self.aux_next@,
            quotient_chunks: rows_view(self.quotient_chunks@),
            opening_proof: self.opening_proof,
            log_degree: self.log_degree,
        }
    }
}

} // verus!
