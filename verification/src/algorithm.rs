//! The interface that a proof of work algorithm implements.
use crate::difficulty::Difficulty;
use crate::error::Error;
use crate::header::{BlockHash, BlockId, Seal};
use vstd::prelude::*;

verus! {

/// Algorithm used for proof of work.
pub trait PowAlgorithm {
    /// Difficulty for the algorithm.
    type Difficulty: Difficulty;

    /// Get the next block's difficulty.
    ///
    /// This function is called each time a header is checked, so the implementation should be
    /// properly cached.
    fn difficulty(&self, parent: &BlockId) -> Result<Self::Difficulty, Error>;

    /// Get the next block's policy.
    fn policy(&self, parent: &BlockId) -> Result<Option<Vec<u8>>, Error>;

    /// Verify that the seal is valid against given pre hash when parent block is not yet
    /// imported.
    ///
    /// None means that preliminary verify is not available for this algorithm.
    fn preliminary_verify(&self, _pre_hash: &BlockHash, _seal: &Seal) -> (r: Result<
        Option<bool>,
        Error,
    >)
        default_ensures
            r == Ok::<Option<bool>, Error>(None),
    {
        Ok(None)
    }

    /// Verify that the difficulty is valid against given seal.
    fn verify(
        &self,
        parent: &BlockId,
        pre_hash: &BlockHash,
        seal: &Seal,
        difficulty: Self::Difficulty,
        policy: Option<Vec<u8>>,
    ) -> Result<bool, Error>;

    /// Mine a seal that satisfies the given difficulty.
    fn mine(
        &self,
        parent: &BlockId,
        pre_hash: &BlockHash,
        difficulty: Self::Difficulty,
        policy: Option<Vec<u8>>,
        round: usize,
    ) -> Result<Option<Seal>, Error>;
}

} // verus!
