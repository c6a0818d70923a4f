//! Proof of work consensus.
//!
//! To use this engine, implement [`algorithm::PowAlgorithm`]. Blocks that come from elsewhere
//! are checked in [`verification`], blocks of one's own are built in [`mining`]. Both decide by
//! the total difficulty of a chain, which is stored with each block as described in
//! [`auxiliary`].
//!
//! The auxiliary storage of the engine holds four things of each block: its difficulty, the
//! total difficulty up to it, its policy and a number of steps. For other storage requirements
//! of a particular algorithm, use a separate prefix.

pub mod algorithm;
pub mod auxiliary;
pub mod consensus;
pub mod difficulty;
pub mod error;
pub mod header;
pub mod import;
pub mod inherents;
pub mod laws;
pub mod mining;
pub mod scale;
pub mod verification;
