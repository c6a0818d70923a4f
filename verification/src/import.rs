//! What is handed to the block importer.
use crate::auxiliary::{aux_key, aux_key_of, PowAux, PowAuxView};
use crate::difficulty::Difficulty;
use crate::header::{
    BlockHash, ConsensusEngineId, DigestItem, DigestItemView, Header, HeaderView,
};
use crate::scale::opt_bytes_view;
use vstd::prelude::*;

verus! {

/// The identifier of this engine: `pow_`.
pub const POW_ENGINE_ID: ConsensusEngineId = [0x70u8, 0x6f, 0x77, 0x5f];

/// Block data origin.
#[derive(Clone, Copy, Debug, PartialEq, Eq, Structural)]
pub enum BlockOrigin {
    /// Genesis block built into the client.
    Genesis,
    /// Block is part of the initial sync with the network.
    NetworkInitialSync,
    /// Block was broadcasted on the network.
    NetworkBroadcast,
    /// Block that was received from the network and validated in the consensus process.
    ConsensusBroadcast,
    /// Block that was collated by this node.
    Own,
    /// Block was imported from a file.
    File,
}

/// Fork choice strategy.
#[derive(Clone, Copy, Debug, PartialEq, Eq, Structural)]
pub enum ForkChoiceStrategy {
    /// Longest chain fork choice.
    LongestChain,
    /// Custom fork choice rule, where true indicates the new block should be the best block.
    Custom(bool),
}

/// Data required to import a block with extrinsics `E` and storage changes `S`.
#[derive(Debug)]
pub struct BlockImportParams<E, S> {
    /// Origin of the block.
    pub origin: BlockOrigin,
    /// The header, without the seal.
    pub header: Header,
    /// Justification provided for this block from the outside.
    pub justification: Option<Vec<u8>>,
    /// Digest items that have been added after the runtime: the seal.
    pub post_digests: Vec<DigestItem>,
    /// The body of the block.
    pub body: Option<Vec<E>>,
    /// The changes to the storage that the block makes, if they are known.
    pub storage_changes: Option<S>,
    /// Is this block finalized already?
    pub finalized: bool,
    /// Auxiliary consensus data produced by the block: keys and values.
    pub auxiliary: Vec<(Vec<u8>, Option<Vec<u8>>)>,
    /// Fork choice strategy of this import.
    pub fork_choice: Option<ForkChoiceStrategy>,
    /// Allow importing the block skipping state verification if parent state is missing.
    pub allow_missing_state: bool,
    /// Re-validate existing block.
    pub import_existing: bool,
}

/// What import data says.
pub struct BlockImportParamsView<E, S> {
    pub origin: BlockOrigin,
    pub header: HeaderView,
    pub justification: Option<Seq<u8>>,
    pub post_digests: Seq<DigestItemView>,
    pub body: Option<Seq<E>>,
    pub storage_changes: Option<S>,
    pub finalized: bool,
    pub auxiliary: Seq<(Seq<u8>, Option<Seq<u8>>)>,
    pub fork_choice: Option<ForkChoiceStrategy>,
    pub allow_missing_state: bool,
    pub import_existing: bool,
}

/// The view of an optional list of extrinsics.
pub open spec fn body_view<E>(body: Option<Vec<E>>) -> Option<Seq<E>> {
    match body {
        None => None,
        Some(extrinsics) => Some(extrinsics@),
    }
}

impl<E, S> View for BlockImportParams<E, S> {
    type V = BlockImportParamsView<E, S>;

    open spec fn view(&self) -> BlockImportParamsView<E, S> {
        BlockImportParamsView {
            origin: self.origin,
            header: self.header@,
            justification: opt_bytes_view(self.justification),
            post_digests: self.post_digests@.map_values(|item: DigestItem| item@),
            body: body_view(self.body),
            storage_changes: self.storage_changes,
            finalized: self.finalized,
            auxiliary: self.auxiliary@.map_values(
                |entry: (Vec<u8>, Option<Vec<u8>>)| (entry.0@, opt_bytes_view(entry.1)),
            ),
            fork_choice: self.fork_choice,
            allow_missing_state: self.allow_missing_state,
            import_existing: self.import_existing,
        }
    }
}

impl<E, S> BlockImportParamsView<E, S> {
    /// Import data that says no more than where a header comes from.
    pub open spec fn plain(origin: BlockOrigin, header: HeaderView) -> Self {
        BlockImportParamsView {
            origin,
            header,
            justification: None,
            post_digests: seq![],
            body: None,
            storage_changes: None,
            finalized: false,
            auxiliary: seq![],
            fork_choice: None,
            allow_missing_state: false,
            import_existing: false,
        }
    }

    /// Import data for a block of this engine: its seal, the auxiliary data that is stored
    /// under the key of its hash, and whether it becomes the best block.
    pub open spec fn sealed<D: Difficulty>(
        origin: BlockOrigin,
        header: HeaderView,
        seal: DigestItemView,
        hash: Seq<u8>,
        aux: PowAuxView<D>,
        best: bool,
    ) -> Self {
        BlockImportParamsView {
            post_digests: seq![seal],
            auxiliary: seq![(aux_key_of(hash), Some(aux.encoding()))],
            fork_choice: Some(ForkChoiceStrategy::Custom(best)),
            ..BlockImportParamsView::plain(origin, header)
        }
    }
}

impl<E, S> BlockImportParams<E, S> {
    /// Create a new block import params.
    pub fn new(origin: BlockOrigin, header: Header) -> (r: Self)
        ensures
            r@ == BlockImportParamsView::<E, S>::plain(origin, header@),
    {
        let r = BlockImportParams {
            origin,
            header,
            justification: None,
            post_digests: Vec::new(),
            body: None,
            storage_changes: None,
            finalized: false,
            auxiliary: Vec::new(),
            fork_choice: None,
            allow_missing_state: false,
            import_existing: false,
        };
        assert(r@.post_digests =~= seq![]);
        assert(r@.auxiliary =~= seq![]);
        r
    }

    /// Import data for a block of this engine.
    pub fn sealed<D: Difficulty>(
        origin: BlockOrigin,
        header: Header,
        seal: DigestItem,
        hash: &BlockHash,
        aux: &PowAux<D>,
        best: bool,
    ) -> (r: Self)
        requires
            aux@.fits(),
        ensures
            r@ == BlockImportParamsView::<E, S>::sealed(
                origin,
                header@,
                seal@,
                hash@,
                aux@,
                best,
            ),
    {
        let mut r = BlockImportParams::new(origin, header);
        r.post_digests.push(seal);
        r.auxiliary.push((aux_key(hash), Some(aux.encode())));
        r.fork_choice = Some(ForkChoiceStrategy::Custom(best));
        assert(r@.post_digests =~= seq![seal@]);
        assert(r@.auxiliary =~= seq![(aux_key_of(hash@), Some(aux@.encoding()))]);
        r
    }
}

} // verus!
