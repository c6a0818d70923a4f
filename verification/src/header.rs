//! Block headers, their digests and their hashes.
use crate::scale::{is_encodable_len, max_len};
use sp_core::{ChangesTrieConfiguration as Config, H256};
use sp_runtime::generic::{ChangesTrieSignal as Signal, Digest, DigestItem as Log};
use sp_runtime::traits::Header as HeaderT;
use vstd::prelude::*;

verus! {

/// A block hash.
pub type BlockHash = [u8; 32];

/// The identifier of a consensus engine.
pub type ConsensusEngineId = [u8; 4];

/// A seal: what a miner found.
pub type Seal = Vec<u8>;

/// An entry of a header's digest.
#[derive(Debug)]
pub enum DigestItem {
    /// The root of the changes trie of this block.
    ChangesTrieRoot(BlockHash),
    /// A message from a consensus engine to the runtime.
    PreRuntime(ConsensusEngineId, Vec<u8>),
    /// A message from the runtime to a consensus engine.
    Consensus(ConsensusEngineId, Vec<u8>),
    /// The proof that a consensus engine put on the block.
    Seal(ConsensusEngineId, Vec<u8>),
    /// A new configuration of the changes trie: the digest interval and the digest levels.
    ChangesTrieSignal(Option<(u32, u32)>),
    /// Anything else.
    Other(Vec<u8>),
}

/// What a digest entry says.
pub enum DigestItemView {
    ChangesTrieRoot(Seq<u8>),
    PreRuntime(Seq<u8>, Seq<u8>),
    Consensus(Seq<u8>, Seq<u8>),
    Seal(Seq<u8>, Seq<u8>),
    ChangesTrieSignal(Option<(u32, u32)>),
    Other(Seq<u8>),
}

impl View for DigestItem {
    type V = DigestItemView;

    open spec fn view(&self) -> DigestItemView {
        match *self {
            DigestItem::ChangesTrieRoot(root) => DigestItemView::ChangesTrieRoot(root@),
            DigestItem::PreRuntime(id, data) => DigestItemView::PreRuntime(id@, data@),
            DigestItem::Consensus(id, data) => DigestItemView::Consensus(id@, data@),
            DigestItem::Seal(id, data) => DigestItemView::Seal(id@, data@),
            DigestItem::ChangesTrieSignal(config) => DigestItemView::ChangesTrieSignal(config),
            DigestItem::Other(data) => DigestItemView::Other(data@),
        }
    }
}

impl DigestItemView {
    /// Whether the entry's data is short enough to be encoded.
    pub open spec fn fits(self) -> bool {
        match self {
            DigestItemView::PreRuntime(_, data) => data.len() <= max_len(),
            DigestItemView::Consensus(_, data) => data.len() <= max_len(),
            DigestItemView::Seal(_, data) => data.len() <= max_len(),
            DigestItemView::Other(data) => data.len() <= max_len(),
            _ => true,
        }
    }
}

/// A block header.
#[derive(Debug)]
pub struct Header {
    /// Hash of the parent block.
    pub parent_hash: BlockHash,
    /// Height of the block.
    pub number: u64,
    /// Root of the state trie after the block.
    pub state_root: BlockHash,
    /// Root of the extrinsics.
    pub extrinsics_root: BlockHash,
    /// The digest, oldest entry first.
    pub digest: Vec<DigestItem>,
}

/// What a header says.
pub struct HeaderView {
    pub parent_hash: Seq<u8>,
    pub number: u64,
    pub state_root: Seq<u8>,
    pub extrinsics_root: Seq<u8>,
    pub digest: Seq<DigestItemView>,
}

impl View for Header {
    type V = HeaderView;

    open spec fn view(&self) -> HeaderView {
        HeaderView {
            parent_hash: self.parent_hash@,
            number: self.number,
            state_root: self.state_root@,
            extrinsics_root: self.extrinsics_root@,
            digest: self.digest@.map_values(|item: DigestItem| item@),
        }
    }
}

impl HeaderView {
    /// Whether the header can be encoded, and so hashed: neither the digest nor the data of
    /// an entry is longer than an encoded length can say.
    pub open spec fn fits(self) -> bool {
        &&& self.digest.len() <= max_len()
        &&& forall|i: int| 0 <= i < self.digest.len() ==> #[trigger] self.digest[i].fits()
    }
}

impl HeaderView {
    /// The header with one more digest entry.
    pub open spec fn with_digest(self, item: DigestItemView) -> HeaderView {
        HeaderView { digest: self.digest.push(item), ..self }
    }

    /// The header without its last digest entry.
    pub open spec fn without_last_digest(self) -> HeaderView {
        HeaderView { digest: self.digest.drop_last(), ..self }
    }
}

/// Whether two byte strings are the same.
pub(crate) fn same_bytes(a: &[u8], b: &[u8]) -> (r: bool)
    ensures
        r == (a@ == b@),
{
    if a.len() != b.len() {
        return false;
    }
    let mut i: usize = 0;
    while i < a.len()
        invariant
            a@.len() == b@.len(),
            i <= a@.len(),
            forall|j: int| 0 <= j < i ==> a@[j] == b@[j],
        decreases a@.len() - i,
    {
        if a[i] != b[i] {
            return false;
        }
        i = i + 1;
    }
    assert(a@ =~= b@);
    true
}

impl Clone for DigestItem {
    fn clone(&self) -> (r: DigestItem)
        ensures
            r@ == self@,
    {
        match self {
            DigestItem::ChangesTrieRoot(root) => DigestItem::ChangesTrieRoot(*root),
            DigestItem::PreRuntime(id, data) => DigestItem::PreRuntime(*id, data.clone()),
            DigestItem::Consensus(id, data) => DigestItem::Consensus(*id, data.clone()),
            DigestItem::Seal(id, data) => DigestItem::Seal(*id, data.clone()),
            DigestItem::ChangesTrieSignal(config) => DigestItem::ChangesTrieSignal(*config),
            DigestItem::Other(data) => DigestItem::Other(data.clone()),
        }
    }
}

impl Clone for Header {
    fn clone(&self) -> (r: Header)
        ensures
            r@ == self@,
    {
        let mut digest: Vec<DigestItem> = Vec::new();
        let mut i: usize = 0;
        while i < self.digest.len()
            invariant
                i <= self.digest@.len(),
                digest@.len() == i,
                forall|j: int| 0 <= j < i ==> (#[trigger] digest@[j])@ == self.digest@[j]@,
            decreases self.digest@.len() - i,
        {
            digest.push(self.digest[i].clone());
            i = i + 1;
        }
        assert(digest@.map_values(|item: DigestItem| item@) =~= self.digest@.map_values(
            |item: DigestItem| item@,
        ));
        Header { digest, ..*self }
    }
}

impl DigestItem {
    /// Whether the entry's data is short enough to be encoded.
    pub fn is_encodable(&self) -> (r: bool)
        ensures
            r == self@.fits(),
    {
        match self {
            DigestItem::PreRuntime(_, data) => is_encodable_len(data.len()),
            DigestItem::Consensus(_, data) => is_encodable_len(data.len()),
            DigestItem::Seal(_, data) => is_encodable_len(data.len()),
            DigestItem::Other(data) => is_encodable_len(data.len()),
            DigestItem::ChangesTrieRoot(_) => true,
            DigestItem::ChangesTrieSignal(_) => true,
        }
    }
}

impl Header {
    /// Whether the header can be encoded, and so hashed.
    pub fn is_encodable(&self) -> (r: bool)
        ensures
            r == self@.fits(),
    {
        if !is_encodable_len(self.digest.len()) {
            return false;
        }
        let mut i: usize = 0;
        while i < self.digest.len()
            invariant
                i <= self.digest@.len(),
                forall|j: int| 0 <= j < i ==> (#[trigger] self@.digest[j]).fits(),
            decreases self.digest@.len() - i,
        {
            if !self.digest[i].is_encodable() {
                assert(!self@.digest[i as int].fits());
                return false;
            }
            i = i + 1;
        }
        true
    }

    /// Adds a digest entry at the end.
    pub fn push_digest(&mut self, item: DigestItem)
        ensures
            final(self)@ == old(self)@.with_digest(item@),
    {
        self.digest.push(item);
        assert(self@.digest =~= old(self)@.digest.push(item@));
    }

    /// Takes the last digest entry off.
    pub fn pop_digest(&mut self) -> (r: Option<DigestItem>)
        ensures
            match r {
                Some(item) => old(self)@.digest.len() > 0 && item@ == old(self)@.digest.last()
                    && final(self)@ == old(self)@.without_last_digest(),
                None => old(self)@.digest.len() == 0 && final(self)@ == old(self)@,
            },
    {
        let r = self.digest.pop();
        if let Some(item) = &r {
            assert(self@.digest =~= old(self)@.digest.drop_last());
        }
        r
    }
}

/// A way to hash headers.
pub trait Hashing {
    /// The hash of a header.
    spec fn header_hash(header: HeaderView) -> Seq<u8>;

    /// The hash of a header.
    fn hash(header: &Header) -> (r: BlockHash)
        requires
            header@.fits(),
        ensures
            r@ == Self::header_hash(header@),
    ;
}

/// Hashing with BLAKE2b, 256 bits.
pub struct BlakeTwo256;

type GenericHeader = sp_runtime::generic::Header<u64, sp_runtime::traits::BlakeTwo256>;

/// The hash that `sp_runtime` gives a header under `BlakeTwo256`.
pub uninterp spec fn blake_two_256_header_hash(header: HeaderView) -> Seq<u8>;

/// `Header::hash` of `sp_runtime::generic` under `BlakeTwo256`, of a header with the same
/// fields: a function of what the header says. The call panics on a header that is too long
/// to be encoded.
#[verifier::external_body]
fn hash_blake_two_256(header: &Header) -> (r: BlockHash)
    requires
        header@.fits(),
    ensures
        r@ == blake_two_256_header_hash(header@),
{
    let Header { parent_hash, number, state_root, extrinsics_root, digest } = header.clone();
    let logs = digest.into_iter().map(|item| match item {
        DigestItem::ChangesTrieRoot(root) => Log::ChangesTrieRoot(H256(root)),
        DigestItem::PreRuntime(id, data) => Log::PreRuntime(id, data),
        DigestItem::Consensus(id, data) => Log::Consensus(id, data),
        DigestItem::Seal(id, data) => Log::Seal(id, data),
        DigestItem::ChangesTrieSignal(config) => Log::ChangesTrieSignal(Signal::NewConfiguration(config.map(|c| Config::new(c.0, c.1)))),
        DigestItem::Other(data) => Log::Other(data)
    }).collect();
    GenericHeader::new(number, H256(extrinsics_root), H256(state_root), H256(parent_hash), Digest { logs }).hash().0
}

impl Hashing for BlakeTwo256 {
    open spec fn header_hash(header: HeaderView) -> Seq<u8> {
        blake_two_256_header_hash(header)
    }

    fn hash(header: &Header) -> (r: BlockHash) {
        hash_blake_two_256(header)
    }
}

/// Something to identify a block.
#[derive(Clone, Copy, Debug)]
pub enum BlockId {
    /// Identify by block header hash.
    Hash(BlockHash),
    /// Identify by block number.
    Number(u64),
}

/// A block: its header and its extrinsics.
pub struct Block<E> {
    /// The header.
    pub header: Header,
    /// The extrinsics.
    pub extrinsics: Vec<E>,
}

/// Taking the last entry off undoes adding it.
pub proof fn law_pop_undoes_push(header: HeaderView, item: DigestItemView)
    ensures
        header.with_digest(item).digest.last() == item,
        header.with_digest(item).without_last_digest() == header,
{
    assert(header.with_digest(item).without_last_digest().digest =~= header.digest);
}

} // verus!
