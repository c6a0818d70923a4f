//! Mining: building blocks on the best one and sealing them.
//!
//! The miner is a machine. It says what it needs in an action, the node performs it and says
//! what came of it in an event, and [`step`] goes on from there. It never ends by itself; an
//! error stops it, and the node starts it anew.
use crate::algorithm::PowAlgorithm;
use crate::auxiliary::{aux_key, aux_key_of, stored_view, PowAux, PowAuxView};
use crate::difficulty::Difficulty;
use crate::error::{Error, ErrorView};
use crate::header::{
    same_bytes, BlockHash, BlockId, DigestItem, DigestItemView, Hashing, Header, HeaderView, Seal,
};
use crate::import::{BlockImportParams, BlockImportParamsView, BlockOrigin, POW_ENGINE_ID};
use crate::inherents::{create, may_create};
use crate::scale::{is_encodable_len, max_len, opt_bytes_view};
use vstd::pervasive::unreached;
use vstd::prelude::*;

verus! {

/// How long the miner pauses, in seconds.
pub const PAUSE_SECS: u64 = 1;

/// What the node says when it is asked for its best block and that block's header.
pub enum BestHeader {
    /// The header that the chain selection names, or the debug rendering of its error.
    SelectChain(Result<Header, String>),
    /// The hash that the client names, and the header that it finds for it, or the debug
    /// rendering of its error.
    Client(BlockHash, Result<Option<Header>, String>),
}

impl BestHeader {
    /// Whether the header can be hashed, where it has to be.
    pub open spec fn fits(self) -> bool {
        self matches BestHeader::SelectChain(Ok(header)) ==> header@.fits()
    }

    /// The hash and the header of the best block, or why they are not known.
    pub open spec fn found<B: Hashing>(self) -> Result<(Seq<u8>, HeaderView), ErrorView> {
        match self {
            BestHeader::SelectChain(Ok(header)) => Ok((B::header_hash(header@), header@)),
            BestHeader::SelectChain(Err(e)) => Err(ErrorView::BestHeaderSelectChain(e@)),
            BestHeader::Client(hash, Ok(Some(header))) => Ok((hash@, header@)),
            BestHeader::Client(_, Ok(None)) => Err(ErrorView::NoBestHeader),
            BestHeader::Client(_, Err(e)) => Err(ErrorView::BestHeader(e@)),
        }
    }

    /// Reads the answer.
    pub fn resolve<B: Hashing>(self) -> (r: Result<(BlockHash, Header), Error>)
        requires
            self.fits(),
        ensures
            match r {
                Ok((hash, header)) => self.found::<B>() == Ok::<(Seq<u8>, HeaderView), ErrorView>(
                    (hash@, header@),
                ),
                Err(e) => self.found::<B>() == Err::<(Seq<u8>, HeaderView), ErrorView>(e@),
            },
    {
        match self {
            BestHeader::SelectChain(Ok(header)) => Ok((B::hash(&header), header)),
            BestHeader::SelectChain(Err(e)) => Err(Error::BestHeaderSelectChain(e)),
            BestHeader::Client(hash, Ok(Some(header))) => Ok((hash, header)),
            BestHeader::Client(_, Ok(None)) => Err(Error::NoBestHeader),
            BestHeader::Client(_, Err(e)) => Err(Error::BestHeader(e)),
        }
    }
}

/// A block that the node proposed: its header, and the changes it makes to the storage.
pub struct Proposal<S> {
    /// The header, without a seal.
    pub header: Header,
    /// The changes to the storage.
    pub storage_changes: S,
}

/// A block that is being mined.
pub struct Job<D, S> {
    /// The block it is built on.
    pub best_hash: BlockHash,
    /// What is stored for that block.
    pub aux: PowAux<D>,
    /// The header, without a seal.
    pub header: Header,
    /// The hash of that header.
    pub pre_hash: BlockHash,
    /// The changes to the storage.
    pub storage_changes: S,
}

/// A block that has been mined.
pub struct SealedBlock<D, S> {
    /// The block it is built on.
    pub best_hash: BlockHash,
    /// The auxiliary data of the block.
    pub aux: PowAux<D>,
    /// The header, without the seal.
    pub header: Header,
    /// The seal.
    pub seal: DigestItem,
    /// The hash of the header with the seal.
    pub hash: BlockHash,
    /// The changes to the storage.
    pub storage_changes: S,
}

/// The algorithm may answer `r` when asked to mine.
pub open spec fn may_mine<A: PowAlgorithm>(
    algorithm: &A,
    parent: &BlockId,
    pre_hash: Seq<u8>,
    difficulty: A::Difficulty,
    policy: Option<Seq<u8>>,
    rounds: usize,
    r: Result<Option<Seal>, Error>,
) -> bool {
    exists|h: BlockHash, p: Option<Vec<u8>>|
        h@ == pre_hash && opt_bytes_view(p) == policy && #[trigger] call_ensures(
            A::mine,
            (algorithm, parent, &h, difficulty, p, rounds),
            r,
        )
}

impl<D: Difficulty, S> Job<D, S> {
    /// The hash is that of the header, a seal can be added to the header, and the stored data
    /// can be stored again.
    pub open spec fn well_formed<B: Hashing>(self) -> bool {
        &&& self.pre_hash@ == B::header_hash(self.header@)
        &&& self.header@.fits()
        &&& self.header@.digest.len() < max_len()
        &&& self.aux@.fits()
    }

    /// Lets the algorithm search for a seal: on the best block, for the hash of the header, at
    /// the difficulty and the policy that are stored for the best block.
    pub fn mine<A: PowAlgorithm<Difficulty = D>>(&self, algorithm: &A, rounds: usize) -> (r: Result<
        Option<Seal>,
        Error,
    >)
        ensures
            may_mine(
                algorithm,
                &BlockId::Hash(self.best_hash),
                self.pre_hash@,
                self.aux.difficulty,
                self.aux@.policy,
                rounds,
                r,
            ),
    {
        let parent = BlockId::Hash(self.best_hash);
        let handed = self.aux.policy.clone();
        assert(opt_bytes_view(handed) == self.aux@.policy);
        algorithm.mine(&parent, &self.pre_hash, self.aux.difficulty, handed, rounds)
    }
}

impl<D: Difficulty, S> Job<D, S> {
    /// `sealed` is this block with the given seal and policy: it is as difficult as what is
    /// stored for the block it is built on, and that much is added to the total.
    pub open spec fn is_sealed_as<B: Hashing>(
        self,
        seal: Seq<u8>,
        policy: Seq<u8>,
        sealed: SealedBlock<D, S>,
    ) -> bool {
        &&& sealed.best_hash == self.best_hash
        &&& sealed.aux@ == self.aux@.extended(self.aux.difficulty, Some(policy))
        &&& sealed.header@ == self.header@
        &&& sealed.seal@ == DigestItemView::Seal(POW_ENGINE_ID@, seal)
        &&& sealed.hash@ == B::header_hash(self.header@.with_digest(sealed.seal@))
        &&& sealed.storage_changes == self.storage_changes
    }

    /// Puts a seal on the block; the policy is the one that the seal was found for.
    pub fn seal<B: Hashing>(self, seal: Seal, policy: Vec<u8>) -> (r: SealedBlock<D, S>)
        requires
            self.well_formed::<B>(),
            seal@.len() <= max_len(),
            policy@.len() <= max_len(),
        ensures
            self.is_sealed_as::<B>(seal@, policy@, r),
            r.well_formed::<B>(),
    {
        let mut aux = self.aux;
        let difficulty = aux.difficulty;
        aux.extend(difficulty, Some(policy));
        let seal = DigestItem::Seal(POW_ENGINE_ID, seal);
        let mut sealed_header = self.header.clone();
        sealed_header.push_digest(seal.clone());
        let hash = B::hash(&sealed_header);
        SealedBlock {
            best_hash: self.best_hash,
            aux,
            header: self.header,
            seal,
            hash,
            storage_changes: self.storage_changes,
        }
    }
}

impl<D: Difficulty, S> SealedBlock<D, S> {
    /// The hash is that of the header with the seal, which is one of this engine, and the
    /// auxiliary data can be stored.
    pub open spec fn well_formed<B: Hashing>(self) -> bool {
        &&& self.hash@ == B::header_hash(self.header@.with_digest(self.seal@))
        &&& self.seal@ matches DigestItemView::Seal(id, _) && id == POW_ENGINE_ID@
        &&& self.aux@.fits()
    }

    /// What the importer gets of a block that was mined here: it becomes the best block.
    pub open spec fn import_view<E>(self) -> BlockImportParamsView<E, S> {
        BlockImportParamsView {
            storage_changes: Some(self.storage_changes),
            ..BlockImportParamsView::sealed(
                BlockOrigin::Own,
                self.header@,
                self.seal@,
                self.hash@,
                self.aux@,
                true,
            )
        }
    }

    /// What the importer gets.
    pub fn import<E>(self) -> (r: BlockImportParams<E, S>)
        requires
            self.aux@.fits(),
        ensures
            r@ == self.import_view::<E>(),
    {
        let mut params = BlockImportParams::sealed(
            BlockOrigin::Own,
            self.header,
            self.seal,
            &self.hash,
            &self.aux,
            true,
        );
        params.storage_changes = Some(self.storage_changes);
        params
    }
}

/// The digest that a proposed block starts with: the custom data, if there is any.
pub open spec fn inherent_digest_view(preruntime: Option<Seq<u8>>) -> Seq<DigestItemView> {
    match preruntime {
        None => seq![],
        Some(data) => seq![DigestItemView::PreRuntime(POW_ENGINE_ID@, data)],
    }
}

/// The digest that a proposed block starts with.
pub fn inherent_digest(preruntime: &Option<Vec<u8>>) -> (r: Vec<DigestItem>)
    ensures
        r@.map_values(|item: DigestItem| item@) == inherent_digest_view(
            opt_bytes_view(*preruntime),
        ),
{
    let mut digest: Vec<DigestItem> = Vec::new();
    if let Some(data) = preruntime {
        digest.push(DigestItem::PreRuntime(POW_ENGINE_ID, data.clone()));
    }
    assert(digest@.map_values(|item: DigestItem| item@) =~= inherent_digest_view(
        opt_bytes_view(*preruntime),
    ));
    digest
}

/// Where the miner is: which event it waits for.
pub enum MineState<D, S> {
    /// Whether the node is syncing.
    Idle,
    /// The best block.
    FindingBest,
    /// Whether the node can author a block on the best one.
    Authorising(BlockHash, Header),
    /// What is stored for the best block.
    ReadingParent(BlockHash, Header),
    /// A proposer.
    Initialising(BlockHash, PowAux<D>),
    /// Inherent data.
    CreatingInherents(BlockHash, PowAux<D>),
    /// A proposed block.
    Proposing(BlockHash, PowAux<D>),
    /// A seal.
    Mining(Job<D, S>),
    /// The best block, after a search without result.
    ComparingBest(Job<D, S>),
    /// What is stored for the best block, now that a block on it is sealed.
    ReadingBest(SealedBlock<D, S>),
    /// The import of a block on the given one.
    Importing(BlockHash),
    /// Nothing more.
    Stopped,
}

/// What the miner needs.
pub enum MineAction<E, S> {
    /// Say whether the node is syncing.
    AskSyncing,
    /// Wait for so many seconds, then say whether the node is syncing.
    PauseThenAskSyncing(u64),
    /// Find the best block.
    FindBest,
    /// Say whether a block can be authored on this one.
    AskAuthor(BlockId),
    /// Look up what is stored under this key.
    ReadAux(Vec<u8>),
    /// Set up a proposer on this header.
    InitProposer(Header),
    /// Create inherent data.
    CreateInherents,
    /// Propose a block with this inherent data and this digest.
    Propose(sp_inherents::InherentData, Vec<DigestItem>),
    /// Search for a seal.
    Mine,
    /// Say which block is the best one now.
    AskBest,
    /// Import this block.
    Import(BlockImportParams<E, S>),
    /// Stop with this error.
    Stop(Error),
}

/// What came of an action.
pub enum MineEvent<S> {
    /// Whether the node is syncing.
    Syncing(bool),
    /// The best block.
    Best(BestHeader),
    /// Whether a block can be authored.
    Authorised(bool),
    /// What is stored, or the client's error.
    Stored(Result<Option<Vec<u8>>, String>),
    /// Whether there is a proposer now, or the debug rendering of the error.
    Initialised(Result<(), String>),
    /// Inherent data, or why there is none.
    InherentsCreated(Result<sp_inherents::InherentData, String>),
    /// A block, or the debug rendering of the error.
    Proposed(Result<Proposal<S>, String>),
    /// A seal and the policy that is written in it, no seal, or the error of the search.
    Mined(Result<Option<(Seal, Vec<u8>)>, Error>),
    /// The hash of the best block.
    BestNow(BlockHash),
    /// Whether the block was imported, or the debug rendering of the error.
    Imported(Result<(), String>),
}

impl<S> MineEvent<S> {
    /// Whether what came can be encoded, where it will be.
    pub open spec fn fits(self) -> bool {
        match self {
            MineEvent::Best(best) => best.fits(),
            MineEvent::Proposed(Ok(proposal)) => proposal.header@.fits()
                && proposal.header@.digest.len() < max_len(),
            MineEvent::Mined(Ok(Some((seal, policy)))) => seal@.len() <= max_len()
                && policy@.len() <= max_len(),
            _ => true,
        }
    }

    /// Whether what came can be encoded, where it will be.
    pub fn is_encodable(&self) -> (r: bool)
        ensures
            r == self.fits(),
    {
        match self {
            MineEvent::Best(BestHeader::SelectChain(Ok(header))) => header.is_encodable(),
            MineEvent::Proposed(Ok(proposal)) => proposal.header.is_encodable()
                && (proposal.header.digest.len() as u64) < 0xffff_ffff,
            MineEvent::Mined(Ok(Some((seal, policy)))) => is_encodable_len(seal.len())
                && is_encodable_len(policy.len()),
            _ => true,
        }
    }
}

impl<D: Difficulty, S> MineState<D, S> {
    /// Whether this event is the one that is waited for.
    pub open spec fn expects(self, event: MineEvent<S>) -> bool {
        match self {
            MineState::Idle => event is Syncing,
            MineState::FindingBest => event is Best,
            MineState::Authorising(_, _) => event is Authorised,
            MineState::ReadingParent(_, _) => event is Stored,
            MineState::Initialising(_, _) => event is Initialised,
            MineState::CreatingInherents(_, _) => event is InherentsCreated,
            MineState::Proposing(_, _) => event is Proposed,
            MineState::Mining(_) => event is Mined,
            MineState::ComparingBest(_) => event is BestNow,
            MineState::ReadingBest(_) => event is Stored,
            MineState::Importing(_) => event is Imported,
            MineState::Stopped => false,
        }
    }

    /// What is carried along can be encoded, and hashes are those of their headers.
    pub open spec fn well_formed<B: Hashing>(self) -> bool {
        match self {
            MineState::Initialising(_, aux) => aux@.fits(),
            MineState::CreatingInherents(_, aux) => aux@.fits(),
            MineState::Proposing(_, aux) => aux@.fits(),
            MineState::Mining(job) => job.well_formed::<B>(),
            MineState::ComparingBest(job) => job.well_formed::<B>(),
            MineState::ReadingBest(sealed) => sealed.well_formed::<B>(),
            _ => true,
        }
    }
}

/// The miner starts over.
pub open spec fn restarts<E, D, S>(next: MineState<D, S>, action: MineAction<E, S>) -> bool {
    next is Idle && action is AskSyncing
}

/// The miner starts over after a pause.
pub open spec fn pauses<E, D, S>(next: MineState<D, S>, action: MineAction<E, S>) -> bool {
    next is Idle && action == MineAction::<E, S>::PauseThenAskSyncing(PAUSE_SECS)
}

/// The miner stops.
pub open spec fn stops<E, D, S>(
    e: ErrorView,
    next: MineState<D, S>,
    action: MineAction<E, S>,
) -> bool {
    next is Stopped && action is Stop && action->Stop_0@ == e
}

/// From `state`, the miner goes on with `event` to `next`, and needs `action`.
pub open spec fn steps_to<B: Hashing, E, D: Difficulty, S>(
    preruntime: Option<Seq<u8>>,
    state: MineState<D, S>,
    event: MineEvent<S>,
    next: MineState<D, S>,
    action: MineAction<E, S>,
) -> bool {
    match (state, event) {
        // While the node is syncing, nothing is mined.
        (MineState::Idle, MineEvent::Syncing(syncing)) => if syncing {
            pauses(next, action)
        } else {
            next is FindingBest && action is FindBest
        },
        (MineState::FindingBest, MineEvent::Best(best)) => match best.found::<B>() {
            Err(e) => stops(e, next, action),
            Ok((hash, header)) => {
                &&& next is Authorising
                &&& next->Authorising_0@ == hash
                &&& next->Authorising_1@ == header
                &&& action == MineAction::<E, S>::AskAuthor(BlockId::Hash(next->Authorising_0))
            },
        },
        (MineState::Authorising(hash, header), MineEvent::Authorised(can_author)) => if can_author {
            &&& next == MineState::<D, S>::ReadingParent(hash, header)
            &&& action is ReadAux
            &&& action->ReadAux_0@ == aux_key_of(hash@)
        } else {
            pauses(next, action)
        },
        (MineState::ReadingParent(hash, header), MineEvent::Stored(stored)) =>
            match PowAuxView::<D>::read_from(stored_view(stored)) {
            Err(e) => stops(e, next, action),
            Ok(aux) => {
                &&& next is Initialising
                &&& next->Initialising_0 == hash
                &&& next->Initialising_1@ == aux
                &&& action == MineAction::<E, S>::InitProposer(header)
            },
        },
        (MineState::Initialising(hash, aux), MineEvent::Initialised(r)) => match r {
            Err(e) => stops(ErrorView::Environment(e@), next, action),
            Ok(_) => next == MineState::<D, S>::CreatingInherents(hash, aux)
                && action is CreateInherents,
        },
        (MineState::CreatingInherents(hash, aux), MineEvent::InherentsCreated(r)) => match r {
            Err(e) => stops(ErrorView::CreateInherents(e@), next, action),
            Ok(data) => {
                &&& next == MineState::<D, S>::Proposing(hash, aux)
                &&& action is Propose
                &&& action->Propose_0 == data
                &&& action->Propose_1@.map_values(|item: DigestItem| item@)
                    == inherent_digest_view(preruntime)
            },
        },
        (MineState::Proposing(hash, aux), MineEvent::Proposed(r)) => match r {
            Err(e) => stops(ErrorView::BlockProposingError("proposal "@ + e@), next, action),
            Ok(proposal) => {
                &&& next is Mining
                &&& next->Mining_0.best_hash == hash
                &&& next->Mining_0.aux == aux
                &&& next->Mining_0.header == proposal.header
                &&& next->Mining_0.pre_hash@ == B::header_hash(proposal.header@)
                &&& next->Mining_0.storage_changes == proposal.storage_changes
                &&& action is Mine
            },
        },
        (MineState::Mining(job), MineEvent::Mined(r)) => match r {
            Err(e) => next is Stopped && action == MineAction::<E, S>::Stop(e),
            Ok(None) => next == MineState::<D, S>::ComparingBest(job) && action is AskBest,
            Ok(Some((seal, policy))) => {
                &&& next is ReadingBest
                &&& job.is_sealed_as::<B>(seal@, policy@, next->ReadingBest_0)
                &&& action is ReadAux
                &&& action->ReadAux_0@ == aux_key_of(job.best_hash@)
            },
        },
        // The search goes on while the best block stays the same.
        (MineState::ComparingBest(job), MineEvent::BestNow(hash)) => if hash@ == job.best_hash@ {
            next == MineState::<D, S>::Mining(job) && action is Mine
        } else {
            restarts(next, action)
        },
        // A block that is lighter than the best one is dropped.
        (MineState::ReadingBest(sealed), MineEvent::Stored(stored)) =>
            match PowAuxView::<D>::read_from(stored_view(stored)) {
            Err(e) => stops(e, next, action),
            Ok(best_aux) => if best_aux.total_difficulty.rank()
                > sealed.aux.total_difficulty.rank() {
                restarts(next, action)
            } else {
                &&& next == MineState::<D, S>::Importing(sealed.best_hash)
                &&& action is Import
                &&& action->Import_0@ == sealed.import_view::<E>()
            },
        },
        (MineState::Importing(hash), MineEvent::Imported(r)) => match r {
            Err(e) => stops(ErrorView::BlockBuiltError(hash@, e@), next, action),
            Ok(_) => restarts(next, action),
        },
        _ => false,
    }
}

/// Creates the inherent data that the miner asked for.
pub fn create_inherents<S>(providers: &sp_inherents::InherentDataProviders) -> (r: MineEvent<S>)
    ensures
        r is InherentsCreated,
        may_create(providers, r->InherentsCreated_0),
{
    MineEvent::InherentsCreated(create(providers))
}

/// The state that the miner starts in, and its first action.
pub fn start<E, D: Difficulty, S>() -> (r: (MineState<D, S>, MineAction<E, S>))
    ensures
        restarts(r.0, r.1),
{
    (MineState::Idle, MineAction::AskSyncing)
}

/// Goes on with what came of the last action.
pub fn step<B: Hashing, E, D: Difficulty, S>(
    preruntime: &Option<Vec<u8>>,
    state: MineState<D, S>,
    event: MineEvent<S>,
) -> (r: (MineState<D, S>, MineAction<E, S>))
    requires
        state.well_formed::<B>(),
        state.expects(event),
        event.fits(),
    ensures
        steps_to::<B, E, D, S>(opt_bytes_view(*preruntime), state, event, r.0, r.1),
        r.0.well_formed::<B>(),
{
    match (state, event) {
        (MineState::Idle, MineEvent::Syncing(syncing)) => if syncing {
            (MineState::Idle, MineAction::PauseThenAskSyncing(PAUSE_SECS))
        } else {
            (MineState::FindingBest, MineAction::FindBest)
        },
        (MineState::FindingBest, MineEvent::Best(best)) => match best.resolve::<B>() {
            Err(e) => (MineState::Stopped, MineAction::Stop(e)),
            Ok((hash, header)) => (
                MineState::Authorising(hash, header),
                MineAction::AskAuthor(BlockId::Hash(hash)),
            ),
        },
        (MineState::Authorising(hash, header), MineEvent::Authorised(can_author)) => if can_author {
            (MineState::ReadingParent(hash, header), MineAction::ReadAux(aux_key(&hash)))
        } else {
            (MineState::Idle, MineAction::PauseThenAskSyncing(PAUSE_SECS))
        },
        (MineState::ReadingParent(hash, header), MineEvent::Stored(stored)) =>
            match PowAux::<D>::read(stored) {
            Err(e) => (MineState::Stopped, MineAction::Stop(e)),
            Ok(aux) => (MineState::Initialising(hash, aux), MineAction::InitProposer(header)),
        },
        (MineState::Initialising(hash, aux), MineEvent::Initialised(r)) => match r {
            Err(e) => (MineState::Stopped, MineAction::Stop(Error::Environment(e))),
            Ok(_) => (MineState::CreatingInherents(hash, aux), MineAction::CreateInherents),
        },
        (MineState::CreatingInherents(hash, aux), MineEvent::InherentsCreated(r)) => match r {
            Err(e) => (MineState::Stopped, MineAction::Stop(Error::CreateInherents(e))),
            Ok(data) => (
                MineState::Proposing(hash, aux),
                MineAction::Propose(data, inherent_digest(preruntime)),
            ),
        },
        (MineState::Proposing(hash, aux), MineEvent::Proposed(r)) => match r {
            Err(e) => {
                let e = "proposal ".to_owned().concat(e.as_str());
                (MineState::Stopped, MineAction::Stop(Error::BlockProposingError(e)))
            },
            Ok(proposal) => {
                let pre_hash = B::hash(&proposal.header);
                let job = Job {
                    best_hash: hash,
                    aux,
                    header: proposal.header,
                    pre_hash,
                    storage_changes: proposal.storage_changes,
                };
                (MineState::Mining(job), MineAction::Mine)
            },
        },
        (MineState::Mining(job), MineEvent::Mined(r)) => match r {
            Err(e) => (MineState::Stopped, MineAction::Stop(e)),
            Ok(None) => (MineState::ComparingBest(job), MineAction::AskBest),
            Ok(Some((seal, policy))) => {
                let key = aux_key(&job.best_hash);
                (MineState::ReadingBest(job.seal::<B>(seal, policy)), MineAction::ReadAux(key))
            },
        },
        (MineState::ComparingBest(job), MineEvent::BestNow(hash)) => if same_bytes(
            &hash,
            &job.best_hash,
        ) {
            (MineState::Mining(job), MineAction::Mine)
        } else {
            (MineState::Idle, MineAction::AskSyncing)
        },
        (MineState::ReadingBest(sealed), MineEvent::Stored(stored)) =>
            match PowAux::<D>::read(stored) {
            Err(e) => (MineState::Stopped, MineAction::Stop(e)),
            Ok(best_aux) => if best_aux.total_difficulty.exceeds(&sealed.aux.total_difficulty) {
                (MineState::Idle, MineAction::AskSyncing)
            } else {
                (MineState::Importing(sealed.best_hash), MineAction::Import(sealed.import()))
            },
        },
        (MineState::Importing(hash), MineEvent::Imported(r)) => match r {
            Err(e) => (MineState::Stopped, MineAction::Stop(Error::BlockBuiltError(hash, e))),
            Ok(_) => (MineState::Idle, MineAction::AskSyncing),
        },
        _ => unreached(),
    }
}

} // verus!
