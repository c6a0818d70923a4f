//! The miner: what each event makes it do, and what becomes of a block that it mined. Stated over
//! the calls themselves.
use crate::algorithm::PowAlgorithm;
use crate::auxiliary::{law_decode_inverts_encode, PowAux};
use crate::difficulty::Difficulty;
use crate::error::Error;
use crate::header::{
    BlockHash, BlockId, DigestItem, DigestItemView, Hashing, Header, HeaderView, Seal,
};
use crate::import::{BlockImportParams, BlockOrigin, ForkChoiceStrategy};
use crate::inherents::may_create;
use crate::laws::blocks::{pow_, same_policy};
use crate::mining::{
    create_inherents, inherent_digest, start, step, BestHeader, Job, MineAction, MineEvent,
    MineState, Proposal, SealedBlock,
};
use crate::scale::opt_bytes_view;
use crate::verification::{BestBlock, Located, Verification};
use vstd::prelude::*;

verus! {

/// The miner begins by asking whether the node is syncing. While it is, the miner pauses for a
/// second and asks again; once it is not, it asks for the best block.
pub proof fn law_miner_begins_with_syncing<B: Hashing, E, D: Difficulty, S>(
    first: (MineState<D, S>, MineAction<E, S>),
    preruntime: &Option<Vec<u8>>,
    syncing: bool,
    r: (MineState<D, S>, MineAction<E, S>),
)
    requires
        call_ensures(start::<E, D, S>, (), first),
        call_ensures(
            step::<B, E, D, S>,
            (preruntime, MineState::<D, S>::Idle, MineEvent::<S>::Syncing(syncing)),
            r,
        ),
    ensures
        first.0 is Idle,
        first.1 is AskSyncing,
        syncing ==> r.0 is Idle && r.1 == MineAction::<E, S>::PauseThenAskSyncing(1),
        !syncing ==> r.0 is FindingBest && r.1 is FindBest,
{
}

/// The best block that the chain selection names is known by the hash of its whole header, the
/// one that the client names by the hash that it gives, with the header that it finds. Where
/// either fails, or the client finds no header, that is the error.
pub proof fn law_miner_knows_its_best_block<B: Hashing>(
    best: BestHeader,
    r: Result<(BlockHash, Header), Error>,
)
    requires
        call_ensures(BestHeader::resolve::<B>, (best,), r),
    ensures
        match best {
            BestHeader::SelectChain(Ok(header)) => r is Ok && r->Ok_0.0@ == B::header_hash(header@)
                && r->Ok_0.1@ == header@,
            BestHeader::SelectChain(Err(e)) => (r matches Err(Error::BestHeaderSelectChain(text))
                && text@ == e@),
            BestHeader::Client(hash, Ok(Some(header))) => r is Ok && r->Ok_0.0@ == hash@
                && r->Ok_0.1@ == header@,
            BestHeader::Client(_, Ok(None)) => r is Err && r->Err_0 is NoBestHeader,
            BestHeader::Client(_, Err(e)) => (r matches Err(Error::BestHeader(text)) && text@
                == e@),
        },
{
}

/// With its best block the miner asks whether it can author on it; without one it stops.
pub proof fn law_miner_asks_to_author_on_its_best_block<B: Hashing, E, D: Difficulty, S>(
    preruntime: &Option<Vec<u8>>,
    best: BestHeader,
    found: Result<(BlockHash, Header), Error>,
    r: (MineState<D, S>, MineAction<E, S>),
)
    requires
        call_ensures(BestHeader::resolve::<B>, (best,), found),
        call_ensures(
            step::<B, E, D, S>,
            (preruntime, MineState::<D, S>::FindingBest, MineEvent::<S>::Best(best)),
            r,
        ),
    ensures
        found matches Ok((hash, header)) ==> {
            &&& r.0 matches MineState::Authorising(h, x) && h@ == hash@ && x@ == header@
            &&& r.1 matches MineAction::AskAuthor(BlockId::Hash(h)) && h@ == hash@
        },
        found matches Err(e) ==> r.0 is Stopped && (r.1 matches MineAction::Stop(f) && f@ == e@),
{
}

/// Where it can author, the miner looks up what is stored for the best block, under `PoW:` and its
/// hash; where it cannot, it pauses for a second and starts over.
pub proof fn law_miner_looks_up_its_best_block<B: Hashing, E, D: Difficulty, S>(
    preruntime: &Option<Vec<u8>>,
    hash: BlockHash,
    header: Header,
    can_author: bool,
    r: (MineState<D, S>, MineAction<E, S>),
)
    requires
        call_ensures(
            step::<B, E, D, S>,
            (
                preruntime,
                MineState::<D, S>::Authorising(hash, header),
                MineEvent::<S>::Authorised(can_author),
            ),
            r,
        ),
    ensures
        can_author ==> {
            &&& r.0 == MineState::<D, S>::ReadingParent(hash, header)
            &&& r.1 matches MineAction::ReadAux(key) && key@ == seq![0x50u8, 0x6f, 0x57, 0x3a]
                + hash@
        },
        !can_author ==> r.0 is Idle && r.1 == MineAction::<E, S>::PauseThenAskSyncing(1),
{
    assert(seq![0x50u8, 0x6f, 0x57, 0x3a] =~= crate::auxiliary::POW_AUX_PREFIX@);
}

/// What is read for the best block is kept as it is, and a proposer is set up on the header of
/// that block. The proposer is then asked for, and the inherent data. A failure stops the miner
/// with the words of the failure.
pub proof fn law_miner_prepares_a_proposal<B: Hashing, E, D: Difficulty, S>(
    preruntime: &Option<Vec<u8>>,
    hash: BlockHash,
    header: Header,
    aux: PowAux<D>,
    stored: Result<Option<Vec<u8>>, String>,
    read: Result<PowAux<D>, Error>,
    reading: (MineState<D, S>, MineAction<E, S>),
    set_up: Result<(), String>,
    setting_up: (MineState<D, S>, MineAction<E, S>),
)
    requires
        call_ensures(PowAux::<D>::read, (stored,), read),
        call_ensures(
            step::<B, E, D, S>,
            (
                preruntime,
                MineState::<D, S>::ReadingParent(hash, header),
                MineEvent::<S>::Stored(stored),
            ),
            reading,
        ),
        call_ensures(
            step::<B, E, D, S>,
            (
                preruntime,
                MineState::<D, S>::Initialising(hash, aux),
                MineEvent::<S>::Initialised(set_up),
            ),
            setting_up,
        ),
    ensures
        read matches Ok(a) ==> {
            &&& reading.0 matches MineState::Initialising(h, b) && h == hash && b@ == a@
            &&& reading.1 == MineAction::<E, S>::InitProposer(header)
        },
        read matches Err(e) ==> reading.0 is Stopped && (reading.1 matches MineAction::Stop(f)
            && f@ == e@),
        set_up is Ok ==> setting_up.0 == MineState::<D, S>::CreatingInherents(hash, aux)
            && setting_up.1 is CreateInherents,
        set_up matches Err(e) ==> setting_up.0 is Stopped && (setting_up.1 matches MineAction::Stop(
            Error::Environment(text),
        ) && text@ == e@),
{
}

/// The custom data of a miner stands whole in the digest that a proposed block starts with: one
/// entry, of this engine, with the same bytes. Without custom data the digest is empty.
pub proof fn law_custom_data_is_kept_whole(preruntime: &Option<Vec<u8>>, r: Vec<DigestItem>)
    requires
        call_ensures(inherent_digest, (preruntime,), r),
    ensures
        preruntime is None ==> r@.len() == 0,
        preruntime matches Some(data) ==> {
            &&& r@.len() == 1
            &&& r@[0] matches DigestItem::PreRuntime(id, kept) && id@ == pow_() && kept@.len()
                == data@.len() && forall|i: int|
                0 <= i < data@.len() ==> #[trigger] kept@[i] == data@[i]
        },
{
    let v = r@.map_values(|item: DigestItem| item@);
    assert(v.len() == r@.len());
    assert(pow_() =~= crate::import::POW_ENGINE_ID@);
    if preruntime is Some {
        assert(v[0] == r@[0]@);
        assert(v[0] == DigestItemView::PreRuntime(pow_(), preruntime->0@));
    }
}

/// The miner asks for a proposal with the inherent data that came, and with a digest that holds
/// its custom data whole, and nothing else. Where there is no inherent data, it stops.
pub proof fn law_proposals_carry_the_custom_data<B: Hashing, E, D: Difficulty, S>(
    preruntime: &Option<Vec<u8>>,
    hash: BlockHash,
    aux: PowAux<D>,
    created: Result<sp_inherents::InherentData, String>,
    r: (MineState<D, S>, MineAction<E, S>),
)
    requires
        call_ensures(
            step::<B, E, D, S>,
            (
                preruntime,
                MineState::<D, S>::CreatingInherents(hash, aux),
                MineEvent::<S>::InherentsCreated(created),
            ),
            r,
        ),
    ensures
        created matches Err(e) ==> r.0 is Stopped && (r.1 matches MineAction::Stop(
            Error::CreateInherents(text),
        ) && text@ == e@),
        created matches Ok(data) ==> {
            &&& r.0 == MineState::<D, S>::Proposing(hash, aux)
            &&& r.1 is Propose
            &&& r.1->Propose_0 == data
            &&& preruntime is None ==> r.1->Propose_1@.len() == 0
            &&& preruntime matches Some(custom) ==> {
                &&& r.1->Propose_1@.len() == 1
                &&& r.1->Propose_1@[0] matches DigestItem::PreRuntime(id, kept) && id@ == pow_()
                    && kept@.len() == custom@.len() && forall|i: int|
                    0 <= i < custom@.len() ==> #[trigger] kept@[i] == custom@[i]
            }
        },
{
    assert(pow_() =~= crate::import::POW_ENGINE_ID@);
    if created is Ok {
        let digest = r.1->Propose_1;
        let v = digest@.map_values(|item: DigestItem| item@);
        assert(v.len() == digest@.len());
        if preruntime is Some {
            assert(v[0] == digest@[0]@);
            assert(v[0] == DigestItemView::PreRuntime(pow_(), preruntime->0@));
        }
    }
}

/// Different custom data give different digests.
pub proof fn law_custom_data_can_be_told_apart(
    a: &Option<Vec<u8>>,
    b: &Option<Vec<u8>>,
    x: Vec<DigestItem>,
    y: Vec<DigestItem>,
)
    requires
        call_ensures(inherent_digest, (a,), x),
        call_ensures(inherent_digest, (b,), y),
        x@.len() == y@.len(),
        x@.len() > 0 ==> x@[0]@ == y@[0]@,
    ensures
        same_policy(*a, *b),
{
    law_custom_data_is_kept_whole(a, x);
    law_custom_data_is_kept_whole(b, y);
    if x@.len() > 0 {
        let p = x@[0]->PreRuntime_1;
        let q = y@[0]->PreRuntime_1;
        assert(x@[0]@ == DigestItemView::PreRuntime(pow_(), p@));
        assert(y@[0]@ == DigestItemView::PreRuntime(pow_(), q@));
        assert(a->0@ =~= p@);
        assert(b->0@ =~= q@);
    }
}

/// The inherent data for a proposal is what the providers create.
pub proof fn law_miner_asks_the_providers<S>(
    providers: &sp_inherents::InherentDataProviders,
    r: MineEvent<S>,
)
    requires
        call_ensures(create_inherents::<S>, (providers,), r),
    ensures
        r matches MineEvent::InherentsCreated(created) && may_create(providers, created),
{
}

/// A proposed block is mined as it was proposed, on the block and with the data that the proposal
/// was made for; its hash is that of its whole header. Where no block is proposed, the miner
/// stops.
pub proof fn law_miner_mines_what_was_proposed<B: Hashing, E, D: Difficulty, S>(
    preruntime: &Option<Vec<u8>>,
    hash: BlockHash,
    aux: PowAux<D>,
    proposed: Result<Proposal<S>, String>,
    r: (MineState<D, S>, MineAction<E, S>),
)
    requires
        call_ensures(
            step::<B, E, D, S>,
            (
                preruntime,
                MineState::<D, S>::Proposing(hash, aux),
                MineEvent::<S>::Proposed(proposed),
            ),
            r,
        ),
    ensures
        proposed matches Err(e) ==> r.0 is Stopped && (r.1 matches MineAction::Stop(
            Error::BlockProposingError(text),
        ) && text@ == "proposal "@ + e@),
        proposed matches Ok(proposal) ==> {
            &&& r.1 is Mine
            &&& r.0 matches MineState::Mining(job) && job.best_hash == hash && job.aux == aux
                && job.header == proposal.header && job.pre_hash@ == B::header_hash(
                proposal.header@,
            ) && job.storage_changes == proposal.storage_changes
        },
{
}

/// The algorithm searches on the best block, for the hash of the proposed header, at the
/// difficulty and the policy, whole, that are stored for the best block, for as many rounds as it
/// is told; its answer is handed on.
pub proof fn law_search_is_for_what_is_stored<A: PowAlgorithm, S>(
    job: &Job<A::Difficulty, S>,
    algorithm: &A,
    rounds: usize,
    r: Result<Option<Seal>, Error>,
)
    requires
        call_ensures(Job::<A::Difficulty, S>::mine::<A>, (job, algorithm, rounds), r),
    ensures
        exists|hash: BlockHash, policy: Option<Vec<u8>>|
            hash@ == job.pre_hash@ && same_policy(policy, job.aux.policy) && #[trigger] call_ensures(
                A::mine,
                (
                    algorithm,
                    &BlockId::Hash(job.best_hash),
                    &hash,
                    job.aux.difficulty,
                    policy,
                    rounds,
                ),
                r,
            ),
{
    let (hash, policy) = choose|h: BlockHash, p: Option<Vec<u8>>|
        h@ == job.pre_hash@ && opt_bytes_view(p) == job.aux@.policy && #[trigger] call_ensures(
            A::mine,
            (algorithm, &BlockId::Hash(job.best_hash), &h, job.aux.difficulty, p, rounds),
            r,
        );
    assert(same_policy(policy, job.aux.policy));
}

/// A sealed block is the mined one with the seal beside it. It is as difficult as what is stored
/// for its parent, by which the total grows; it has the policy that its seal holds, whole, and the
/// parent's steps; and it is known by the hash of its header with the seal as the last entry.
pub open spec fn is_mined<B: Hashing, D: Difficulty, S>(
    job: Job<D, S>,
    seal: Seq<u8>,
    policy: Seq<u8>,
    sealed: SealedBlock<D, S>,
) -> bool {
    &&& sealed.best_hash == job.best_hash
    &&& sealed.header@ == job.header@
    &&& sealed.seal@ == DigestItemView::Seal(pow_(), seal)
    &&& sealed.hash@ == B::header_hash(
        HeaderView {
            digest: job.header@.digest.push(DigestItemView::Seal(pow_(), seal)),
            ..job.header@
        },
    )
    &&& sealed.storage_changes == job.storage_changes
    &&& sealed.aux.difficulty == job.aux.difficulty
    &&& sealed.aux.total_difficulty == job.aux.total_difficulty.incremented(job.aux.difficulty)
    &&& sealed.aux.policy matches Some(p) && p@ == policy
    &&& sealed.aux.steps == job.aux.steps
}

proof fn lemma_is_mined<B: Hashing, D: Difficulty, S>(
    job: Job<D, S>,
    seal: Seq<u8>,
    policy: Seq<u8>,
    sealed: SealedBlock<D, S>,
)
    requires
        job.is_sealed_as::<B>(seal, policy, sealed),
    ensures
        is_mined::<B, D, S>(job, seal, policy, sealed),
{
    assert(pow_() =~= crate::import::POW_ENGINE_ID@);
    let aux = sealed.aux@;
    assert(aux.difficulty == sealed.aux.difficulty);
    assert(aux.total_difficulty == sealed.aux.total_difficulty);
    assert(aux.steps == sealed.aux.steps);
    assert(aux.policy == Some(policy));
}

/// Sealing a block makes such a block of it.
pub proof fn law_sealing_keeps_the_block<B: Hashing, D: Difficulty, S>(
    job: Job<D, S>,
    seal: Seal,
    policy: Vec<u8>,
    r: SealedBlock<D, S>,
)
    requires
        call_ensures(Job::<D, S>::seal::<B>, (job, seal, policy), r),
    ensures
        is_mined::<B, D, S>(job, seal@, policy@, r),
{
    lemma_is_mined::<B, D, S>(job, seal@, policy@, r);
}

/// A seal seals the block, and what is stored for the best block is looked up again, under `PoW:`
/// and its hash. Where there is no seal, the miner asks for the best block; where the search
/// failed, it stops with that failure.
pub proof fn law_found_seals_are_put_on<B: Hashing, E, D: Difficulty, S>(
    preruntime: &Option<Vec<u8>>,
    job: Job<D, S>,
    found: Result<Option<(Seal, Vec<u8>)>, Error>,
    r: (MineState<D, S>, MineAction<E, S>),
)
    requires
        call_ensures(
            step::<B, E, D, S>,
            (preruntime, MineState::<D, S>::Mining(job), MineEvent::<S>::Mined(found)),
            r,
        ),
    ensures
        found matches Err(e) ==> r.0 is Stopped && r.1 == MineAction::<E, S>::Stop(e),
        found matches Ok(None) ==> r.0 == MineState::<D, S>::ComparingBest(job) && r.1 is AskBest,
        found matches Ok(Some((seal, policy))) ==> {
            &&& r.0 is ReadingBest
            &&& is_mined::<B, D, S>(job, seal@, policy@, r.0->ReadingBest_0)
            &&& r.1 matches MineAction::ReadAux(key) && key@ == seq![0x50u8, 0x6f, 0x57, 0x3a]
                + job.best_hash@
        },
{
    assert(seq![0x50u8, 0x6f, 0x57, 0x3a] =~= crate::auxiliary::POW_AUX_PREFIX@);
    if found is Ok && found->Ok_0 is Some {
        let (seal, policy) = found->Ok_0->0;
        lemma_is_mined::<B, D, S>(job, seal@, policy@, r.0->ReadingBest_0);
    }
}

/// The search goes on for the same block exactly as long as the best block has the hash, all of its
/// bytes, of the one it is built on; otherwise the miner starts over.
pub proof fn law_search_ends_with_its_best_block<B: Hashing, E, D: Difficulty, S>(
    preruntime: &Option<Vec<u8>>,
    job: Job<D, S>,
    hash: BlockHash,
    r: (MineState<D, S>, MineAction<E, S>),
)
    requires
        call_ensures(
            step::<B, E, D, S>,
            (preruntime, MineState::<D, S>::ComparingBest(job), MineEvent::<S>::BestNow(hash)),
            r,
        ),
    ensures
        hash@ == job.best_hash@ ==> r.0 == MineState::<D, S>::Mining(job) && r.1 is Mine,
        hash@ != job.best_hash@ ==> r.0 is Idle && r.1 is AskSyncing,
{
}

/// What the importer gets of a mined block: the header without its seal, the seal beside it, the
/// changes to the storage, and one entry under `PoW:` and the hash of the block. It is a block of
/// one's own and becomes the best one. Nothing else is set.
pub open spec fn is_import_of<E, D: Difficulty, S>(
    sealed: SealedBlock<D, S>,
    params: BlockImportParams<E, S>,
) -> bool {
    &&& params.origin == BlockOrigin::Own
    &&& params.header@ == sealed.header@
    &&& params.justification is None
    &&& params.post_digests@.len() == 1
    &&& params.post_digests@[0]@ == sealed.seal@
    &&& params.body is None
    &&& params.storage_changes == Some(sealed.storage_changes)
    &&& !params.finalized
    &&& params.auxiliary@.len() == 1
    &&& params.auxiliary@[0].0@ == seq![0x50u8, 0x6f, 0x57, 0x3a] + sealed.hash@
    &&& params.auxiliary@[0].1 is Some
    &&& params.fork_choice == Some(ForkChoiceStrategy::Custom(true))
    &&& !params.allow_missing_state
    &&& !params.import_existing
}

proof fn lemma_is_import_of<E, D: Difficulty, S>(
    sealed: SealedBlock<D, S>,
    params: BlockImportParams<E, S>,
)
    requires
        params@ == sealed.import_view::<E>(),
    ensures
        is_import_of::<E, D, S>(sealed, params),
        opt_bytes_view(params.auxiliary@[0].1) == Some(sealed.aux@.encoding()),
{
    let v = params@;
    assert(v.justification is None);
    assert(v.body is None);
    assert(v.post_digests.len() == 1);
    assert(v.post_digests[0] == sealed.seal@);
    assert(v.auxiliary.len() == 1);
    assert(v.auxiliary[0] == (params.auxiliary@[0].0@, opt_bytes_view(params.auxiliary@[0].1)));
    assert(params.auxiliary@[0].0@ =~= seq![0x50u8, 0x6f, 0x57, 0x3a] + sealed.hash@);
}

/// What is read back for a mined block after its import are the fields of its data, the policy
/// byte by byte.
pub proof fn law_mined_block_is_read_back<E, D: Difficulty, S>(
    sealed: SealedBlock<D, S>,
    params: BlockImportParams<E, S>,
    read: Result<PowAux<D>, Error>,
)
    requires
        sealed.aux.policy matches Some(policy) ==> policy@.len() <= 4294967295,
        call_ensures(SealedBlock::<D, S>::import::<E>, (sealed,), params),
        call_ensures(PowAux::<D>::read, (Ok(params.auxiliary@[0].1),), read),
    ensures
        is_import_of::<E, D, S>(sealed, params),
        read is Ok,
        read->Ok_0.difficulty == sealed.aux.difficulty,
        read->Ok_0.total_difficulty == sealed.aux.total_difficulty,
        same_policy(read->Ok_0.policy, sealed.aux.policy),
        read->Ok_0.steps == sealed.aux.steps,
{
    lemma_is_import_of::<E, D, S>(sealed, params);
    lemma_reads_back(sealed.aux, params.auxiliary@[0].1, read);
}

proof fn lemma_reads_back<D: Difficulty>(
    aux: PowAux<D>,
    stored: Option<Vec<u8>>,
    read: Result<PowAux<D>, Error>,
)
    requires
        aux@.fits(),
        opt_bytes_view(stored) == Some(aux@.encoding()),
        call_ensures(PowAux::<D>::read, (Ok(stored),), read),
    ensures
        read is Ok,
        read->Ok_0@ == aux@,
        read->Ok_0.difficulty == aux.difficulty,
        read->Ok_0.total_difficulty == aux.total_difficulty,
        same_policy(read->Ok_0.policy, aux.policy),
        read->Ok_0.steps == aux.steps,
{
    law_decode_inverts_encode(aux@, seq![]);
    assert(aux@.encoding() + seq![] =~= aux@.encoding());
    assert(read->Ok_0@ == aux@);
    assert(read->Ok_0@.policy == aux@.policy);
}

/// A sealed block is dropped exactly where what is read for the best block has a total above its
/// own; otherwise it is imported. Where nothing can be read, the miner stops.
pub proof fn law_only_blocks_that_are_not_lighter_are_imported<B: Hashing, E, D: Difficulty, S>(
    preruntime: &Option<Vec<u8>>,
    sealed: SealedBlock<D, S>,
    stored: Result<Option<Vec<u8>>, String>,
    best: Result<PowAux<D>, Error>,
    r: (MineState<D, S>, MineAction<E, S>),
)
    requires
        call_ensures(PowAux::<D>::read, (stored,), best),
        call_ensures(
            step::<B, E, D, S>,
            (preruntime, MineState::<D, S>::ReadingBest(sealed), MineEvent::<S>::Stored(stored)),
            r,
        ),
    ensures
        best matches Err(e) ==> r.0 is Stopped && (r.1 matches MineAction::Stop(f) && f@ == e@),
        best matches Ok(aux) ==> {
            &&& aux.total_difficulty.rank() > sealed.aux.total_difficulty.rank() ==> r.0 is Idle
                && r.1 is AskSyncing
            &&& aux.total_difficulty.rank() <= sealed.aux.total_difficulty.rank() ==> {
                &&& r.0 == MineState::<D, S>::Importing(sealed.best_hash)
                &&& r.1 matches MineAction::Import(params) && is_import_of::<E, D, S>(
                    sealed,
                    params,
                )
            }
        },
{
    if best is Ok {
        let aux = best->Ok_0;
        assert(aux@.total_difficulty == aux.total_difficulty);
        if aux.total_difficulty.rank() <= sealed.aux.total_difficulty.rank() {
            lemma_is_import_of::<E, D, S>(sealed, r.1->Import_0);
        }
    }
}

/// From the seal to the storage: what is read back for a block that was mined and imported has the
/// policy that its seal holds, byte by byte, the difficulty that was stored for its parent, which
/// is also what its total grew by, and the steps that were stored for its parent.
pub proof fn law_mined_block_extends_its_parent<B: Hashing, E, D: Difficulty, S>(
    preruntime: &Option<Vec<u8>>,
    job: Job<D, S>,
    seal: Seal,
    policy: Vec<u8>,
    sealing: (MineState<D, S>, MineAction<E, S>),
    sealed: SealedBlock<D, S>,
    stored: Result<Option<Vec<u8>>, String>,
    r: (MineState<D, S>, MineAction<E, S>),
    params: BlockImportParams<E, S>,
    read: Result<PowAux<D>, Error>,
)
    requires
        policy@.len() <= 4294967295,
        call_ensures(
            step::<B, E, D, S>,
            (
                preruntime,
                MineState::<D, S>::Mining(job),
                MineEvent::<S>::Mined(Ok(Some((seal, policy)))),
            ),
            sealing,
        ),
        sealing.0 == MineState::<D, S>::ReadingBest(sealed),
        call_ensures(
            step::<B, E, D, S>,
            (preruntime, MineState::<D, S>::ReadingBest(sealed), MineEvent::<S>::Stored(stored)),
            r,
        ),
        r.1 == MineAction::<E, S>::Import(params),
        call_ensures(PowAux::<D>::read, (Ok(params.auxiliary@[0].1),), read),
    ensures
        read is Ok,
        read->Ok_0.policy matches Some(p) && p@ == policy@,
        read->Ok_0.difficulty == job.aux.difficulty,
        read->Ok_0.total_difficulty == job.aux.total_difficulty.incremented(job.aux.difficulty),
        read->Ok_0.steps == job.aux.steps,
        params.header@ == job.header@,
        params.post_digests@.len() == 1,
        params.post_digests@[0]@ == DigestItemView::Seal(pow_(), seal@),
        params.storage_changes == Some(job.storage_changes),
        params.auxiliary@[0].0@ == seq![0x50u8, 0x6f, 0x57, 0x3a] + B::header_hash(
            HeaderView {
                digest: job.header@.digest.push(DigestItemView::Seal(pow_(), seal@)),
                ..job.header@
            },
        ),
{
    lemma_is_mined::<B, D, S>(job, seal@, policy@, sealed);
    lemma_is_import_of::<E, D, S>(sealed, params);
    lemma_reads_back(sealed.aux, params.auxiliary@[0].1, read);
}

/// Once a mined block is imported and the chain selection names its header, with the seal as the
/// last entry of the digest, both the miner and the check of other blocks look its data up under
/// the key that the import stored it under.
pub proof fn law_mined_block_is_found_where_it_was_stored<B: Hashing, E, D: Difficulty, S>(
    preruntime: &Option<Vec<u8>>,
    job: Job<D, S>,
    seal: Seal,
    policy: Vec<u8>,
    sealed: SealedBlock<D, S>,
    params: BlockImportParams<E, S>,
    header: Header,
    finding: (MineState<D, S>, MineAction<E, S>),
    reading: (MineState<D, S>, MineAction<E, S>),
    block: Verification<E>,
    located: Result<Located<E>, String>,
    key: Vec<u8>,
)
    requires
        call_ensures(Job::<D, S>::seal::<B>, (job, seal, policy), sealed),
        call_ensures(SealedBlock::<D, S>::import::<E>, (sealed,), params),
        header@ == (HeaderView {
            digest: params.header@.digest.push(params.post_digests@[0]@),
            ..params.header@
        }),
        call_ensures(
            step::<B, E, D, S>,
            (
                preruntime,
                MineState::<D, S>::FindingBest,
                MineEvent::<S>::Best(BestHeader::SelectChain(Ok(header))),
            ),
            finding,
        ),
        call_ensures(
            step::<B, E, D, S>,
            (preruntime, finding.0, MineEvent::<S>::Authorised(true)),
            reading,
        ),
        call_ensures(
            Verification::<E>::best::<B>,
            (block, BestBlock::SelectChain(Ok(header))),
            located,
        ),
        call_ensures(Located::<E>::best_key, (&located->Ok_0,), key),
    ensures
        reading.1 matches MineAction::ReadAux(k) && k@ == params.auxiliary@[0].0@,
        located is Ok,
        key@ == params.auxiliary@[0].0@,
{
    lemma_is_mined::<B, D, S>(job, seal@, policy@, sealed);
    lemma_is_import_of::<E, D, S>(sealed, params);
    assert(seq![0x50u8, 0x6f, 0x57, 0x3a] =~= crate::auxiliary::POW_AUX_PREFIX@);
}

/// After an import the miner starts over; where the import failed, it stops, and says on which
/// block the failed one was built.
pub proof fn law_miner_starts_over_after_an_import<B: Hashing, E, D: Difficulty, S>(
    preruntime: &Option<Vec<u8>>,
    hash: BlockHash,
    imported: Result<(), String>,
    r: (MineState<D, S>, MineAction<E, S>),
)
    requires
        call_ensures(
            step::<B, E, D, S>,
            (preruntime, MineState::<D, S>::Importing(hash), MineEvent::<S>::Imported(imported)),
            r,
        ),
    ensures
        imported is Ok ==> r.0 is Idle && r.1 is AskSyncing,
        imported matches Err(e) ==> r.0 is Stopped && (r.1 matches MineAction::Stop(
            Error::BlockBuiltError(on, text),
        ) && on@ == hash@ && text@ == e@),
{
}

/// An event can be gone on with exactly where the lengths in it take no more than thirty-two bits,
/// and a proposed header has room for one more entry.
pub proof fn law_encodable_events<S>(event: &MineEvent<S>, r: bool)
    requires
        call_ensures(MineEvent::<S>::is_encodable, (event,), r),
    ensures
        match *event {
            MineEvent::Best(BestHeader::SelectChain(Ok(header))) => r == header@.fits(),
            MineEvent::Proposed(Ok(proposal)) => r == (proposal.header@.fits()
                && proposal.header.digest@.len() < 4294967295),
            MineEvent::Mined(Ok(Some((seal, policy)))) => r == (seal@.len() <= 4294967295
                && policy@.len() <= 4294967295),
            _ => r,
        },
        r == event.fits(),
{
}

} // verus!
