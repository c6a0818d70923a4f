//! What holds of the engine as a whole.
//!
//! The modules below state, call by call, what goes in and what comes out; the laws in this file
//! relate the parts of the engine to one another.
use crate::algorithm::PowAlgorithm;
use crate::auxiliary::{aux_key_of, law_read_after_write, stored_view, PowAuxView};
use crate::difficulty::{lemma_u256_of, lemma_u256_value, u256_max, Difficulty, U256};
use crate::error::{Error, ErrorView};
use crate::header::{law_pop_undoes_push, BlockHash, BlockId, DigestItemView, Hashing, HeaderView};
use crate::import::{
    BlockImportParams, BlockImportParamsView, BlockOrigin, ForkChoiceStrategy, POW_ENGINE_ID,
};
use crate::inherents::{is_outcome, is_verdict, law_verdict_is_unique, InherentsVerdictView};
use crate::mining::{steps_to, Job, MineAction, MineEvent, MineState, PAUSE_SECS, SealedBlock};
use crate::scale::opt_bytes_view;
use crate::verification::{
    header_check, is_check_result, is_checked, is_inherents_step, is_judged, may_verify,
    policy_check, seal_check, unsealed, Checked, CheckedHeader, InherentsStep, PowVerifier,
    Verification,
};
use vstd::prelude::*;

pub mod amounts;
pub mod blocks;
pub mod headers;
pub mod inputs;
pub mod miner;
pub mod storage;
pub mod timestamps;
pub mod views;
pub mod words;

verus! {

/// Taking the seal off a sealed header gives back the header and the seal: the verifier asks
/// the algorithm about the very hash and the very seal that the miner found.
pub proof fn law_unsealing_undoes_sealing<B: Hashing>(header: HeaderView, seal: Seq<u8>)
    ensures
        unsealed::<B>(header.with_digest(DigestItemView::Seal(POW_ENGINE_ID@, seal))) == Ok::<
            (HeaderView, Seq<u8>),
            ErrorView,
        >((header, seal)),
{
    law_pop_undoes_push(header, DigestItemView::Seal(POW_ENGINE_ID@, seal));
}

/// A header passes only with a seal of this engine as its last digest entry, whatever the
/// algorithm says; and the header that comes out, with the seal put back on, is the one that
/// went in.
pub proof fn law_only_sealed_headers_pass<B: Hashing, A: PowAlgorithm>(
    algorithm: &A,
    header: HeaderView,
    parent: &BlockId,
    checked: CheckedHeader<A::Difficulty>,
)
    requires
        header_check::<B, A>(
            algorithm,
            header,
            parent,
            Ok::<CheckedHeader<A::Difficulty>, Error>(checked),
        ),
    ensures
        header.digest.len() > 0,
        header.digest.last() matches DigestItemView::Seal(id, _) && id == POW_ENGINE_ID@,
        checked.3@ == header.digest.last(),
        checked.0@ == header.without_last_digest(),
        checked.0@.with_digest(checked.3@) == header,
{
    let r = Ok::<CheckedHeader<A::Difficulty>, Error>(checked);
    let (pre_header, seal) = unsealed::<B>(header)->Ok_0;
    let difficulty = choose|difficulty: Result<A::Difficulty, Error>| #[trigger]
        call_ensures(A::difficulty, (algorithm, parent), difficulty) && match difficulty {
            Err(e) => r is Err && r->Err_0 == e,
            Ok(difficulty) => policy_check::<B, A>(
                algorithm,
                pre_header,
                seal,
                parent,
                difficulty,
                r,
            ),
        };
    assert(policy_check::<B, A>(algorithm, pre_header, seal, parent, difficulty->Ok_0, r));
    let policy = choose|policy: Result<Option<Vec<u8>>, Error>| #[trigger]
        call_ensures(A::policy, (algorithm, parent), policy) && match policy {
            Err(e) => r is Err && r->Err_0 == e,
            Ok(policy) => seal_check::<B, A>(
                algorithm,
                pre_header,
                seal,
                parent,
                difficulty->Ok_0,
                opt_bytes_view(policy),
                r,
            ),
        };
    assert(seal_check::<B, A>(
        algorithm,
        pre_header,
        seal,
        parent,
        difficulty->Ok_0,
        opt_bytes_view(policy->Ok_0),
        r,
    ));
    assert(header.digest.drop_last().push(header.digest.last()) =~= header.digest);
}

/// A block without a seal of this engine is refused, whatever the algorithm says, and the
/// answer says why.
pub proof fn law_unsealed_blocks_are_refused<B: Hashing, A: PowAlgorithm, E>(
    algorithm: &A,
    block: Verification<E>,
    best: Result<PowAuxView<A::Difficulty>, ErrorView>,
    parent: Result<PowAuxView<A::Difficulty>, ErrorView>,
    r: Result<Checked<E, A::Difficulty>, String>,
)
    requires
        unsealed::<B>(block.header@) is Err,
        best is Ok,
        parent is Ok,
        is_check_result::<B, A, E>(algorithm, block, best, parent, r),
    ensures
        r is Err,
        r->Err_0@ == unsealed::<B>(block.header@)->Err_0.text(),
{
}

/// What the miner sealed passes the check of a node whose algorithm names the difficulty and
/// the policy that it was mined for, and finds the seal valid for the hash of the header.
pub proof fn law_mined_header_passes<B: Hashing, A: PowAlgorithm, S>(
    algorithm: &A,
    job: Job<A::Difficulty, S>,
    seal: Seq<u8>,
    policy: Seq<u8>,
    sealed: SealedBlock<A::Difficulty, S>,
    parent: &BlockId,
    r: Result<CheckedHeader<A::Difficulty>, Error>,
)
    requires
        job.is_sealed_as::<B>(seal, policy, sealed),
        forall|d: Result<A::Difficulty, Error>| #[trigger]
            call_ensures(A::difficulty, (algorithm, parent), d) ==> d == Ok::<
                A::Difficulty,
                Error,
            >(job.aux.difficulty),
        forall|p: Result<Option<Vec<u8>>, Error>| #[trigger]
            call_ensures(A::policy, (algorithm, parent), p) ==> p is Ok && opt_bytes_view(p->Ok_0)
                == Some(policy),
        forall|v: Result<bool, Error>| #[trigger]
            may_verify(
                algorithm,
                parent,
                B::header_hash(job.header@),
                seal,
                job.aux.difficulty,
                Some(policy),
                v,
            ) ==> v == Ok::<bool, Error>(true),
        header_check::<B, A>(algorithm, sealed.header@.with_digest(sealed.seal@), parent, r),
    ensures
        r is Ok,
        r->Ok_0.0@ == sealed.header@,
        r->Ok_0.1 == job.aux.difficulty,
        opt_bytes_view(r->Ok_0.2) == Some(policy),
        r->Ok_0.3@ == sealed.seal@,
{
    law_unsealing_undoes_sealing::<B>(sealed.header@, seal);
    assert(policy_check::<B, A>(algorithm, job.header@, seal, parent, job.aux.difficulty, r));
    assert(seal_check::<B, A>(
        algorithm,
        job.header@,
        seal,
        parent,
        job.aux.difficulty,
        Some(policy),
        r,
    ));
}

/// A block that was mined on one node is stored alike on another that checks it, provided
/// that both have the same data of its parent, and the algorithm names the difficulty and the
/// policy that it was mined for.
pub proof fn law_verifier_stores_what_miner_stored<B: Hashing, A: PowAlgorithm, E, S>(
    algorithm: &A,
    job: Job<A::Difficulty, S>,
    seal: Seq<u8>,
    policy: Seq<u8>,
    sealed: SealedBlock<A::Difficulty, S>,
    block: Verification<E>,
    parent: &BlockId,
    header: CheckedHeader<A::Difficulty>,
    best_aux: PowAuxView<A::Difficulty>,
    checked: Checked<E, A::Difficulty>,
)
    requires
        job.is_sealed_as::<B>(seal, policy, sealed),
        block.header@ == sealed.header@.with_digest(sealed.seal@),
        header_check::<B, A>(
            algorithm,
            block.header@,
            parent,
            Ok::<CheckedHeader<A::Difficulty>, Error>(header),
        ),
        header.1 == job.aux.difficulty,
        opt_bytes_view(header.2) == Some(policy),
        is_checked::<B, E, A::Difficulty>(checked, block, header, job.aux@, best_aux),
    ensures
        checked.candidate.header@ == sealed.header@,
        checked.candidate.seal@ == sealed.seal@,
        checked.candidate.hash@ == sealed.hash@,
        checked.candidate.aux@ == sealed.aux@,
{
    law_only_sealed_headers_pass::<B, A>(algorithm, block.header@, parent, header);
    law_pop_undoes_push(sealed.header@, sealed.seal@);
}

/// What the importer stores for a block is what is read for it afterwards.
pub proof fn law_imported_data_is_read_back<E, S, D: Difficulty>(
    origin: BlockOrigin,
    header: HeaderView,
    seal: DigestItemView,
    hash: Seq<u8>,
    aux: PowAuxView<D>,
    best: bool,
)
    requires
        aux.fits(),
    ensures
        ({
            let params = BlockImportParamsView::<E, S>::sealed(
                origin,
                header,
                seal,
                hash,
                aux,
                best,
            );
            &&& params.auxiliary.len() == 1
            &&& params.auxiliary[0].0 == aux_key_of(hash)
            &&& PowAuxView::<D>::read_from(Ok(params.auxiliary[0].1)) == Ok::<
                PowAuxView<D>,
                ErrorView,
            >(aux)
        }),
{
    law_read_after_write(aux);
}

/// A block never lowers the total difficulty, and raises it by its own difficulty as long as
/// the sum is in range.
pub proof fn law_total_difficulty_never_falls(total: u128, difficulty: u128)
    ensures
        total.incremented(difficulty).rank() >= total.rank(),
        total + difficulty <= u128::MAX ==> total.incremented(difficulty).rank() == total.rank()
            + difficulty.rank(),
{
}

/// The same for difficulties of 256 bits.
pub proof fn law_total_difficulty_never_falls_256(total: U256, difficulty: U256)
    ensures
        total.incremented(difficulty).rank() >= total.rank(),
        total.rank() + difficulty.rank() <= u256_max() ==> total.incremented(difficulty).rank()
            == total.rank() + difficulty.rank(),
{
    lemma_u256_value(total);
    lemma_u256_of(total.value() + difficulty.value());
    lemma_u256_of(u256_max());
}

/// Difficulties add up in any order.
pub proof fn law_total_difficulty_ignores_order(total: u128, a: u128, b: u128)
    ensures
        total.incremented(a).incremented(b) == total.incremented(b).incremented(a),
{
}

/// The same for difficulties of 256 bits.
pub proof fn law_total_difficulty_ignores_order_256(total: U256, a: U256, b: U256)
    ensures
        total.incremented(a).incremented(b) == total.incremented(b).incremented(a),
{
    lemma_u256_value(total);
    lemma_u256_value(a);
    lemma_u256_value(b);
    lemma_u256_of(total.value() + a.value());
    lemma_u256_of(total.value() + b.value());
    lemma_u256_of(u256_max());
}

/// A block that was sealed is handed to the importer, and not dropped, as long as the data of
/// the best block is still what it was built on, and its difficulty does not lower the total.
pub proof fn law_sealed_block_is_imported<B: Hashing, E, D: Difficulty, S>(
    preruntime: Option<Seq<u8>>,
    job: Job<D, S>,
    seal: Seq<u8>,
    policy: Seq<u8>,
    sealed: SealedBlock<D, S>,
    stored: Result<Option<Vec<u8>>, String>,
    next: MineState<D, S>,
    action: MineAction<E, S>,
)
    requires
        job.is_sealed_as::<B>(seal, policy, sealed),
        job.aux.total_difficulty.incremented(job.aux.difficulty).rank()
            >= job.aux.total_difficulty.rank(),
        PowAuxView::<D>::read_from(stored_view(stored)) == Ok::<PowAuxView<D>, ErrorView>(
            job.aux@,
        ),
        steps_to::<B, E, D, S>(
            preruntime,
            MineState::ReadingBest(sealed),
            MineEvent::Stored(stored),
            next,
            action,
        ),
    ensures
        next == MineState::<D, S>::Importing(job.best_hash),
        action is Import,
        action->Import_0@.fork_choice == Some(ForkChoiceStrategy::Custom(true)),
        action->Import_0@.post_digests == seq![DigestItemView::Seal(POW_ENGINE_ID@, seal)],
{
    assert(sealed.aux.total_difficulty == sealed.aux@.total_difficulty);
    assert(job.aux.total_difficulty == job.aux@.total_difficulty);
}

/// A block that is lighter than the best one by then is not imported.
pub proof fn law_lighter_block_is_dropped<B: Hashing, E, D: Difficulty, S>(
    preruntime: Option<Seq<u8>>,
    sealed: SealedBlock<D, S>,
    stored: Result<Option<Vec<u8>>, String>,
    best_aux: PowAuxView<D>,
    next: MineState<D, S>,
    action: MineAction<E, S>,
)
    requires
        PowAuxView::<D>::read_from(stored_view(stored)) == Ok::<PowAuxView<D>, ErrorView>(best_aux),
        best_aux.total_difficulty.rank() > sealed.aux.total_difficulty.rank(),
        steps_to::<B, E, D, S>(
            preruntime,
            MineState::ReadingBest(sealed),
            MineEvent::Stored(stored),
            next,
            action,
        ),
    ensures
        next is Idle,
        action is AskSyncing,
{
}

/// While the node is syncing, and while it cannot author, the miner does nothing but wait.
pub proof fn law_miner_waits<B: Hashing, E, D: Difficulty, S>(
    preruntime: Option<Seq<u8>>,
    state: MineState<D, S>,
    event: MineEvent<S>,
    next: MineState<D, S>,
    action: MineAction<E, S>,
)
    requires
        steps_to::<B, E, D, S>(preruntime, state, event, next, action),
        event == MineEvent::<S>::Syncing(true) || event == MineEvent::<S>::Authorised(false),
    ensures
        next is Idle,
        action == MineAction::<E, S>::PauseThenAskSyncing(PAUSE_SECS),
{
}

/// A search without result goes on for the same block exactly as long as the best block stays
/// the one it is built on.
pub proof fn law_search_goes_on_while_best_stays<B: Hashing, E, D: Difficulty, S>(
    preruntime: Option<Seq<u8>>,
    job: Job<D, S>,
    best_hash: BlockHash,
    next: MineState<D, S>,
    action: MineAction<E, S>,
)
    requires
        steps_to::<B, E, D, S>(
            preruntime,
            MineState::ComparingBest(job),
            MineEvent::BestNow(best_hash),
            next,
            action,
        ),
    ensures
        best_hash@ == job.best_hash@ <==> next == MineState::<D, S>::Mining(job),
        best_hash@ == job.best_hash@ <==> action is Mine,
{
}

/// Whatever the miner imports is a block of its own with one seal of this engine, stored
/// under the hash of its header with that seal, and becomes the best block.
pub proof fn law_only_sealed_blocks_are_imported<B: Hashing, E, D: Difficulty, S>(
    preruntime: Option<Seq<u8>>,
    state: MineState<D, S>,
    event: MineEvent<S>,
    next: MineState<D, S>,
    action: MineAction<E, S>,
)
    requires
        state.well_formed::<B>(),
        steps_to::<B, E, D, S>(preruntime, state, event, next, action),
        action is Import,
    ensures
        ({
            let params = action->Import_0@;
            &&& state is ReadingBest
            &&& params.origin == BlockOrigin::Own
            &&& params.post_digests.len() == 1
            &&& params.post_digests[0] matches DigestItemView::Seal(id, _) && id == POW_ENGINE_ID@
            &&& params.auxiliary.len() == 1
            &&& params.auxiliary[0].0 == aux_key_of(
                B::header_hash(params.header.with_digest(params.post_digests[0])),
            )
            &&& params.fork_choice == Some(ForkChoiceStrategy::Custom(true))
            &&& !params.finalized
            &&& params.justification is None
        }),
{
}

/// The importer gets a checked block without its seal, with the seal beside it, and stores
/// its data under the hash of the two together, which is the hash of the block.
pub proof fn law_checked_block_is_stored_under_its_hash<B: Hashing, A: PowAlgorithm, E>(
    algorithm: &A,
    block: Verification<E>,
    parent: &BlockId,
    header: CheckedHeader<A::Difficulty>,
    parent_aux: PowAuxView<A::Difficulty>,
    best_aux: PowAuxView<A::Difficulty>,
    checked: Checked<E, A::Difficulty>,
)
    requires
        header_check::<B, A>(
            algorithm,
            block.header@,
            parent,
            Ok::<CheckedHeader<A::Difficulty>, Error>(header),
        ),
        is_checked::<B, E, A::Difficulty>(checked, block, header, parent_aux, best_aux),
    ensures
        ({
            let params = checked.candidate.import_view::<E>();
            &&& params.post_digests.len() == 1
            &&& params.header.with_digest(params.post_digests[0]) == block.header@
            &&& params.auxiliary.len() == 1
            &&& params.auxiliary[0].0 == aux_key_of(B::header_hash(block.header@))
        }),
{
    law_only_sealed_headers_pass::<B, A>(algorithm, block.header@, parent, header);
}

/// Along the chain of a checked block the total difficulty grows by the difficulty that the
/// algorithm named, and only a total above that of the best block makes it the best one.
pub proof fn law_heavier_chain_wins<B: Hashing, E, D: Difficulty>(
    block: Verification<E>,
    header: CheckedHeader<D>,
    parent_aux: PowAuxView<D>,
    best_aux: PowAuxView<D>,
    checked: Checked<E, D>,
)
    requires
        is_checked::<B, E, D>(checked, block, header, parent_aux, best_aux),
    ensures
        checked.candidate.import_view::<E>().fork_choice == Some(
            ForkChoiceStrategy::Custom(
                parent_aux.total_difficulty.incremented(header.1).rank()
                    > best_aux.total_difficulty.rank(),
            ),
        ),
{
    assert(checked.candidate.aux.total_difficulty == checked.candidate.aux@.total_difficulty);
}

/// `inherents` is what stands against the inherents of a block, if anything does: nothing where
/// the runtime is not asked, otherwise what its answer comes to.
pub open spec fn is_inherents_result<E, D>(
    providers: &sp_inherents::InherentDataProviders,
    step: InherentsStep<E, D>,
    answer: Result<sp_inherents::CheckInherentsResult, String>,
    inherents: Result<(), Error>,
) -> bool {
    match step {
        InherentsStep::Skip(_) => inherents is Ok,
        InherentsStep::Ask(_, _, _, candidate) => exists|verdict: InherentsVerdictView|
            is_judged(answer, candidate.now, verdict) && #[trigger] is_outcome(
                providers,
                verdict,
                inherents,
            ),
    }
}

/// Once the header of a block has passed, its inherents decide. The runtime is asked exactly
/// where the body is known and the number is not below the first that is checked; it gets the
/// block without its seal, at the state after the parent. A block on which it is not asked is
/// imported. One on which it is asked is imported exactly where nothing stands against its
/// inherents; where something does, the check ends with the text of that error.
pub proof fn law_inherents_decide<B: Hashing, A: PowAlgorithm, E>(
    verifier: &PowVerifier<B, A>,
    block: Verification<E>,
    parent: &BlockId,
    header: CheckedHeader<A::Difficulty>,
    parent_aux: PowAuxView<A::Difficulty>,
    best_aux: PowAuxView<A::Difficulty>,
    checked: Checked<E, A::Difficulty>,
    step: InherentsStep<E, A::Difficulty>,
    answer: Result<sp_inherents::CheckInherentsResult, String>,
    inherents: Result<(), Error>,
    r: Result<BlockImportParams<E, ()>, String>,
)
    requires
        header_check::<B, A>(
            &verifier.algorithm,
            block.header@,
            parent,
            Ok::<CheckedHeader<A::Difficulty>, Error>(header),
        ),
        is_checked::<B, E, A::Difficulty>(checked, block, header, parent_aux, best_aux),
        is_inherents_step(verifier.check_inherents_after, checked, step),
        is_inherents_result(&verifier.inherent_data_providers, step, answer, inherents),
        checked.candidate.is_finished(inherents, r),
    ensures
        step is Ask <==> block.body is Some && block.header.number
            >= verifier.check_inherents_after,
        step matches InherentsStep::Ask(id, handed, data, _) ==> {
            &&& id matches BlockId::Hash(hash) && hash@ == block.header@.parent_hash
            &&& handed.header@ == block.header@.without_last_digest()
            &&& block.body == Some(handed.extrinsics)
            &&& data == block.inherent_data
        },
        step is Skip ==> r is Ok,
        step is Ask ==> (r is Ok <==> answer is Ok && is_verdict(
            answer->Ok_0,
            block.now,
            InherentsVerdictView::Accepted,
        )),
        r is Ok <==> inherents is Ok,
        r is Ok ==> r->Ok_0@ == checked.candidate.import_view::<E>(),
        r is Err ==> r->Err_0@ == inherents->Err_0@.text(),
{
    law_only_sealed_headers_pass::<B, A>(&verifier.algorithm, block.header@, parent, header);
    assert(checked.candidate.header.number == checked.candidate.header@.number);
    assert(block.header.number == block.header@.number);
    if step is Ask && answer is Ok {
        let verdict = choose|verdict: InherentsVerdictView|
            is_judged(answer, block.now, verdict) && #[trigger] is_outcome(
                &verifier.inherent_data_providers,
                verdict,
                inherents,
            );
        if is_verdict(answer->Ok_0, block.now, InherentsVerdictView::Accepted) {
            law_verdict_is_unique(
                answer->Ok_0,
                block.now,
                verdict,
                InherentsVerdictView::Accepted,
            );
        }
    }
}

/// How a block of a chain came to be stored.
pub enum Link<E, S, D> {
    /// It came from elsewhere and was checked.
    Checked {
        block: Verification<E>,
        header: CheckedHeader<D>,
        best_aux: PowAuxView<D>,
        checked: Checked<E, D>,
    },
    /// It was mined here.
    Mined { job: Job<D, S>, seal: Seq<u8>, policy: Seq<u8>, sealed: SealedBlock<D, S> },
}

impl<E, S, D: Difficulty> Link<E, S, D> {
    /// The hash of the parent.
    pub open spec fn parent_hash(self) -> Seq<u8> {
        match self {
            Link::Checked { block, .. } => block.header@.parent_hash,
            Link::Mined { job, .. } => job.best_hash@,
        }
    }

    /// The difficulty of the block: the one that the algorithm named, or the one that was mined
    /// for.
    pub open spec fn difficulty(self) -> D {
        match self {
            Link::Checked { header, .. } => header.1,
            Link::Mined { job, .. } => job.aux.difficulty,
        }
    }

    /// Whether the data of the block can be stored.
    pub open spec fn fits(self) -> bool {
        match self {
            Link::Checked { checked, .. } => checked.candidate.aux@.fits(),
            Link::Mined { sealed, .. } => sealed.aux@.fits(),
        }
    }

    /// What the importer stores for the block: a key, and the data under it.
    pub open spec fn entry(self) -> (Seq<u8>, Option<Seq<u8>>) {
        match self {
            Link::Checked { checked, .. } => checked.candidate.import_view::<E>().auxiliary[0],
            Link::Mined { sealed, .. } => sealed.import_view::<E>().auxiliary[0],
        }
    }

    /// The block was checked or mined, with this data read for its parent.
    pub open spec fn is_built_on<B: Hashing>(self, parent_aux: PowAuxView<D>) -> bool {
        match self {
            Link::Checked { block, header, best_aux, checked } => is_checked::<B, E, D>(
                checked,
                block,
                header,
                parent_aux,
                best_aux,
            ),
            Link::Mined { job, seal, policy, sealed } => job.aux@ == parent_aux
                && job.is_sealed_as::<B>(seal, policy, sealed),
        }
    }
}

/// What is found under the key of the parent of a block of a chain: what was stored for the
/// block before it, and nothing for the first.
pub open spec fn found_for_parent<E, S, D: Difficulty>(
    links: Seq<Link<E, S, D>>,
    i: int,
) -> Option<Seq<u8>> {
    if i == 0 {
        None
    } else {
        links[i - 1].entry().1
    }
}

/// A link stands on the one before it: what is stored for that one stands under the key that is
/// looked up for the parent, and is read back as the data that the link is built on.
pub open spec fn is_linked<B: Hashing, E, S, D: Difficulty>(
    links: Seq<Link<E, S, D>>,
    i: int,
) -> bool {
    let parent = PowAuxView::<D>::read_from(Ok(found_for_parent(links, i)));
    &&& links[i].fits()
    &&& i > 0 ==> links[i - 1].entry().0 == aux_key_of(links[i].parent_hash())
    &&& parent is Ok
    &&& links[i].is_built_on::<B>(parent->Ok_0)
}

/// A chain of stored blocks, each on top of the one before it, of which the first stands on a
/// block for which nothing is stored.
pub open spec fn is_chain<B: Hashing, E, S, D: Difficulty>(links: Seq<Link<E, S, D>>) -> bool {
    forall|i: int| 0 <= i < links.len() ==> #[trigger] is_linked::<B, E, S, D>(links, i)
}

/// The sum of the difficulties of the blocks of a chain.
pub open spec fn chain_work<E, S, D: Difficulty>(links: Seq<Link<E, S, D>>) -> nat
    decreases links.len(),
{
    if links.len() == 0 {
        0
    } else {
        chain_work(links.drop_last()) + links.last().difficulty().rank()
    }
}

/// What is read back for the last block of a chain, or, where the chain is empty, for the block
/// that it would start on.
pub open spec fn stored_aux<E, S, D: Difficulty>(links: Seq<Link<E, S, D>>) -> Result<
    PowAuxView<D>,
    ErrorView,
> {
    PowAuxView::<D>::read_from(Ok(found_for_parent(links, links.len() as int)))
}

/// What is read back for a block extends what is read back for its parent by the difficulty of
/// the block, whether the block was checked or mined.
pub proof fn law_stored_total_grows_by_the_difficulty<B: Hashing, E, S, D: Difficulty>(
    links: Seq<Link<E, S, D>>,
)
    requires
        is_chain::<B, E, S, D>(links),
        links.len() > 0,
    ensures
        is_chain::<B, E, S, D>(links.drop_last()),
        stored_aux(links) is Ok,
        stored_aux(links.drop_last()) is Ok,
        stored_aux(links)->Ok_0.difficulty == links.last().difficulty(),
        stored_aux(links)->Ok_0.total_difficulty
            == stored_aux(links.drop_last())->Ok_0.total_difficulty.incremented(
            links.last().difficulty(),
        ),
{
    let n = links.len() - 1;
    let before = links.drop_last();
    assert forall|i: int| 0 <= i < before.len() implies #[trigger] is_linked::<B, E, S, D>(
        before,
        i,
    ) by {
        assert(is_linked::<B, E, S, D>(links, i));
    }
    assert(is_linked::<B, E, S, D>(links, n));
    assert(found_for_parent(before, n) == found_for_parent(links, n));
    match links[n] {
        Link::Checked { checked, .. } => law_read_after_write(checked.candidate.aux@),
        Link::Mined { sealed, .. } => law_read_after_write(sealed.aux@),
    }
}

/// The total that is read back for the last block of a chain is the sum of the difficulties of
/// its blocks, up to the largest value, however each of them came to be stored.
pub proof fn law_stored_total_is_the_work_of_the_chain<B: Hashing, E, S>(
    links: Seq<Link<E, S, u128>>,
)
    requires
        is_chain::<B, E, S, u128>(links),
    ensures
        stored_aux(links) is Ok,
        stored_aux(links)->Ok_0.total_difficulty.rank() == (if chain_work(links) <= u128::MAX {
            chain_work(links)
        } else {
            u128::MAX as nat
        }),
    decreases links.len(),
{
    if links.len() > 0 {
        law_stored_total_grows_by_the_difficulty::<B, E, S, u128>(links);
        law_stored_total_is_the_work_of_the_chain::<B, E, S>(links.drop_last());
    }
}

/// The same for difficulties of 256 bits.
pub proof fn law_stored_total_is_the_work_of_the_chain_256<B: Hashing, E, S>(
    links: Seq<Link<E, S, U256>>,
)
    requires
        is_chain::<B, E, S, U256>(links),
    ensures
        stored_aux(links) is Ok,
        stored_aux(links)->Ok_0.total_difficulty.rank() == (if chain_work(links) <= u256_max() {
            chain_work(links)
        } else {
            u256_max()
        }),
    decreases links.len(),
{
    if links.len() > 0 {
        law_stored_total_grows_by_the_difficulty::<B, E, S, U256>(links);
        law_stored_total_is_the_work_of_the_chain_256::<B, E, S>(links.drop_last());
        let total = stored_aux(links.drop_last())->Ok_0.total_difficulty;
        lemma_u256_of(total.value() + links.last().difficulty().value());
        lemma_u256_of(u256_max());
    }
}

} // verus!
