//! What the functions of the engine can be given: everything but what is too long to be encoded.
use crate::algorithm::PowAlgorithm;
use crate::auxiliary::{aux_key, PowAux, PowIntermediate};
use crate::difficulty::Difficulty;
use crate::error::Error;
use crate::header::{
    BlakeTwo256, BlockHash, BlockId, DigestItem, DigestItemView, Hashing, Header, Seal,
};
use crate::import::{BlockImportParams, BlockOrigin};
use crate::inherents::{
    create, judge_errors, judge_inherents, register_pow_inherent_data_provider, InherentIdentifier,
    InherentsVerdict,
};
use crate::laws::blocks::pow_;
use crate::laws::headers::data_len;
use crate::mining::{
    create_inherents, inherent_digest, start, step, BestHeader, Job, MineEvent, MineState,
    SealedBlock,
};
use crate::scale::is_encodable_len;
use crate::verification::{
    conclude, unseal, BestBlock, Candidate, Checked, Located, PowVerifier, Verification,
};
use vstd::prelude::*;

verus! {

/// The header can be encoded: no length in it takes more than thirty-two bits.
pub open spec fn is_short(header: Header) -> bool {
    &&& header.digest@.len() <= 4294967295
    &&& forall|i: int|
        0 <= i < header.digest@.len() ==> data_len(#[trigger] header.digest@[i]) <= 4294967295
}

/// The policy, if there is one, can be encoded.
pub open spec fn has_short_policy<D>(aux: PowAux<D>) -> bool {
    aux.policy matches Some(policy) ==> policy@.len() <= 4294967295
}

proof fn lemma_short(header: Header)
    requires
        is_short(header),
    ensures
        header@.fits(),
{
    assert forall|i: int| 0 <= i < header@.digest.len() implies #[trigger] header@.digest[i].fits()
        by {
        assert(data_len(header.digest@[i]) <= 4294967295);
    }
}

/// Whatever is stored can be read, whatever bytes there are can be decoded, and data with a policy
/// that is not too long can be encoded.
pub proof fn law_any_stored_data_can_be_read<D: Difficulty>(
    hash: &[u8],
    stored: Result<Option<Vec<u8>>, String>,
    bytes: &[u8],
    aux: &PowAux<D>,
    value: &PowIntermediate<D>,
    len: usize,
)
    requires
        has_short_policy(*aux),
        value.policy matches Some(policy) ==> policy@.len() <= 4294967295,
    ensures
        call_requires(aux_key, (hash,)),
        call_requires(PowAux::<D>::read, (stored,)),
        call_requires(PowAux::<D>::decode, (bytes,)),
        call_requires(PowAux::<D>::encode, (aux,)),
        call_requires(<PowAux<D> as Default>::default, ()),
        call_requires(PowIntermediate::<D>::decode, (bytes,)),
        call_requires(PowIntermediate::<D>::encode, (value,)),
        call_requires(is_encodable_len, (len,)),
{
}

/// Any header whose lengths can be encoded can be hashed and checked, on any parent; any error has
/// words.
pub proof fn law_any_short_header_can_be_checked<B: Hashing, A: PowAlgorithm>(
    verifier: &PowVerifier<B, A>,
    header: Header,
    parent: BlockId,
    item: &DigestItem,
    e: Error,
)
    requires
        is_short(header),
    ensures
        call_requires(Header::is_encodable, (&header,)),
        call_requires(DigestItem::is_encodable, (item,)),
        call_requires(<BlakeTwo256 as Hashing>::hash, (&header,)),
        call_requires(unseal::<B>, (header,)),
        call_requires(PowVerifier::<B, A>::check_header, (verifier, header, parent)),
        call_requires(Error::to_string, (&e,)),
        call_requires(<String as From<Error>>::from, (e,)),
{
    lemma_short(header);
}

/// The check of a block can begin with whatever comes, go on with any best block whose header can
/// be hashed, with whatever is stored, and with whatever the runtime answers.
pub proof fn law_any_short_block_can_be_verified<B: Hashing, A: PowAlgorithm, E>(
    verifier: &PowVerifier<B, A>,
    origin: BlockOrigin,
    header: Header,
    justification: Option<Vec<u8>>,
    body: Option<Vec<E>>,
    data: Result<sp_inherents::InherentData, String>,
    block: Verification<E>,
    best: BestBlock,
    located: Located<E>,
    best_stored: Result<Option<Vec<u8>>, String>,
    parent_stored: Result<Option<Vec<u8>>, String>,
    checked: Checked<E, A::Difficulty>,
    answer: Result<sp_inherents::CheckInherentsResult, String>,
    seal: Seal,
    policy: Option<Vec<u8>>,
    valid: Result<bool, Error>,
)
    requires
        best matches BestBlock::SelectChain(Ok(h)) ==> is_short(h),
        is_short(located.block.header),
    ensures
        call_requires(
            PowVerifier::<B, A>::verify::<E>,
            (verifier, origin, header, justification, body),
        ),
        call_requires(
            Verification::<E>::begin,
            (origin, header, justification, body, data),
        ),
        call_requires(Verification::<E>::best::<B>, (block, best)),
        call_requires(Located::<E>::best_key, (&located,)),
        call_requires(Located::<E>::parent_key, (&located,)),
        call_requires(
            PowVerifier::<B, A>::check::<E>,
            (verifier, located, best_stored, parent_stored),
        ),
        call_requires(PowVerifier::<B, A>::check_inherents::<E>, (verifier, checked)),
        call_requires(Candidate::<A::Difficulty>::judge, (&checked.candidate, answer)),
        call_requires(Candidate::<A::Difficulty>::is_storable, (&checked.candidate,)),
        call_requires(
            conclude::<A::Difficulty>,
            (header, seal, checked.candidate.aux.difficulty, policy, valid),
        ),
{
    if let BestBlock::SelectChain(Ok(h)) = best {
        lemma_short(h);
    }
    lemma_short(located.block.header);
}

/// A check can end with any error; where it ends well, the policy must not be too long.
pub proof fn law_any_check_can_end<E, D: Difficulty>(
    candidate: Candidate<D>,
    inherents: Result<(), Error>,
)
    requires
        inherents is Ok ==> has_short_policy(candidate.aux),
    ensures
        call_requires(Candidate::<D>::finish::<E>, (candidate, inherents)),
{
}

/// Any report can be judged at any time, and any verdict comes to something, but for one that says
/// that the clock is out of range.
pub proof fn law_any_report_can_be_judged(
    errors: &Vec<(InherentIdentifier, Vec<u8>)>,
    result: sp_inherents::CheckInherentsResult,
    now: u64,
    verdict: InherentsVerdict,
    providers: &sp_inherents::InherentDataProviders,
)
    requires
        !(verdict is ClockOutOfRange),
    ensures
        call_requires(judge_errors, (errors, now)),
        call_requires(judge_inherents, (result, now)),
        call_requires(InherentsVerdict::outcome, (verdict, providers)),
        call_requires(register_pow_inherent_data_provider, (providers,)),
        call_requires(create, (providers,)),
{
}

/// Any header and data whose lengths can be encoded can be handed to the importer.
pub proof fn law_any_short_block_can_be_imported<E, S, D: Difficulty>(
    origin: BlockOrigin,
    header: Header,
    seal: DigestItem,
    hash: &BlockHash,
    aux: &PowAux<D>,
    best: bool,
    sealed: SealedBlock<D, S>,
)
    requires
        has_short_policy(*aux),
        has_short_policy(sealed.aux),
    ensures
        call_requires(BlockImportParams::<E, S>::new, (origin, header)),
        call_requires(
            BlockImportParams::<E, S>::sealed::<D>,
            (origin, header, seal, hash, aux, best),
        ),
        call_requires(SealedBlock::<D, S>::import::<E>, (sealed,)),
{
}

/// A block can be mined on, and sealed: the hash is that of its header, which has room for a seal,
/// and no length in it is too long.
pub open spec fn is_ready<B: Hashing, D: Difficulty, S>(job: Job<D, S>) -> bool {
    &&& job.pre_hash@ == B::header_hash(job.header@)
    &&& is_short(job.header)
    &&& job.header.digest@.len() < 4294967295
    &&& has_short_policy(job.aux)
}

/// Whatever comes of what the miner asked for, it can go on: at every point with any event that
/// answers its question, whether it tells of a success or of a failure, as long as no length in
/// it is too long.
pub proof fn law_miner_can_always_go_on<B: Hashing, E, D: Difficulty, S>(
    preruntime: &Option<Vec<u8>>,
    state: MineState<D, S>,
    event: MineEvent<S>,
)
    requires
        match (state, event) {
            (MineState::Idle, MineEvent::Syncing(_)) => true,
            (MineState::FindingBest, MineEvent::Best(best)) => best matches BestHeader::SelectChain(
                Ok(header),
            ) ==> is_short(header),
            (MineState::Authorising(_, _), MineEvent::Authorised(_)) => true,
            (MineState::ReadingParent(_, _), MineEvent::Stored(_)) => true,
            (MineState::Initialising(_, aux), MineEvent::Initialised(_)) => has_short_policy(aux),
            (
                MineState::CreatingInherents(_, aux),
                MineEvent::InherentsCreated(_),
            ) => has_short_policy(aux),
            (MineState::Proposing(_, aux), MineEvent::Proposed(r)) => has_short_policy(aux) && (
            r matches Ok(proposal) ==> is_short(proposal.header) && proposal.header.digest@.len()
                < 4294967295),
            (MineState::Mining(job), MineEvent::Mined(r)) => is_ready::<B, D, S>(job) && (
            r matches Ok(Some((seal, policy))) ==> seal@.len() <= 4294967295 && policy@.len()
                <= 4294967295),
            (MineState::ComparingBest(job), MineEvent::BestNow(_)) => is_ready::<B, D, S>(job),
            (MineState::ReadingBest(sealed), MineEvent::Stored(_)) => has_short_policy(sealed.aux)
                && (sealed.seal@ matches DigestItemView::Seal(id, _) && id == pow_())
                && sealed.hash@ == B::header_hash(
                crate::header::HeaderView {
                    digest: sealed.header@.digest.push(sealed.seal@),
                    ..sealed.header@
                },
            ),
            (MineState::Importing(_), MineEvent::Imported(_)) => true,
            _ => false,
        },
    ensures
        call_requires(step::<B, E, D, S>, (preruntime, state, event)),
{
    assert(pow_() =~= crate::import::POW_ENGINE_ID@);
    match (state, event) {
        (MineState::FindingBest, MineEvent::Best(best)) => {
            if let BestHeader::SelectChain(Ok(header)) = best {
                lemma_short(header);
            }
        },
        (MineState::Proposing(_, _), MineEvent::Proposed(r)) => {
            if let Ok(proposal) = r {
                lemma_short(proposal.header);
            }
        },
        (MineState::Mining(job), _) => lemma_short(job.header),
        (MineState::ComparingBest(job), _) => lemma_short(job.header),
        _ => {},
    }
}

/// The parts of the miner can be called with anything that is not too long.
pub proof fn law_parts_of_the_miner_take_anything<B: Hashing, A: PowAlgorithm, E, S>(
    best: BestHeader,
    preruntime: &Option<Vec<u8>>,
    providers: &sp_inherents::InherentDataProviders,
    job: Job<A::Difficulty, S>,
    algorithm: &A,
    rounds: usize,
    seal: Seal,
    policy: Vec<u8>,
    event: &MineEvent<S>,
)
    requires
        best matches BestHeader::SelectChain(Ok(header)) ==> is_short(header),
        is_ready::<B, A::Difficulty, S>(job),
        seal@.len() <= 4294967295,
        policy@.len() <= 4294967295,
    ensures
        call_requires(start::<E, A::Difficulty, S>, ()),
        call_requires(BestHeader::resolve::<B>, (best,)),
        call_requires(inherent_digest, (preruntime,)),
        call_requires(create_inherents::<S>, (providers,)),
        call_requires(Job::<A::Difficulty, S>::mine::<A>, (&job, algorithm, rounds)),
        call_requires(Job::<A::Difficulty, S>::seal::<B>, (job, seal, policy)),
        call_requires(MineEvent::<S>::is_encodable, (event,)),
{
    if let BestHeader::SelectChain(Ok(header)) = best {
        lemma_short(header);
    }
    lemma_short(job.header);
}

} // verus!
