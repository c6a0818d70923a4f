//! Checking blocks that come from elsewhere.
//!
//! What a check needs from the node comes in between: the node names its best block, looks up
//! stored data and runs the runtime. So a check goes from one value to the next:
//!
//! - [`PowVerifier::verify`] starts it,
//! - [`Verification::best`] goes on once the best block is known,
//! - [`PowVerifier::check`] takes what is stored for the best block and the parent, and checks
//!   the header,
//! - [`PowVerifier::check_inherents`] says whether the runtime has to check the inherents,
//! - [`Candidate::judge`] says what to make of the runtime's answer,
//! - [`Candidate::finish`] ends it: with what the importer gets, or with the text of the error.
use crate::algorithm::PowAlgorithm;
use crate::auxiliary::{aux_key, aux_key_of, stored_view, PowAux, PowAuxView};
use crate::difficulty::Difficulty;
use crate::error::{Error, ErrorView};
use crate::header::{
    same_bytes, Block, BlockHash, BlockId, DigestItem, DigestItemView, Hashing, Header, HeaderView,
    Seal,
};
use crate::import::{
    BlockImportParams, BlockImportParamsView, BlockOrigin, POW_ENGINE_ID,
};
use crate::inherents::{
    create, inherent_values, is_verdict, judge_inherents, may_create, timestamp_in, timestamp_inherent_data,
    InherentsVerdict, InherentsVerdictView,
};
use crate::scale::{is_encodable_len, opt_bytes_view};
use std::marker::PhantomData;
use vstd::prelude::*;

verus! {

/// A header without the seal of this engine, and the seal; or what is wrong with the header.
pub open spec fn unsealed<B: Hashing>(header: HeaderView) -> Result<
    (HeaderView, Seq<u8>),
    ErrorView,
> {
    if header.digest.len() == 0 {
        Err(ErrorView::HeaderUnsealed(B::header_hash(header)))
    } else {
        match header.digest.last() {
            DigestItemView::Seal(id, seal) => if id == POW_ENGINE_ID@ {
                Ok((header.without_last_digest(), seal))
            } else {
                Err(ErrorView::WrongEngine(id))
            },
            _ => Err(ErrorView::HeaderUnsealed(B::header_hash(header))),
        }
    }
}

/// Takes the seal of this engine off a header.
pub fn unseal<B: Hashing>(header: Header) -> (r: Result<(Header, Seal), Error>)
    requires
        header@.fits(),
    ensures
        match r {
            Ok((pre_header, seal)) => unsealed::<B>(header@) == Ok::<
                (HeaderView, Seq<u8>),
                ErrorView,
            >((pre_header@, seal@)),
            Err(e) => unsealed::<B>(header@) == Err::<(HeaderView, Seq<u8>), ErrorView>(e@),
        },
{
    let mut header = header;
    let hash = B::hash(&header);
    match header.pop_digest() {
        Some(DigestItem::Seal(id, seal)) => if same_bytes(&id, &POW_ENGINE_ID) {
            Ok((header, seal))
        } else {
            Err(Error::WrongEngine(id))
        },
        _ => Err(Error::HeaderUnsealed(hash)),
    }
}

/// The algorithm may answer `r` when asked to verify a seal.
pub open spec fn may_verify<A: PowAlgorithm>(
    algorithm: &A,
    parent: &BlockId,
    pre_hash: Seq<u8>,
    seal: Seq<u8>,
    difficulty: A::Difficulty,
    policy: Option<Seq<u8>>,
    r: Result<bool, Error>,
) -> bool {
    exists|h: BlockHash, s: Seal, p: Option<Vec<u8>>|
        h@ == pre_hash && s@ == seal && opt_bytes_view(p) == policy && #[trigger] call_ensures(
            A::verify,
            (algorithm, parent, &h, &s, difficulty, p),
            r,
        )
}

/// A header that passed the check: without its seal, with the difficulty and the policy that
/// the algorithm named, and its seal.
pub type CheckedHeader<D> = (Header, D, Option<Vec<u8>>, DigestItem);

/// `r` is what the check of a header on `parent` yields: the header has to carry a seal of
/// this engine, and then the algorithm decides. It is asked for the difficulty and the policy
/// of a block on `parent`, and whether the seal meets them for the hash of the header without
/// its seal. The first answer that is an error, or a seal that it rejects, ends the check.
pub open spec fn header_check<B: Hashing, A: PowAlgorithm>(
    algorithm: &A,
    header: HeaderView,
    parent: &BlockId,
    r: Result<CheckedHeader<A::Difficulty>, Error>,
) -> bool {
    match unsealed::<B>(header) {
        Err(e) => r is Err && r->Err_0@ == e,
        Ok((pre_header, seal)) => exists|difficulty: Result<A::Difficulty, Error>| #[trigger]
            call_ensures(A::difficulty, (algorithm, parent), difficulty) && match difficulty {
                Err(e) => r is Err && r->Err_0 == e,
                Ok(difficulty) => policy_check::<B, A>(
                    algorithm,
                    pre_header,
                    seal,
                    parent,
                    difficulty,
                    r,
                ),
            },
    }
}

/// `r` is what the check of a header yields, once the algorithm has named the difficulty.
pub open spec fn policy_check<B: Hashing, A: PowAlgorithm>(
    algorithm: &A,
    pre_header: HeaderView,
    seal: Seq<u8>,
    parent: &BlockId,
    difficulty: A::Difficulty,
    r: Result<CheckedHeader<A::Difficulty>, Error>,
) -> bool {
    exists|policy: Result<Option<Vec<u8>>, Error>| #[trigger]
        call_ensures(A::policy, (algorithm, parent), policy) && match policy {
            Err(e) => r is Err && r->Err_0 == e,
            Ok(policy) => seal_check::<B, A>(
                algorithm,
                pre_header,
                seal,
                parent,
                difficulty,
                opt_bytes_view(policy),
                r,
            ),
        }
}

/// `r` is what the check of a header yields, once the algorithm has named the difficulty and
/// the policy.
pub open spec fn seal_check<B: Hashing, A: PowAlgorithm>(
    algorithm: &A,
    pre_header: HeaderView,
    seal: Seq<u8>,
    parent: &BlockId,
    difficulty: A::Difficulty,
    policy: Option<Seq<u8>>,
    r: Result<CheckedHeader<A::Difficulty>, Error>,
) -> bool {
    exists|valid: Result<bool, Error>|
        {
            &&& #[trigger] may_verify(
                algorithm,
                parent,
                B::header_hash(pre_header),
                seal,
                difficulty,
                policy,
                valid,
            )
            &&& concluded(pre_header, seal, difficulty, policy, valid, r)
        }
}

/// `r` is what the check of a header comes to, once the algorithm has judged the seal.
pub open spec fn concluded<D>(
    pre_header: HeaderView,
    seal: Seq<u8>,
    difficulty: D,
    policy: Option<Seq<u8>>,
    valid: Result<bool, Error>,
    r: Result<CheckedHeader<D>, Error>,
) -> bool {
    match valid {
        Err(e) => r is Err && r->Err_0 == e,
        Ok(false) => r is Err && r->Err_0@ == ErrorView::InvalidSeal,
        Ok(true) => {
            &&& r is Ok
            &&& r->Ok_0.0@ == pre_header
            &&& r->Ok_0.1 == difficulty
            &&& opt_bytes_view(r->Ok_0.2) == policy
            &&& r->Ok_0.3@ == DigestItemView::Seal(POW_ENGINE_ID@, seal)
        },
    }
}

/// Ends the check of a header, once the algorithm has judged the seal.
pub fn conclude<D>(
    pre_header: Header,
    seal: Seal,
    difficulty: D,
    policy: Option<Vec<u8>>,
    valid: Result<bool, Error>,
) -> (r: Result<CheckedHeader<D>, Error>)
    ensures
        concluded(pre_header@, seal@, difficulty, opt_bytes_view(policy), valid, r),
{
    match valid {
        Err(e) => Err(e),
        Ok(false) => Err(Error::InvalidSeal),
        Ok(true) => Ok((pre_header, difficulty, policy, DigestItem::Seal(POW_ENGINE_ID, seal))),
    }
}

/// A verifier for PoW blocks: blocks with hashes by `B`, seals by `Algorithm`.
pub struct PowVerifier<B, Algorithm> {
    /// Judges seals.
    pub algorithm: Algorithm,
    /// The first block number whose inherents are checked.
    pub check_inherents_after: u64,
    /// Provides inherent data, and knows what inherents say.
    pub inherent_data_providers: sp_inherents::InherentDataProviders,
    /// How headers are hashed.
    pub hashing: PhantomData<B>,
}

impl<B: Hashing, Algorithm: PowAlgorithm> PowVerifier<B, Algorithm> {
    /// A verifier that checks seals by `algorithm`, and inherents from `check_inherents_after`
    /// on.
    pub fn new(
        algorithm: Algorithm,
        check_inherents_after: u64,
        inherent_data_providers: sp_inherents::InherentDataProviders,
    ) -> (r: Self)
        ensures
            r.algorithm == algorithm,
            r.check_inherents_after == check_inherents_after,
            r.inherent_data_providers == inherent_data_providers,
    {
        PowVerifier {
            algorithm,
            check_inherents_after,
            inherent_data_providers,
            hashing: PhantomData,
        }
    }

    /// Checks the seal of a header whose parent is `parent`.
    pub fn check_header(&self, header: Header, parent: BlockId) -> (r: Result<
        CheckedHeader<Algorithm::Difficulty>,
        Error,
    >)
        requires
            header@.fits(),
        ensures
            header_check::<B, Algorithm>(&self.algorithm, header@, &parent, r),
    {
        let (pre_header, seal) = match unseal::<B>(header) {
            Ok(parts) => parts,
            Err(e) => return Err(e),
        };
        let pre_hash = B::hash(&pre_header);
        let difficulty = match self.algorithm.difficulty(&parent) {
            Ok(difficulty) => difficulty,
            Err(e) => return Err(e),
        };
        let policy = match self.algorithm.policy(&parent) {
            Ok(policy) => policy,
            Err(e) => return Err(e),
        };
        let ghost named = Ok::<Option<Vec<u8>>, Error>(policy);
        let handed = policy.clone();
        let valid = self.algorithm.verify(&parent, &pre_hash, &seal, difficulty, handed);
        assert(may_verify(
            &self.algorithm,
            &parent,
            pre_hash@,
            seal@,
            difficulty,
            opt_bytes_view(policy),
            valid,
        )) by {
            assert(opt_bytes_view(handed) == opt_bytes_view(policy));
        }
        let r = conclude(pre_header, seal, difficulty, policy, valid);
        assert(seal_check::<B, Algorithm>(
            &self.algorithm,
            pre_header@,
            seal@,
            &parent,
            difficulty,
            opt_bytes_view(policy),
            r,
        ));
        assert(call_ensures(Algorithm::policy, (&self.algorithm, &parent), named));
        assert(policy_check::<B, Algorithm>(
            &self.algorithm,
            pre_header@,
            seal@,
            &parent,
            difficulty,
            r,
        ));
        r
    }
}

/// What the node says when it is asked for its best block.
pub enum BestBlock {
    /// The header that the chain selection names, or the debug rendering of its error.
    SelectChain(Result<Header, String>),
    /// The hash that the client names.
    Client(BlockHash),
}

impl BestBlock {
    /// Whether the header can be hashed.
    pub open spec fn fits(self) -> bool {
        self matches BestBlock::SelectChain(Ok(header)) ==> header@.fits()
    }

    /// The hash of the best block, or why it is not known.
    pub open spec fn hash_view<B: Hashing>(self) -> Result<Seq<u8>, Seq<char>> {
        match self {
            BestBlock::SelectChain(Ok(header)) => Ok(B::header_hash(header@)),
            BestBlock::SelectChain(Err(e)) => Err(
                "Fetch best chain failed via select chain: "@ + e@,
            ),
            BestBlock::Client(hash) => Ok(hash@),
        }
    }
}

/// A block whose check has begun: it waits for the best block.
pub struct Verification<E> {
    /// Where the block comes from.
    pub origin: BlockOrigin,
    /// The header, with its seal.
    pub header: Header,
    /// Justification provided for the block.
    pub justification: Option<Vec<u8>>,
    /// The extrinsics, if they are known.
    pub body: Option<Vec<E>>,
    /// The inherent data of this node.
    pub inherent_data: sp_inherents::InherentData,
    /// The time by that data.
    pub now: u64,
}

/// A block under check: it waits for what is stored for the best block and for its parent.
pub struct Located<E> {
    /// The block.
    pub block: Verification<E>,
    /// The hash of the best block.
    pub best_hash: BlockHash,
}

/// A block whose header passed: what the importer will get of it.
pub struct Candidate<D> {
    /// Where the block comes from.
    pub origin: BlockOrigin,
    /// The header, without its seal.
    pub header: Header,
    /// Justification provided for the block.
    pub justification: Option<Vec<u8>>,
    /// The seal.
    pub seal: DigestItem,
    /// The hash of the header with its seal.
    pub hash: BlockHash,
    /// The auxiliary data of the block.
    pub aux: PowAux<D>,
    /// The total difficulty of the best block.
    pub best_total_difficulty: D,
    /// The time at this node.
    pub now: u64,
}

/// A block whose header passed, with what a check of its inherents needs.
pub struct Checked<E, D> {
    /// What the importer will get.
    pub candidate: Candidate<D>,
    /// The extrinsics, if they are known.
    pub body: Option<Vec<E>>,
    /// The inherent data of this node.
    pub inherent_data: sp_inherents::InherentData,
}

/// What becomes of a block whose header passed.
pub enum InherentsStep<E, D> {
    /// Its inherents are not checked.
    Skip(Candidate<D>),
    /// The runtime, at the state after the given block, has to check the inherents of the
    /// block against the inherent data.
    Ask(BlockId, Block<E>, sp_inherents::InherentData, Candidate<D>),
}

/// Whether the runtime has to check the inherents of a block: where its body is known, and its
/// number is not below the first that is checked.
pub open spec fn needs_runtime<E, D>(check_inherents_after: u64, checked: Checked<E, D>) -> bool {
    checked.body is Some && checked.candidate.header.number >= check_inherents_after
}

/// `step` is what becomes of a block whose header passed: the runtime, at the state after the
/// parent, gets the block without its seal and the inherent data, or it is not asked.
pub open spec fn is_inherents_step<E, D>(
    check_inherents_after: u64,
    checked: Checked<E, D>,
    step: InherentsStep<E, D>,
) -> bool {
    if needs_runtime(check_inherents_after, checked) {
        &&& step is Ask
        &&& step->Ask_0 == BlockId::Hash(checked.candidate.header.parent_hash)
        &&& step->Ask_1.header@ == checked.candidate.header@
        &&& step->Ask_1.extrinsics == checked.body->0
        &&& step->Ask_2 == checked.inherent_data
        &&& step->Ask_3 == checked.candidate
    } else {
        step == InherentsStep::<E, D>::Skip(checked.candidate)
    }
}

/// `verdict` is what to make of the runtime's answer at the given time.
pub open spec fn is_judged(
    answer: Result<sp_inherents::CheckInherentsResult, String>,
    now: u64,
    verdict: InherentsVerdictView,
) -> bool {
    match answer {
        Err(e) => verdict == InherentsVerdictView::Rejected(ErrorView::Client(e@)),
        Ok(result) => is_verdict(result, now, verdict),
    }
}

/// `r` is what a check begins with, given the inherent data that was created, or why there is
/// none: the time is taken from that data.
pub open spec fn is_begun<E>(
    origin: BlockOrigin,
    header: Header,
    justification: Option<Vec<u8>>,
    body: Option<Vec<E>>,
    data: Result<sp_inherents::InherentData, String>,
    r: Result<Verification<E>, String>,
) -> bool {
    match data {
        Err(e) => r is Err && r->Err_0@ == e@,
        Ok(inherent_data) => match timestamp_in(inherent_values(inherent_data)) {
            Err(e) => r is Err && r->Err_0@ == e,
            Ok(now) => r == Ok::<Verification<E>, String>(
                Verification { origin, header, justification, body, inherent_data, now },
            ),
        },
    }
}

impl<E> Verification<E> {
    /// Begins the check of a block, given the inherent data of this node, or why there is none.
    pub fn begin(
        origin: BlockOrigin,
        header: Header,
        justification: Option<Vec<u8>>,
        body: Option<Vec<E>>,
        data: Result<sp_inherents::InherentData, String>,
    ) -> (r: Result<Verification<E>, String>)
        ensures
            is_begun(origin, header, justification, body, data, r),
    {
        let inherent_data = match data {
            Ok(inherent_data) => inherent_data,
            Err(e) => return Err(e),
        };
        match timestamp_inherent_data(&inherent_data) {
            Ok(now) => Ok(
                Verification { origin, header, justification, body, inherent_data, now },
            ),
            Err(e) => Err(e),
        }
    }

    /// Goes on with the best block.
    pub fn best<B: Hashing>(self, best: BestBlock) -> (r: Result<Located<E>, String>)
        requires
            best.fits(),
        ensures
            match best.hash_view::<B>() {
                Ok(hash) => r is Ok && r->Ok_0.block == self && r->Ok_0.best_hash@ == hash,
                Err(e) => r is Err && r->Err_0@ == e,
            },
    {
        match best {
            BestBlock::SelectChain(Ok(header)) => Ok(
                Located { block: self, best_hash: B::hash(&header) },
            ),
            BestBlock::SelectChain(Err(e)) => Err(
                "Fetch best chain failed via select chain: ".to_owned().concat(e.as_str()),
            ),
            BestBlock::Client(hash) => Ok(Located { block: self, best_hash: hash }),
        }
    }
}

impl<E> Located<E> {
    /// The key of what is stored for the best block.
    pub fn best_key(&self) -> (r: Vec<u8>)
        ensures
            r@ == aux_key_of(self.best_hash@),
    {
        aux_key(&self.best_hash)
    }

    /// The key of what is stored for the parent.
    pub fn parent_key(&self) -> (r: Vec<u8>)
        ensures
            r@ == aux_key_of(self.block.header@.parent_hash),
    {
        aux_key(&self.block.header.parent_hash)
    }
}

/// `checked` is `block`, of which the header check yielded `header`: its auxiliary data
/// extends what is stored for its parent by the difficulty and the policy that were found.
pub open spec fn is_checked<B: Hashing, E, D: Difficulty>(
    checked: Checked<E, D>,
    block: Verification<E>,
    header: CheckedHeader<D>,
    parent_aux: PowAuxView<D>,
    best_aux: PowAuxView<D>,
) -> bool {
    &&& checked.candidate.origin == block.origin
    &&& checked.candidate.header@ == header.0@
    &&& checked.candidate.justification == block.justification
    &&& checked.candidate.seal@ == header.3@
    &&& checked.candidate.hash@ == B::header_hash(block.header@)
    &&& checked.candidate.aux@ == parent_aux.extended(header.1, opt_bytes_view(header.2))
    &&& checked.candidate.best_total_difficulty == best_aux.total_difficulty
    &&& checked.candidate.now == block.now
    &&& checked.body == block.body
    &&& checked.inherent_data == block.inherent_data
}

/// `r` is what checking the header of a block yields, given what is stored for the best block
/// and for the parent: both have to be readable, and the header has to pass its check.
pub open spec fn is_check_result<B: Hashing, A: PowAlgorithm, E>(
    algorithm: &A,
    block: Verification<E>,
    best: Result<PowAuxView<A::Difficulty>, ErrorView>,
    parent: Result<PowAuxView<A::Difficulty>, ErrorView>,
    r: Result<Checked<E, A::Difficulty>, String>,
) -> bool {
    match (best, parent) {
        (Err(e), _) => r is Err && r->Err_0@ == e.text(),
        (_, Err(e)) => r is Err && r->Err_0@ == e.text(),
        (Ok(best_aux), Ok(parent_aux)) => exists|h: Result<CheckedHeader<A::Difficulty>, Error>|
            {
                &&& #[trigger] header_check::<B, A>(
                    algorithm,
                    block.header@,
                    &BlockId::Hash(block.header.parent_hash),
                    h,
                )
                &&& match h {
                    Err(e) => r is Err && r->Err_0@ == e@.text(),
                    Ok(header) => r is Ok && is_checked::<B, E, A::Difficulty>(
                        r->Ok_0,
                        block,
                        header,
                        parent_aux,
                        best_aux,
                    ),
                }
            },
    }
}

impl<B: Hashing, Algorithm: PowAlgorithm> PowVerifier<B, Algorithm> {
    /// Begins the check of a block.
    pub fn verify<E>(
        &self,
        origin: BlockOrigin,
        header: Header,
        justification: Option<Vec<u8>>,
        body: Option<Vec<E>>,
    ) -> (r: Result<Verification<E>, String>)
        ensures
            exists|data: Result<sp_inherents::InherentData, String>| #[trigger]
                may_create(&self.inherent_data_providers, data) && is_begun(
                    origin,
                    header,
                    justification,
                    body,
                    data,
                    r,
                ),
    {
        let data = create(&self.inherent_data_providers);
        Verification::begin(origin, header, justification, body, data)
    }

    /// Checks the header of a block, given what is stored for the best block and for the
    /// parent.
    pub fn check<E>(
        &self,
        located: Located<E>,
        best_stored: Result<Option<Vec<u8>>, String>,
        parent_stored: Result<Option<Vec<u8>>, String>,
    ) -> (r: Result<Checked<E, Algorithm::Difficulty>, String>)
        requires
            located.block.header@.fits(),
        ensures
            is_check_result::<B, Algorithm, E>(
                &self.algorithm,
                located.block,
                PowAuxView::<Algorithm::Difficulty>::read_from(stored_view(best_stored)),
                PowAuxView::<Algorithm::Difficulty>::read_from(stored_view(parent_stored)),
                r,
            ),
    {
        let block = located.block;
        let hash = B::hash(&block.header);
        let parent = BlockId::Hash(block.header.parent_hash);
        let best_aux = match PowAux::<Algorithm::Difficulty>::read(best_stored) {
            Ok(aux) => aux,
            Err(e) => return Err(e.to_string()),
        };
        let mut aux = match PowAux::<Algorithm::Difficulty>::read(parent_stored) {
            Ok(aux) => aux,
            Err(e) => return Err(e.to_string()),
        };
        let checked = self.check_header(block.header, parent);
        assert(header_check::<B, Algorithm>(&self.algorithm, block.header@, &parent, checked));
        let (header, difficulty, policy, seal) = match checked {
            Ok(parts) => parts,
            Err(e) => return Err(e.to_string()),
        };
        aux.extend(difficulty, policy);
        let candidate = Candidate {
            origin: block.origin,
            header,
            justification: block.justification,
            seal,
            hash,
            aux,
            best_total_difficulty: best_aux.total_difficulty,
            now: block.now,
        };
        Ok(Checked { candidate, body: block.body, inherent_data: block.inherent_data })
    }

    /// Decides whether the inherents of a block are checked: where its body is known, and its
    /// number is not below the first that is checked.
    pub fn check_inherents<E>(&self, checked: Checked<E, Algorithm::Difficulty>) -> (r: InherentsStep<
        E,
        Algorithm::Difficulty,
    >)
        ensures
            is_inherents_step(self.check_inherents_after, checked, r),
    {
        let candidate = checked.candidate;
        match checked.body {
            Some(extrinsics) => {
                if candidate.header.number < self.check_inherents_after {
                    return InherentsStep::Skip(candidate);
                }
                let parent = BlockId::Hash(candidate.header.parent_hash);
                let block = Block { header: candidate.header.clone(), extrinsics };
                InherentsStep::Ask(parent, block, checked.inherent_data, candidate)
            },
            None => InherentsStep::Skip(candidate),
        }
    }
}

impl<D: Difficulty> Candidate<D> {
    /// Judges the runtime's answer on the inherents of the block.
    pub fn judge(&self, answer: Result<sp_inherents::CheckInherentsResult, String>) -> (r:
        InherentsVerdict)
        ensures
            is_judged(answer, self.now, r@),
    {
        match answer {
            Err(e) => InherentsVerdict::Rejected(Error::Client(e)),
            Ok(result) => judge_inherents(result, self.now),
        }
    }

    /// Whether the auxiliary data of the block can be stored.
    pub fn is_storable(&self) -> (r: bool)
        ensures
            r == self.aux@.fits(),
    {
        match &self.aux.policy {
            None => true,
            Some(policy) => is_encodable_len(policy.len()),
        }
    }

    /// What the importer gets: the block becomes the best one where its total difficulty is
    /// above that of the best block.
    pub open spec fn import_view<E>(self) -> BlockImportParamsView<E, ()> {
        BlockImportParamsView {
            justification: opt_bytes_view(self.justification),
            ..BlockImportParamsView::sealed(
                self.origin,
                self.header@,
                self.seal@,
                self.hash@,
                self.aux@,
                self.aux.total_difficulty.rank() > self.best_total_difficulty.rank(),
            )
        }
    }

    /// What the importer gets.
    fn import<E>(self) -> (r: BlockImportParams<E, ()>)
        requires
            self.aux@.fits(),
        ensures
            r@ == self.import_view::<E>(),
    {
        let best = self.aux.total_difficulty.exceeds(&self.best_total_difficulty);
        let mut params = BlockImportParams::sealed(
            self.origin,
            self.header,
            self.seal,
            &self.hash,
            &self.aux,
            best,
        );
        params.justification = self.justification;
        params
    }

    /// `r` is how the check of the block ends, given what stands against its inherents, if
    /// anything does: with what the importer gets, or with the text of the error.
    pub open spec fn is_finished<E>(
        self,
        inherents: Result<(), Error>,
        r: Result<BlockImportParams<E, ()>, String>,
    ) -> bool {
        match inherents {
            Ok(_) => r is Ok && r->Ok_0@ == self.import_view::<E>(),
            Err(e) => r is Err && r->Err_0@ == e@.text(),
        }
    }

    /// Ends the check, given what stands against the inherents of the block; nothing does
    /// where they are not checked. Only a block whose inherents are accepted is imported.
    pub fn finish<E>(self, inherents: Result<(), Error>) -> (r: Result<
        BlockImportParams<E, ()>,
        String,
    >)
        requires
            inherents is Ok ==> self.aux@.fits(),
        ensures
            self.is_finished(inherents, r),
    {
        match inherents {
            Ok(_) => Ok(self.import()),
            Err(e) => Err(e.to_string()),
        }
    }
}

} // verus!
