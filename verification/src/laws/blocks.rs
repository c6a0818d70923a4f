//! Blocks from elsewhere: what the algorithm has to say before a header passes, where data is
//! looked up, and what the importer is handed. Stated over the calls themselves.
use crate::algorithm::PowAlgorithm;
use crate::auxiliary::{law_decode_inverts_encode, PowAux};
use crate::difficulty::Difficulty;
use crate::error::Error;
use crate::header::{
    BlockHash, BlockId, DigestItem, DigestItemView, Hashing, Header, HeaderView, Seal,
};
use crate::import::{BlockImportParams, BlockOrigin, ForkChoiceStrategy};
use crate::inherents::{inherent_values, may_create};
use crate::laws::timestamps::timstap0;
use crate::scale::{le_value, opt_bytes_view};
use crate::verification::{
    conclude, concluded, header_check, may_verify, policy_check, seal_check, unseal, unsealed,
    BestBlock, Candidate, Checked, CheckedHeader, InherentsStep, Located, PowVerifier,
    Verification,
};
use vstd::prelude::*;

verus! {

/// `pow_`, the identifier of the engine.
pub open spec fn pow_() -> Seq<u8> {
    seq![0x70u8, 0x6f, 0x77, 0x5f]
}

/// Both have no policy, or both have the same one, byte by byte.
pub open spec fn same_policy(a: Option<Vec<u8>>, b: Option<Vec<u8>>) -> bool {
    match (a, b) {
        (None, None) => true,
        (Some(p), Some(q)) => p@ == q@,
        _ => false,
    }
}

/// The last entry of the digest is a seal of this engine.
pub open spec fn is_sealed(header: Header) -> bool {
    &&& header.digest@.len() > 0
    &&& header.digest@.last() matches DigestItem::Seal(id, _) && id@ == pow_()
}

/// The bytes of the seal that is the last entry of the digest.
pub open spec fn seal_of(header: Header) -> Seq<u8> {
    header.digest@.last()->Seal_1@
}

/// What a header says but for the last entry of its digest.
pub open spec fn stripped(header: Header) -> HeaderView {
    HeaderView {
        parent_hash: header.parent_hash@,
        number: header.number,
        state_root: header.state_root@,
        extrinsics_root: header.extrinsics_root@,
        digest: Seq::new((header.digest@.len() - 1) as nat, |i: int| header.digest@[i]@),
    }
}

proof fn lemma_unsealed<B: Hashing>(header: Header)
    ensures
        is_sealed(header) <==> unsealed::<B>(header@) is Ok,
        is_sealed(header) ==> unsealed::<B>(header@) == Ok::<
            (HeaderView, Seq<u8>),
            crate::error::ErrorView,
        >((stripped(header), seal_of(header))),
{
    assert(pow_() =~= crate::import::POW_ENGINE_ID@);
    if header.digest@.len() > 0 {
        let n = header.digest@.len() - 1;
        assert(header@.digest.last() == header.digest@[n]@);
        assert(header@.digest.drop_last() =~= stripped(header).digest);
    }
}

/// A seal of this engine, and only such a one, is taken off: the header that is left lacks the
/// last entry and nothing else, and the seal is the bytes of that entry. A seal of another engine
/// is refused with its identifier, a header without a seal with its hash.
pub proof fn law_only_seals_of_the_engine_come_off<B: Hashing>(
    header: Header,
    r: Result<(Header, Seal), Error>,
)
    requires
        call_ensures(unseal::<B>, (header,), r),
    ensures
        r is Ok <==> is_sealed(header),
        r matches Ok((left, seal)) ==> left@ == stripped(header) && seal@ == seal_of(header),
        header.digest@.len() > 0 && header.digest@.last() is Seal && !is_sealed(header) ==> (
        r matches Err(Error::WrongEngine(id)) && id@ == header.digest@.last()->Seal_0@),
        header.digest@.len() == 0 || !(header.digest@.last() is Seal) ==> (r matches Err(
            Error::HeaderUnsealed(hash),
        ) && hash@ == B::header_hash(header@)),
{
    lemma_unsealed::<B>(header);
    if header.digest@.len() > 0 {
        assert(header@.digest.last() == header.digest@.last()@);
    }
}

/// What the algorithm answered in a check: the difficulty, the policy, what it was asked about
/// the seal, and what it said to that.
pub struct Answers<D> {
    pub difficulty: Result<D, Error>,
    pub policy: Result<Option<Vec<u8>>, Error>,
    pub hash: BlockHash,
    pub seal: Seal,
    pub handed: Option<Vec<u8>>,
    pub valid: Result<bool, Error>,
}

proof fn lemma_answers<B: Hashing, A: PowAlgorithm>(
    algorithm: &A,
    header: Header,
    parent: &BlockId,
    r: Result<CheckedHeader<A::Difficulty>, Error>,
) -> (w: Answers<A::Difficulty>)
    requires
        header_check::<B, A>(algorithm, header@, parent, r),
        is_sealed(header),
    ensures
        call_ensures(A::difficulty, (algorithm, parent), w.difficulty),
        w.difficulty matches Err(e) ==> r is Err && r->Err_0 == e,
        w.difficulty is Ok ==> {
            &&& call_ensures(A::policy, (algorithm, parent), w.policy)
            &&& w.policy matches Err(e) ==> r is Err && r->Err_0 == e
            &&& w.policy is Ok ==> {
                &&& w.hash@ == B::header_hash(stripped(header))
                &&& w.seal@ == seal_of(header)
                &&& same_policy(w.handed, w.policy->Ok_0)
                &&& call_ensures(
                    A::verify,
                    (algorithm, parent, &w.hash, &w.seal, w.difficulty->Ok_0, w.handed),
                    w.valid,
                )
                &&& concluded(
                    stripped(header),
                    seal_of(header),
                    w.difficulty->Ok_0,
                    opt_bytes_view(w.policy->Ok_0),
                    w.valid,
                    r,
                )
            }
        },
{
    lemma_unsealed::<B>(header);
    let pre_header = stripped(header);
    let seal = seal_of(header);
    let difficulty = choose|difficulty: Result<A::Difficulty, Error>| #[trigger]
        call_ensures(A::difficulty, (algorithm, parent), difficulty) && match difficulty {
            Err(e) => r is Err && r->Err_0 == e,
            Ok(difficulty) => policy_check::<B, A>(
                algorithm,
                pre_header,
                seal,
                parent,
                difficulty,
                r,
            ),
        };
    let d = difficulty->Ok_0;
    let policy = choose|policy: Result<Option<Vec<u8>>, Error>| #[trigger]
        call_ensures(A::policy, (algorithm, parent), policy) && match policy {
            Err(e) => r is Err && r->Err_0 == e,
            Ok(policy) => seal_check::<B, A>(
                algorithm,
                pre_header,
                seal,
                parent,
                d,
                opt_bytes_view(policy),
                r,
            ),
        };
    let p = opt_bytes_view(policy->Ok_0);
    let valid = choose|valid: Result<bool, Error>|
        {
            &&& #[trigger] may_verify(
                algorithm,
                parent,
                B::header_hash(pre_header),
                seal,
                d,
                p,
                valid,
            )
            &&& concluded(pre_header, seal, d, p, valid, r)
        };
    let (h, s, q) = choose|h: BlockHash, s: Seal, q: Option<Vec<u8>>|
        h@ == B::header_hash(pre_header) && s@ == seal && opt_bytes_view(q) == p && #[trigger]
            call_ensures(A::verify, (algorithm, parent, &h, &s, d, q), valid);
    if difficulty is Ok && policy is Ok {
        assert(seal_check::<B, A>(algorithm, pre_header, seal, parent, d, p, r));
        assert(may_verify(algorithm, parent, B::header_hash(pre_header), seal, d, p, valid));
    }
    Answers { difficulty, policy, hash: h, seal: s, handed: q, valid }
}

/// A header passes only with a seal of this engine which the algorithm accepted: asked about the
/// hash of the header without its seal, that seal, and the difficulty and the policy that it
/// named for the parent, it answered yes. What comes out is the header without its seal, that
/// difficulty, that policy and that seal.
pub proof fn law_header_passes_only_with_an_accepted_seal<B: Hashing, A: PowAlgorithm>(
    verifier: &PowVerifier<B, A>,
    header: Header,
    parent: BlockId,
    checked: CheckedHeader<A::Difficulty>,
)
    requires
        call_ensures(
            PowVerifier::<B, A>::check_header,
            (verifier, header, parent),
            Ok::<CheckedHeader<A::Difficulty>, Error>(checked),
        ),
    ensures
        is_sealed(header),
        checked.0@ == stripped(header),
        checked.3@ == DigestItemView::Seal(pow_(), seal_of(header)),
        call_ensures(
            A::difficulty,
            (&verifier.algorithm, &parent),
            Ok::<A::Difficulty, Error>(checked.1),
        ),
        exists|named: Option<Vec<u8>>, hash: BlockHash, seal: Seal, handed: Option<Vec<u8>>|
            {
                &&& #[trigger] call_ensures(
                    A::policy,
                    (&verifier.algorithm, &parent),
                    Ok::<Option<Vec<u8>>, Error>(named),
                )
                &&& hash@ == B::header_hash(stripped(header))
                &&& seal@ == seal_of(header)
                &&& same_policy(handed, named)
                &&& same_policy(checked.2, named)
                &&& #[trigger] call_ensures(
                    A::verify,
                    (&verifier.algorithm, &parent, &hash, &seal, checked.1, handed),
                    Ok::<bool, Error>(true),
                )
            },
{
    let r = Ok::<CheckedHeader<A::Difficulty>, Error>(checked);
    lemma_unsealed::<B>(header);
    assert(pow_() =~= crate::import::POW_ENGINE_ID@);
    let w = lemma_answers::<B, A>(&verifier.algorithm, header, &parent, r);
    let named = w.policy->Ok_0;
    assert(w.policy == Ok::<Option<Vec<u8>>, Error>(named));
    assert(w.valid == Ok::<bool, Error>(true));
    assert(call_ensures(
        A::verify,
        (&verifier.algorithm, &parent, &w.hash, &w.seal, checked.1, w.handed),
        Ok::<bool, Error>(true),
    ));
    assert(same_policy(checked.2, named));
}

/// `e` is why a header is refused: it has no seal of this engine; or the algorithm failed when it
/// was asked for the difficulty, for the policy, or about the seal; or it said that the seal is
/// not valid.
pub open spec fn is_reason<B: Hashing, A: PowAlgorithm>(
    algorithm: &A,
    header: Header,
    parent: &BlockId,
    e: Error,
) -> bool {
    ||| !is_sealed(header) && header.digest@.len() > 0 && header.digest@.last() is Seal && (
    e matches Error::WrongEngine(id) && id@ == header.digest@.last()->Seal_0@)
    ||| (header.digest@.len() == 0 || !(header.digest@.last() is Seal)) && (
    e matches Error::HeaderUnsealed(hash) && hash@ == B::header_hash(header@))
    ||| is_sealed(header) && call_ensures(
        A::difficulty,
        (algorithm, parent),
        Err::<A::Difficulty, Error>(e),
    )
    ||| is_sealed(header) && call_ensures(
        A::policy,
        (algorithm, parent),
        Err::<Option<Vec<u8>>, Error>(e),
    )
    ||| is_sealed(header) && exists|
        d: A::Difficulty,
        named: Option<Vec<u8>>,
        hash: BlockHash,
        seal: Seal,
        handed: Option<Vec<u8>>,
        valid: Result<bool, Error>,
    |
        {
            &&& #[trigger] call_ensures(
                A::policy,
                (algorithm, parent),
                Ok::<Option<Vec<u8>>, Error>(named),
            )
            &&& call_ensures(A::difficulty, (algorithm, parent), Ok::<A::Difficulty, Error>(d))
            &&& hash@ == B::header_hash(stripped(header))
            &&& seal@ == seal_of(header)
            &&& same_policy(handed, named)
            &&& #[trigger] call_ensures(
                A::verify,
                (algorithm, parent, &hash, &seal, d, handed),
                valid,
            )
            &&& match valid {
                Err(failure) => e == failure,
                Ok(false) => e is InvalidSeal,
                Ok(true) => false,
            }
        }
}

proof fn lemma_reason<B: Hashing, A: PowAlgorithm>(
    algorithm: &A,
    header: Header,
    parent: &BlockId,
    e: Error,
)
    requires
        header_check::<B, A>(
            algorithm,
            header@,
            parent,
            Err::<CheckedHeader<A::Difficulty>, Error>(e),
        ),
    ensures
        is_reason::<B, A>(algorithm, header, parent, e),
{
    let r = Err::<CheckedHeader<A::Difficulty>, Error>(e);
    lemma_unsealed::<B>(header);
    if header.digest@.len() > 0 {
        assert(header@.digest.last() == header.digest@.last()@);
    }
    if is_sealed(header) {
        let w = lemma_answers::<B, A>(algorithm, header, parent, r);
        match w.difficulty {
            Err(f) => {
                assert(w.difficulty == Err::<A::Difficulty, Error>(e));
            },
            Ok(d) => match w.policy {
                Err(f) => {
                    assert(w.policy == Err::<Option<Vec<u8>>, Error>(e));
                },
                Ok(named) => {
                    assert(call_ensures(
                        A::policy,
                        (algorithm, parent),
                        Ok::<Option<Vec<u8>>, Error>(named),
                    ));
                    assert(call_ensures(
                        A::verify,
                        (algorithm, parent, &w.hash, &w.seal, d, w.handed),
                        w.valid,
                    ));
                },
            },
        }
    } else {
        assert(pow_() =~= crate::import::POW_ENGINE_ID@);
    }
}

/// A header is refused for a reason, and with that reason.
pub proof fn law_headers_are_refused_with_the_reason<B: Hashing, A: PowAlgorithm>(
    verifier: &PowVerifier<B, A>,
    header: Header,
    parent: BlockId,
    e: Error,
)
    requires
        call_ensures(
            PowVerifier::<B, A>::check_header,
            (verifier, header, parent),
            Err::<CheckedHeader<A::Difficulty>, Error>(e),
        ),
    ensures
        is_reason::<B, A>(&verifier.algorithm, header, &parent, e),
{
    lemma_reason::<B, A>(&verifier.algorithm, header, &parent, e);
}

/// A sealed header whose seal the algorithm rejects, whenever it is asked about it at the
/// difficulty and the policy that it named, is refused as having an invalid seal.
pub proof fn law_rejected_seals_are_refused<B: Hashing, A: PowAlgorithm>(
    verifier: &PowVerifier<B, A>,
    header: Header,
    parent: BlockId,
    r: Result<CheckedHeader<A::Difficulty>, Error>,
)
    requires
        is_sealed(header),
        call_ensures(PowVerifier::<B, A>::check_header, (verifier, header, parent), r),
        forall|d: Result<A::Difficulty, Error>| #[trigger]
            call_ensures(A::difficulty, (&verifier.algorithm, &parent), d) ==> d is Ok,
        forall|p: Result<Option<Vec<u8>>, Error>| #[trigger]
            call_ensures(A::policy, (&verifier.algorithm, &parent), p) ==> p is Ok,
        forall|
            d: A::Difficulty,
            named: Option<Vec<u8>>,
            hash: BlockHash,
            seal: Seal,
            handed: Option<Vec<u8>>,
            valid: Result<bool, Error>,
        |
            {
                &&& call_ensures(
                    A::difficulty,
                    (&verifier.algorithm, &parent),
                    Ok::<A::Difficulty, Error>(d),
                )
                &&& #[trigger] call_ensures(
                    A::policy,
                    (&verifier.algorithm, &parent),
                    Ok::<Option<Vec<u8>>, Error>(named),
                )
                &&& hash@ == B::header_hash(stripped(header))
                &&& seal@ == seal_of(header)
                &&& same_policy(handed, named)
                &&& #[trigger] call_ensures(
                    A::verify,
                    (&verifier.algorithm, &parent, &hash, &seal, d, handed),
                    valid,
                )
            } ==> valid == Ok::<bool, Error>(false),
    ensures
        r is Err,
        r->Err_0 is InvalidSeal,
{
    let w = lemma_answers::<B, A>(&verifier.algorithm, header, &parent, r);
    let named = w.policy->Ok_0;
    assert(w.policy == Ok::<Option<Vec<u8>>, Error>(named));
    assert(w.difficulty == Ok::<A::Difficulty, Error>(w.difficulty->Ok_0));
    assert(call_ensures(
        A::policy,
        (&verifier.algorithm, &parent),
        Ok::<Option<Vec<u8>>, Error>(named),
    ));
    assert(w.valid == Ok::<bool, Error>(false));
}

/// The last word is the algorithm's, whatever the policy: a check ends well exactly where it said
/// that the seal is valid, as invalid where it said that it is not, and with its failure where
/// it failed. A check that ends well keeps all that it was given.
pub proof fn law_the_algorithm_has_the_last_word<D>(
    header: Header,
    seal: Seal,
    difficulty: D,
    policy: Option<Vec<u8>>,
    valid: Result<bool, Error>,
    r: Result<CheckedHeader<D>, Error>,
)
    requires
        call_ensures(conclude::<D>, (header, seal, difficulty, policy, valid), r),
    ensures
        r is Ok <==> valid == Ok::<bool, Error>(true),
        valid == Ok::<bool, Error>(false) ==> r->Err_0 is InvalidSeal,
        valid matches Err(e) ==> r->Err_0 == e,
        r matches Ok((h, d, p, s)) ==> {
            &&& h@ == header@
            &&& d == difficulty
            &&& same_policy(p, policy)
            &&& s@ == DigestItemView::Seal(pow_(), seal@)
        },
{
    assert(pow_() =~= crate::import::POW_ENGINE_ID@);
}

/// A new verifier is made of what it is given.
pub proof fn law_verifier_is_made_of_its_parts<B: Hashing, A: PowAlgorithm>(
    algorithm: A,
    check_inherents_after: u64,
    providers: sp_inherents::InherentDataProviders,
    r: PowVerifier<B, A>,
)
    requires
        call_ensures(PowVerifier::<B, A>::new, (algorithm, check_inherents_after, providers), r),
    ensures
        r.algorithm == algorithm,
        r.check_inherents_after == check_inherents_after,
        r.inherent_data_providers == providers,
{
}

/// A check begins with the block as it came, and with the time that the inherent data holds: the
/// first eight bytes under the timestamp identifier, least significant first. It does not begin
/// where there is no inherent data or no time in it.
pub proof fn law_check_begins_with_the_block_and_the_time<E>(
    origin: BlockOrigin,
    header: Header,
    justification: Option<Vec<u8>>,
    body: Option<Vec<E>>,
    data: Result<sp_inherents::InherentData, String>,
    r: Result<Verification<E>, String>,
)
    requires
        call_ensures(Verification::<E>::begin, (origin, header, justification, body, data), r),
    ensures
        data matches Err(e) ==> r is Err && r->Err_0@ == e@,
        data matches Ok(d) ==> {
            let values = inherent_values(d);
            &&& r is Ok <==> values.contains_key(timstap0()) && values[timstap0()].len() >= 8
            &&& !values.contains_key(timstap0()) ==> r->Err_0@
                == "Timestamp inherent data not found"@
            &&& values.contains_key(timstap0()) && values[timstap0()].len() < 8 ==> r->Err_0@
                == "Could not decode requested inherent type!"@
            &&& r matches Ok(v) ==> {
                &&& v.origin == origin
                &&& v.header == header
                &&& v.justification == justification
                &&& v.body == body
                &&& v.inherent_data == d
                &&& v.now == le_value(values[timstap0()].take(8)) as u64
            }
        },
{
    assert(timstap0() =~= crate::inherents::TIMESTAMP_IDENTIFIER@);
}

/// Verifying a block begins its check with the inherent data that the providers create.
pub proof fn law_verification_asks_the_providers<B: Hashing, A: PowAlgorithm, E>(
    verifier: &PowVerifier<B, A>,
    origin: BlockOrigin,
    header: Header,
    justification: Option<Vec<u8>>,
    body: Option<Vec<E>>,
    r: Result<Verification<E>, String>,
)
    requires
        call_ensures(
            PowVerifier::<B, A>::verify::<E>,
            (verifier, origin, header, justification, body),
            r,
        ),
    ensures
        r matches Ok(v) ==> {
            &&& may_create(
                &verifier.inherent_data_providers,
                Ok::<sp_inherents::InherentData, String>(v.inherent_data),
            )
            &&& v.origin == origin
            &&& v.header == header
            &&& v.justification == justification
            &&& v.body == body
            &&& inherent_values(v.inherent_data).contains_key(timstap0())
            &&& v.now == le_value(inherent_values(v.inherent_data)[timstap0()].take(8)) as u64
        },
        r matches Err(e) ==> exists|data: Result<sp_inherents::InherentData, String>| #[trigger]
            may_create(&verifier.inherent_data_providers, data) && match data {
                Err(f) => e@ == f@,
                Ok(d) => {
                    let values = inherent_values(d);
                    ||| !values.contains_key(timstap0()) && e@
                        == "Timestamp inherent data not found"@
                    ||| values.contains_key(timstap0()) && values[timstap0()].len() < 8 && e@
                        == "Could not decode requested inherent type!"@
                },
            },
{
    assert(timstap0() =~= crate::inherents::TIMESTAMP_IDENTIFIER@);
    let data = choose|data: Result<sp_inherents::InherentData, String>| #[trigger]
        may_create(&verifier.inherent_data_providers, data)
            && crate::verification::is_begun(origin, header, justification, body, data, r);
    assert(may_create(&verifier.inherent_data_providers, data));
    if data is Ok && r is Ok {
        assert(data == Ok::<sp_inherents::InherentData, String>(r->Ok_0.inherent_data));
    }
}

/// The best block that the chain selection names is known by the hash of its whole header, the
/// one that the client names by the hash that it gives. The block under check stays as it is.
pub proof fn law_best_block_is_known_by_its_whole_header<B: Hashing, E>(
    block: Verification<E>,
    header: Header,
    selected: Result<Located<E>, String>,
    hash: BlockHash,
    named: Result<Located<E>, String>,
    e: String,
    failed: Result<Located<E>, String>,
)
    requires
        call_ensures(
            Verification::<E>::best::<B>,
            (block, BestBlock::SelectChain(Ok(header))),
            selected,
        ),
        call_ensures(Verification::<E>::best::<B>, (block, BestBlock::Client(hash)), named),
        call_ensures(
            Verification::<E>::best::<B>,
            (block, BestBlock::SelectChain(Err(e))),
            failed,
        ),
    ensures
        selected is Ok,
        selected->Ok_0.block == block,
        selected->Ok_0.best_hash@ == B::header_hash(header@),
        named is Ok,
        named->Ok_0.block == block,
        named->Ok_0.best_hash@ == hash@,
        failed is Err,
        failed->Err_0@ == "Fetch best chain failed via select chain: "@ + e@,
{
}

/// Data is looked up under `PoW:` and the hash of the best block, and under `PoW:` and the hash
/// of the parent.
pub proof fn law_lookups_are_by_hash<E>(located: &Located<E>, best: Vec<u8>, parent: Vec<u8>)
    requires
        call_ensures(Located::<E>::best_key, (located,), best),
        call_ensures(Located::<E>::parent_key, (located,), parent),
    ensures
        best@ == seq![0x50u8, 0x6f, 0x57, 0x3a] + located.best_hash@,
        parent@ == seq![0x50u8, 0x6f, 0x57, 0x3a] + located.block.header.parent_hash@,
{
    assert(seq![0x50u8, 0x6f, 0x57, 0x3a] =~= crate::auxiliary::POW_AUX_PREFIX@);
}

/// A block that passes extends what is read for its parent: it has the difficulty and the policy
/// that the algorithm named, whole, that difficulty is added to the parent's total, and the steps
/// are the parent's. It is known by the hash of its header with the seal, goes on without the
/// seal, and is compared with what is read for the best block.
pub proof fn law_block_extends_what_is_read_for_its_parent<B: Hashing, A: PowAlgorithm, E>(
    verifier: &PowVerifier<B, A>,
    located: Located<E>,
    best_stored: Result<Option<Vec<u8>>, String>,
    parent_stored: Result<Option<Vec<u8>>, String>,
    best: Result<PowAux<A::Difficulty>, Error>,
    parent: Result<PowAux<A::Difficulty>, Error>,
    checked: Checked<E, A::Difficulty>,
)
    requires
        call_ensures(PowAux::<A::Difficulty>::read, (best_stored,), best),
        call_ensures(PowAux::<A::Difficulty>::read, (parent_stored,), parent),
        call_ensures(
            PowVerifier::<B, A>::check::<E>,
            (verifier, located, best_stored, parent_stored),
            Ok::<Checked<E, A::Difficulty>, String>(checked),
        ),
    ensures
        best is Ok,
        parent is Ok,
        is_sealed(located.block.header),
        checked.candidate.origin == located.block.origin,
        checked.candidate.header@ == stripped(located.block.header),
        checked.candidate.justification == located.block.justification,
        checked.candidate.seal@ == DigestItemView::Seal(pow_(), seal_of(located.block.header)),
        checked.candidate.hash@ == B::header_hash(located.block.header@),
        checked.candidate.aux.total_difficulty == parent->Ok_0.total_difficulty.incremented(
            checked.candidate.aux.difficulty,
        ),
        checked.candidate.aux.steps == parent->Ok_0.steps,
        checked.candidate.best_total_difficulty == best->Ok_0.total_difficulty,
        checked.candidate.now == located.block.now,
        checked.body == located.block.body,
        checked.inherent_data == located.block.inherent_data,
        call_ensures(
            A::difficulty,
            (&verifier.algorithm, &BlockId::Hash(located.block.header.parent_hash)),
            Ok::<A::Difficulty, Error>(checked.candidate.aux.difficulty),
        ),
        exists|named: Option<Vec<u8>>, hash: BlockHash, seal: Seal, handed: Option<Vec<u8>>|
            {
                &&& #[trigger] call_ensures(
                    A::policy,
                    (&verifier.algorithm, &BlockId::Hash(located.block.header.parent_hash)),
                    Ok::<Option<Vec<u8>>, Error>(named),
                )
                &&& hash@ == B::header_hash(stripped(located.block.header))
                &&& seal@ == seal_of(located.block.header)
                &&& same_policy(handed, named)
                &&& same_policy(checked.candidate.aux.policy, named)
                &&& #[trigger] call_ensures(
                    A::verify,
                    (
                        &verifier.algorithm,
                        &BlockId::Hash(located.block.header.parent_hash),
                        &hash,
                        &seal,
                        checked.candidate.aux.difficulty,
                        handed,
                    ),
                    Ok::<bool, Error>(true),
                )
            },
{
    let header = located.block.header;
    let id = BlockId::Hash(header.parent_hash);
    let h = choose|h: Result<CheckedHeader<A::Difficulty>, Error>|
        {
            &&& #[trigger] header_check::<B, A>(&verifier.algorithm, header@, &id, h)
            &&& match h {
                Err(e) => false,
                Ok(parts) => crate::verification::is_checked::<B, E, A::Difficulty>(
                    checked,
                    located.block,
                    parts,
                    parent->Ok_0@,
                    best->Ok_0@,
                ),
            }
        };
    let parts = h->Ok_0;
    assert(h == Ok::<CheckedHeader<A::Difficulty>, Error>(parts));
    lemma_unsealed::<B>(header);
    assert(pow_() =~= crate::import::POW_ENGINE_ID@);
    let w = lemma_answers::<B, A>(&verifier.algorithm, header, &id, h);
    let named = w.policy->Ok_0;
    let aux = checked.candidate.aux;
    assert(aux.difficulty == aux@.difficulty);
    assert(aux.total_difficulty == aux@.total_difficulty);
    assert(aux.steps == aux@.steps);
    assert(aux@.difficulty == parts.1);
    assert(w.difficulty == Ok::<A::Difficulty, Error>(aux.difficulty));
    assert(w.policy == Ok::<Option<Vec<u8>>, Error>(named));
    assert(w.valid == Ok::<bool, Error>(true));
    assert(aux@.policy == opt_bytes_view(named));
    assert(same_policy(aux.policy, named));
    assert(call_ensures(
        A::verify,
        (&verifier.algorithm, &id, &w.hash, &w.seal, aux.difficulty, w.handed),
        Ok::<bool, Error>(true),
    ));
}

/// A check fails with the words of what failed first: reading for the best block, reading for the
/// parent, the header.
pub proof fn law_check_fails_with_the_reason<B: Hashing, A: PowAlgorithm, E>(
    verifier: &PowVerifier<B, A>,
    located: Located<E>,
    best_stored: Result<Option<Vec<u8>>, String>,
    parent_stored: Result<Option<Vec<u8>>, String>,
    best: Result<PowAux<A::Difficulty>, Error>,
    parent: Result<PowAux<A::Difficulty>, Error>,
    r: Result<Checked<E, A::Difficulty>, String>,
)
    requires
        call_ensures(PowAux::<A::Difficulty>::read, (best_stored,), best),
        call_ensures(PowAux::<A::Difficulty>::read, (parent_stored,), parent),
        call_ensures(
            PowVerifier::<B, A>::check::<E>,
            (verifier, located, best_stored, parent_stored),
            r,
        ),
    ensures
        best matches Err(e) ==> r is Err && r->Err_0@ == e@.text(),
        best is Ok && parent is Err ==> r is Err && r->Err_0@ == parent->Err_0@.text(),
        best is Ok && parent is Ok && r is Err ==> exists|e: Error| #[trigger]
            is_reason::<B, A>(
                &verifier.algorithm,
                located.block.header,
                &BlockId::Hash(located.block.header.parent_hash),
                e,
            ) && r->Err_0@ == e@.text(),
{
    let header = located.block.header;
    let id = BlockId::Hash(header.parent_hash);
    if best is Ok && parent is Ok && r is Err {
        let h = choose|h: Result<CheckedHeader<A::Difficulty>, Error>|
            {
                &&& #[trigger] header_check::<B, A>(&verifier.algorithm, header@, &id, h)
                &&& match h {
                    Err(e) => r->Err_0@ == e@.text(),
                    Ok(_) => false,
                }
            };
        let e = h->Err_0;
        assert(h == Err::<CheckedHeader<A::Difficulty>, Error>(e));
        lemma_reason::<B, A>(&verifier.algorithm, header, &id, e);
    }
}

/// The runtime is asked exactly where the body is known and the number is not below the first
/// that is checked. It is asked at the parent, and gets the header that passed, the body and the
/// inherent data.
pub proof fn law_runtime_gets_the_block_that_passed<B: Hashing, A: PowAlgorithm, E>(
    verifier: &PowVerifier<B, A>,
    checked: Checked<E, A::Difficulty>,
    step: InherentsStep<E, A::Difficulty>,
)
    requires
        call_ensures(PowVerifier::<B, A>::check_inherents::<E>, (verifier, checked), step),
    ensures
        step is Ask <==> checked.body is Some && checked.candidate.header.number
            >= verifier.check_inherents_after,
        step matches InherentsStep::Skip(candidate) ==> candidate == checked.candidate,
        step matches InherentsStep::Ask(id, block, data, candidate) ==> {
            &&& id matches BlockId::Hash(hash) && hash@ == checked.candidate.header.parent_hash@
            &&& block.header@ == checked.candidate.header@
            &&& checked.body == Some(block.extrinsics)
            &&& data == checked.inherent_data
            &&& candidate == checked.candidate
        },
{
}

/// The data of a block can be stored exactly where the length of its policy takes no more than
/// thirty-two bits.
pub proof fn law_storable_blocks<D: Difficulty>(candidate: &Candidate<D>, r: bool)
    requires
        call_ensures(Candidate::<D>::is_storable, (candidate,), r),
    ensures
        r <==> (candidate.aux.policy matches Some(policy) ==> policy@.len() <= 4294967295),
        r == candidate.aux@.fits(),
{
}

/// A check that ends badly ends with the words of the error. One that ends well hands over the
/// header without its seal, the seal beside it, the justification, and one entry under `PoW:` and
/// the hash of the block from which its data is read back, field by field; the block becomes
/// the best one exactly where its total is above that of the best block. Nothing else is set.
pub proof fn law_importer_gets_the_checked_block<E, D: Difficulty>(
    candidate: Candidate<D>,
    inherents: Result<(), Error>,
    r: Result<BlockImportParams<E, ()>, String>,
    read: Result<PowAux<D>, Error>,
)
    requires
        inherents is Ok ==> (candidate.aux.policy matches Some(policy) ==> policy@.len()
            <= 4294967295),
        call_ensures(Candidate::<D>::finish::<E>, (candidate, inherents), r),
        r is Ok ==> call_ensures(PowAux::<D>::read, (Ok(r->Ok_0.auxiliary@[0].1),), read),
    ensures
        r is Ok <==> inherents is Ok,
        inherents matches Err(e) ==> r->Err_0@ == e@.text(),
        r matches Ok(params) ==> {
            &&& params.origin == candidate.origin
            &&& params.header@ == candidate.header@
            &&& same_policy(params.justification, candidate.justification)
            &&& params.post_digests@.len() == 1
            &&& params.post_digests@[0]@ == candidate.seal@
            &&& params.body is None
            &&& params.storage_changes is None
            &&& !params.finalized
            &&& params.auxiliary@.len() == 1
            &&& params.auxiliary@[0].0@ == seq![0x50u8, 0x6f, 0x57, 0x3a] + candidate.hash@
            &&& params.auxiliary@[0].1 is Some
            &&& read is Ok
            &&& read->Ok_0.difficulty == candidate.aux.difficulty
            &&& read->Ok_0.total_difficulty == candidate.aux.total_difficulty
            &&& same_policy(read->Ok_0.policy, candidate.aux.policy)
            &&& read->Ok_0.steps == candidate.aux.steps
            &&& params.fork_choice == Some(
                ForkChoiceStrategy::Custom(
                    candidate.aux.total_difficulty.rank() > candidate.best_total_difficulty.rank(),
                ),
            )
            &&& !params.allow_missing_state
            &&& !params.import_existing
        },
{
    if r is Ok {
        let params = r->Ok_0;
        let v = params@;
        assert(v.justification == opt_bytes_view(candidate.justification));
        assert(v.body is None);
        assert(v.post_digests.len() == 1);
        assert(v.post_digests[0] == candidate.seal@);
        assert(v.auxiliary.len() == 1);
        assert(v.auxiliary[0] == (params.auxiliary@[0].0@, Some(candidate.aux@.encoding())));
        assert(params.auxiliary@[0].0@ =~= seq![0x50u8, 0x6f, 0x57, 0x3a] + candidate.hash@);
        law_decode_inverts_encode(candidate.aux@, seq![]);
        assert(candidate.aux@.encoding() + seq![] =~= candidate.aux@.encoding());
        assert(read->Ok_0@ == candidate.aux@);
        assert(read->Ok_0@.policy == candidate.aux@.policy);
    }
}

/// What is read back for a checked block after its import has the difficulty and, byte by byte,
/// the policy that the algorithm named for it, the parent's total with that difficulty added,
/// and the steps that are read for the parent.
pub proof fn law_checked_block_is_read_back<B: Hashing, A: PowAlgorithm, E>(
    verifier: &PowVerifier<B, A>,
    located: Located<E>,
    best_stored: Result<Option<Vec<u8>>, String>,
    parent_stored: Result<Option<Vec<u8>>, String>,
    best: Result<PowAux<A::Difficulty>, Error>,
    parent: Result<PowAux<A::Difficulty>, Error>,
    checked: Checked<E, A::Difficulty>,
    params: BlockImportParams<E, ()>,
    read: Result<PowAux<A::Difficulty>, Error>,
)
    requires
        call_ensures(PowAux::<A::Difficulty>::read, (best_stored,), best),
        call_ensures(PowAux::<A::Difficulty>::read, (parent_stored,), parent),
        call_ensures(
            PowVerifier::<B, A>::check::<E>,
            (verifier, located, best_stored, parent_stored),
            Ok::<Checked<E, A::Difficulty>, String>(checked),
        ),
        checked.candidate.aux.policy matches Some(policy) ==> policy@.len() <= 4294967295,
        call_ensures(
            Candidate::<A::Difficulty>::finish::<E>,
            (checked.candidate, Ok::<(), Error>(())),
            Ok::<BlockImportParams<E, ()>, String>(params),
        ),
        call_ensures(PowAux::<A::Difficulty>::read, (Ok(params.auxiliary@[0].1),), read),
    ensures
        read is Ok && parent is Ok,
        call_ensures(
            A::difficulty,
            (&verifier.algorithm, &BlockId::Hash(located.block.header.parent_hash)),
            Ok::<A::Difficulty, Error>(read->Ok_0.difficulty),
        ),
        exists|named: Option<Vec<u8>>| #[trigger]
            call_ensures(
                A::policy,
                (&verifier.algorithm, &BlockId::Hash(located.block.header.parent_hash)),
                Ok::<Option<Vec<u8>>, Error>(named),
            ) && same_policy(read->Ok_0.policy, named),
        read->Ok_0.total_difficulty == parent->Ok_0.total_difficulty.incremented(
            read->Ok_0.difficulty,
        ),
        read->Ok_0.steps == parent->Ok_0.steps,
{
    law_block_extends_what_is_read_for_its_parent::<B, A, E>(
        verifier,
        located,
        best_stored,
        parent_stored,
        best,
        parent,
        checked,
    );
    law_importer_gets_the_checked_block::<E, A::Difficulty>(
        checked.candidate,
        Ok::<(), Error>(()),
        Ok::<BlockImportParams<E, ()>, String>(params),
        read,
    );
}

/// Once a block is imported and the chain selection names its header, with the seal as the last
/// entry of the digest, the lookup for the best block is under the key that the import stored the
/// data of the block under; the same holds of the lookup for the parent of a block on top of it.
/// So the total that the next block is compared with is the one that was stored.
pub proof fn law_best_block_is_found_where_it_was_stored<B: Hashing, A: PowAlgorithm, E>(
    verifier: &PowVerifier<B, A>,
    located: Located<E>,
    best_stored: Result<Option<Vec<u8>>, String>,
    parent_stored: Result<Option<Vec<u8>>, String>,
    checked: Checked<E, A::Difficulty>,
    params: BlockImportParams<E, ()>,
    header: Header,
    block: Verification<E>,
    next: Result<Located<E>, String>,
    best_key: Vec<u8>,
    parent_key: Vec<u8>,
    other_stored: Result<Option<Vec<u8>>, String>,
    compared: Result<Checked<E, A::Difficulty>, String>,
)
    requires
        call_ensures(
            PowVerifier::<B, A>::check::<E>,
            (verifier, located, best_stored, parent_stored),
            Ok::<Checked<E, A::Difficulty>, String>(checked),
        ),
        checked.candidate.aux.policy matches Some(policy) ==> policy@.len() <= 4294967295,
        call_ensures(
            Candidate::<A::Difficulty>::finish::<E>,
            (checked.candidate, Ok::<(), Error>(())),
            Ok::<BlockImportParams<E, ()>, String>(params),
        ),
        header@ == (HeaderView {
            digest: params.header@.digest.push(params.post_digests@[0]@),
            ..params.header@
        }),
        call_ensures(
            Verification::<E>::best::<B>,
            (block, BestBlock::SelectChain(Ok(header))),
            next,
        ),
        call_ensures(Located::<E>::best_key, (&next->Ok_0,), best_key),
        call_ensures(Located::<E>::parent_key, (&next->Ok_0,), parent_key),
        call_ensures(
            PowVerifier::<B, A>::check::<E>,
            (verifier, next->Ok_0, Ok(params.auxiliary@[0].1), other_stored),
            compared,
        ),
    ensures
        next is Ok,
        best_key@ == params.auxiliary@[0].0@,
        block.header.parent_hash@ == B::header_hash(header@) ==> parent_key@
            == params.auxiliary@[0].0@,
        compared matches Ok(c) ==> c.candidate.best_total_difficulty
            == checked.candidate.aux.total_difficulty,
{
    let candidate = checked.candidate;
    let v = params@;
    assert(v.header == candidate.header@);
    assert(v.post_digests.len() == 1);
    assert(v.post_digests[0] == candidate.seal@);
    assert(v.auxiliary.len() == 1);
    assert(v.auxiliary[0] == (params.auxiliary@[0].0@, opt_bytes_view(params.auxiliary@[0].1)));
    let whole = located.block.header;
    let id = BlockId::Hash(whole.parent_hash);
    lemma_unsealed::<B>(whole);
    assert(pow_() =~= crate::import::POW_ENGINE_ID@);
    assert(is_sealed(whole) && candidate.header@ == stripped(whole) && candidate.seal@
        == DigestItemView::Seal(pow_(), seal_of(whole))) by {
        let h = choose|h: Result<CheckedHeader<A::Difficulty>, Error>|
            #[trigger] header_check::<B, A>(&verifier.algorithm, whole@, &id, h) && h is Ok
                && h->Ok_0.0@ == candidate.header@ && h->Ok_0.3@ == candidate.seal@;
        let w = lemma_answers::<B, A>(&verifier.algorithm, whole, &id, h);
    }
    let n = whole.digest@.len() - 1;
    assert(whole@.digest[n] == whole.digest@[n]@);
    assert(header@.digest =~= whole@.digest);
    assert(header@ == whole@);
    law_decode_inverts_encode(candidate.aux@, seq![]);
    assert(candidate.aux@.encoding() + seq![] =~= candidate.aux@.encoding());
    assert(opt_bytes_view(params.auxiliary@[0].1) == Some(candidate.aux@.encoding()));
    assert(candidate.aux@.total_difficulty == candidate.aux.total_difficulty);
}

} // verus!
