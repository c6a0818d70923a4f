//! Views leave nothing out, and copies say the same.
//!
//! Contracts speak of what values say. Here it is stated, field by field and byte by byte, what
//! that is.
use crate::auxiliary::{result_view, stored_view, PowAux, PowIntermediate};
use crate::error::{Error, ErrorView};
use crate::header::{
    blake_two_256_header_hash, BlakeTwo256, BlockHash, DigestItem, DigestItemView, Hashing, Header,
    HeaderView,
};
use crate::import::{body_view, BlockImportParams};
use crate::inherents::{
    entries_view, InherentIdentifier, InherentsVerdict, InherentsVerdictView, TimestampError,
    TimestampErrorView,
};
use crate::scale::opt_bytes_view;
use vstd::prelude::*;

verus! {

/// A digest entry says its kind and all of its bytes.
pub proof fn law_digest_item_is_seen_whole(item: DigestItem)
    ensures
        match item {
            DigestItem::ChangesTrieRoot(root) => item@ == DigestItemView::ChangesTrieRoot(root@),
            DigestItem::PreRuntime(id, data) => item@ == DigestItemView::PreRuntime(id@, data@),
            DigestItem::Consensus(id, data) => item@ == DigestItemView::Consensus(id@, data@),
            DigestItem::Seal(id, data) => item@ == DigestItemView::Seal(id@, data@),
            DigestItem::ChangesTrieSignal(c) => item@ == DigestItemView::ChangesTrieSignal(c),
            DigestItem::Other(data) => item@ == DigestItemView::Other(data@),
        },
{
}

/// A header says all of its fields, and its digest entry by entry.
pub proof fn law_header_is_seen_whole(header: Header)
    ensures
        header@.parent_hash == header.parent_hash@,
        header@.number == header.number,
        header@.state_root == header.state_root@,
        header@.extrinsics_root == header.extrinsics_root@,
        header@.digest.len() == header.digest@.len(),
        forall|i: int|
            0 <= i < header.digest@.len() ==> #[trigger] header@.digest[i] == header.digest@[i]@,
{
}

/// Auxiliary data says all of its fields, and its policy byte by byte.
pub proof fn law_aux_is_seen_whole<D>(aux: PowAux<D>)
    ensures
        aux@.difficulty == aux.difficulty,
        aux@.total_difficulty == aux.total_difficulty,
        aux.policy is None <==> aux@.policy is None,
        aux.policy matches Some(p) ==> aux@.policy->0 == p@,
        aux@.steps == aux.steps,
{
}

/// An intermediate value says all of its fields, and its policy byte by byte.
pub proof fn law_intermediate_is_seen_whole<D>(value: PowIntermediate<D>)
    ensures
        value@.difficulty == value.difficulty,
        value.policy is None <==> value@.policy is None,
        value.policy matches Some(p) ==> value@.policy->0 == p@,
{
}

/// Import data says all of its fields, and its lists entry by entry.
pub proof fn law_import_data_is_seen_whole<E, S>(params: BlockImportParams<E, S>)
    ensures
        params@.origin == params.origin,
        params@.header == params.header@,
        params.justification is None <==> params@.justification is None,
        params.justification matches Some(j) ==> params@.justification->0 == j@,
        params@.post_digests.len() == params.post_digests@.len(),
        forall|i: int|
            0 <= i < params.post_digests@.len() ==> #[trigger] params@.post_digests[i]
                == params.post_digests@[i]@,
        params.body is None <==> params@.body is None,
        params.body matches Some(b) ==> params@.body->0 == b@,
        params@.storage_changes == params.storage_changes,
        params@.finalized == params.finalized,
        params@.auxiliary.len() == params.auxiliary@.len(),
        forall|i: int|
            0 <= i < params.auxiliary@.len() ==> {
                &&& (#[trigger] params@.auxiliary[i]).0 == params.auxiliary@[i].0@
                &&& params.auxiliary@[i].1 is None <==> params@.auxiliary[i].1 is None
                &&& params.auxiliary@[i].1 matches Some(v) ==> params@.auxiliary[i].1->0 == v@
            },
        params@.fork_choice == params.fork_choice,
        params@.allow_missing_state == params.allow_missing_state,
        params@.import_existing == params.import_existing,
{
}

/// An error says its kind and all that it holds.
pub proof fn law_error_is_seen_whole(e: Error)
    ensures
        match e {
            Error::WrongEngine(id) => e@ == ErrorView::WrongEngine(id@),
            Error::HeaderUnsealed(hash) => e@ == ErrorView::HeaderUnsealed(hash@),
            Error::InvalidSeal => e@ is InvalidSeal,
            Error::FailedPreliminaryVerify => e@ is FailedPreliminaryVerify,
            Error::TooFarInFuture => e@ is TooFarInFuture,
            Error::BestHeaderSelectChain(s) => e@ == ErrorView::BestHeaderSelectChain(s@),
            Error::BestHeader(s) => e@ == ErrorView::BestHeader(s@),
            Error::NoBestHeader => e@ is NoBestHeader,
            Error::BlockProposingError(s) => e@ == ErrorView::BlockProposingError(s@),
            Error::BestHashSelectChain(s) => e@ == ErrorView::BestHashSelectChain(s@),
            Error::BlockBuiltError(hash, s) => e@ == ErrorView::BlockBuiltError(hash@, s@),
            Error::CreateInherents(s) => e@ == ErrorView::CreateInherents(s@),
            Error::CheckInherents(s) => e@ == ErrorView::CheckInherents(s@),
            Error::Client(s) => e@ == ErrorView::Client(s@),
            Error::Codec(s) => e@ == ErrorView::Codec(s@),
            Error::Environment(s) => e@ == ErrorView::Environment(s@),
            Error::Runtime(s) => e@ == ErrorView::Runtime(s@),
        },
{
}

/// A timestamp error says its kind and all that it holds.
pub proof fn law_timestamp_error_is_seen_whole(e: TimestampError)
    ensures
        match e {
            TimestampError::ValidAtTimestamp(t) => e@ == TimestampErrorView::ValidAtTimestamp(t),
            TimestampError::Other(s) => e@ == TimestampErrorView::Other(s@),
        },
{
}

/// A verdict says its kind and all that it holds.
pub proof fn law_verdict_is_seen_whole(v: InherentsVerdict)
    ensures
        match v {
            InherentsVerdict::Accepted => v@ is Accepted,
            InherentsVerdict::Rejected(e) => v@ == InherentsVerdictView::Rejected(e@),
            InherentsVerdict::Unknown(id, data) => v@ == InherentsVerdictView::Unknown(id@, data@),
            InherentsVerdict::ClockOutOfRange => v@ is ClockOutOfRange,
        },
{
}

/// Optional values are seen as what they hold, results on both sides, lists entry by entry.
pub proof fn law_containers_are_seen_whole<E>(
    bytes: Vec<u8>,
    extrinsics: Vec<E>,
    text: String,
    stored: Option<Vec<u8>>,
    error: Error,
    header: Header,
    entries: Seq<(InherentIdentifier, Vec<u8>)>,
)
    ensures
        opt_bytes_view(None) is None,
        opt_bytes_view(Some(bytes)) == Some(bytes@),
        body_view::<E>(None) is None,
        body_view(Some(extrinsics)) == Some(extrinsics@),
        stored_view(Err(text)) == Err::<Option<Seq<u8>>, Seq<char>>(text@),
        stored_view(Ok(None)) == Ok::<Option<Seq<u8>>, Seq<char>>(None),
        stored_view(Ok(Some(bytes))) == Ok::<Option<Seq<u8>>, Seq<char>>(Some(bytes@)),
        result_view::<Header, Error>(Ok(header)) == Ok::<HeaderView, ErrorView>(header@),
        result_view::<Header, Error>(Err(error)) == Err::<HeaderView, ErrorView>(error@),
        entries_view(entries).len() == entries.len(),
        forall|i: int|
            0 <= i < entries.len() ==> (#[trigger] entries_view(entries)[i]).0 == entries[i].0@
                && entries_view(entries)[i].1 == entries[i].1@,
{
}

/// A copy of a digest entry, of a header, of auxiliary data or of an intermediate value says
/// what the value itself says.
pub proof fn law_copies_say_the_same<D: Copy>(
    item: &DigestItem,
    item_copy: DigestItem,
    header: &Header,
    header_copy: Header,
    aux: &PowAux<D>,
    aux_copy: PowAux<D>,
    value: &PowIntermediate<D>,
    value_copy: PowIntermediate<D>,
)
    requires
        call_ensures(<DigestItem as Clone>::clone, (item,), item_copy),
        call_ensures(<Header as Clone>::clone, (header,), header_copy),
        call_ensures(<PowAux<D> as Clone>::clone, (aux,), aux_copy),
        call_ensures(<PowIntermediate<D> as Clone>::clone, (value,), value_copy),
    ensures
        item_copy@ == item@,
        header_copy@ == header@,
        header_copy.number == header.number,
        header_copy.digest@.len() == header.digest@.len(),
        aux_copy@ == aux@,
        aux_copy.total_difficulty == aux.total_difficulty,
        value_copy@ == value@,
        value_copy.difficulty == value.difficulty,
{
    assert(header_copy@.number == header@.number);
    assert(header_copy@.digest.len() == header@.digest.len());
    assert(aux_copy@.total_difficulty == aux@.total_difficulty);
    assert(value_copy@.difficulty == value@.difficulty);
}

/// A header is hashed whole, as `sp_runtime` does it: the hash depends on no less than all that
/// the header says.
pub proof fn law_headers_are_hashed_whole(header: &Header, r: BlockHash)
    requires
        call_ensures(<BlakeTwo256 as Hashing>::hash, (header,), r),
    ensures
        r@ == blake_two_256_header_hash(
            HeaderView {
                parent_hash: header.parent_hash@,
                number: header.number,
                state_root: header.state_root@,
                extrinsics_root: header.extrinsics_root@,
                digest: Seq::new(header.digest@.len(), |i: int| header.digest@[i]@),
            },
        ),
{
    assert(header@.digest =~= Seq::new(header.digest@.len(), |i: int| header.digest@[i]@));
}

/// The hash that contracts speak of is the one that `sp_runtime` gives.
pub proof fn law_hash_is_that_of_the_runtime(header: HeaderView)
    ensures
        BlakeTwo256::header_hash(header) == blake_two_256_header_hash(header),
{
}

} // verus!
