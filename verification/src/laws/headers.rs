//! Digests of headers, and what the importer is handed.
use crate::auxiliary::{law_decode_inverts_encode, PowAux};
use crate::difficulty::Difficulty;
use crate::error::Error;
use crate::header::{BlockHash, DigestItem, Header};
use crate::import::{BlockImportParams, BlockOrigin, ForkChoiceStrategy};
use vstd::prelude::*;

verus! {

/// Adding an entry puts it behind all the others and changes nothing else.
pub proof fn law_push_adds_at_the_end(header: &mut Header, item: DigestItem)
    requires
        call_ensures(Header::push_digest, (header, item), ()),
    ensures
        final(header).parent_hash@ == old(header).parent_hash@,
        final(header).number == old(header).number,
        final(header).state_root@ == old(header).state_root@,
        final(header).extrinsics_root@ == old(header).extrinsics_root@,
        final(header).digest@.len() == old(header).digest@.len() + 1,
        final(header).digest@.last()@ == item@,
        forall|i: int|
            0 <= i < old(header).digest@.len() ==> (#[trigger] final(header).digest@[i])@
                == old(header).digest@[i]@,
{
    let new = final(header)@;
    let before = old(header)@;
    assert(new.number == before.number);
    assert(new.digest.len() == final(header).digest@.len());
    assert(new.digest.len() == before.digest.len() + 1);
    assert(new.digest[before.digest.len() as int] == item@);
    assert forall|i: int| 0 <= i < old(header).digest@.len() implies (#[trigger] final(header).digest@[i])@ == old(header).digest@[i]@ by {
        assert(new.digest[i] == before.digest[i]);
    }
}

/// Taking an entry off yields the last one and changes nothing else; where there is none, nothing
/// is taken.
pub proof fn law_pop_takes_the_last(header: &mut Header, r: Option<DigestItem>)
    requires
        call_ensures(Header::pop_digest, (header,), r),
    ensures
        final(header).parent_hash@ == old(header).parent_hash@,
        final(header).number == old(header).number,
        final(header).state_root@ == old(header).state_root@,
        final(header).extrinsics_root@ == old(header).extrinsics_root@,
        r is None <==> old(header).digest@.len() == 0,
        r matches Some(item) ==> item@ == old(header).digest@.last()@ && final(header).digest@.len() == old(header).digest@.len() - 1,
        r is None ==> final(header).digest@.len() == 0,
        forall|i: int|
            0 <= i < final(header).digest@.len() ==> (#[trigger] final(header).digest@[i])@ == old(header).digest@[i]@,
{
    let new = final(header)@;
    let before = old(header)@;
    assert(new.number == before.number);
    assert(new.digest.len() == final(header).digest@.len());
    assert(before.digest.len() == old(header).digest@.len());
    assert forall|i: int| 0 <= i < final(header).digest@.len() implies (#[trigger] final(header).digest@[i])@ == old(header).digest@[i]@ by {
        assert(new.digest[i] == before.digest[i]);
    }
}

/// How many bytes the data of a digest entry has.
pub open spec fn data_len(item: DigestItem) -> nat {
    match item {
        DigestItem::ChangesTrieRoot(_) => 0,
        DigestItem::PreRuntime(_, data) => data@.len(),
        DigestItem::Consensus(_, data) => data@.len(),
        DigestItem::Seal(_, data) => data@.len(),
        DigestItem::ChangesTrieSignal(_) => 0,
        DigestItem::Other(data) => data@.len(),
    }
}

/// A header can be encoded exactly where the number of its digest entries, and the length of the
/// data of each, take no more than thirty-two bits.
pub proof fn law_encodable_headers(header: &Header, r: bool, item: &DigestItem, one: bool)
    requires
        call_ensures(Header::is_encodable, (header,), r),
        call_ensures(DigestItem::is_encodable, (item,), one),
    ensures
        one <==> data_len(*item) <= 4294967295,
        r <==> header.digest@.len() <= 4294967295 && forall|i: int|
            0 <= i < header.digest@.len() ==> data_len(#[trigger] header.digest@[i]) <= 4294967295,
        r == header@.fits(),
{
    assert forall|i: int| 0 <= i < header.digest@.len() implies (header@.digest[i].fits()
        <==> data_len(#[trigger] header.digest@[i]) <= 4294967295) by {}
    if header.digest@.len() <= 4294967295 && forall|i: int|
        0 <= i < header.digest@.len() ==> data_len(#[trigger] header.digest@[i]) <= 4294967295 {
        assert forall|i: int| 0 <= i < header@.digest.len() implies #[trigger] header@.digest[i].fits()
            by {
            assert(data_len(header.digest@[i]) <= 4294967295);
        }
    }
    if r {
        assert forall|i: int| 0 <= i < header.digest@.len() implies data_len(
            #[trigger] header.digest@[i],
        ) <= 4294967295 by {
            assert(header@.digest[i].fits());
        }
    }
}

/// New import data says where the header comes from, and nothing more.
pub proof fn law_new_import_data_is_plain<E, S>(
    origin: BlockOrigin,
    header: Header,
    r: BlockImportParams<E, S>,
)
    requires
        call_ensures(BlockImportParams::<E, S>::new, (origin, header), r),
    ensures
        r.origin == origin,
        r.header@ == header@,
        r.justification is None,
        r.post_digests@.len() == 0,
        r.body is None,
        r.storage_changes is None,
        !r.finalized,
        r.auxiliary@.len() == 0,
        r.fork_choice is None,
        !r.allow_missing_state,
        !r.import_existing,
{
    let v = r@;
    assert(v.justification is None);
    assert(v.body is None);
    assert(v.post_digests.len() == 0);
    assert(v.auxiliary.len() == 0);
}

/// Import data for a block of this engine holds the header, one seal, one entry under the key of
/// the hash from which the data of the block is read back, and the choice; and nothing more.
pub proof fn law_sealed_import_data<E, S, D: Difficulty>(
    origin: BlockOrigin,
    header: Header,
    seal: DigestItem,
    hash: &BlockHash,
    aux: &PowAux<D>,
    best: bool,
    r: BlockImportParams<E, S>,
    read: Result<PowAux<D>, Error>,
)
    requires
        aux.policy matches Some(policy) ==> policy@.len() <= 4294967295,
        call_ensures(
            BlockImportParams::<E, S>::sealed::<D>,
            (origin, header, seal, hash, aux, best),
            r,
        ),
        call_ensures(PowAux::<D>::read, (Ok(r.auxiliary@[0].1),), read),
    ensures
        r.origin == origin,
        r.header@ == header@,
        r.justification is None,
        r.post_digests@.len() == 1,
        r.post_digests@[0]@ == seal@,
        r.body is None,
        r.storage_changes is None,
        !r.finalized,
        r.auxiliary@.len() == 1,
        r.auxiliary@[0].0@ == seq![0x50u8, 0x6f, 0x57, 0x3a] + hash@,
        r.auxiliary@[0].1 is Some,
        read is Ok,
        read->Ok_0.difficulty == aux.difficulty,
        read->Ok_0.total_difficulty == aux.total_difficulty,
        read->Ok_0.policy is None <==> aux.policy is None,
        aux.policy matches Some(policy) ==> read->Ok_0.policy->0@ == policy@,
        read->Ok_0.steps == aux.steps,
        r.fork_choice == Some(ForkChoiceStrategy::Custom(best)),
        !r.allow_missing_state,
        !r.import_existing,
{
    let v = r@;
    assert(v.justification is None);
    assert(v.body is None);
    assert(v.post_digests.len() == 1);
    assert(v.post_digests[0] == seal@);
    assert(v.auxiliary.len() == 1);
    assert(v.auxiliary[0] == (r.auxiliary@[0].0@, Some(aux@.encoding())));
    assert(r.auxiliary@[0].0@ =~= seq![0x50u8, 0x6f, 0x57, 0x3a] + hash@);
    law_decode_inverts_encode(aux@, seq![]);
    assert(aux@.encoding() + seq![] =~= aux@.encoding());
    assert(read->Ok_0@ == aux@);
}

} // verus!
