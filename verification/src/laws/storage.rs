//! What is stored for a block, byte by byte, and what is read back.
use crate::auxiliary::{
    aux_key, law_decode_accepts_only_encodings, law_decode_inverts_encode,
    law_intermediate_decode_inverts_encode, lemma_take_difficulty, lemma_take_opt_bytes,
    take_difficulty, take_opt_bytes, take_opt_difficulty, take_opt_u64, PowAux, PowAuxView,
    PowIntermediate, PowIntermediateView,
};
use crate::difficulty::Difficulty;
use crate::error::{Error, ErrorView};
use crate::laws::amounts::lemma_le_bytes_of_le_value;
use crate::scale::{
    le_value, lemma_le_bytes_len, lemma_pow256, opt_bytes_encoding, opt_bytes_fit,
    opt_u64_encoding, splits,
};
use vstd::prelude::*;

verus! {

/// The key of a block is `PoW:`, then all bytes of its hash.
pub proof fn law_key_is_prefix_then_hash(hash: &[u8], r: Vec<u8>)
    requires
        call_ensures(aux_key, (hash,), r),
    ensures
        r@.len() == 4 + hash@.len(),
        r@[0] == 0x50 && r@[1] == 0x6f && r@[2] == 0x57 && r@[3] == 0x3a,
        forall|i: int| 0 <= i < hash@.len() ==> r@[4 + i] == #[trigger] hash@[i],
{
}

/// Blocks have the same key only if they have the same hash.
pub proof fn law_calls_tell_blocks_apart(a: &[u8], b: &[u8], x: Vec<u8>, y: Vec<u8>)
    requires
        call_ensures(aux_key, (a,), x),
        call_ensures(aux_key, (b,), y),
    ensures
        x@ == y@ <==> a@ == b@,
{
    law_key_is_prefix_then_hash(a, x);
    law_key_is_prefix_then_hash(b, y);
    if x@ == y@ {
        assert forall|i: int| 0 <= i < a@.len() implies a@[i] == b@[i] by {
            assert(x@[4 + i] == a@[i]);
            assert(y@[4 + i] == b@[i]);
        }
        assert(a@ =~= b@);
    }
}

/// The stored form is the difficulty, the total, the policy and the steps, one after the other.
pub proof fn law_fields_are_stored_in_turn<D: Difficulty>(aux: &PowAux<D>, r: Vec<u8>)
    requires
        call_ensures(PowAux::<D>::encode, (aux,), r),
    ensures
        r@ == aux.difficulty.encoding() + aux.total_difficulty.encoding() + (match aux.policy {
            None => opt_bytes_encoding(None),
            Some(policy) => opt_bytes_encoding(Some(policy@)),
        }) + opt_u64_encoding(aux.steps),
{
}

/// Whatever is stored for a block is read back, field by field and byte by byte, also where
/// something follows it.
pub proof fn law_written_is_read_back<D: Difficulty>(
    aux: &PowAux<D>,
    bytes: Vec<u8>,
    longer: &[u8],
    read: Result<PowAux<D>, Error>,
    decoded: Result<PowAux<D>, Error>,
)
    requires
        aux.policy matches Some(policy) ==> policy@.len() <= 4294967295,
        call_ensures(PowAux::<D>::encode, (aux,), bytes),
        call_ensures(PowAux::<D>::read, (Ok(Some(bytes)),), read),
        bytes@.is_prefix_of(longer@),
        call_ensures(PowAux::<D>::decode, (longer,), decoded),
    ensures
        read is Ok && decoded is Ok,
        read->Ok_0.difficulty == aux.difficulty,
        read->Ok_0.total_difficulty == aux.total_difficulty,
        read->Ok_0.policy is None <==> aux.policy is None,
        aux.policy matches Some(policy) ==> read->Ok_0.policy->0@ == policy@,
        read->Ok_0.steps == aux.steps,
        decoded->Ok_0.difficulty == aux.difficulty,
        decoded->Ok_0.total_difficulty == aux.total_difficulty,
        decoded->Ok_0.policy is None <==> aux.policy is None,
        aux.policy matches Some(policy) ==> decoded->Ok_0.policy->0@ == policy@,
        decoded->Ok_0.steps == aux.steps,
{
    law_decode_inverts_encode(aux@, seq![]);
    assert(bytes@ + seq![] =~= bytes@);
    let rest = longer@.skip(bytes@.len() as int);
    law_decode_inverts_encode(aux@, rest);
    assert(bytes@ + rest =~= longer@);
    assert(read->Ok_0@ == aux@);
    assert(decoded->Ok_0@ == aux@);
}

/// Where nothing is stored, the difficulty and the total are those of an empty chain, and there
/// is neither a policy nor a number of steps. Where the client fails, its words come back.
pub proof fn law_nothing_stored_reads_as_an_empty_chain<D: Difficulty>(
    none: Result<PowAux<D>, Error>,
    e: String,
    failed: Result<PowAux<D>, Error>,
    default: PowAux<D>,
)
    requires
        call_ensures(PowAux::<D>::read, (Ok(None),), none),
        call_ensures(PowAux::<D>::read, (Err(e),), failed),
        call_ensures(<PowAux<D> as Default>::default, (), default),
    ensures
        none is Ok,
        none->Ok_0.difficulty == D::initial_value(),
        none->Ok_0.total_difficulty == D::initial_value(),
        none->Ok_0.policy is None,
        none->Ok_0.steps is None,
        failed is Err,
        failed->Err_0 matches Error::Client(text) && text@ == e@,
        default.difficulty == D::initial_value(),
        default.total_difficulty == D::initial_value(),
        default.policy is None,
        default.steps is None,
{
    let n = none->Ok_0@;
    assert(n == PowAuxView::<D>::initial());
    assert(n.policy is None);
    let d = default@;
    assert(d.policy is None);
    assert(failed->Err_0@ == ErrorView::Client(e@));
}

/// Reading what was found is decoding it.
pub proof fn law_reading_is_decoding<D: Difficulty>(
    found: Vec<u8>,
    bytes: &[u8],
    read: Result<PowAux<D>, Error>,
    decoded: Result<PowAux<D>, Error>,
)
    requires
        bytes@ == found@,
        call_ensures(PowAux::<D>::read, (Ok(Some(found)),), read),
        call_ensures(PowAux::<D>::decode, (bytes,), decoded),
    ensures
        read is Ok <==> decoded is Ok,
        read is Ok ==> read->Ok_0@ == decoded->Ok_0@,
        read is Err ==> read->Err_0@ == decoded->Err_0@,
{
}

/// What is decoded is what the bytes begin with; where decoding fails, they begin with the
/// stored form of nothing.
pub proof fn law_decoding_is_exact<D: Difficulty>(
    bytes: &[u8],
    r: Result<PowAux<D>, Error>,
    difficulty: D,
    total: D,
    policy: Option<Seq<u8>>,
    steps: Option<u64>,
)
    requires
        call_ensures(PowAux::<D>::decode, (bytes,), r),
        policy matches Some(p) ==> p.len() <= 4294967295,
    ensures
        (difficulty.encoding() + total.encoding() + opt_bytes_encoding(policy) + opt_u64_encoding(
            steps,
        )).is_prefix_of(bytes@) <==> {
            &&& r is Ok
            &&& r->Ok_0.difficulty == difficulty
            &&& r->Ok_0.total_difficulty == total
            &&& r->Ok_0.policy is None <==> policy is None
            &&& policy matches Some(p) ==> r->Ok_0.policy->0@ == p
            &&& r->Ok_0.steps == steps
        },
{
    let aux = PowAuxView { difficulty, total_difficulty: total, policy, steps };
    let form = difficulty.encoding() + total.encoding() + opt_bytes_encoding(policy)
        + opt_u64_encoding(steps);
    if form.is_prefix_of(bytes@) {
        let rest = bytes@.skip(form.len() as int);
        law_decode_inverts_encode(aux, rest);
        assert(bytes@ =~= form + rest);
        assert(r->Ok_0@ == aux);
    }
    if r is Ok && r->Ok_0.difficulty == difficulty && r->Ok_0.total_difficulty == total && (
    r->Ok_0.policy is None <==> policy is None) && (policy matches Some(p)
        ==> r->Ok_0.policy->0@ == p) && r->Ok_0.steps == steps {
        law_decode_accepts_only_encodings::<D>(bytes@);
        assert(r->Ok_0@ == aux);
    }
}

/// The error names the first field that what is left of the bytes does not begin with.
pub proof fn law_error_names_the_first_field_that_is_missing<D: Difficulty>(
    bytes: &[u8],
    r: Result<PowAux<D>, Error>,
    difficulty: D,
    total: D,
    policy: Option<Seq<u8>>,
    rest: Seq<u8>,
)
    requires
        call_ensures(PowAux::<D>::decode, (bytes,), r),
        policy matches Some(p) ==> p.len() <= 4294967295,
    ensures
        (forall|d: D| !(#[trigger] d.encoding()).is_prefix_of(bytes@)) ==> (r matches Err(
            Error::Codec(text),
        ) && text@ == "Error decoding field PowAux.difficulty"@),
        bytes@ == difficulty.encoding() + rest && (forall|d: D|
            !(#[trigger] d.encoding()).is_prefix_of(rest)) ==> (r matches Err(Error::Codec(text))
            && text@ == "Error decoding field PowAux.total_difficulty"@),
        bytes@ == difficulty.encoding() + (total.encoding() + rest) && (forall|p: Option<Seq<u8>>|
            (p matches Some(q) ==> q.len() <= 4294967295) ==> !(#[trigger] opt_bytes_encoding(
                p,
            )).is_prefix_of(rest)) ==> (r matches Err(Error::Codec(text)) && text@
            == "Error decoding field PowAux.policy"@),
        bytes@ == difficulty.encoding() + (total.encoding() + (opt_bytes_encoding(policy) + rest))
            && (forall|n: Option<u64>| !(#[trigger] opt_u64_encoding(n)).is_prefix_of(rest)) ==> (
        r matches Err(Error::Codec(text)) && text@ == "Error decoding field PowAux.steps"@),
{
    let s = bytes@;
    if forall|d: D| !(#[trigger] d.encoding()).is_prefix_of(s) {
        lemma_no_difficulty::<D>(s);
    }
    if s == difficulty.encoding() + rest && (forall|d: D| !(#[trigger] d.encoding()).is_prefix_of(
        rest,
    )) {
        lemma_take_difficulty(s, difficulty, rest);
        lemma_no_difficulty::<D>(rest);
    }
    if s == difficulty.encoding() + (total.encoding() + rest) && (forall|p: Option<Seq<u8>>|
        (p matches Some(q) ==> q.len() <= 4294967295) ==> !(#[trigger] opt_bytes_encoding(
            p,
        )).is_prefix_of(rest)) {
        lemma_take_difficulty(s, difficulty, total.encoding() + rest);
        lemma_take_difficulty(total.encoding() + rest, total, rest);
        assert forall|p: Option<Seq<u8>>, tail: Seq<u8>| opt_bytes_fit(p) implies !#[trigger] splits(
            rest,
            opt_bytes_encoding(p),
            tail,
        ) by {
            if splits(rest, opt_bytes_encoding(p), tail) {
                assert(opt_bytes_encoding(p).is_prefix_of(rest));
            }
        }
    }
    let behind = opt_bytes_encoding(policy) + rest;
    if s == difficulty.encoding() + (total.encoding() + behind) && (forall|n: Option<u64>|
        !(#[trigger] opt_u64_encoding(n)).is_prefix_of(rest)) {
        lemma_take_difficulty(s, difficulty, total.encoding() + behind);
        lemma_take_difficulty(total.encoding() + behind, total, behind);
        lemma_take_opt_bytes(behind, policy, rest);
        assert forall|n: Option<u64>, tail: Seq<u8>| !#[trigger] splits(
            rest,
            opt_u64_encoding(n),
            tail,
        ) by {
            if splits(rest, opt_u64_encoding(n), tail) {
                assert(opt_u64_encoding(n).is_prefix_of(rest));
            }
        }
    }
}

proof fn lemma_no_difficulty<D: Difficulty>(s: Seq<u8>)
    requires
        forall|d: D| !(#[trigger] d.encoding()).is_prefix_of(s),
    ensures
        take_difficulty::<D>(s) is None,
{
    assert forall|d: D, rest: Seq<u8>| !#[trigger] splits(s, d.encoding(), rest) by {
        if splits(s, d.encoding(), rest) {
            assert(d.encoding().is_prefix_of(s));
        }
    }
}

/// With difficulties of 128 bits, the error names the first field for which there is not enough:
/// the difficulty takes sixteen bytes, and so does the total; the policy and the steps begin with
/// a byte that is zero or one.
pub proof fn law_first_unreadable_field_is_named(bytes: &[u8], r: Result<PowAux<u128>, Error>)
    requires
        call_ensures(PowAux::<u128>::decode, (bytes,), r),
    ensures
        bytes@.len() < 16 ==> (r matches Err(Error::Codec(text)) && text@
            == "Error decoding field PowAux.difficulty"@),
        16 <= bytes@.len() < 32 ==> (r matches Err(Error::Codec(text)) && text@
            == "Error decoding field PowAux.total_difficulty"@),
        bytes@.len() == 32 || bytes@.len() > 32 && bytes@[32] > 1 ==> (r matches Err(Error::Codec(text)) && text@
            == "Error decoding field PowAux.policy"@),
        bytes@.len() == 33 && bytes@[32] == 0 ==> (r matches Err(Error::Codec(text)) && text@
            == "Error decoding field PowAux.steps"@),
        bytes@.len() > 33 && bytes@[32] == 0 && bytes@[33] > 1 ==> (r matches Err(Error::Codec(text)) && text@
            == "Error decoding field PowAux.steps"@),
        r is Err ==> r->Err_0 is Codec,
        r matches Ok(aux) ==> {
            &&& bytes@.len() >= 34
            &&& aux.difficulty == le_value(bytes@.subrange(0, 16))
            &&& aux.total_difficulty == le_value(bytes@.subrange(16, 32))
            &&& aux.policy is None <==> bytes@[32] == 0
        },
{
    let s = bytes@;
    lemma_take_u128(s);
    if s.len() >= 16 {
        let s1 = s.skip(16);
        lemma_take_u128(s1);
        if s1.len() >= 16 {
            let s2 = s1.skip(16);
            assert(s2 =~= s.skip(32));
            lemma_first_byte_of_opt_bytes(s2);
            if s2.len() > 0 && s2[0] == 0 {
                assert(s2 =~= opt_bytes_encoding(None) + s2.skip(1));
                lemma_take_opt_bytes(s2, None, s2.skip(1));
                lemma_first_byte_of_opt_u64(s2.skip(1));
            }
            assert(s1.take(16) =~= s.subrange(16, 32));
            assert(s.take(16) =~= s.subrange(0, 16));
            if r is Ok {
                let p = take_opt_bytes(s2)->0;
                lemma_first_byte_of_opt_u64(p.1);
                assert(splits(s2, opt_bytes_encoding(p.0), p.1));
                assert(r->Ok_0@.policy == p.0);
            }
        }
    }
}

proof fn lemma_take_u128(s: Seq<u8>)
    ensures
        s.len() < 16 ==> take_difficulty::<u128>(s) is None,
        s.len() >= 16 ==> take_difficulty::<u128>(s) == Some(
            (le_value(s.take(16)) as u128, s.skip(16)),
        ) && le_value(s.take(16)) <= u128::MAX,
{
    if s.len() >= 16 {
        lemma_le_bytes_of_le_value(s.take(16));
        lemma_pow256();
        let d = le_value(s.take(16)) as u128;
        assert(s =~= d.encoding() + s.skip(16));
        lemma_take_difficulty(s, d, s.skip(16));
    } else {
        assert forall|d: u128, rest: Seq<u8>| !#[trigger] splits(s, d.encoding(), rest) by {
            lemma_le_bytes_len(d as nat, 16);
        }
    }
}

proof fn lemma_first_byte_of_opt_bytes(s: Seq<u8>)
    ensures
        s.len() == 0 || s[0] > 1 ==> take_opt_bytes(s) is None,
        take_opt_bytes(s) matches Some((v, _)) ==> (v is None <==> s[0] == 0),
{
    assert forall|v: Option<Seq<u8>>, rest: Seq<u8>|
        #[trigger] splits(s, opt_bytes_encoding(v), rest) implies s.len() > 0 && s[0] <= 1 && (
    v is None <==> s[0] == 0) by {
        assert(s[0] == opt_bytes_encoding(v)[0]);
    }
}

proof fn lemma_first_byte_of_opt_u64(s: Seq<u8>)
    ensures
        s.len() == 0 || s[0] > 1 ==> take_opt_u64(s) is None,
{
    assert forall|v: Option<u64>, rest: Seq<u8>|
        #[trigger] splits(s, opt_u64_encoding(v), rest) implies s.len() > 0 && s[0] <= 1 by {
        assert(s[0] == opt_u64_encoding(v)[0]);
    }
}

/// Extending replaces the difficulty and the policy, all of its bytes, adds the difficulty to the
/// total and keeps the steps.
pub proof fn law_extending_keeps_what_it_is_given<D: Difficulty>(
    aux: &mut PowAux<D>,
    difficulty: D,
    policy: Option<Vec<u8>>,
)
    requires
        call_ensures(PowAux::<D>::extend, (aux, difficulty, policy), ()),
    ensures
        final(aux).difficulty == difficulty,
        final(aux).total_difficulty == old(aux).total_difficulty.incremented(difficulty),
        final(aux).policy is None <==> policy is None,
        policy matches Some(p) ==> final(aux).policy->0@ == p@,
        final(aux).steps == old(aux).steps,
{
    assert(final(aux)@.steps == old(aux)@.steps);
    assert(final(aux)@.difficulty == difficulty);
    assert(final(aux)@.total_difficulty == old(aux)@.total_difficulty.incremented(difficulty));
}

/// An intermediate value is encoded field after field: a byte that says whether there is a
/// difficulty, the difficulty if there is one, the policy.
pub proof fn law_intermediate_fields_are_encoded_in_turn<D: Difficulty>(
    value: &PowIntermediate<D>,
    r: Vec<u8>,
)
    requires
        call_ensures(PowIntermediate::<D>::encode, (value,), r),
    ensures
        r@ == (match value.difficulty {
            None => seq![0u8],
            Some(d) => seq![1u8] + d.encoding(),
        }) + (match value.policy {
            None => opt_bytes_encoding(None),
            Some(policy) => opt_bytes_encoding(Some(policy@)),
        }),
{
}

/// An intermediate value is read back as it was encoded, also where something follows it.
pub proof fn law_intermediate_is_read_back<D: Difficulty>(
    value: &PowIntermediate<D>,
    bytes: Vec<u8>,
    longer: &[u8],
    r: Result<PowIntermediate<D>, Error>,
)
    requires
        value.policy matches Some(policy) ==> policy@.len() <= 4294967295,
        call_ensures(PowIntermediate::<D>::encode, (value,), bytes),
        bytes@.is_prefix_of(longer@),
        call_ensures(PowIntermediate::<D>::decode, (longer,), r),
    ensures
        r is Ok,
        r->Ok_0.difficulty == value.difficulty,
        r->Ok_0.policy is None <==> value.policy is None,
        value.policy matches Some(policy) ==> r->Ok_0.policy->0@ == policy@,
{
    let rest = longer@.skip(bytes@.len() as int);
    law_intermediate_decode_inverts_encode(value@, rest);
    assert(bytes@ + rest =~= longer@);
    assert(r->Ok_0@ == value@);
}

/// An intermediate value that is decoded is what the bytes begin with; where decoding fails, they
/// begin with the encoding of none.
pub proof fn law_intermediate_decoding_is_exact<D: Difficulty>(
    bytes: &[u8],
    r: Result<PowIntermediate<D>, Error>,
    difficulty: Option<D>,
    policy: Option<Seq<u8>>,
)
    requires
        call_ensures(PowIntermediate::<D>::decode, (bytes,), r),
        policy matches Some(p) ==> p.len() <= 4294967295,
    ensures
        ((match difficulty {
            None => seq![0u8],
            Some(d) => seq![1u8] + d.encoding(),
        }) + opt_bytes_encoding(policy)).is_prefix_of(bytes@) <==> {
            &&& r is Ok
            &&& r->Ok_0.difficulty == difficulty
            &&& r->Ok_0.policy is None <==> policy is None
            &&& policy matches Some(p) ==> r->Ok_0.policy->0@ == p
        },
        r is Err ==> r->Err_0 is Codec,
{
    let value = PowIntermediateView { difficulty, policy };
    let form = value.encoding();
    let s = bytes@;
    if form.is_prefix_of(s) {
        let rest = s.skip(form.len() as int);
        law_intermediate_decode_inverts_encode(value, rest);
        assert(s =~= form + rest);
        assert(r->Ok_0@ == value);
    }
    if r is Ok && r->Ok_0.difficulty == difficulty && (r->Ok_0.policy is None <==> policy is None)
        && (policy matches Some(p) ==> r->Ok_0.policy->0@ == p) {
        assert(r->Ok_0@ == value);
        let tail = take_opt_difficulty::<D>(s).unwrap().1;
        let rest = take_opt_bytes(tail).unwrap().1;
        assert(splits(tail, opt_bytes_encoding(policy), rest));
        assert(s =~= seq![s[0]] + s.drop_first());
        if let Some(d) = difficulty {
            assert(splits(s.drop_first(), d.encoding(), tail));
            assert(s =~= (seq![1u8] + d.encoding()) + tail);
        } else {
            assert(s =~= seq![0u8] + tail);
        }
        assert(s =~= form + rest);
    }
}

/// Bytes that begin with no intermediate value are refused, with the name of the field; the
/// default has neither a difficulty nor a policy.
pub proof fn law_intermediate_errors_name_the_field(
    bytes: &[u8],
    r: Result<PowIntermediate<u128>, Error>,
    default: PowIntermediate<u128>,
)
    requires
        call_ensures(PowIntermediate::<u128>::decode, (bytes,), r),
        call_ensures(<PowIntermediate<u128> as Default>::default, (), default),
    ensures
        bytes@.len() == 0 || bytes@[0] > 1 || bytes@[0] == 1 && bytes@.len() < 17 ==> (r matches Err(Error::Codec(text)) && text@
            == "Error decoding field PowIntermediate.difficulty"@),
        bytes@.len() == 1 && bytes@[0] == 0 || bytes@.len() == 17 && bytes@[0] == 1
            ==> (r matches Err(Error::Codec(text)) && text@
            == "Error decoding field PowIntermediate.policy"@),
        r matches Ok(value) ==> {
            &&& value.difficulty is None <==> bytes@[0] == 0
            &&& value.difficulty matches Some(d) ==> d == le_value(bytes@.subrange(1, 17))
        },
        default.difficulty is None,
        default.policy is None,
{
    let s = bytes@;
    if s.len() > 0 {
        lemma_take_u128(s.drop_first());
        lemma_first_byte_of_opt_bytes(s.drop_first());
        if s.len() >= 17 {
            lemma_first_byte_of_opt_bytes(s.drop_first().skip(16));
            assert(s.drop_first().take(16) =~= s.subrange(1, 17));
        }
        if r is Ok {
            assert(r->Ok_0@.difficulty == take_opt_difficulty::<u128>(s).unwrap().0);
        }
    }
}

} // verus!
