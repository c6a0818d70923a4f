//! What the engine stores with each block: its difficulty and the total up to it.
use crate::difficulty::Difficulty;
use crate::error::{Error, ErrorView};
use crate::scale::{
    decode_opt_bytes, decode_opt_u64, encode_opt_bytes, encode_opt_u64, lemma_opt_bytes_prefix_free,
    lemma_opt_u64_prefix_free, opt_bytes_encoding, opt_bytes_fit, opt_bytes_view, opt_u64_encoding,
    splits,
};
use vstd::prelude::*;
use vstd::slice::slice_subrange;

verus! {

/// Auxiliary storage prefix of the engine: `PoW:`.
pub const POW_AUX_PREFIX: [u8; 4] = [0x50u8, 0x6f, 0x57, 0x3a];

/// Key of the engine's intermediate value: `pow1`.
pub const INTERMEDIATE_KEY: [u8; 4] = [0x70u8, 0x6f, 0x77, 0x31];

/// The views of what a function returned.
pub open spec fn result_view<T: View, E: View>(r: Result<T, E>) -> Result<T::V, E::V> {
    match r {
        Ok(v) => Ok(v@),
        Err(e) => Err(e@),
    }
}

/// The auxiliary storage key under which the data of the block with this hash stands.
pub open spec fn aux_key_of(hash: Seq<u8>) -> Seq<u8> {
    POW_AUX_PREFIX@ + hash
}

/// Appends `src` to `dest`.
pub(crate) fn append_bytes(dest: &mut Vec<u8>, src: &[u8])
    ensures
        final(dest)@ == old(dest)@ + src@,
{
    let ghost start = dest@;
    let mut i: usize = 0;
    assert(dest@ =~= start + src@.take(0));
    while i < src.len()
        invariant
            i <= src@.len(),
            dest@ == start + src@.take(i as int),
        decreases src@.len() - i,
    {
        assert(src@.take(i as int).push(src@[i as int]) =~= src@.take(i + 1));
        assert((start + src@.take(i as int)).push(src@[i as int]) =~= start + src@.take(i + 1));
        dest.push(src[i]);
        i = i + 1;
    }
    assert(src@.take(src@.len() as int) =~= src@);
}

/// Get the auxiliary storage key used by the engine to store the data of the block with this
/// hash.
pub fn aux_key(hash: &[u8]) -> (r: Vec<u8>)
    ensures
        r@ == aux_key_of(hash@),
{
    let mut key: Vec<u8> = Vec::new();
    append_bytes(&mut key, &POW_AUX_PREFIX);
    append_bytes(&mut key, hash);
    key
}

/// Intermediate value passed to block importer.
#[derive(Debug)]
pub struct PowIntermediate<D> {
    /// Difficulty of the block, if known.
    pub difficulty: Option<D>,
    /// Policy of the block, if it has one.
    pub policy: Option<Vec<u8>>,
}

/// Auxiliary storage data of a block.
#[derive(Debug)]
pub struct PowAux<D> {
    /// Difficulty of the current block.
    pub difficulty: D,
    /// Total difficulty up to current block.
    pub total_difficulty: D,
    /// Policy of the current block, if it has one.
    pub policy: Option<Vec<u8>>,
    /// Number of steps, if one was stored.
    pub steps: Option<u64>,
}

/// What the auxiliary data of a block says.
pub struct PowAuxView<D> {
    pub difficulty: D,
    pub total_difficulty: D,
    pub policy: Option<Seq<u8>>,
    pub steps: Option<u64>,
}

impl<D> View for PowAux<D> {
    type V = PowAuxView<D>;

    open spec fn view(&self) -> PowAuxView<D> {
        PowAuxView {
            difficulty: self.difficulty,
            total_difficulty: self.total_difficulty,
            policy: opt_bytes_view(self.policy),
            steps: self.steps,
        }
    }
}

/// The difficulty that `s` begins with, and what follows it.
pub open spec fn take_difficulty<D: Difficulty>(s: Seq<u8>) -> Option<(D, Seq<u8>)> {
    if exists|d: D, rest: Seq<u8>| #[trigger] splits(s, d.encoding(), rest) {
        Some(choose|d: D, rest: Seq<u8>| #[trigger] splits(s, d.encoding(), rest))
    } else {
        None
    }
}

/// The optional byte string that `s` begins with, and what follows it.
pub open spec fn take_opt_bytes(s: Seq<u8>) -> Option<(Option<Seq<u8>>, Seq<u8>)> {
    if exists|v: Option<Seq<u8>>, rest: Seq<u8>|
        opt_bytes_fit(v) && #[trigger] splits(s, opt_bytes_encoding(v), rest) {
        Some(
            choose|v: Option<Seq<u8>>, rest: Seq<u8>|
                opt_bytes_fit(v) && #[trigger] splits(s, opt_bytes_encoding(v), rest),
        )
    } else {
        None
    }
}

/// The optional number that `s` begins with, and what follows it.
pub open spec fn take_opt_u64(s: Seq<u8>) -> Option<(Option<u64>, Seq<u8>)> {
    if exists|v: Option<u64>, rest: Seq<u8>| #[trigger] splits(s, opt_u64_encoding(v), rest) {
        Some(
            choose|v: Option<u64>, rest: Seq<u8>| #[trigger] splits(s, opt_u64_encoding(v), rest),
        )
    } else {
        None
    }
}

impl<D: Difficulty> PowAuxView<D> {
    /// The data of a block for which nothing is stored.
    pub open spec fn initial() -> PowAuxView<D> {
        PowAuxView {
            difficulty: D::initial_value(),
            total_difficulty: D::initial_value(),
            policy: None,
            steps: None,
        }
    }

    /// Whether the data can be stored: the policy is not too long.
    pub open spec fn fits(self) -> bool {
        opt_bytes_fit(self.policy)
    }

    /// How the data is stored: the fields one after the other.
    pub open spec fn encoding(self) -> Seq<u8> {
        self.difficulty.encoding() + self.total_difficulty.encoding() + opt_bytes_encoding(
            self.policy,
        ) + opt_u64_encoding(self.steps)
    }

    /// The data that stored bytes begin with, or the first field that cannot be read.
    pub open spec fn decoded(s: Seq<u8>) -> Result<PowAuxView<D>, ErrorView> {
        match take_difficulty::<D>(s) {
            None => Err(ErrorView::Codec("Error decoding field PowAux.difficulty"@)),
            Some((difficulty, s)) => match take_difficulty::<D>(s) {
                None => Err(ErrorView::Codec("Error decoding field PowAux.total_difficulty"@)),
                Some((total_difficulty, s)) => match take_opt_bytes(s) {
                    None => Err(ErrorView::Codec("Error decoding field PowAux.policy"@)),
                    Some((policy, s)) => match take_opt_u64(s) {
                        None => Err(ErrorView::Codec("Error decoding field PowAux.steps"@)),
                        Some((steps, _)) => Ok(
                            PowAuxView { difficulty, total_difficulty, policy, steps },
                        ),
                    },
                },
            },
        }
    }

    /// What reading the storage yields, given what the client answered.
    pub open spec fn read_from(stored: Result<Option<Seq<u8>>, Seq<char>>) -> Result<
        PowAuxView<D>,
        ErrorView,
    > {
        match stored {
            Err(e) => Err(ErrorView::Client(e)),
            Ok(None) => Ok(PowAuxView::initial()),
            Ok(Some(s)) => PowAuxView::decoded(s),
        }
    }

    /// The data of a block of this difficulty and policy whose parent's data is `self`.
    pub open spec fn extended(self, difficulty: D, policy: Option<Seq<u8>>) -> PowAuxView<D> {
        PowAuxView {
            difficulty,
            total_difficulty: self.total_difficulty.incremented(difficulty),
            policy,
            steps: self.steps,
        }
    }
}

/// A difficulty that `s` begins with is the one that is taken off it.
pub proof fn lemma_take_difficulty<D: Difficulty>(s: Seq<u8>, d: D, rest: Seq<u8>)
    requires
        splits(s, d.encoding(), rest),
    ensures
        take_difficulty::<D>(s) == Some((d, rest)),
{
    let (x, y) = choose|x: D, y: Seq<u8>| #[trigger] splits(s, x.encoding(), y);
    D::encoding_prefix_free(d, x, rest, y);
}

/// An optional byte string that `s` begins with is the one that is taken off it.
pub proof fn lemma_take_opt_bytes(s: Seq<u8>, v: Option<Seq<u8>>, rest: Seq<u8>)
    requires
        opt_bytes_fit(v),
        splits(s, opt_bytes_encoding(v), rest),
    ensures
        take_opt_bytes(s) == Some((v, rest)),
{
    let (x, y) = choose|x: Option<Seq<u8>>, y: Seq<u8>|
        opt_bytes_fit(x) && #[trigger] splits(s, opt_bytes_encoding(x), y);
    lemma_opt_bytes_prefix_free(v, x, rest, y);
}

/// An optional number that `s` begins with is the one that is taken off it.
pub proof fn lemma_take_opt_u64(s: Seq<u8>, v: Option<u64>, rest: Seq<u8>)
    requires
        splits(s, opt_u64_encoding(v), rest),
    ensures
        take_opt_u64(s) == Some((v, rest)),
{
    let (x, y) = choose|x: Option<u64>, y: Seq<u8>| #[trigger] splits(s, opt_u64_encoding(x), y);
    lemma_opt_u64_prefix_free(v, x, rest, y);
}

/// The view of what the client answered when asked for stored data.
pub open spec fn stored_view(stored: Result<Option<Vec<u8>>, String>) -> Result<
    Option<Seq<u8>>,
    Seq<char>,
> {
    match stored {
        Ok(v) => Ok(opt_bytes_view(v)),
        Err(e) => Err(e@),
    }
}

impl<D> Default for PowIntermediate<D> {
    fn default() -> (r: Self)
        ensures
            r.difficulty is None,
            r.policy is None,
    {
        PowIntermediate { difficulty: None, policy: None }
    }
}

impl<D: Copy> Clone for PowIntermediate<D> {
    fn clone(&self) -> (r: Self)
        ensures
            r@ == self@,
    {
        PowIntermediate { difficulty: self.difficulty, policy: self.policy.clone() }
    }
}

impl<D: Copy> Clone for PowAux<D> {
    fn clone(&self) -> (r: Self)
        ensures
            r@ == self@,
    {
        PowAux {
            difficulty: self.difficulty,
            total_difficulty: self.total_difficulty,
            policy: self.policy.clone(),
            steps: self.steps,
        }
    }
}

impl<D: Difficulty> Default for PowAux<D> {
    fn default() -> (r: Self)
        ensures
            r@ == PowAuxView::<D>::initial(),
    {
        PowAux {
            difficulty: D::initial(),
            total_difficulty: D::initial(),
            policy: None,
            steps: None,
        }
    }
}

impl<D: Difficulty> PowAux<D> {
    /// The stored form.
    pub fn encode(&self) -> (r: Vec<u8>)
        requires
            self@.fits(),
        ensures
            r@ == self@.encoding(),
    {
        let mut bytes = self.difficulty.encode();
        append_bytes(&mut bytes, self.total_difficulty.encode().as_slice());
        append_bytes(&mut bytes, encode_opt_bytes(&self.policy).as_slice());
        append_bytes(&mut bytes, encode_opt_u64(&self.steps).as_slice());
        bytes
    }

    /// Reads the stored form; what follows it is ignored.
    pub fn decode(bytes: &[u8]) -> (r: Result<Self, Error>)
        ensures
            result_view(r) == PowAuxView::<D>::decoded(bytes@),
            r matches Ok(aux) ==> aux@.fits(),
    {
        let mut input: &[u8] = bytes;
        let ghost s0 = input@;
        let difficulty = match D::decode(&mut input) {
            Some(d) => d,
            None => return Err(Error::Codec("Error decoding field PowAux.difficulty".to_owned())),
        };
        proof {
            lemma_take_difficulty(s0, difficulty, input@);
        }
        let ghost s1 = input@;
        let total_difficulty = match D::decode(&mut input) {
            Some(d) => d,
            None => return Err(
                Error::Codec("Error decoding field PowAux.total_difficulty".to_owned()),
            ),
        };
        proof {
            lemma_take_difficulty(s1, total_difficulty, input@);
        }
        let ghost s2 = input@;
        let policy = match decode_opt_bytes(&mut input) {
            Some(p) => p,
            None => return Err(Error::Codec("Error decoding field PowAux.policy".to_owned())),
        };
        proof {
            lemma_take_opt_bytes(s2, opt_bytes_view(policy), input@);
        }
        let ghost s3 = input@;
        let steps = match decode_opt_u64(&mut input) {
            Some(n) => n,
            None => return Err(Error::Codec("Error decoding field PowAux.steps".to_owned())),
        };
        proof {
            lemma_take_opt_u64(s3, steps, input@);
        }
        Ok(PowAux { difficulty, total_difficulty, policy, steps })
    }

    /// Read the auxiliary from what the client found under the block's key.
    pub fn read(stored: Result<Option<Vec<u8>>, String>) -> (r: Result<Self, Error>)
        ensures
            result_view(r) == PowAuxView::<D>::read_from(stored_view(stored)),
            r matches Ok(aux) ==> aux@.fits(),
    {
        match stored {
            Err(e) => Err(Error::Client(e)),
            Ok(Some(bytes)) => Self::decode(bytes.as_slice()),
            Ok(None) => Ok(Self::default()),
        }
    }

    /// Makes the data of a parent block into that of a block on top of it.
    pub fn extend(&mut self, difficulty: D, policy: Option<Vec<u8>>)
        ensures
            final(self)@ == old(self)@.extended(difficulty, opt_bytes_view(policy)),
    {
        self.difficulty = difficulty;
        self.total_difficulty.increment(difficulty);
        self.policy = policy;
    }
}

/// What an intermediate value says.
pub struct PowIntermediateView<D> {
    pub difficulty: Option<D>,
    pub policy: Option<Seq<u8>>,
}

impl<D> View for PowIntermediate<D> {
    type V = PowIntermediateView<D>;

    open spec fn view(&self) -> PowIntermediateView<D> {
        PowIntermediateView { difficulty: self.difficulty, policy: opt_bytes_view(self.policy) }
    }
}

/// Encoding of an optional difficulty.
pub open spec fn opt_difficulty_encoding<D: Difficulty>(v: Option<D>) -> Seq<u8> {
    match v {
        None => seq![0u8],
        Some(d) => seq![1u8] + d.encoding(),
    }
}

/// The optional difficulty that `s` begins with, and what follows it.
pub open spec fn take_opt_difficulty<D: Difficulty>(s: Seq<u8>) -> Option<(Option<D>, Seq<u8>)> {
    if s.len() > 0 && s[0] == 0 {
        Some((None, s.drop_first()))
    } else if s.len() > 0 && s[0] == 1 {
        match take_difficulty::<D>(s.drop_first()) {
            Some((d, rest)) => Some((Some(d), rest)),
            None => None,
        }
    } else {
        None
    }
}

impl<D: Difficulty> PowIntermediateView<D> {
    /// Whether the value can be encoded: the policy is not too long.
    pub open spec fn fits(self) -> bool {
        opt_bytes_fit(self.policy)
    }

    /// The encoding: the fields one after the other.
    pub open spec fn encoding(self) -> Seq<u8> {
        opt_difficulty_encoding(self.difficulty) + opt_bytes_encoding(self.policy)
    }

    /// The value that bytes begin with, or the first field that cannot be read.
    pub open spec fn decoded(s: Seq<u8>) -> Result<PowIntermediateView<D>, ErrorView> {
        match take_opt_difficulty::<D>(s) {
            None => Err(ErrorView::Codec("Error decoding field PowIntermediate.difficulty"@)),
            Some((difficulty, s)) => match take_opt_bytes(s) {
                None => Err(ErrorView::Codec("Error decoding field PowIntermediate.policy"@)),
                Some((policy, _)) => Ok(PowIntermediateView { difficulty, policy }),
            },
        }
    }
}

/// Takes an optional difficulty off the front of `input`.
fn decode_opt_difficulty<D: Difficulty>(input: &[u8]) -> (r: Option<(Option<D>, &[u8])>)
    ensures
        match r {
            Some((v, rest)) => take_opt_difficulty::<D>(input@) == Some((v, rest@)),
            None => take_opt_difficulty::<D>(input@) is None,
        },
{
    if input.len() == 0 {
        return None;
    }
    let mut rest: &[u8] = slice_subrange(input, 1, input.len());
    assert(rest@ =~= input@.drop_first());
    if input[0] == 0 {
        Some((None, rest))
    } else if input[0] == 1 {
        let ghost tail = rest@;
        match D::decode(&mut rest) {
            Some(d) => {
                proof {
                    lemma_take_difficulty(tail, d, rest@);
                }
                Some((Some(d), rest))
            },
            None => None,
        }
    } else {
        None
    }
}

impl<D: Difficulty> PowIntermediate<D> {
    /// The encoded form.
    pub fn encode(&self) -> (r: Vec<u8>)
        requires
            self@.fits(),
        ensures
            r@ == self@.encoding(),
    {
        let mut bytes: Vec<u8> = Vec::new();
        match &self.difficulty {
            None => bytes.push(0),
            Some(d) => {
                bytes.push(1);
                append_bytes(&mut bytes, d.encode().as_slice());
            },
        }
        assert(bytes@ =~= opt_difficulty_encoding(self.difficulty));
        append_bytes(&mut bytes, encode_opt_bytes(&self.policy).as_slice());
        bytes
    }

    /// Reads the encoded form; what follows it is ignored.
    pub fn decode(bytes: &[u8]) -> (r: Result<Self, Error>)
        ensures
            result_view(r) == PowIntermediateView::<D>::decoded(bytes@),
            r matches Ok(value) ==> value@.fits(),
    {
        let (difficulty, rest) = match decode_opt_difficulty::<D>(bytes) {
            Some(parts) => parts,
            None => return Err(
                Error::Codec("Error decoding field PowIntermediate.difficulty".to_owned()),
            ),
        };
        let mut input: &[u8] = rest;
        let ghost tail = input@;
        let policy = match decode_opt_bytes(&mut input) {
            Some(p) => p,
            None => return Err(
                Error::Codec("Error decoding field PowIntermediate.policy".to_owned()),
            ),
        };
        proof {
            lemma_take_opt_bytes(tail, opt_bytes_view(policy), input@);
        }
        Ok(PowIntermediate { difficulty, policy })
    }
}

/// Decoding an intermediate value gives back what was encoded, whatever follows it.
pub proof fn law_intermediate_decode_inverts_encode<D: Difficulty>(
    value: PowIntermediateView<D>,
    rest: Seq<u8>,
)
    requires
        value.fits(),
    ensures
        PowIntermediateView::<D>::decoded(value.encoding() + rest) == Ok::<
            PowIntermediateView<D>,
            ErrorView,
        >(value),
{
    let s1 = opt_bytes_encoding(value.policy) + rest;
    let s0 = value.encoding() + rest;
    assert(s0 =~= opt_difficulty_encoding(value.difficulty) + s1);
    match value.difficulty {
        None => {
            assert(s0.drop_first() =~= s1);
        },
        Some(d) => {
            assert(s0.drop_first() =~= d.encoding() + s1);
            lemma_take_difficulty(s0.drop_first(), d, s1);
        },
    }
    lemma_take_opt_bytes(s1, value.policy, rest);
}

/// Decoding gives back what was encoded, whatever follows it.
pub proof fn law_decode_inverts_encode<D: Difficulty>(aux: PowAuxView<D>, rest: Seq<u8>)
    requires
        aux.fits(),
    ensures
        PowAuxView::<D>::decoded(aux.encoding() + rest) == Ok::<PowAuxView<D>, ErrorView>(aux),
{
    let s3 = opt_u64_encoding(aux.steps) + rest;
    let s2 = opt_bytes_encoding(aux.policy) + s3;
    let s1 = aux.total_difficulty.encoding() + s2;
    let s0 = aux.encoding() + rest;
    assert(s0 =~= aux.difficulty.encoding() + s1);
    lemma_take_difficulty(s0, aux.difficulty, s1);
    lemma_take_difficulty(s1, aux.total_difficulty, s2);
    lemma_take_opt_bytes(s2, aux.policy, s3);
    lemma_take_opt_u64(s3, aux.steps, rest);
}

/// Only what begins with the encoding of some data is decoded, and to that data.
pub proof fn law_decode_accepts_only_encodings<D: Difficulty>(s: Seq<u8>)
    requires
        PowAuxView::<D>::decoded(s) is Ok,
    ensures
        PowAuxView::<D>::decoded(s)->Ok_0.fits(),
        PowAuxView::<D>::decoded(s)->Ok_0.encoding().is_prefix_of(s),
{
    let aux = PowAuxView::<D>::decoded(s)->Ok_0;
    let s1 = take_difficulty::<D>(s).unwrap().1;
    let s2 = take_difficulty::<D>(s1).unwrap().1;
    let s3 = take_opt_bytes(s2).unwrap().1;
    let rest = take_opt_u64(s3).unwrap().1;
    assert(splits(s, aux.difficulty.encoding(), s1));
    assert(splits(s1, aux.total_difficulty.encoding(), s2));
    assert(splits(s2, opt_bytes_encoding(aux.policy), s3));
    assert(splits(s3, opt_u64_encoding(aux.steps), rest));
    assert(s =~= aux.encoding() + rest);
}

/// What is stored for a block is what is read back for it.
pub proof fn law_read_after_write<D: Difficulty>(aux: PowAuxView<D>)
    requires
        aux.fits(),
    ensures
        PowAuxView::<D>::read_from(Ok(Some(aux.encoding()))) == Ok::<PowAuxView<D>, ErrorView>(aux),
{
    law_decode_inverts_encode(aux, seq![]);
    assert(aux.encoding() + seq![] =~= aux.encoding());
}

/// Different blocks have different keys.
pub proof fn law_keys_tell_blocks_apart(a: Seq<u8>, b: Seq<u8>)
    requires
        aux_key_of(a) == aux_key_of(b),
    ensures
        a == b,
{
    assert(a =~= aux_key_of(a).skip(4));
    assert(b =~= aux_key_of(b).skip(4));
}

} // verus!
