//! Difficulties: what is added up along a chain and compared between chains.
use crate::scale::{
    decode_u128, encode_u128, le_bytes, lemma_fixed_prefix_free, lemma_le_bytes_len, lemma_pow256,
    lemma_u128_prefix_free, splits,
};
use vstd::prelude::*;

verus! {

/// The difficulty of a block, and of a chain of blocks.
pub trait Difficulty: Copy {
    /// The place of the difficulty in the order of difficulties.
    spec fn rank(self) -> nat;

    /// The total difficulty after a block of difficulty `other`.
    spec fn incremented(self, other: Self) -> Self;

    /// The difficulty of an empty chain.
    spec fn initial_value() -> Self;

    /// How the difficulty is stored.
    spec fn encoding(self) -> Seq<u8>;

    /// Stored difficulties are told apart, and from what follows them.
    proof fn encoding_prefix_free(a: Self, b: Self, r: Seq<u8>, s: Seq<u8>)
        requires
            a.encoding() + r == b.encoding() + s,
        ensures
            a == b,
            r == s,
    ;

    /// The difficulty of an empty chain.
    fn initial() -> (r: Self)
        ensures
            r == Self::initial_value(),
    ;

    /// Adds the difficulty of one more block.
    fn increment(&mut self, other: Self)
        ensures
            *final(self) == old(self).incremented(other),
    ;

    /// Whether this difficulty is strictly above `other`.
    fn exceeds(&self, other: &Self) -> (r: bool)
        ensures
            r == (self.rank() > other.rank()),
    ;

    /// The stored form.
    fn encode(&self) -> (r: Vec<u8>)
        ensures
            r@ == self.encoding(),
    ;

    /// Takes a difficulty off the front of `input`.
    fn decode(input: &mut &[u8]) -> (r: Option<Self>)
        ensures
            match r {
                Some(d) => splits(old(input)@, d.encoding(), final(input)@),
                None => forall|d: Self, rest: Seq<u8>| !#[trigger]
                    splits(old(input)@, d.encoding(), rest),
            },
    ;
}

/// `TotalDifficulty::increment` of `sp_consensus_pow` on `u128`: adds, and stays at the
/// largest value where the sum is beyond it.
#[verifier::external_body]
fn increment_u128(total: &mut u128, other: u128)
    ensures
        *final(total) == (if *old(total) + other <= u128::MAX {
            *old(total) + other
        } else {
            u128::MAX as int
        }),
{
    sp_consensus_pow::TotalDifficulty::increment(total, other)
}

impl Difficulty for u128 {
    open spec fn rank(self) -> nat {
        self as nat
    }

    open spec fn incremented(self, other: u128) -> u128 {
        if self + other <= u128::MAX {
            (self + other) as u128
        } else {
            u128::MAX
        }
    }

    open spec fn initial_value() -> u128 {
        0
    }

    open spec fn encoding(self) -> Seq<u8> {
        le_bytes(self as nat, 16)
    }

    proof fn encoding_prefix_free(a: u128, b: u128, r: Seq<u8>, s: Seq<u8>) {
        lemma_u128_prefix_free(a, b, r, s);
    }

    fn initial() -> (r: u128) {
        0
    }

    fn increment(&mut self, other: u128) {
        increment_u128(self, other)
    }

    fn exceeds(&self, other: &u128) -> (r: bool) {
        *self > *other
    }

    fn encode(&self) -> (r: Vec<u8>) {
        encode_u128(*self)
    }

    fn decode(input: &mut &[u8]) -> (r: Option<u128>) {
        let ghost before = input@;
        let r = decode_u128(input);
        assert forall|d: u128, rest: Seq<u8>| r is None implies !#[trigger] splits(
            before,
            d.encoding(),
            rest,
        ) by {
            lemma_le_bytes_len(d as nat, 16);
        }
        r
    }
}

/// The number of values of a 64-bit word.
pub open spec fn word_range() -> nat {
    0x1_0000_0000_0000_0000
}

/// The largest 256-bit number.
pub open spec fn u256_max() -> nat {
    0xffff_ffff_ffff_ffff_ffff_ffff_ffff_ffff_ffff_ffff_ffff_ffff_ffff_ffff_ffff_ffffnat
}

/// A 256-bit difficulty, as words of 64 bits.
#[derive(Clone, Copy, Debug, PartialEq, Eq, Structural)]
pub struct U256 {
    /// The least significant word.
    pub w0: u64,
    pub w1: u64,
    pub w2: u64,
    /// The most significant word.
    pub w3: u64,
}

impl U256 {
    /// The number.
    pub open spec fn value(self) -> nat {
        self.w0 as nat + word_range() * (self.w1 as nat + word_range() * (self.w2 as nat
            + word_range() * self.w3 as nat))
    }

    /// The 256-bit number that is `n`.
    pub open spec fn of(n: nat) -> U256
        recommends
            n <= u256_max(),
    {
        U256 {
            w0: (n % word_range()) as u64,
            w1: (n / word_range() % word_range()) as u64,
            w2: (n / word_range() / word_range() % word_range()) as u64,
            w3: (n / word_range() / word_range() / word_range()) as u64,
        }
    }

    /// The words, least significant first.
    pub fn words(&self) -> (r: [u64; 4])
        ensures
            r@ == seq![self.w0, self.w1, self.w2, self.w3],
    {
        let r = [self.w0, self.w1, self.w2, self.w3];
        assert(r@ =~= seq![self.w0, self.w1, self.w2, self.w3]);
        r
    }
}

/// A 256-bit number is in range, and is the one with its value.
pub proof fn lemma_u256_value(x: U256)
    ensures
        x.value() <= u256_max(),
        U256::of(x.value()) == x,
{
}

/// A number in range is the value of the 256-bit number that is made of it.
pub proof fn lemma_u256_of(n: nat)
    ensures
        n <= u256_max() ==> U256::of(n).value() == n,
{
}

/// `TotalDifficulty::increment` of `sp_consensus_pow` on `sp_core::U256`: adds, and stays at the
/// largest value where the sum is beyond it.
#[verifier::external_body]
fn increment_u256(total: U256, other: U256) -> (r: U256)
    ensures
        r.value() == (if total.value() + other.value() <= u256_max() {
            total.value() + other.value()
        } else {
            u256_max()
        }),
{
    let mut sum = sp_core::U256(total.words());
    sp_consensus_pow::TotalDifficulty::increment(&mut sum, sp_core::U256(other.words()));
    let [w0, w1, w2, w3] = sum.0;
    U256 { w0, w1, w2, w3 }
}

/// `Encode::encode` of an `sp_core::U256`: thirty-two bytes, least significant first.
#[verifier::external_body]
fn encode_u256(x: &U256) -> (r: Vec<u8>)
    ensures
        r@ == le_bytes(x.value(), 32),
{
    parity_scale_codec::Encode::encode(&sp_core::U256(x.words()))
}

/// `Decode::decode` of an `sp_core::U256` from a slice: takes thirty-two bytes off the front of
/// the input, or fails where there are fewer.
#[verifier::external_body]
fn decode_u256(input: &mut &[u8]) -> (r: Option<U256>)
    ensures
        match r {
            Some(x) => splits(old(input)@, le_bytes(x.value(), 32), final(input)@),
            None => old(input)@.len() < 32,
        },
{
    let decoded: Result<sp_core::U256, _> = parity_scale_codec::Decode::decode(input);
    decoded.ok().map(|x| { let [w0, w1, w2, w3] = x.0; U256 { w0, w1, w2, w3 } })
}

impl Difficulty for U256 {
    open spec fn rank(self) -> nat {
        self.value()
    }

    open spec fn incremented(self, other: U256) -> U256 {
        if self.value() + other.value() <= u256_max() {
            U256::of(self.value() + other.value())
        } else {
            U256::of(u256_max())
        }
    }

    open spec fn initial_value() -> U256 {
        U256 { w0: 0, w1: 0, w2: 0, w3: 0 }
    }

    open spec fn encoding(self) -> Seq<u8> {
        le_bytes(self.value(), 32)
    }

    proof fn encoding_prefix_free(a: U256, b: U256, r: Seq<u8>, s: Seq<u8>) {
        lemma_pow256();
        lemma_u256_value(a);
        lemma_u256_value(b);
        lemma_fixed_prefix_free(a.value(), b.value(), 32, r, s);
    }

    fn initial() -> (r: U256) {
        U256 { w0: 0, w1: 0, w2: 0, w3: 0 }
    }

    fn increment(&mut self, other: U256) {
        let sum = increment_u256(*self, other);
        proof {
            lemma_u256_value(sum);
        }
        *self = sum;
    }

    fn exceeds(&self, other: &U256) -> (r: bool) {
        if self.w3 != other.w3 {
            self.w3 > other.w3
        } else if self.w2 != other.w2 {
            self.w2 > other.w2
        } else if self.w1 != other.w1 {
            self.w1 > other.w1
        } else {
            self.w0 > other.w0
        }
    }

    fn encode(&self) -> (r: Vec<u8>) {
        encode_u256(self)
    }

    fn decode(input: &mut &[u8]) -> (r: Option<U256>) {
        let ghost before = input@;
        let r = decode_u256(input);
        assert forall|d: U256, rest: Seq<u8>| r is None implies !#[trigger] splits(
            before,
            d.encoding(),
            rest,
        ) by {
            lemma_le_bytes_len(d.value(), 32);
        }
        r
    }
}

} // verus!
