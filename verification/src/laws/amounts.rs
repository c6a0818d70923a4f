//! What difficulties are: numbers that are added and compared as numbers are.
use crate::difficulty::{lemma_u256_of, lemma_u256_value, u256_max, Difficulty, U256};
use crate::scale::{
    is_encodable_len, le_bytes, le_value, lemma_le_bytes_len, lemma_le_value_of_le_bytes,
    lemma_pow256,
};
use vstd::prelude::*;

verus! {

/// Whether a length can be encoded: it takes no more than thirty-two bits.
pub proof fn law_encodable_lengths(len: usize, r: bool)
    requires
        call_ensures(is_encodable_len, (len,), r),
    ensures
        r <==> len <= 4294967295,
{
}

/// An empty chain has no difficulty.
pub proof fn law_difficulty_starts_at_nothing(a: u128, b: U256)
    requires
        call_ensures(<u128 as Difficulty>::initial, (), a),
        call_ensures(<U256 as Difficulty>::initial, (), b),
    ensures
        a == 0,
        b.w0 == 0 && b.w1 == 0 && b.w2 == 0 && b.w3 == 0,
        u128::initial_value() == 0,
        U256::initial_value() == b,
{
}

/// Adding a block adds its difficulty; a sum that is out of range becomes the largest number.
pub proof fn law_increment_adds(total: &mut u128, other: u128)
    requires
        call_ensures(<u128 as Difficulty>::increment, (total, other), ()),
    ensures
        *old(total) + other <= u128::MAX ==> *final(total) == *old(total) + other,
        *old(total) + other > u128::MAX ==> *final(total) == u128::MAX,
        old(total).incremented(other) == *final(total),
{
}

/// The number that four words of 64 bits make, least significant first.
pub open spec fn number_of_words(x: U256) -> int {
    x.w0 + 0x1_0000_0000_0000_0000 * x.w1 + 0x1_0000_0000_0000_0000_0000_0000_0000_0000int * x.w2
        + 0x1_0000_0000_0000_0000_0000_0000_0000_0000_0000_0000_0000_0000int * x.w3
}

/// Adding a block adds its difficulty, also with 256 bits; a sum that is out of range becomes
/// the largest number.
pub proof fn law_increment_adds_256(total: &mut U256, other: U256)
    requires
        call_ensures(<U256 as Difficulty>::increment, (total, other), ()),
    ensures
        ({
            let sum = number_of_words(*old(total)) + number_of_words(other);
            let max = 0x1_0000_0000_0000_0000_0000_0000_0000_0000_0000_0000_0000_0000_0000_0000_0000_0000int - 1;
            &&& sum <= max ==> number_of_words(*final(total)) == sum
            &&& sum > max ==> number_of_words(*final(total)) == max
        }),
        old(total).incremented(other) == *final(total),
{
    lemma_u256_of(old(total).value() + other.value());
    lemma_u256_of(u256_max());
}

/// Difficulties are compared as numbers, strictly.
pub proof fn law_exceeds_compares(a: &u128, b: &u128, r: bool)
    requires
        call_ensures(<u128 as Difficulty>::exceeds, (a, b), r),
    ensures
        r <==> *a > *b,
        a.rank() > b.rank() <==> *a > *b,
        a.rank() == *a,
{
}

/// Difficulties of 256 bits are compared as numbers, strictly: the most significant word in
/// which they differ decides.
pub proof fn law_exceeds_compares_256(a: &U256, b: &U256, r: bool)
    requires
        call_ensures(<U256 as Difficulty>::exceeds, (a, b), r),
    ensures
        r <==> number_of_words(*a) > number_of_words(*b),
        r <==> {
            ||| a.w3 > b.w3
            ||| a.w3 == b.w3 && a.w2 > b.w2
            ||| a.w3 == b.w3 && a.w2 == b.w2 && a.w1 > b.w1
            ||| a.w3 == b.w3 && a.w2 == b.w2 && a.w1 == b.w1 && a.w0 > b.w0
        },
        a.rank() == number_of_words(*a),
{
}

/// The words of a difficulty are its words, least significant first.
pub proof fn law_words_are_the_words(x: &U256, r: [u64; 4])
    requires
        call_ensures(U256::words, (x,), r),
    ensures
        r@.len() == 4,
        r@[0] == x.w0,
        r@[1] == x.w1,
        r@[2] == x.w2,
        r@[3] == x.w3,
{
}

/// A stored difficulty is the number in sixteen bytes, or in thirty-two, least significant first.
pub proof fn law_stored_difficulty_is_the_number(a: &u128, x: Vec<u8>, b: &U256, y: Vec<u8>)
    requires
        call_ensures(<u128 as Difficulty>::encode, (a,), x),
        call_ensures(<U256 as Difficulty>::encode, (b,), y),
    ensures
        x@.len() == 16,
        le_value(x@) == *a,
        y@.len() == 32,
        le_value(y@) == number_of_words(*b),
        a.encoding() == x@,
        b.encoding() == y@,
{
    lemma_pow256();
    lemma_le_bytes_len(*a as nat, 16);
    lemma_le_value_of_le_bytes(*a as nat, 16);
    lemma_u256_value(*b);
    lemma_le_bytes_len(b.value(), 32);
    lemma_le_value_of_le_bytes(b.value(), 32);
}

/// Reading takes the first sixteen bytes, and yields the number that they make.
pub proof fn law_difficulty_is_read_from_the_front(input: &mut &[u8], d: u128)
    requires
        call_ensures(<u128 as Difficulty>::decode, (input,), Some(d)),
    ensures
        old(input)@.len() >= 16,
        le_value(old(input)@.take(16)) == d,
        final(input)@ == old(input)@.skip(16),
{
    let s = old(input)@;
    lemma_pow256();
    lemma_le_bytes_len(d as nat, 16);
    lemma_le_value_of_le_bytes(d as nat, 16);
    assert(s.take(16) =~= le_bytes(d as nat, 16));
    assert(s.skip(16) =~= final(input)@);
}

/// Reading takes the first thirty-two bytes, and yields the number that they make.
pub proof fn law_difficulty_is_read_from_the_front_256(input: &mut &[u8], d: U256)
    requires
        call_ensures(<U256 as Difficulty>::decode, (input,), Some(d)),
    ensures
        old(input)@.len() >= 32,
        le_value(old(input)@.take(32)) == number_of_words(d),
        final(input)@ == old(input)@.skip(32),
{
    let s = old(input)@;
    lemma_pow256();
    lemma_u256_value(d);
    lemma_le_bytes_len(d.value(), 32);
    lemma_le_value_of_le_bytes(d.value(), 32);
    assert(s.take(32) =~= le_bytes(d.value(), 32));
    assert(s.skip(32) =~= final(input)@);
}

/// Bytes are those of the number that they make.
pub proof fn lemma_le_bytes_of_le_value(s: Seq<u8>)
    ensures
        le_bytes(le_value(s), s.len()) == s,
        le_value(s) < vstd::arithmetic::power::pow(256, s.len()),
    decreases s.len(),
{
    reveal(vstd::arithmetic::power::pow);
    if s.len() > 0 {
        let tail = s.drop_first();
        lemma_le_bytes_of_le_value(tail);
        assert(le_value(s) % 256 == s[0]);
        assert(le_value(s) / 256 == le_value(tail));
        assert(s =~= seq![s[0]] + tail);
    } else {
        assert(le_bytes(le_value(s), s.len()) =~= s);
    }
}

} // verus!
