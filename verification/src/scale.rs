//! The SCALE encoding of the values that the engine stores, and the calls into
//! `parity_scale_codec` that write and read them.
//!
//! Decoding is stated as the inverse of encoding: a decoder returns the value whose
//! encoding the input begins with, and fails when there is none. That this value is
//! unique is what the `*_prefix_free` lemmas prove.
use vstd::arithmetic::power::*;
use vstd::prelude::*;

verus! {

/// The `n` low-order bytes of `x`, least significant first.
pub open spec fn le_bytes(x: nat, n: nat) -> Seq<u8>
    decreases n,
{
    if n == 0 {
        seq![]
    } else {
        seq![(x % 256) as u8] + le_bytes(x / 256, (n - 1) as nat)
    }
}

/// The number whose bytes, least significant first, are `s`.
pub open spec fn le_value(s: Seq<u8>) -> nat
    decreases s.len(),
{
    if s.len() == 0 {
        0
    } else {
        s[0] as nat + 256 * le_value(s.drop_first())
    }
}

/// The longest byte string that SCALE can encode: its length is written as a `u32`.
pub open spec fn max_len() -> nat {
    0xffff_ffff
}

/// Whether a byte string or a list of this length can be encoded.
pub fn is_encodable_len(len: usize) -> (r: bool)
    ensures
        r == (len <= max_len()),
{
    len as u64 <= 0xffff_ffff
}

/// Compact encoding of a `u32`: the two low bits of the first byte give the width.
pub open spec fn compact_encoding(n: nat) -> Seq<u8>
    recommends
        n <= max_len(),
{
    if n < 0x40 {
        le_bytes(4 * n, 1)
    } else if n < 0x4000 {
        le_bytes(4 * n + 1, 2)
    } else if n < 0x4000_0000 {
        le_bytes(4 * n + 2, 4)
    } else {
        seq![3u8] + le_bytes(n, 4)
    }
}

/// Encoding of a byte string: its length, then its bytes.
pub open spec fn bytes_encoding(s: Seq<u8>) -> Seq<u8> {
    compact_encoding(s.len()) + s
}

/// Encoding of an optional byte string: a byte for the variant, then the content.
pub open spec fn opt_bytes_encoding(v: Option<Seq<u8>>) -> Seq<u8> {
    match v {
        None => seq![0u8],
        Some(s) => seq![1u8] + bytes_encoding(s),
    }
}

/// Whether an optional byte string is short enough to be encoded.
pub open spec fn opt_bytes_fit(v: Option<Seq<u8>>) -> bool {
    v matches Some(s) ==> s.len() <= max_len()
}

/// Encoding of an optional `u64`.
pub open spec fn opt_u64_encoding(v: Option<u64>) -> Seq<u8> {
    match v {
        None => seq![0u8],
        Some(x) => seq![1u8] + le_bytes(x as nat, 8),
    }
}

/// The view of an optional byte vector.
pub open spec fn opt_bytes_view(v: Option<Vec<u8>>) -> Option<Seq<u8>> {
    match v {
        None => None,
        Some(b) => Some(b@),
    }
}

/// `s` is `prefix` followed by `rest`.
pub open spec fn splits(s: Seq<u8>, prefix: Seq<u8>, rest: Seq<u8>) -> bool {
    s == prefix + rest
}

/// `Encode::encode` of a `u128`: sixteen bytes, least significant first.
#[verifier::external_body]
pub(crate) fn encode_u128(x: u128) -> (r: Vec<u8>)
    ensures
        r@ == le_bytes(x as nat, 16),
{
    parity_scale_codec::Encode::encode(&x)
}

/// `Decode::decode` of a `u128` from a slice: takes sixteen bytes off the front of the
/// input, or fails where there are fewer.
#[verifier::external_body]
pub(crate) fn decode_u128(input: &mut &[u8]) -> (r: Option<u128>)
    ensures
        match r {
            Some(x) => splits(old(input)@, le_bytes(x as nat, 16), final(input)@),
            None => old(input)@.len() < 16,
        },
{
    parity_scale_codec::Decode::decode(input).ok()
}

/// `Encode::encode` of an `Option<Vec<u8>>`. The call panics on a byte string whose
/// length does not fit in a `u32`.
#[verifier::external_body]
pub(crate) fn encode_opt_bytes(v: &Option<Vec<u8>>) -> (r: Vec<u8>)
    requires
        opt_bytes_fit(opt_bytes_view(*v)),
    ensures
        r@ == opt_bytes_encoding(opt_bytes_view(*v)),
{
    parity_scale_codec::Encode::encode(v)
}

/// `Decode::decode` of an `Option<Vec<u8>>` from a slice: takes the encoding of the
/// result off the front of the input, or fails where the input begins with the encoding
/// of no such value. In particular only the shortest form of a length is accepted.
#[verifier::external_body]
pub(crate) fn decode_opt_bytes(input: &mut &[u8]) -> (r: Option<Option<Vec<u8>>>)
    ensures
        match r {
            Some(v) => opt_bytes_fit(opt_bytes_view(v)) && splits(
                old(input)@,
                opt_bytes_encoding(opt_bytes_view(v)),
                final(input)@,
            ),
            None => forall|v: Option<Seq<u8>>, rest: Seq<u8>|
                opt_bytes_fit(v) ==> !#[trigger] splits(old(input)@, opt_bytes_encoding(v), rest),
        },
{
    parity_scale_codec::Decode::decode(input).ok()
}

/// `Encode::encode` of an `Option<u64>`.
#[verifier::external_body]
pub(crate) fn encode_opt_u64(v: &Option<u64>) -> (r: Vec<u8>)
    ensures
        r@ == opt_u64_encoding(*v),
{
    parity_scale_codec::Encode::encode(v)
}

/// `Decode::decode` of an `Option<u64>` from a slice: takes the encoding of the result off
/// the front of the input, or fails where the input begins with the encoding of no such
/// value.
#[verifier::external_body]
pub(crate) fn decode_opt_u64(input: &mut &[u8]) -> (r: Option<Option<u64>>)
    ensures
        match r {
            Some(v) => splits(old(input)@, opt_u64_encoding(v), final(input)@),
            None => forall|v: Option<u64>, rest: Seq<u8>| !#[trigger]
                splits(old(input)@, opt_u64_encoding(v), rest),
        },
{
    parity_scale_codec::Decode::decode(input).ok()
}

pub proof fn lemma_le_bytes_len(x: nat, n: nat)
    ensures
        le_bytes(x, n).len() == n,
    decreases n,
{
    if n > 0 {
        lemma_le_bytes_len(x / 256, (n - 1) as nat);
    }
}

/// Reading back the bytes of a number that fits gives the number.
pub proof fn lemma_le_value_of_le_bytes(x: nat, n: nat)
    requires
        x < pow(256, n),
    ensures
        le_value(le_bytes(x, n)) == x,
    decreases n,
{
    reveal(pow);
    if n > 0 {
        let m = (n - 1) as nat;
        assert(pow(256, n) == 256 * pow(256, m));
        lemma_le_value_of_le_bytes(x / 256, m);
        assert(le_bytes(x, n).drop_first() =~= le_bytes(x / 256, m));
    }
}

/// Bytes of equal width that agree come from the same number.
pub proof fn lemma_le_bytes_injective(x: nat, y: nat, n: nat)
    requires
        x < pow(256, n),
        y < pow(256, n),
        le_bytes(x, n) == le_bytes(y, n),
    ensures
        x == y,
{
    lemma_le_value_of_le_bytes(x, n);
    lemma_le_value_of_le_bytes(y, n);
}

pub(crate) proof fn lemma_pow256()
    ensures
        pow(256, 1) == 0x100,
        pow(256, 2) == 0x1_0000,
        pow(256, 4) == 0x1_0000_0000,
        pow(256, 8) == 0x1_0000_0000_0000_0000,
        pow(256, 16) == 0x1_0000_0000_0000_0000_0000_0000_0000_0000int,
        pow(256, 32) == 0x1_0000_0000_0000_0000_0000_0000_0000_0000_0000_0000_0000_0000_0000_0000_0000_0000int,
{
    reveal(pow);
    reveal_with_fuel(pow, 17);
    lemma_pow_adds(256, 16, 16);
}

/// Two concatenations that agree and whose heads are equally long agree in both parts.
proof fn lemma_split_at_equal_len(a: Seq<u8>, b: Seq<u8>, r: Seq<u8>, s: Seq<u8>)
    requires
        a + r == b + s,
        a.len() == b.len(),
    ensures
        a == b,
        r == s,
{
    assert(a =~= (a + r).take(a.len() as int));
    assert(b =~= (b + s).take(b.len() as int));
    assert(r =~= (a + r).skip(a.len() as int));
    assert(s =~= (b + s).skip(b.len() as int));
}

/// How many bytes the compact encoding of `n` takes, and the low bits of the first.
proof fn lemma_compact_shape(n: nat)
    requires
        n <= max_len(),
    ensures
        compact_encoding(n).len() == (if n < 0x40 {
            1int
        } else if n < 0x4000 {
            2
        } else if n < 0x4000_0000 {
            4
        } else {
            5
        }),
        compact_encoding(n)[0] % 4 == (if n < 0x40 {
            0int
        } else if n < 0x4000 {
            1
        } else if n < 0x4000_0000 {
            2
        } else {
            3
        }),
{
    lemma_le_bytes_len(4 * n, 1);
    lemma_le_bytes_len(4 * n + 1, 2);
    lemma_le_bytes_len(4 * n + 2, 4);
    lemma_le_bytes_len(n, 4);
}

/// A compact length is read back from its encoding, whatever follows it.
pub proof fn lemma_compact_prefix_free(n: nat, m: nat, r: Seq<u8>, s: Seq<u8>)
    requires
        n <= max_len(),
        m <= max_len(),
        compact_encoding(n) + r == compact_encoding(m) + s,
    ensures
        n == m,
        r == s,
{
    lemma_pow256();
    lemma_compact_shape(n);
    lemma_compact_shape(m);
    let a = compact_encoding(n);
    let b = compact_encoding(m);
    assert((a + r)[0] == a[0]);
    assert((b + s)[0] == b[0]);
    lemma_split_at_equal_len(a, b, r, s);
    if n < 0x40 {
        lemma_le_bytes_injective(4 * n, 4 * m, 1);
    } else if n < 0x4000 {
        lemma_le_bytes_injective(4 * n + 1, 4 * m + 1, 2);
    } else if n < 0x4000_0000 {
        lemma_le_bytes_injective(4 * n + 2, 4 * m + 2, 4);
    } else {
        assert(le_bytes(n, 4) =~= a.drop_first());
        assert(le_bytes(m, 4) =~= b.drop_first());
        lemma_le_bytes_injective(n, m, 4);
    }
}

/// A number of fixed width is read back from its encoding, whatever follows it.
pub proof fn lemma_fixed_prefix_free(x: nat, y: nat, n: nat, r: Seq<u8>, s: Seq<u8>)
    requires
        x < pow(256, n),
        y < pow(256, n),
        le_bytes(x, n) + r == le_bytes(y, n) + s,
    ensures
        x == y,
        r == s,
{
    lemma_le_bytes_len(x, n);
    lemma_le_bytes_len(y, n);
    lemma_split_at_equal_len(le_bytes(x, n), le_bytes(y, n), r, s);
    lemma_le_bytes_injective(x, y, n);
}

/// A `u64` is read back from its encoding, whatever follows it.
pub proof fn lemma_u64_prefix_free(x: u64, y: u64, r: Seq<u8>, s: Seq<u8>)
    requires
        le_bytes(x as nat, 8) + r == le_bytes(y as nat, 8) + s,
    ensures
        x == y,
        r == s,
{
    lemma_pow256();
    lemma_fixed_prefix_free(x as nat, y as nat, 8, r, s);
}

/// A `u128` is read back from its encoding, whatever follows it.
pub proof fn lemma_u128_prefix_free(x: u128, y: u128, r: Seq<u8>, s: Seq<u8>)
    requires
        le_bytes(x as nat, 16) + r == le_bytes(y as nat, 16) + s,
    ensures
        x == y,
        r == s,
{
    lemma_pow256();
    lemma_fixed_prefix_free(x as nat, y as nat, 16, r, s);
}

/// A byte string is read back from its encoding, whatever follows it.
pub proof fn lemma_bytes_prefix_free(a: Seq<u8>, b: Seq<u8>, r: Seq<u8>, s: Seq<u8>)
    requires
        a.len() <= max_len(),
        b.len() <= max_len(),
        bytes_encoding(a) + r == bytes_encoding(b) + s,
    ensures
        a == b,
        r == s,
{
    assert(bytes_encoding(a) + r =~= compact_encoding(a.len()) + (a + r));
    assert(bytes_encoding(b) + s =~= compact_encoding(b.len()) + (b + s));
    lemma_compact_prefix_free(a.len(), b.len(), a + r, b + s);
    lemma_split_at_equal_len(a, b, r, s);
}

/// An optional byte string is read back from its encoding, whatever follows it.
pub proof fn lemma_opt_bytes_prefix_free(
    a: Option<Seq<u8>>,
    b: Option<Seq<u8>>,
    r: Seq<u8>,
    s: Seq<u8>,
)
    requires
        opt_bytes_fit(a),
        opt_bytes_fit(b),
        opt_bytes_encoding(a) + r == opt_bytes_encoding(b) + s,
    ensures
        a == b,
        r == s,
{
    let x = opt_bytes_encoding(a) + r;
    assert(x[0] == opt_bytes_encoding(a)[0]);
    assert(x[0] == opt_bytes_encoding(b)[0]);
    match (a, b) {
        (Some(p), Some(q)) => {
            assert(x.drop_first() =~= bytes_encoding(p) + r);
            assert(x.drop_first() =~= bytes_encoding(q) + s);
            lemma_bytes_prefix_free(p, q, r, s);
        },
        _ => {
            assert(x.drop_first() =~= r);
            assert(x.drop_first() =~= s);
        },
    }
}

/// An optional `u64` is read back from its encoding, whatever follows it.
pub proof fn lemma_opt_u64_prefix_free(a: Option<u64>, b: Option<u64>, r: Seq<u8>, s: Seq<u8>)
    requires
        opt_u64_encoding(a) + r == opt_u64_encoding(b) + s,
    ensures
        a == b,
        r == s,
{
    let x = opt_u64_encoding(a) + r;
    assert(x[0] == opt_u64_encoding(a)[0]);
    assert(x[0] == opt_u64_encoding(b)[0]);
    match (a, b) {
        (Some(p), Some(q)) => {
            assert(x.drop_first() =~= le_bytes(p as nat, 8) + r);
            assert(x.drop_first() =~= le_bytes(q as nat, 8) + s);
            lemma_u64_prefix_free(p, q, r, s);
        },
        _ => {
            assert(x.drop_first() =~= r);
            assert(x.drop_first() =~= s);
        },
    }
}

} // verus!
