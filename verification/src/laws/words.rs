//! How errors read, for every error.
use crate::consensus::client_import_error;
use crate::error::{decimal, decimals, digit, hex, quoted, Error};
use crate::header::{BlockHash, ConsensusEngineId};
use vstd::prelude::*;

verus! {

/// An error whose cause is told ends with the whole of the cause; others have a text of their
/// own.
pub proof fn law_errors_tell_their_cause(e: &Error, r: String)
    requires
        call_ensures(Error::to_string, (e,), r),
    ensures
        match *e {
            Error::InvalidSeal => r@ == "PoW validation error: invalid seal"@,
            Error::FailedPreliminaryVerify => r@
                == "PoW validation error: preliminary verification failed"@,
            Error::TooFarInFuture => r@ == "Rejecting block too far in future"@,
            Error::BestHeaderSelectChain(cause) => r@
                == "Fetching best header failed using select chain: "@ + cause@,
            Error::BestHeader(cause) => r@ == "Fetching best header failed: "@ + cause@,
            Error::NoBestHeader => r@ == "Best header does not exist"@,
            Error::BlockProposingError(cause) => r@ == "Block proposing error: "@ + quoted(cause@),
            Error::BestHashSelectChain(cause) => r@
                == "Fetch best hash failed via select chain: "@ + cause@,
            Error::CreateInherents(cause) => r@ == "Creating inherents failed: "@ + cause@,
            Error::CheckInherents(cause) => r@ == "Checking inherents failed: "@ + cause@,
            Error::Client(cause) => r@ == cause@,
            Error::Codec(cause) => r@ == cause@,
            Error::Environment(cause) => r@ == cause@,
            Error::Runtime(cause) => r@ == cause@,
            _ => true,
        },
{
}

/// The text that an error is turned into, and the text in the consensus error that it is turned
/// into, are the words of the error.
pub proof fn law_conversions_keep_the_words(
    e: Error,
    words: String,
    text: String,
    error: sp_consensus::Error,
)
    requires
        call_ensures(Error::to_string, (&e,), words),
        call_ensures(<String as From<Error>>::from, (e,), text),
        call_ensures(<sp_consensus::Error as From<Error>>::from, (e,), error),
    ensures
        text@ == words@,
        error == client_import_error(words@),
{
}

/// `c` is the digit for `d` in base sixteen, and so in base ten.
pub open spec fn stands_for(c: char, d: int) -> bool {
    ||| 0 <= d < 10 && c as int == 0x30 + d
    ||| 10 <= d < 16 && c as int == 0x61 + (d - 10)
}

proof fn lemma_digit(d: int)
    requires
        0 <= d < 16,
    ensures
        stands_for(digit(d), d),
{
    reveal_strlit("0123456789abcdef");
}

/// `s` is `0x`, then two digits in base sixteen for each byte of the hash.
pub open spec fn spells_hash(s: Seq<char>, hash: Seq<u8>) -> bool {
    &&& s.len() == 2 + 2 * hash.len()
    &&& s[0] == '0' && s[1] == 'x'
    &&& forall|i: int|
        0 <= i < hash.len() ==> {
            &&& stands_for(s[2 + 2 * i], #[trigger] hash[i] as int / 16)
            &&& stands_for(s[3 + 2 * i], hash[i] as int % 16)
        }
}

proof fn lemma_hex(s: Seq<u8>)
    ensures
        hex(s).len() == 2 * s.len(),
        forall|i: int|
            0 <= i < s.len() ==> {
                &&& stands_for(hex(s)[2 * i], #[trigger] s[i] as int / 16)
                &&& stands_for(hex(s)[2 * i + 1], s[i] as int % 16)
            },
    decreases s.len(),
{
    if s.len() > 0 {
        let n = s.len() - 1;
        lemma_hex(s.drop_last());
        lemma_digit(s[n] as int / 16);
        lemma_digit(s[n] as int % 16);
        assert forall|i: int| 0 <= i < s.len() implies {
            &&& stands_for(hex(s)[2 * i], #[trigger] s[i] as int / 16)
            &&& stands_for(hex(s)[2 * i + 1], s[i] as int % 16)
        } by {
            if i < n {
                assert(s.drop_last()[i] == s[i]);
                assert(hex(s)[2 * i] == hex(s.drop_last())[2 * i]);
                assert(hex(s)[2 * i + 1] == hex(s.drop_last())[2 * i + 1]);
            }
        }
    }
}

proof fn lemma_spells_hash(hash: Seq<u8>)
    ensures
        spells_hash("0x"@ + hex(hash), hash),
{
    reveal_strlit("0x");
    lemma_hex(hash);
    let s = "0x"@ + hex(hash);
    assert forall|i: int| 0 <= i < hash.len() implies {
        &&& stands_for(s[2 + 2 * i], #[trigger] hash[i] as int / 16)
        &&& stands_for(s[3 + 2 * i], hash[i] as int % 16)
    } by {
        assert(s[2 + 2 * i] == hex(hash)[2 * i]);
        assert(s[3 + 2 * i] == hex(hash)[2 * i + 1]);
    }
}

/// An error about a block spells out the whole hash of the block.
pub proof fn law_errors_spell_out_hashes(
    hash: BlockHash,
    unsealed: String,
    cause: String,
    built: String,
)
    requires
        call_ensures(Error::to_string, (&Error::HeaderUnsealed(hash),), unsealed),
        call_ensures(Error::to_string, (&Error::BlockBuiltError(hash, cause),), built),
    ensures
        exists|spelled: Seq<char>| #[trigger]
            spells_hash(spelled, hash@) && unsealed@ == "Header "@ + spelled + " is unsealed"@
                && built@ == "Error with block built on "@ + spelled + ": "@ + cause@,
{
    lemma_spells_hash(hash@);
}

/// The number that digits in base ten make.
pub open spec fn number_of(s: Seq<char>) -> int
    decreases s.len(),
{
    if s.len() == 0 {
        0
    } else {
        10 * number_of(s.drop_last()) + (s.last() as int - 0x30)
    }
}

/// `s` is the number in base ten, without leading zeros.
pub open spec fn spells_number(s: Seq<char>, n: u8) -> bool {
    &&& s.len() > 0
    &&& s.len() > 1 ==> s[0] != '0'
    &&& forall|i: int| 0 <= i < s.len() ==> 0x30 <= #[trigger] s[i] as int <= 0x39
    &&& number_of(s) == n
}

proof fn lemma_decimal(n: u8)
    ensures
        spells_number(decimal(n), n),
{
    reveal_with_fuel(number_of, 4);
    let s = decimal(n);
    lemma_digit(n as int % 10);
    lemma_digit(n as int / 10 % 10);
    lemma_digit(n as int / 100);
    if n < 10 {
        assert(s.drop_last() =~= seq![]);
    } else if n < 100 {
        assert(s.drop_last() =~= seq![digit(n as int / 10)]);
        assert(s.drop_last().drop_last() =~= seq![]);
    } else {
        assert(s.drop_last() =~= seq![digit(n as int / 100), digit(n as int / 10 % 10)]);
        assert(s.drop_last().drop_last() =~= seq![digit(n as int / 100)]);
        assert(s.drop_last().drop_last().drop_last() =~= seq![]);
    }
}

/// `s` is the four numbers of an identifier.
pub open spec fn spells_engine(
    s: Seq<char>,
    id: Seq<u8>,
    a: Seq<char>,
    b: Seq<char>,
    c: Seq<char>,
    d: Seq<char>,
) -> bool {
    &&& spells_number(a, id[0])
    &&& spells_number(b, id[1])
    &&& spells_number(c, id[2])
    &&& spells_number(d, id[3])
    &&& s == a + ", "@ + b + ", "@ + c + ", "@ + d
}

proof fn lemma_decimals(id: Seq<u8>)
    requires
        id.len() == 4,
    ensures
        spells_engine(
            decimals(id),
            id,
            decimal(id[0]),
            decimal(id[1]),
            decimal(id[2]),
            decimal(id[3]),
        ),
{
    lemma_decimal(id[0]);
    lemma_decimal(id[1]);
    lemma_decimal(id[2]);
    lemma_decimal(id[3]);
    let s3 = id.drop_last();
    let s2 = s3.drop_last();
    let s1 = s2.drop_last();
    assert(decimals(s1) == decimal(id[0]));
    assert(decimals(s2) == decimals(s1) + ", "@ + decimal(id[1]));
    assert(decimals(s3) == decimals(s2) + ", "@ + decimal(id[2]));
    assert(decimals(id) == decimals(s3) + ", "@ + decimal(id[3]));
}

/// An error about another engine spells out the four numbers of its identifier.
pub proof fn law_errors_spell_out_engines(id: ConsensusEngineId, r: String)
    requires
        call_ensures(Error::to_string, (&Error::WrongEngine(id),), r),
    ensures
        exists|numbers: Seq<char>, a: Seq<char>, b: Seq<char>, c: Seq<char>, d: Seq<char>|
            #[trigger] spells_engine(numbers, id@, a, b, c, d) && r@
                == "Header uses the wrong engine "@ + ("["@ + numbers + "]"@),
{
    lemma_decimals(id@);
}

} // verus!
