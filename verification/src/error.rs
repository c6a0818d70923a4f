//! The errors of the engine, and how they read.
use crate::header::{ConsensusEngineId, BlockHash};
use vstd::prelude::*;

verus! {

/// What can go wrong while blocks are checked or mined.
///
/// A `String` is what the failing part of the node said. It is a debug rendering in
/// `BestHeaderSelectChain`, `BestHeader`, `BestHashSelectChain` and `BlockBuiltError`, and
/// plain text elsewhere.
#[derive(Debug)]
pub enum Error {
    /// The header is sealed by another engine.
    WrongEngine(ConsensusEngineId),
    /// The header with this hash carries no seal.
    HeaderUnsealed(BlockHash),
    /// The algorithm rejected the seal.
    InvalidSeal,
    /// The algorithm rejected the seal before the parent was known.
    FailedPreliminaryVerify,
    /// The block's timestamp is too far ahead.
    TooFarInFuture,
    /// The chain selection could not name the best header.
    BestHeaderSelectChain(String),
    /// The client could not look up the best header.
    BestHeader(String),
    /// The client does not know the header of its best block.
    NoBestHeader,
    /// No block could be proposed.
    BlockProposingError(String),
    /// The chain selection could not name the best hash.
    BestHashSelectChain(String),
    /// The block that was built on this hash could not be imported.
    BlockBuiltError(BlockHash, String),
    /// The inherents could not be created.
    CreateInherents(String),
    /// An inherent was rejected for a reason that the engine does not know.
    CheckInherents(String),
    /// The client failed.
    Client(String),
    /// Stored data could not be decoded.
    Codec(String),
    /// The proposer could not be set up.
    Environment(String),
    /// The runtime reported an error.
    Runtime(String),
}

/// What an error says.
pub enum ErrorView {
    WrongEngine(Seq<u8>),
    HeaderUnsealed(Seq<u8>),
    InvalidSeal,
    FailedPreliminaryVerify,
    TooFarInFuture,
    BestHeaderSelectChain(Seq<char>),
    BestHeader(Seq<char>),
    NoBestHeader,
    BlockProposingError(Seq<char>),
    BestHashSelectChain(Seq<char>),
    BlockBuiltError(Seq<u8>, Seq<char>),
    CreateInherents(Seq<char>),
    CheckInherents(Seq<char>),
    Client(Seq<char>),
    Codec(Seq<char>),
    Environment(Seq<char>),
    Runtime(Seq<char>),
}

impl View for Error {
    type V = ErrorView;

    open spec fn view(&self) -> ErrorView {
        match *self {
            Error::WrongEngine(id) => ErrorView::WrongEngine(id@),
            Error::HeaderUnsealed(hash) => ErrorView::HeaderUnsealed(hash@),
            Error::InvalidSeal => ErrorView::InvalidSeal,
            Error::FailedPreliminaryVerify => ErrorView::FailedPreliminaryVerify,
            Error::TooFarInFuture => ErrorView::TooFarInFuture,
            Error::BestHeaderSelectChain(e) => ErrorView::BestHeaderSelectChain(e@),
            Error::BestHeader(e) => ErrorView::BestHeader(e@),
            Error::NoBestHeader => ErrorView::NoBestHeader,
            Error::BlockProposingError(e) => ErrorView::BlockProposingError(e@),
            Error::BestHashSelectChain(e) => ErrorView::BestHashSelectChain(e@),
            Error::BlockBuiltError(hash, e) => ErrorView::BlockBuiltError(hash@, e@),
            Error::CreateInherents(e) => ErrorView::CreateInherents(e@),
            Error::CheckInherents(e) => ErrorView::CheckInherents(e@),
            Error::Client(e) => ErrorView::Client(e@),
            Error::Codec(e) => ErrorView::Codec(e@),
            Error::Environment(e) => ErrorView::Environment(e@),
            Error::Runtime(e) => ErrorView::Runtime(e@),
        }
    }
}

/// The digit that stands for `d`, in base sixteen and in base ten.
pub open spec fn digit(d: int) -> char {
    "0123456789abcdef"@[d]
}

/// A byte in base ten, without leading zeros.
pub open spec fn decimal(b: u8) -> Seq<char> {
    if b < 10 {
        seq![digit(b as int)]
    } else if b < 100 {
        seq![digit(b as int / 10), digit(b as int % 10)]
    } else {
        seq![digit(b as int / 100), digit(b as int / 10 % 10), digit(b as int % 10)]
    }
}

/// Bytes in base ten, with a comma and a space between them.
pub open spec fn decimals(s: Seq<u8>) -> Seq<char>
    decreases s.len(),
{
    if s.len() == 0 {
        seq![]
    } else if s.len() == 1 {
        decimal(s[0])
    } else {
        decimals(s.drop_last()) + ", "@ + decimal(s.last())
    }
}

/// How an engine identifier reads: a list of numbers in square brackets.
pub open spec fn id_text(id: Seq<u8>) -> Seq<char> {
    "["@ + decimals(id) + "]"@
}

/// Bytes in base sixteen, two digits each.
pub open spec fn hex(s: Seq<u8>) -> Seq<char>
    decreases s.len(),
{
    if s.len() == 0 {
        seq![]
    } else {
        hex(s.drop_last()) + seq![digit(s.last() as int / 16), digit(s.last() as int % 16)]
    }
}

/// How a hash reads: all of its bytes in base sixteen.
pub open spec fn hash_text(hash: Seq<u8>) -> Seq<char> {
    "0x"@ + hex(hash)
}

/// The debug rendering of a string: in quotation marks, special characters escaped.
pub uninterp spec fn quoted(s: Seq<char>) -> Seq<char>;

impl ErrorView {
    /// How the error reads.
    pub open spec fn text(self) -> Seq<char> {
        match self {
            ErrorView::WrongEngine(id) => "Header uses the wrong engine "@ + id_text(id),
            ErrorView::HeaderUnsealed(hash) => "Header "@ + hash_text(hash) + " is unsealed"@,
            ErrorView::InvalidSeal => "PoW validation error: invalid seal"@,
            ErrorView::FailedPreliminaryVerify =>
                "PoW validation error: preliminary verification failed"@,
            ErrorView::TooFarInFuture => "Rejecting block too far in future"@,
            ErrorView::BestHeaderSelectChain(e) =>
                "Fetching best header failed using select chain: "@ + e,
            ErrorView::BestHeader(e) => "Fetching best header failed: "@ + e,
            ErrorView::NoBestHeader => "Best header does not exist"@,
            ErrorView::BlockProposingError(e) => "Block proposing error: "@ + quoted(e),
            ErrorView::BestHashSelectChain(e) => "Fetch best hash failed via select chain: "@ + e,
            ErrorView::BlockBuiltError(hash, e) => "Error with block built on "@ + hash_text(hash)
                + ": "@ + e,
            ErrorView::CreateInherents(e) => "Creating inherents failed: "@ + e,
            ErrorView::CheckInherents(e) => "Checking inherents failed: "@ + e,
            ErrorView::Client(e) => e,
            ErrorView::Codec(e) => e,
            ErrorView::Environment(e) => e,
            ErrorView::Runtime(e) => e,
        }
    }
}

/// `format!` with the debug form of a string: the standard library quotes and escapes it.
#[verifier::external_body]
fn quote(s: &String) -> (r: String)
    ensures
        r@ == quoted(s@),
{
    format!("{:?}", s)
}

/// `s` with the character for `d` after it.
fn push_digit(s: &mut String, d: u8)
    requires
        d < 16,
    ensures
        final(s)@ == old(s)@.push(digit(d as int)),
{
    proof {
        reveal_strlit("0123456789abcdef");
    }
    s.append("0123456789abcdef".substring_ascii(d as usize, d as usize + 1));
    assert("0123456789abcdef"@.subrange(d as int, d as int + 1) =~= seq![digit(d as int)]);
}

fn push_decimal(s: &mut String, b: u8)
    ensures
        final(s)@ == old(s)@ + decimal(b),
{
    if b >= 100 {
        push_digit(s, b / 100);
    }
    if b >= 10 {
        push_digit(s, b / 10 % 10);
    }
    push_digit(s, b % 10);
}

/// Appends an engine identifier.
fn push_id(s: &mut String, id: &ConsensusEngineId)
    ensures
        final(s)@ == old(s)@ + id_text(id@),
{
    s.append("[");
    let ghost start = s@;
    let mut i: usize = 0;
    assert(id@.take(0) =~= seq![]);
    while i < 4
        invariant
            i <= 4,
            id@.len() == 4,
            s@ == start + decimals(id@.take(i as int)),
        decreases 4 - i,
    {
        assert(id@.take(i + 1).drop_last() =~= id@.take(i as int));
        if i > 0 {
            s.append(", ");
        }
        push_decimal(s, id[i]);
        i = i + 1;
    }
    assert(id@.take(4) =~= id@);
    s.append("]");
}

/// Appends a hash.
fn push_hash(s: &mut String, hash: &BlockHash)
    ensures
        final(s)@ == old(s)@ + hash_text(hash@),
{
    s.append("0x");
    let ghost start = s@;
    let mut i: usize = 0;
    assert(hash@.take(0) =~= seq![]);
    while i < 32
        invariant
            i <= 32,
            hash@.len() == 32,
            s@ == start + hex(hash@.take(i as int)),
        decreases 32 - i,
    {
        assert(hash@.take(i + 1).drop_last() =~= hash@.take(i as int));
        push_digit(s, hash[i] / 16);
        push_digit(s, hash[i] % 16);
        i = i + 1;
    }
    assert(hash@.take(32) =~= hash@);
}

impl Error {
    /// The error in words.
    pub fn to_string(&self) -> (r: String)
        ensures
            r@ == self@.text(),
    {
        match self {
            Error::WrongEngine(id) => {
                let mut s = "Header uses the wrong engine ".to_owned();
                push_id(&mut s, id);
                s
            },
            Error::HeaderUnsealed(hash) => {
                let mut s = "Header ".to_owned();
                push_hash(&mut s, hash);
                s.append(" is unsealed");
                s
            },
            Error::InvalidSeal => "PoW validation error: invalid seal".to_owned(),
            Error::FailedPreliminaryVerify =>
                "PoW validation error: preliminary verification failed".to_owned(),
            Error::TooFarInFuture => "Rejecting block too far in future".to_owned(),
            Error::BestHeaderSelectChain(e) =>
                "Fetching best header failed using select chain: ".to_owned().concat(e.as_str()),
            Error::BestHeader(e) => "Fetching best header failed: ".to_owned().concat(e.as_str()),
            Error::NoBestHeader => "Best header does not exist".to_owned(),
            Error::BlockProposingError(e) =>
                "Block proposing error: ".to_owned().concat(quote(e).as_str()),
            Error::BestHashSelectChain(e) =>
                "Fetch best hash failed via select chain: ".to_owned().concat(e.as_str()),
            Error::BlockBuiltError(hash, e) => {
                let mut s = "Error with block built on ".to_owned();
                push_hash(&mut s, hash);
                s.append(": ");
                s.append(e.as_str());
                s
            },
            Error::CreateInherents(e) =>
                "Creating inherents failed: ".to_owned().concat(e.as_str()),
            Error::CheckInherents(e) =>
                "Checking inherents failed: ".to_owned().concat(e.as_str()),
            Error::Client(e) => e.clone(),
            Error::Codec(e) => e.clone(),
            Error::Environment(e) => e.clone(),
            Error::Runtime(e) => e.clone(),
        }
    }
}

impl From<Error> for String {
    fn from(error: Error) -> (r: String)
        ensures
            r@ == error@.text(),
    {
        error.to_string()
    }
}

/// A string is known by its view, so the contract of the conversion stands on `from` itself.
impl vstd::std_specs::convert::FromSpecImpl<Error> for String {
    open spec fn obeys_from_spec() -> bool {
        false
    }

    open spec fn from_spec(error: Error) -> String {
        choose|s: String| s@ == error@.text()
    }
}

} // verus!
