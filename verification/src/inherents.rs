//! Checking the inherents of a block: what the runtime reported, and what to make of it.
use crate::error::{Error, ErrorView};
use crate::scale::{
    bytes_encoding, le_bytes, le_value, lemma_bytes_prefix_free, lemma_u64_prefix_free, max_len,
};
use vstd::pervasive::unreached;
use vstd::prelude::*;
use vstd::utf8::*;

verus! {

/// The identifier of an inherent.
pub type InherentIdentifier = [u8; 8];

/// The identifier of the timestamp inherent: `timstap0`.
pub const TIMESTAMP_IDENTIFIER: InherentIdentifier = [
    0x74u8,
    0x69,
    0x6d,
    0x73,
    0x74,
    0x61,
    0x70,
    0x30,
];

/// How far ahead of the clock a timestamp may be.
pub const MAX_TIMESTAMP_DRIFT_SECS: u64 = 60;

/// Inherent data: a value for each identifier.
#[verifier::external_type_specification]
#[verifier::external_body]
pub struct ExInherentData(sp_inherents::InherentData);

/// What the runtime found when it checked the inherents of a block.
#[verifier::external_type_specification]
#[verifier::external_body]
pub struct ExCheckInherentsResult(sp_inherents::CheckInherentsResult);

/// The encoded values of inherent data, by identifier.
pub uninterp spec fn inherent_values(data: sp_inherents::InherentData) -> Map<Seq<u8>, Seq<u8>>;

/// The encoded errors of a check, by identifier.
pub uninterp spec fn reported_errors(result: sp_inherents::CheckInherentsResult) -> Map<
    Seq<u8>,
    Seq<u8>,
>;

/// Whether a check found nothing wrong.
pub uninterp spec fn reported_ok(result: sp_inherents::CheckInherentsResult) -> bool;

/// The timestamp that inherent data holds: the first eight bytes of the value under the
/// timestamp identifier.
pub open spec fn timestamp_in(values: Map<Seq<u8>, Seq<u8>>) -> Result<u64, Seq<char>> {
    let id = TIMESTAMP_IDENTIFIER@;
    if !values.contains_key(id) {
        Err("Timestamp inherent data not found"@)
    } else if values[id].len() < 8 {
        Err("Could not decode requested inherent type!"@)
    } else {
        Ok(le_value(values[id].take(8)) as u64)
    }
}

/// `timestamp_inherent_data` of `sp_timestamp`: reads the timestamp from inherent data, and
/// says why where it cannot.
#[verifier::external_body]
pub(crate) fn timestamp_inherent_data(data: &sp_inherents::InherentData) -> (r: Result<u64, String>)
    ensures
        (match r {
            Ok(t) => Ok(t),
            Err(e) => Err(e@),
        }) == timestamp_in(inherent_values(*data)),
{
    sp_timestamp::TimestampInherentData::timestamp_inherent_data(data).map_err(
        sp_inherents::Error::into_string,
    )
}

/// `CheckInherentsResult::ok` of `sp_inherents`.
#[verifier::external_body]
fn is_ok(result: &sp_inherents::CheckInherentsResult) -> (r: bool)
    ensures
        r == reported_ok(*result),
{
    result.ok()
}

/// Whether `a` is before `b` in the order of byte strings of equal length.
pub open spec fn lexicographically_before(a: Seq<u8>, b: Seq<u8>) -> bool {
    exists|i: int|
        0 <= i < a.len() && i < b.len() && #[trigger] a[i] < b[i] && a.take(i) == b.take(i)
}

/// `entries` lists `errors` in the order of the identifiers.
pub open spec fn lists(entries: Seq<(Seq<u8>, Seq<u8>)>, errors: Map<Seq<u8>, Seq<u8>>) -> bool {
    &&& forall|i: int|
        0 <= i < entries.len() ==> errors.contains_pair((#[trigger] entries[i]).0, entries[i].1)
    &&& forall|id: Seq<u8>| #[trigger]
        errors.contains_key(id) ==> exists|i: int| 0 <= i < entries.len() && entries[i].0 == id
    &&& forall|i: int, j: int|
        0 <= i < j < entries.len() ==> lexicographically_before(
            (#[trigger] entries[i]).0,
            (#[trigger] entries[j]).0,
        )
}

/// The view of a list of encoded errors.
pub open spec fn entries_view(entries: Seq<(InherentIdentifier, Vec<u8>)>) -> Seq<
    (Seq<u8>, Seq<u8>),
> {
    entries.map_values(|e: (InherentIdentifier, Vec<u8>)| (e.0@, e.1@))
}

/// `CheckInherentsResult::into_errors` of `sp_inherents`: walks the errors in the order of
/// the identifiers.
#[verifier::external_body]
fn into_errors(result: sp_inherents::CheckInherentsResult) -> (r: Vec<(InherentIdentifier, Vec<u8>)>)
    ensures
        lists(entries_view(r@), reported_errors(result)),
{
    result.into_errors().collect()
}

/// Errors that can occur while checking the timestamp inherent.
pub enum TimestampError {
    /// The timestamp is valid in the future.
    ValidAtTimestamp(u64),
    /// Some other error.
    Other(String),
}

/// What a timestamp error says.
pub enum TimestampErrorView {
    ValidAtTimestamp(u64),
    Other(Seq<char>),
}

impl View for TimestampError {
    type V = TimestampErrorView;

    open spec fn view(&self) -> TimestampErrorView {
        match *self {
            TimestampError::ValidAtTimestamp(t) => TimestampErrorView::ValidAtTimestamp(t),
            TimestampError::Other(e) => TimestampErrorView::Other(e@),
        }
    }
}

impl TimestampErrorView {
    /// How the runtime reports the error: a byte for the variant, then a number or a text.
    pub open spec fn encoding(self) -> Seq<u8> {
        match self {
            TimestampErrorView::ValidAtTimestamp(t) => seq![0u8] + le_bytes(t as nat, 8),
            TimestampErrorView::Other(e) => seq![1u8] + bytes_encoding(encode_utf8(e)),
        }
    }

    /// Whether the text is short enough to be encoded.
    pub open spec fn fits(self) -> bool {
        self matches TimestampErrorView::Other(e) ==> encode_utf8(e).len() <= max_len()
    }
}

/// `data` begins with the encoding of `e`.
pub open spec fn reports(data: Seq<u8>, e: TimestampErrorView) -> bool {
    e.fits() && e.encoding().is_prefix_of(data)
}

/// The timestamp error that an encoded error is, if it is one.
pub open spec fn timestamp_error_of(id: Seq<u8>, data: Seq<u8>) -> Option<TimestampErrorView> {
    if id == TIMESTAMP_IDENTIFIER@ && exists|e: TimestampErrorView| reports(data, e) {
        Some(choose|e: TimestampErrorView| reports(data, e))
    } else {
        None
    }
}

/// A reported timestamp error is the one that is recognised.
pub proof fn lemma_timestamp_error_of(data: Seq<u8>, e: TimestampErrorView)
    requires
        reports(data, e),
    ensures
        timestamp_error_of(TIMESTAMP_IDENTIFIER@, data) == Some(e),
{
    let f = choose|f: TimestampErrorView| reports(data, f);
    let r = data.skip(e.encoding().len() as int);
    let s = data.skip(f.encoding().len() as int);
    assert(data =~= e.encoding() + r);
    assert(data =~= f.encoding() + s);
    assert(data[0] == e.encoding()[0]);
    assert(data[0] == f.encoding()[0]);
    match (e, f) {
        (
            TimestampErrorView::ValidAtTimestamp(x),
            TimestampErrorView::ValidAtTimestamp(y),
        ) => {
            assert(data.drop_first() =~= le_bytes(x as nat, 8) + r);
            assert(data.drop_first() =~= le_bytes(y as nat, 8) + s);
            lemma_u64_prefix_free(x, y, r, s);
        },
        (TimestampErrorView::Other(x), TimestampErrorView::Other(y)) => {
            assert(data.drop_first() =~= bytes_encoding(encode_utf8(x)) + r);
            assert(data.drop_first() =~= bytes_encoding(encode_utf8(y)) + s);
            lemma_bytes_prefix_free(encode_utf8(x), encode_utf8(y), r, s);
            encode_utf8_decode_utf8(x);
            encode_utf8_decode_utf8(y);
        },
        _ => {},
    }
}

/// `InherentError::try_from` of `sp_timestamp`: decodes an error that stands under the
/// timestamp identifier, and ignores what follows it. It yields nothing for another
/// identifier, and for data that begins with the encoding of no such error.
#[verifier::external_body]
fn decode_timestamp_error(id: &InherentIdentifier, data: &[u8]) -> (r: Option<TimestampError>)
    ensures
        match r {
            Some(e) => id@ == TIMESTAMP_IDENTIFIER@ && reports(data@, e@),
            None => id@ != TIMESTAMP_IDENTIFIER@ || forall|e: TimestampErrorView|
                !reports(data@, e),
        },
{
    match sp_timestamp::InherentError::try_from(id, data) {
        Some(sp_timestamp::InherentError::ValidAtTimestamp(t)) => Some(
            TimestampError::ValidAtTimestamp(t),
        ),
        Some(sp_timestamp::InherentError::Other(e)) => Some(TimestampError::Other(e.into())),
        None => None,
    }
}

/// What to make of the inherents of a block.
pub enum InherentsVerdict {
    /// Nothing stands against the block.
    Accepted,
    /// The block is rejected.
    Rejected(Error),
    /// The block is rejected for an error that only its inherent's provider can put in words.
    Unknown(InherentIdentifier, Vec<u8>),
    /// A timestamp cannot be judged: the clock is so late that the allowed drift is beyond
    /// the range of timestamps.
    ClockOutOfRange,
}

/// What a verdict says.
pub enum InherentsVerdictView {
    Accepted,
    Rejected(ErrorView),
    Unknown(Seq<u8>, Seq<u8>),
    ClockOutOfRange,
}

impl View for InherentsVerdict {
    type V = InherentsVerdictView;

    open spec fn view(&self) -> InherentsVerdictView {
        match *self {
            InherentsVerdict::Accepted => InherentsVerdictView::Accepted,
            InherentsVerdict::Rejected(e) => InherentsVerdictView::Rejected(e@),
            InherentsVerdict::Unknown(id, data) => InherentsVerdictView::Unknown(id@, data@),
            InherentsVerdict::ClockOutOfRange => InherentsVerdictView::ClockOutOfRange,
        }
    }
}

/// What to make of one encoded error.
pub open spec fn verdict_on(id: Seq<u8>, data: Seq<u8>, now: u64) -> InherentsVerdictView {
    match timestamp_error_of(id, data) {
        Some(TimestampErrorView::ValidAtTimestamp(t)) => if now + MAX_TIMESTAMP_DRIFT_SECS
            > u64::MAX {
            InherentsVerdictView::ClockOutOfRange
        } else if t > now + MAX_TIMESTAMP_DRIFT_SECS {
            InherentsVerdictView::Rejected(ErrorView::TooFarInFuture)
        } else {
            InherentsVerdictView::Accepted
        },
        Some(TimestampErrorView::Other(e)) => InherentsVerdictView::Rejected(
            ErrorView::Runtime(e),
        ),
        None => InherentsVerdictView::Unknown(id, data),
    }
}

/// What to make of a list of encoded errors: the first that is not accepted decides.
pub open spec fn verdict_on_all(entries: Seq<(Seq<u8>, Seq<u8>)>, now: u64) -> InherentsVerdictView
    decreases entries.len(),
{
    if entries.len() == 0 {
        InherentsVerdictView::Accepted
    } else {
        match verdict_on(entries[0].0, entries[0].1, now) {
            InherentsVerdictView::Accepted => verdict_on_all(entries.drop_first(), now),
            other => other,
        }
    }
}

fn judge_error(id: &InherentIdentifier, data: &Vec<u8>, now: u64) -> (r: InherentsVerdict)
    ensures
        r@ == verdict_on(id@, data@, now),
{
    let decoded = decode_timestamp_error(id, data.as_slice());
    proof {
        if decoded is Some {
            lemma_timestamp_error_of(data@, decoded->0@);
        }
    }
    match decoded {
        Some(TimestampError::ValidAtTimestamp(t)) => match now.checked_add(
            MAX_TIMESTAMP_DRIFT_SECS,
        ) {
            None => InherentsVerdict::ClockOutOfRange,
            Some(latest) => if t > latest {
                InherentsVerdict::Rejected(Error::TooFarInFuture)
            } else {
                InherentsVerdict::Accepted
            },
        },
        Some(TimestampError::Other(e)) => InherentsVerdict::Rejected(Error::Runtime(e)),
        None => InherentsVerdict::Unknown(*id, data.clone()),
    }
}

/// Judges encoded errors in turn, up to the first that is not accepted.
pub fn judge_errors(errors: &Vec<(InherentIdentifier, Vec<u8>)>, now: u64) -> (r: InherentsVerdict)
    ensures
        r@ == verdict_on_all(entries_view(errors@), now),
{
    let ghost entries = entries_view(errors@);
    let mut i: usize = 0;
    assert(entries.skip(0) =~= entries);
    while i < errors.len()
        invariant
            i <= errors@.len(),
            entries == entries_view(errors@),
            verdict_on_all(entries, now) == verdict_on_all(entries.skip(i as int), now),
        decreases errors@.len() - i,
    {
        assert(entries.skip(i as int)[0] == entries[i as int]);
        assert(entries.skip(i as int).drop_first() =~= entries.skip(i + 1));
        match judge_error(&errors[i].0, &errors[i].1, now) {
            InherentsVerdict::Accepted => {},
            other => return other,
        }
        i = i + 1;
    }
    InherentsVerdict::Accepted
}

/// `verdict` is what to make of what the runtime reported: nothing stands against the block
/// where the check went well, otherwise the errors are judged in the order of their
/// identifiers.
pub open spec fn is_verdict(
    result: sp_inherents::CheckInherentsResult,
    now: u64,
    verdict: InherentsVerdictView,
) -> bool {
    if reported_ok(result) {
        verdict is Accepted
    } else {
        exists|entries: Seq<(Seq<u8>, Seq<u8>)>|
            lists(entries, reported_errors(result)) && verdict == #[trigger] verdict_on_all(
                entries,
                now,
            )
    }
}

/// Judges what the runtime reported of the inherents of a block.
pub fn judge_inherents(result: sp_inherents::CheckInherentsResult, now: u64) -> (r: InherentsVerdict)
    ensures
        is_verdict(result, now, r@),
{
    if is_ok(&result) {
        InherentsVerdict::Accepted
    } else {
        let errors = into_errors(result);
        judge_errors(&errors, now)
    }
}

/// What the runtime reported admits one verdict only.
pub proof fn law_verdict_is_unique(
    result: sp_inherents::CheckInherentsResult,
    now: u64,
    a: InherentsVerdictView,
    b: InherentsVerdictView,
)
    requires
        is_verdict(result, now, a),
        is_verdict(result, now, b),
    ensures
        a == b,
{
    if !reported_ok(result) {
        let errors = reported_errors(result);
        let x = choose|x: Seq<(Seq<u8>, Seq<u8>)>|
            lists(x, errors) && a == #[trigger] verdict_on_all(x, now);
        let y = choose|y: Seq<(Seq<u8>, Seq<u8>)>|
            lists(y, errors) && b == #[trigger] verdict_on_all(y, now);
        lemma_listing_is_unique(x, y, errors);
    }
}

proof fn lemma_before_is_asymmetric(a: Seq<u8>, b: Seq<u8>)
    requires
        lexicographically_before(a, b),
    ensures
        !lexicographically_before(b, a),
{
    if lexicographically_before(b, a) {
        let i = choose|i: int|
            0 <= i < a.len() && i < b.len() && #[trigger] a[i] < b[i] && a.take(i) == b.take(i);
        let j = choose|j: int|
            0 <= j < b.len() && j < a.len() && #[trigger] b[j] < a[j] && b.take(j) == a.take(j);
        if i < j {
            assert(a[i] == a.take(j)[i]);
            assert(b[i] == b.take(j)[i]);
        } else if j < i {
            assert(a[j] == a.take(i)[j]);
            assert(b[j] == b.take(i)[j]);
        }
    }
}

proof fn lemma_listings_agree_up_to(
    x: Seq<(Seq<u8>, Seq<u8>)>,
    y: Seq<(Seq<u8>, Seq<u8>)>,
    errors: Map<Seq<u8>, Seq<u8>>,
    k: int,
)
    requires
        lists(x, errors),
        lists(y, errors),
        0 <= k <= x.len(),
    ensures
        k <= y.len(),
        x.take(k) == y.take(k),
    decreases k,
{
    if k > 0 {
        lemma_listings_agree_up_to(x, y, errors, k - 1);
        let n = k - 1;
        assert forall|i: int| 0 <= i < n implies x[i] == y[i] by {
            assert(x[i] == x.take(n)[i]);
            assert(y[i] == y.take(n)[i]);
        }
        assert(errors.contains_key(x[n].0));
        let j = choose|j: int| 0 <= j < y.len() && y[j].0 == x[n].0;
        if j < n {
            assert(lexicographically_before(x[j].0, x[n].0));
            lemma_before_is_asymmetric(x[j].0, x[n].0);
        }
        assert(errors.contains_key(y[n].0));
        let i = choose|i: int| 0 <= i < x.len() && x[i].0 == y[n].0;
        if i < n {
            assert(lexicographically_before(y[i].0, y[n].0));
            lemma_before_is_asymmetric(y[i].0, y[n].0);
        }
        if j > n {
            assert(lexicographically_before(y[n].0, y[j].0));
            if i > n {
                assert(lexicographically_before(x[n].0, x[i].0));
            }
            lemma_before_is_asymmetric(y[n].0, x[n].0);
        }
        assert(x[n] == y[n]);
        assert(x.take(k) =~= y.take(k));
    } else {
        assert(x.take(k) =~= y.take(k));
    }
}

proof fn lemma_listing_is_unique(
    x: Seq<(Seq<u8>, Seq<u8>)>,
    y: Seq<(Seq<u8>, Seq<u8>)>,
    errors: Map<Seq<u8>, Seq<u8>>,
)
    requires
        lists(x, errors),
        lists(y, errors),
    ensures
        x == y,
{
    lemma_listings_agree_up_to(x, y, errors, x.len() as int);
    lemma_listings_agree_up_to(y, x, errors, y.len() as int);
    assert(x.take(x.len() as int) =~= x);
    assert(y.take(y.len() as int) =~= y);
}

/// The providers of inherent data that a node has registered.
#[verifier::external_type_specification]
#[verifier::external_body]
pub struct ExInherentDataProviders(sp_inherents::InherentDataProviders);

/// `InherentDataProviders::has_provider` of `sp_inherents`: whether a provider is registered
/// for the identifier. The list of providers is shared and changes behind the reference, so
/// nothing is claimed of the answer.
#[verifier::external_body]
fn has_provider(providers: &sp_inherents::InherentDataProviders, id: &InherentIdentifier) -> bool {
    providers.has_provider(id)
}

/// `InherentDataProviders::register_provider` of `sp_inherents`, with the timestamp provider of
/// `sp_timestamp`, and its error in words. It fails where a provider of that identifier has been
/// registered; as the list of providers is shared, nothing is claimed of the answer.
#[verifier::external_body]
fn register_timestamp_provider(providers: &sp_inherents::InherentDataProviders) -> Result<
    (),
    String,
> {
    providers.register_provider(sp_timestamp::InherentDataProvider).map_err(
        sp_inherents::Error::into_string,
    )
}

/// `InherentDataProviders::create_inherent_data` of `sp_inherents`, and its error in words. The
/// providers read the clock and whatever else they like, so nothing is claimed of the answer.
#[verifier::external_body]
fn create_inherent_data(providers: &sp_inherents::InherentDataProviders) -> Result<
    sp_inherents::InherentData,
    String,
> {
    providers.create_inherent_data().map_err(sp_inherents::Error::into_string)
}

/// `InherentDataProviders::error_to_string` of `sp_inherents`: the provider of the inherent
/// puts the error in words. Which provider that is, and what it says, is not claimed.
#[verifier::external_body]
fn error_to_string(
    providers: &sp_inherents::InherentDataProviders,
    id: &InherentIdentifier,
    data: &[u8],
) -> String {
    providers.error_to_string(id, data)
}

/// Asked whether they have a provider for `id`, the providers may answer `r`.
pub closed spec fn may_have_provider(
    providers: &sp_inherents::InherentDataProviders,
    id: Seq<u8>,
    r: bool,
) -> bool {
    exists|i: InherentIdentifier|
        i@ == id && #[trigger] call_ensures(has_provider, (providers, &i), r)
}

/// Asked to register the timestamp provider, the providers may answer `r`.
pub closed spec fn may_register(
    providers: &sp_inherents::InherentDataProviders,
    r: Result<(), String>,
) -> bool {
    call_ensures(register_timestamp_provider, (providers,), r)
}

/// Asked to create inherent data, the providers may answer `r`.
pub closed spec fn may_create(
    providers: &sp_inherents::InherentDataProviders,
    r: Result<sp_inherents::InherentData, String>,
) -> bool {
    call_ensures(create_inherent_data, (providers,), r)
}

/// Asked to put an error in words, the providers may answer `r`.
pub closed spec fn may_describe(
    providers: &sp_inherents::InherentDataProviders,
    id: Seq<u8>,
    data: Seq<u8>,
    r: String,
) -> bool {
    exists|i: InherentIdentifier, d: &[u8]|
        i@ == id && d@ == data && #[trigger] call_ensures(
            error_to_string,
            (providers, &i, d),
            r,
        )
}

/// Register the timestamp inherent data provider, if not registered already.
pub fn register_pow_inherent_data_provider(providers: &sp_inherents::InherentDataProviders) -> (r:
    Result<(), String>)
    ensures
        exists|registered: bool| #[trigger]
            may_have_provider(providers, TIMESTAMP_IDENTIFIER@, registered) && if registered {
                r is Ok
            } else {
                may_register(providers, r)
            },
{
    let registered = has_provider(providers, &TIMESTAMP_IDENTIFIER);
    assert(may_have_provider(providers, TIMESTAMP_IDENTIFIER@, registered));
    if !registered {
        register_timestamp_provider(providers)
    } else {
        Ok(())
    }
}

/// Creates the inherent data for a block.
pub fn create(providers: &sp_inherents::InherentDataProviders) -> (r: Result<
    sp_inherents::InherentData,
    String,
>)
    ensures
        may_create(providers, r),
{
    create_inherent_data(providers)
}

/// `r` is an error with the words of the providers.
pub open spec fn is_described(
    providers: &sp_inherents::InherentDataProviders,
    id: Seq<u8>,
    data: Seq<u8>,
    r: Result<(), Error>,
) -> bool {
    exists|text: String| #[trigger]
        may_describe(providers, id, data, text) && r is Err && r->Err_0@
            == ErrorView::CheckInherents(text@)
}

/// `r` is what a verdict comes to: an error where the block is rejected. The providers put an
/// error that is not known in words.
pub open spec fn is_outcome(
    providers: &sp_inherents::InherentDataProviders,
    verdict: InherentsVerdictView,
    r: Result<(), Error>,
) -> bool {
    match verdict {
        InherentsVerdictView::Accepted => r is Ok,
        InherentsVerdictView::Rejected(e) => r is Err && r->Err_0@ == e,
        InherentsVerdictView::Unknown(id, data) => is_described(providers, id, data, r),
        InherentsVerdictView::ClockOutOfRange => false,
    }
}

impl InherentsVerdict {
    /// What the verdict comes to.
    pub fn outcome(self, providers: &sp_inherents::InherentDataProviders) -> (r: Result<(), Error>)
        requires
            !(self is ClockOutOfRange),
        ensures
            is_outcome(providers, self@, r),
    {
        match self {
            InherentsVerdict::Accepted => Ok(()),
            InherentsVerdict::Rejected(e) => Err(e),
            InherentsVerdict::Unknown(id, data) => {
                let text = error_to_string(providers, &id, data.as_slice());
                assert(may_describe(providers, id@, data@, text));
                let r = Err(Error::CheckInherents(text));
                assert(is_described(providers, id@, data@, r));
                r
            },
            InherentsVerdict::ClockOutOfRange => unreached(),
        }
    }
}

/// Registering asks the providers for the timestamp identifier. Where they have a provider for it
/// nothing is done, otherwise the timestamp provider is registered and the answer handed on.
proof fn law_timestamp_provider_is_registered_where_there_is_none(
    providers: &sp_inherents::InherentDataProviders,
    r: Result<(), String>,
)
    requires
        call_ensures(register_pow_inherent_data_provider, (providers,), r),
    ensures
        ({
            ||| r is Ok && exists|id: InherentIdentifier|
                id@ == seq![0x74u8, 0x69, 0x6d, 0x73, 0x74, 0x61, 0x70, 0x30] && #[trigger]
                call_ensures(has_provider, (providers, &id), true)
            ||| call_ensures(register_timestamp_provider, (providers,), r) && exists|
                id: InherentIdentifier,
            |
                id@ == seq![0x74u8, 0x69, 0x6d, 0x73, 0x74, 0x61, 0x70, 0x30] && #[trigger]
                call_ensures(has_provider, (providers, &id), false)
        }),
{
    let registered = choose|registered: bool| #[trigger]
        may_have_provider(providers, TIMESTAMP_IDENTIFIER@, registered) && if registered {
            r is Ok
        } else {
            may_register(providers, r)
        };
    let id = choose|i: InherentIdentifier|
        i@ == TIMESTAMP_IDENTIFIER@ && #[trigger] call_ensures(
            has_provider,
            (providers, &i),
            registered,
        );
    assert(id@ =~= seq![0x74u8, 0x69, 0x6d, 0x73, 0x74, 0x61, 0x70, 0x30]);
}

/// Inherent data is what the providers created.
proof fn law_inherent_data_is_that_of_the_providers(
    providers: &sp_inherents::InherentDataProviders,
    r: Result<sp_inherents::InherentData, String>,
    created: Result<sp_inherents::InherentData, String>,
)
    requires
        call_ensures(create, (providers,), r),
    ensures
        call_ensures(create_inherent_data, (providers,), r),
        may_create(providers, created) ==> call_ensures(
            create_inherent_data,
            (providers,),
            created,
        ),
{
}

/// An error that is not known comes to the words that the providers find for it, given its
/// identifier and all of its data.
proof fn law_unknown_errors_are_described_by_the_providers(
    id: InherentIdentifier,
    data: Vec<u8>,
    providers: &sp_inherents::InherentDataProviders,
    r: Result<(), Error>,
)
    requires
        call_ensures(InherentsVerdict::outcome, (InherentsVerdict::Unknown(id, data), providers), r),
    ensures
        exists|i: InherentIdentifier, d: &[u8], text: String|
            i@ == id@ && d@ == data@ && #[trigger] call_ensures(
                error_to_string,
                (providers, &i, d),
                text,
            ) && r is Err && r->Err_0@ == ErrorView::CheckInherents(text@),
{
    let text = choose|text: String| #[trigger]
        may_describe(providers, id@, data@, text) && r is Err && r->Err_0@
            == ErrorView::CheckInherents(text@);
    assert(may_describe(providers, id@, data@, text));
}

} // verus!
