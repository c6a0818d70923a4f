//! What the runtime reports of the inherents of a block, and what comes of it: stated over the
//! bytes of the report.
use crate::error::{Error, ErrorView};
use crate::inherents::{
    entries_view, is_verdict, judge_errors, judge_inherents, law_verdict_is_unique,
    lemma_timestamp_error_of, lists, reported_errors, reported_ok, reports, timestamp_error_of,
    verdict_on, verdict_on_all, InherentIdentifier, InherentsVerdict, InherentsVerdictView,
    TimestampErrorView,
};
use crate::laws::amounts::lemma_le_bytes_of_le_value;
use crate::scale::{bytes_encoding, le_value, lemma_le_bytes_len, lemma_pow256};
use crate::verification::Candidate;
use crate::difficulty::Difficulty;
use vstd::prelude::*;
use vstd::utf8::*;

verus! {

/// `timstap0`, the identifier of the timestamp inherent.
pub open spec fn timstap0() -> Seq<u8> {
    seq![0x74u8, 0x69, 0x6d, 0x73, 0x74, 0x61, 0x70, 0x30]
}

/// The time in a report of a timestamp that lies ahead: the eight bytes behind the first, least
/// significant first.
pub open spec fn reported_time(data: Seq<u8>) -> int {
    data[1] + 0x100 * data[2] + 0x1_0000 * data[3] + 0x100_0000 * data[4] + 0x1_0000_0000 * data[5]
        + 0x100_0000_0000 * data[6] + 0x1_0000_0000_0000 * data[7] + 0x100_0000_0000_0000 * data[8]
}

/// `data` reports a timestamp that lies ahead: it begins with a zero and eight more bytes.
pub open spec fn is_ahead(id: Seq<u8>, data: Seq<u8>) -> bool {
    id == timstap0() && data.len() >= 9 && data[0] == 0
}

/// `data` reports a timestamp that lies ahead by no more than sixty seconds.
pub open spec fn is_close(id: Seq<u8>, data: Seq<u8>, now: u64) -> bool {
    is_ahead(id, data) && now + 60 <= u64::MAX && reported_time(data) <= now + 60
}

proof fn lemma_reported_time(data: Seq<u8>)
    requires
        data.len() >= 9,
    ensures
        le_value(data.subrange(1, 9)) == reported_time(data),
        0 <= reported_time(data) <= u64::MAX,
        data[0] == 0 ==> reports(
            data,
            TimestampErrorView::ValidAtTimestamp(reported_time(data) as u64),
        ),
{
    let s = data.subrange(1, 9);
    lemma_le_bytes_of_le_value(s);
    lemma_pow256();
    reveal_with_fuel(le_value, 9);
    let s1 = s.drop_first();
    let s2 = s1.drop_first();
    let s3 = s2.drop_first();
    let s4 = s3.drop_first();
    let s5 = s4.drop_first();
    let s6 = s5.drop_first();
    let s7 = s6.drop_first();
    let s8 = s7.drop_first();
    assert(s8.len() == 0);
    assert(le_value(s7) == data[8]);
    assert(le_value(s6) == data[7] + 256 * le_value(s7));
    assert(le_value(s5) == data[6] + 256 * le_value(s6));
    assert(le_value(s4) == data[5] + 256 * le_value(s5));
    assert(le_value(s3) == data[4] + 256 * le_value(s4));
    assert(le_value(s2) == data[3] + 256 * le_value(s3));
    assert(le_value(s1) == data[2] + 256 * le_value(s2));
    assert(le_value(s) == data[1] + 256 * le_value(s1));
    if data[0] == 0 {
        let e = TimestampErrorView::ValidAtTimestamp(reported_time(data) as u64);
        assert(e.encoding() =~= data.take(9));
        assert(e.encoding().is_prefix_of(data));
    }
}

proof fn lemma_no_report(id: Seq<u8>, data: Seq<u8>)
    requires
        id != timstap0() || data.len() == 0 || data[0] > 1 || data[0] == 0 && data.len() < 9,
    ensures
        timestamp_error_of(id, data) is None,
{
    if exists|e: TimestampErrorView| reports(data, e) {
        let e = choose|e: TimestampErrorView| reports(data, e);
        match e {
            TimestampErrorView::ValidAtTimestamp(t) => {
                lemma_le_bytes_len(t as nat, 8);
                assert(e.encoding().len() == 9);
                assert(data[0] == e.encoding()[0]);
            },
            TimestampErrorView::Other(t) => {
                assert(e.encoding().len() > 0);
                assert(data[0] == e.encoding()[0]);
            },
        }
    }
}

/// What to make of one error that the runtime reported. A timestamp is too far ahead exactly
/// where it is more than sixty seconds ahead of the clock, and is accepted otherwise. A text is
/// passed on. Anything else is left to the providers, as it was reported.
pub proof fn law_one_error_is_judged_by_its_bytes(
    errors: &Vec<(InherentIdentifier, Vec<u8>)>,
    now: u64,
    text: Seq<char>,
    r: InherentsVerdict,
)
    requires
        errors@.len() == 1,
        call_ensures(judge_errors, (errors, now), r),
    ensures
        ({
            let id = errors@[0].0@;
            let data = errors@[0].1@;
            &&& is_ahead(id, data) && now + 60 <= u64::MAX ==> {
                &&& reported_time(data) > now + 60 ==> (r matches InherentsVerdict::Rejected(e)
                    && e is TooFarInFuture)
                &&& reported_time(data) <= now + 60 ==> r is Accepted
            }
            &&& is_ahead(id, data) && now + 60 > u64::MAX ==> r is ClockOutOfRange
            &&& id == timstap0() && encode_utf8(text).len() <= 4294967295 && (seq![1u8]
                + bytes_encoding(encode_utf8(text))).is_prefix_of(data) ==> (
            r matches InherentsVerdict::Rejected(Error::Runtime(e)) && e@ == text)
            &&& id != timstap0() || data.len() == 0 || data[0] > 1 || data[0] == 0 && data.len() < 9
                ==> r is Unknown
            &&& id == timstap0() && data.len() > 0 && data[0] == 1 && (forall|s: Seq<char>|
                #[trigger] encode_utf8(s).len() <= 4294967295 ==> !(seq![1u8] + bytes_encoding(
                    encode_utf8(s),
                )).is_prefix_of(data)) ==> r is Unknown
            &&& r matches InherentsVerdict::Unknown(i, d) ==> i@ == id && d@ == data
            &&& r is Accepted <==> is_close(id, data, now)
            &&& r is ClockOutOfRange <==> is_ahead(id, data) && now + 60 > u64::MAX
            &&& r matches InherentsVerdict::Rejected(e) ==> id == timstap0() && (
            e is TooFarInFuture || e is Runtime)
        }),
{
    let id = errors@[0].0@;
    let data = errors@[0].1@;
    let entries = entries_view(errors@);
    assert(entries[0] == (id, data));
    reveal_with_fuel(verdict_on_all, 3);
    assert(entries.drop_first().len() == 0);
    assert(r@ == verdict_on(id, data, now));
    assert(timstap0() =~= crate::inherents::TIMESTAMP_IDENTIFIER@);
    if is_ahead(id, data) {
        lemma_reported_time(data);
        lemma_timestamp_error_of(
            data,
            TimestampErrorView::ValidAtTimestamp(reported_time(data) as u64),
        );
    }
    if id != timstap0() || data.len() == 0 || data[0] > 1 || data[0] == 0 && data.len() < 9 {
        lemma_no_report(id, data);
    }
    let e = TimestampErrorView::Other(text);
    if id == timstap0() && encode_utf8(text).len() <= 4294967295 && (seq![1u8] + bytes_encoding(
        encode_utf8(text),
    )).is_prefix_of(data) {
        assert(reports(data, e));
        lemma_timestamp_error_of(data, e);
    }
    lemma_accepted_is_close(id, data, now);
    if let Some(found) = timestamp_error_of(id, data) {
        assert(reports(data, found));
        assert(data[0] == found.encoding()[0]);
        match found {
            TimestampErrorView::ValidAtTimestamp(t) => {
                lemma_le_bytes_len(t as nat, 8);
                assert(found.encoding().len() == 9);
            },
            TimestampErrorView::Other(s) => {
                assert(encode_utf8(s).len() <= 4294967295);
            },
        }
    }
}

/// Errors are judged in turn: those that are accepted are passed over, the first that is not
/// decides, as it would alone; where there is none, all is accepted.
pub proof fn law_first_error_decides(
    errors: &Vec<(InherentIdentifier, Vec<u8>)>,
    now: u64,
    k: int,
    r: InherentsVerdict,
    one: &Vec<(InherentIdentifier, Vec<u8>)>,
    alone: InherentsVerdict,
)
    requires
        0 <= k <= errors@.len(),
        forall|i: int|
            0 <= i < k ==> is_close((#[trigger] errors@[i]).0@, errors@[i].1@, now),
        call_ensures(judge_errors, (errors, now), r),
        call_ensures(judge_errors, (one, now), alone),
        k < errors@.len() ==> {
            &&& !is_close(errors@[k].0@, errors@[k].1@, now)
            &&& one@.len() == 1
            &&& one@[0].0@ == errors@[k].0@
            &&& one@[0].1@ == errors@[k].1@
        },
    ensures
        k == errors@.len() ==> r is Accepted,
        k < errors@.len() ==> r@ == alone@ && !(r is Accepted),
{
    let entries = entries_view(errors@);
    assert(timstap0() =~= crate::inherents::TIMESTAMP_IDENTIFIER@);
    lemma_accepted_are_passed_over(entries, now, k);
    if k < errors@.len() {
        let rest = entries.skip(k);
        let id = errors@[k].0@;
        let data = errors@[k].1@;
        assert(rest[0] == (id, data));
        lemma_accepted_is_close(id, data, now);
        let single = entries_view(one@);
        assert(single[0] == (id, data));
        reveal_with_fuel(verdict_on_all, 3);
        assert(single.drop_first().len() == 0);
    }
}

proof fn lemma_accepted_is_close(id: Seq<u8>, data: Seq<u8>, now: u64)
    ensures
        verdict_on(id, data, now) is Accepted <==> is_close(id, data, now),
{
    assert(timstap0() =~= crate::inherents::TIMESTAMP_IDENTIFIER@);
    if is_ahead(id, data) {
        lemma_reported_time(data);
        lemma_timestamp_error_of(
            data,
            TimestampErrorView::ValidAtTimestamp(reported_time(data) as u64),
        );
    } else if verdict_on(id, data, now) is Accepted {
        let e = choose|e: TimestampErrorView| reports(data, e);
        assert(reports(data, e));
        let t = e->ValidAtTimestamp_0;
        lemma_le_bytes_len(t as nat, 8);
        assert(data[0] == e.encoding()[0]);
    }
}

proof fn lemma_accepted_are_passed_over(entries: Seq<(Seq<u8>, Seq<u8>)>, now: u64, k: int)
    requires
        0 <= k <= entries.len(),
        forall|i: int| 0 <= i < k ==> is_close((#[trigger] entries[i]).0, entries[i].1, now),
    ensures
        verdict_on_all(entries, now) == verdict_on_all(entries.skip(k), now),
    decreases k,
{
    if k == 0 {
        assert(entries.skip(0) =~= entries);
    } else {
        lemma_accepted_are_passed_over(entries, now, k - 1);
        let rest = entries.skip(k - 1);
        assert(rest[0] == entries[k - 1]);
        lemma_accepted_is_close(entries[k - 1].0, entries[k - 1].1, now);
        assert(rest.drop_first() =~= entries.skip(k));
    }
}

/// A report without errors is accepted. Of another one, the errors are judged in the order of
/// their identifiers.
pub proof fn law_report_is_judged_by_its_errors(
    result: sp_inherents::CheckInherentsResult,
    now: u64,
    r: InherentsVerdict,
    errors: &Vec<(InherentIdentifier, Vec<u8>)>,
    judged: InherentsVerdict,
)
    requires
        call_ensures(judge_inherents, (result, now), r),
        lists(entries_view(errors@), reported_errors(result)),
        call_ensures(judge_errors, (errors, now), judged),
    ensures
        reported_ok(result) ==> r is Accepted,
        !reported_ok(result) ==> r@ == judged@,
{
    if !reported_ok(result) {
        assert(is_verdict(result, now, judged@));
        law_verdict_is_unique(result, now, r@, judged@);
    }
}

/// A report of a single timestamp, whichever way it is judged: at a clock that leaves room for the
/// drift, the block is rejected as too far in the future exactly where the reported time is
/// more than sixty seconds ahead, and accepted otherwise.
pub proof fn law_drift_is_sixty_seconds<D: Difficulty>(
    result: sp_inherents::CheckInherentsResult,
    data: Seq<u8>,
    candidate: &Candidate<D>,
    now: u64,
    r: InherentsVerdict,
    judged: InherentsVerdict,
)
    requires
        !reported_ok(result),
        reported_errors(result) == Map::<Seq<u8>, Seq<u8>>::empty().insert(timstap0(), data),
        data.len() >= 9,
        data[0] == 0,
        candidate.now == now,
        call_ensures(judge_inherents, (result, now), r),
        call_ensures(Candidate::<D>::judge, (candidate, Ok(result)), judged),
    ensures
        judged@ == r@,
        now + 60 <= u64::MAX ==> {
            &&& reported_time(data) > now + 60 <==> (r matches InherentsVerdict::Rejected(e)
                && e is TooFarInFuture)
            &&& reported_time(data) <= now + 60 <==> r is Accepted
        },
        now + 60 > u64::MAX <==> r is ClockOutOfRange,
{
    law_verdict_is_unique(result, now, r@, judged@);
    let entries = seq![(timstap0(), data)];
    let errors = reported_errors(result);
    assert(lists(entries, errors)) by {
        assert forall|id: Seq<u8>| #[trigger] errors.contains_key(id) implies exists|i: int|
            0 <= i < entries.len() && entries[i].0 == id by {
            assert(entries[0].0 == id);
        }
    }
    let verdict = verdict_on_all(entries, now);
    assert(is_verdict(result, now, verdict));
    law_verdict_is_unique(result, now, r@, verdict);
    reveal_with_fuel(verdict_on_all, 3);
    assert(entries.drop_first().len() == 0);
    assert(timstap0() =~= crate::inherents::TIMESTAMP_IDENTIFIER@);
    lemma_reported_time(data);
    lemma_timestamp_error_of(
        data,
        TimestampErrorView::ValidAtTimestamp(reported_time(data) as u64),
    );
}

/// A candidate is judged by the runtime's answer at the time of the candidate; an answer that
/// failed rejects it with the words of the failure.
pub proof fn law_candidate_is_judged_at_its_time<D: Difficulty>(
    candidate: &Candidate<D>,
    e: String,
    failed: InherentsVerdict,
    result: sp_inherents::CheckInherentsResult,
    r: InherentsVerdict,
    judged: InherentsVerdict,
)
    requires
        call_ensures(Candidate::<D>::judge, (candidate, Err(e)), failed),
        call_ensures(Candidate::<D>::judge, (candidate, Ok(result)), judged),
        call_ensures(judge_inherents, (result, candidate.now), r),
    ensures
        failed matches InherentsVerdict::Rejected(Error::Client(text)) && text@ == e@,
        judged@ == r@,
{
    law_verdict_is_unique(result, candidate.now, r@, judged@);
    assert(failed@ == InherentsVerdictView::Rejected(ErrorView::Client(e@)));
}

/// A verdict that accepts comes to nothing, one that rejects comes to its error.
pub proof fn law_verdicts_come_to_what_they_say(
    verdict: InherentsVerdict,
    providers: &sp_inherents::InherentDataProviders,
    r: Result<(), Error>,
)
    requires
        call_ensures(InherentsVerdict::outcome, (verdict, providers), r),
    ensures
        r is Ok <==> verdict is Accepted,
        verdict matches InherentsVerdict::Rejected(e) ==> r->Err_0@ == e@,
        verdict is Unknown ==> r->Err_0 is CheckInherents,
{
    assert(verdict@ is Accepted <==> verdict is Accepted);
}

} // verus!
