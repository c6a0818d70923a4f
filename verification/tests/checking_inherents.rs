//! Inherents: what the runtime reports and what comes of it.
use sc_pow::error::Error;
use sc_pow::inherents::{
    create, judge_errors, judge_inherents, register_pow_inherent_data_provider, InherentsVerdict,
    MAX_TIMESTAMP_DRIFT_SECS, TIMESTAMP_IDENTIFIER,
};
use sp_inherents::{CheckInherentsResult, InherentDataProviders, MakeFatalError};
use sp_timestamp::InherentError;

fn reporting(error: InherentError) -> CheckInherentsResult {
    let mut result = CheckInherentsResult::new();
    result.put_error(TIMESTAMP_IDENTIFIER, &error).unwrap();
    result
}

#[test]
fn identifier_is_that_of_the_timestamp_inherent() {
    assert_eq!(TIMESTAMP_IDENTIFIER, sp_timestamp::INHERENT_IDENTIFIER);
}

#[test]
fn a_clean_report_is_accepted() {
    assert!(matches!(judge_inherents(CheckInherentsResult::new(), 5), InherentsVerdict::Accepted));
}

#[test]
fn timestamps_within_the_drift_are_accepted() {
    let at = |t: u64| judge_inherents(reporting(InherentError::ValidAtTimestamp(t)), 1000);
    assert!(matches!(at(1000 + MAX_TIMESTAMP_DRIFT_SECS), InherentsVerdict::Accepted));
    assert!(matches!(
        at(1061),
        InherentsVerdict::Rejected(Error::TooFarInFuture)
    ));
}

#[test]
fn a_clock_at_the_end_of_time_cannot_judge_timestamps() {
    let now = u64::MAX - 59;
    let verdict = judge_inherents(reporting(InherentError::ValidAtTimestamp(3)), now);
    assert!(matches!(verdict, InherentsVerdict::ClockOutOfRange));
    assert!(matches!(judge_inherents(CheckInherentsResult::new(), now), InherentsVerdict::Accepted));
    let verdict = judge_inherents(reporting(InherentError::ValidAtTimestamp(3)), now - 1);
    assert!(matches!(verdict, InherentsVerdict::Accepted));
}

#[test]
fn other_timestamp_errors_are_those_of_the_runtime() {
    match judge_inherents(reporting(InherentError::Other("too early".into())), 0) {
        InherentsVerdict::Rejected(Error::Runtime(e)) => assert_eq!(e, "too early"),
        _ => panic!("not a runtime error"),
    }
}

#[test]
fn unknown_errors_are_put_in_words_by_their_provider() {
    let mut result = CheckInherentsResult::new();
    result.put_error(*b"uncles00", &MakeFatalError::from(7u32)).unwrap();
    let providers = InherentDataProviders::new();
    match judge_inherents(result, 0) {
        InherentsVerdict::Unknown(id, data) => {
            assert_eq!(&id, b"uncles00");
            assert_eq!(data, vec![7, 0, 0, 0]);
            match InherentsVerdict::Unknown(id, data).outcome(&providers) {
                Err(Error::CheckInherents(text)) => {
                    assert_eq!(text, providers.error_to_string(b"uncles00", &[7, 0, 0, 0]));
                    assert!(text.contains("uncles00"));
                },
                _ => panic!("not a rejection"),
            }
        },
        _ => panic!("the error is not known"),
    }
}

#[test]
fn undecodable_timestamp_errors_are_unknown() {
    let errors = vec![(TIMESTAMP_IDENTIFIER, vec![0u8, 1])];
    assert!(matches!(judge_errors(&errors, 0), InherentsVerdict::Unknown(_, _)));
}

#[test]
fn errors_are_judged_in_the_order_of_their_identifiers() {
    let mut result = CheckInherentsResult::new();
    result.put_error(TIMESTAMP_IDENTIFIER, &InherentError::ValidAtTimestamp(3)).unwrap();
    let late = InherentError::ValidAtTimestamp(1);
    result.put_error(*b"zzzzzzzz", &late).unwrap();
    result.put_error(*b"aaaaaaaa", &late).unwrap();
    match judge_inherents(result, 100) {
        InherentsVerdict::Unknown(id, _) => assert_eq!(&id, b"aaaaaaaa"),
        _ => panic!("the first error is not known"),
    }
}

#[test]
fn first_error_that_is_not_accepted_decides() {
    let encoded = |e: InherentError| parity_scale_codec::Encode::encode(&e);
    let errors = vec![
        (TIMESTAMP_IDENTIFIER, encoded(InherentError::ValidAtTimestamp(1))),
        (TIMESTAMP_IDENTIFIER, encoded(InherentError::ValidAtTimestamp(500))),
        (TIMESTAMP_IDENTIFIER, encoded(InherentError::Other("x".into()))),
    ];
    assert!(matches!(
        judge_errors(&errors, 100),
        InherentsVerdict::Rejected(Error::TooFarInFuture)
    ));
    assert!(matches!(judge_errors(&vec![], 100), InherentsVerdict::Accepted));
}

#[test]
fn outcomes_of_known_verdicts() {
    let providers = InherentDataProviders::new();
    assert!(InherentsVerdict::Accepted.outcome(&providers).is_ok());
    assert!(matches!(
        InherentsVerdict::Rejected(Error::TooFarInFuture).outcome(&providers),
        Err(Error::TooFarInFuture)
    ));
}

#[test]
fn timestamp_provider_is_registered_once() {
    let providers = InherentDataProviders::new();
    assert!(!providers.has_provider(&TIMESTAMP_IDENTIFIER));
    register_pow_inherent_data_provider(&providers).unwrap();
    assert!(providers.has_provider(&TIMESTAMP_IDENTIFIER));
    register_pow_inherent_data_provider(&providers).unwrap();
    assert_eq!(create(&providers).unwrap().len(), 1);
}
