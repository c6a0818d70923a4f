//! How errors read.
use sc_pow::error::Error;

#[test]
fn errors_read_as_documented() {
    let mut hash = [0u8; 32];
    hash[0] = 0xab;
    hash[31] = 7;
    let hex = format!("0xab{}07", "00".repeat(30));
    let cases = vec![
        (Error::WrongEngine([0, 10, 205, 99]), "Header uses the wrong engine [0, 10, 205, 99]".to_string()),
        (Error::HeaderUnsealed(hash), format!("Header {} is unsealed", hex)),
        (Error::InvalidSeal, "PoW validation error: invalid seal".to_string()),
        (Error::FailedPreliminaryVerify, "PoW validation error: preliminary verification failed".to_string()),
        (Error::TooFarInFuture, "Rejecting block too far in future".to_string()),
        (Error::BestHeaderSelectChain("E".to_string()), "Fetching best header failed using select chain: E".to_string()),
        (Error::BestHeader("E".to_string()), "Fetching best header failed: E".to_string()),
        (Error::NoBestHeader, "Best header does not exist".to_string()),
        (Error::BlockProposingError("a \"b\"\n".to_string()), "Block proposing error: \"a \\\"b\\\"\\n\"".to_string()),
        (Error::BestHashSelectChain("E".to_string()), "Fetch best hash failed via select chain: E".to_string()),
        (Error::BlockBuiltError(hash, "E".to_string()), format!("Error with block built on {}: E", hex)),
        (Error::CreateInherents("E".to_string()), "Creating inherents failed: E".to_string()),
        (Error::CheckInherents("E".to_string()), "Checking inherents failed: E".to_string()),
        (Error::Client("E".to_string()), "E".to_string()),
        (Error::Codec("E".to_string()), "E".to_string()),
        (Error::Environment("E".to_string()), "E".to_string()),
        (Error::Runtime("E".to_string()), "E".to_string()),
    ];
    for (error, text) in cases {
        assert_eq!(error.to_string(), text);
        assert_eq!(String::from(error), text);
    }
}

#[test]
fn hash_and_identifier_read_as_their_debug_forms() {
    let id = *b"aura";
    assert_eq!(Error::WrongEngine(id).to_string(), format!("Header uses the wrong engine {:?}", id));
    let hash = [0x5au8; 32];
    assert_eq!(
        Error::HeaderUnsealed(hash).to_string(),
        format!("Header {:?} is unsealed", sp_core::H256(hash)),
    );
}

#[test]
fn errors_become_import_errors_of_the_consensus() {
    match sp_consensus::Error::from(Error::TooFarInFuture) {
        sp_consensus::Error::ClientImport(text) => {
            assert_eq!(text, "Rejecting block too far in future")
        },
        other => panic!("not an import error: {:?}", other),
    }
    assert_eq!(
        sp_consensus::Error::from(Error::Codec("E".to_string())).to_string(),
        "Import failed: E",
    );
}
