//! The engine's errors as errors of the consensus.
use crate::error::Error;
use sp_consensus::Error as ConsensusError;
use vstd::prelude::*;

verus! {

/// An error of the consensus.
#[verifier::external_type_specification]
#[verifier::external_body]
pub struct ExConsensusError(ConsensusError);

/// The error of a failed import, with this text.
pub uninterp spec fn client_import_error(text: Seq<char>) -> ConsensusError;

/// `Error::ClientImport` of `sp_consensus`: the error of a failed import, which holds the text
/// and nothing else.
#[verifier::external_body]
fn client_import(text: String) -> (r: ConsensusError)
    ensures
        r == client_import_error(text@),
{
    ConsensusError::ClientImport(text)
}

impl From<Error> for ConsensusError {
    fn from(error: Error) -> (r: ConsensusError) {
        client_import(error.to_string())
    }
}

impl vstd::std_specs::convert::FromSpecImpl<Error> for ConsensusError {
    open spec fn obeys_from_spec() -> bool {
        true
    }

    open spec fn from_spec(error: Error) -> ConsensusError {
        client_import_error(error@.text())
    }
}

} // verus!
