//! The ways in which a request is turned down.

use vstd::prelude::*;

verus! {

/// Why a submission was not recorded. The first four end the submission;
/// `StoreConflict` is transient and the write that met it may be tried again.
#[derive(Clone, Copy, Debug, PartialEq, Eq, Structural)]
pub enum ApiError {
    /// A seed's code is not the one that the key gives for its contents.
    InvalidSeedAuthenticity,
    /// The challenge seed is bound to another commitment than the proof's.
    CommitmentMismatch,
    /// The declared kind of proof and the fields sent with it disagree.
    ProofTypeMismatch,
    /// The verifier refused the proof, or failed on it.
    ProofRejected,
    /// A conditional write lost against a concurrent one.
    StoreConflict,
}

/// The answer that reports an error to the client.
#[derive(Clone, Debug)]
pub struct ErrorAnswer {
    /// The HTTP status.
    pub code: u16,
    pub status: String,
    pub message: String,
}

impl ApiError {
    /// Whether the operation that failed may simply be tried again.
    pub fn is_transient(&self) -> (t: bool)
        ensures
            t <==> *self == ApiError::StoreConflict,
    {
        match self {
            ApiError::StoreConflict => true,
            _ => false,
        }
    }

    /// The answer sent for the error: a bad request, whose message is the
    /// error's text after `Error: `.
    pub fn respond_to(&self) -> (answer: ErrorAnswer)
        ensures
            answer.code == 400,
            answer.status@ == "failure"@,
            answer.message@ == "Error: "@ + self.message_text(),
    {
        let mut message = "Error: ".to_owned();
        let text = self.message();
        message.append(text.as_str());
        ErrorAnswer { code: 400, status: "failure".to_owned(), message }
    }

    /// The text of each error.
    pub open spec fn message_text(self) -> Seq<char> {
        match self {
            ApiError::InvalidSeedAuthenticity => "Invalid seed"@,
            ApiError::CommitmentMismatch => "Invalid seed challenge replica"@,
            ApiError::ProofTypeMismatch => "Proof does not match its declared type"@,
            ApiError::ProofRejected => "Submitted proofs are invalid"@,
            ApiError::StoreConflict => "Conflicting write, try again"@,
        }
    }

    /// The text shown to the client.
    pub fn message(&self) -> (text: String)
        ensures
            text@ == self.message_text(),
    {
        match self {
            ApiError::InvalidSeedAuthenticity => "Invalid seed".to_owned(),
            ApiError::CommitmentMismatch => "Invalid seed challenge replica".to_owned(),
            ApiError::ProofTypeMismatch => "Proof does not match its declared type".to_owned(),
            ApiError::ProofRejected => "Submitted proofs are invalid".to_owned(),
            ApiError::StoreConflict => "Conflicting write, try again".to_owned(),
        }
    }
}

} // verus!
