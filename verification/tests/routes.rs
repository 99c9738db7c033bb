use replication_game::error::ApiError;
use replication_game::routes::catchers::not_found;
use replication_game::routes::index::{index, USAGE};

#[test]
fn index_serves_the_usage() {
    assert_eq!(index(), USAGE);
    assert!(index().contains("GET /leaderboard"));
    assert!(index().contains("POST /proof"));
}

#[test]
fn not_found_says_so() {
    let body = not_found();
    assert_eq!(body.status, "error");
    assert_eq!(body.reason, "Resource was not found.");
}

#[test]
fn errors_answer_as_bad_requests() {
    let answer = ApiError::ProofRejected.respond_to();
    assert_eq!(answer.code, 400);
    assert_eq!(answer.status, "failure");
    assert_eq!(answer.message, "Error: Submitted proofs are invalid");
    let answer = ApiError::CommitmentMismatch.respond_to();
    assert_eq!(answer.code, 400);
    assert_eq!(answer.message, "Error: Invalid seed challenge replica");
}

#[test]
fn every_error_has_its_message() {
    assert_eq!(ApiError::InvalidSeedAuthenticity.message(), "Invalid seed");
    assert_eq!(ApiError::CommitmentMismatch.message(), "Invalid seed challenge replica");
    assert_eq!(
        ApiError::ProofTypeMismatch.message(),
        "Proof does not match its declared type"
    );
    assert_eq!(ApiError::ProofRejected.message(), "Submitted proofs are invalid");
    assert_eq!(ApiError::StoreConflict.message(), "Conflicting write, try again");
}
