//! What is answered where no endpoint is.

use vstd::prelude::*;

verus! {

/// The body of an answer that reports a failure.
#[derive(Clone, Debug)]
pub struct ErrorBody {
    pub status: String,
    pub reason: String,
}

/// The answer to a request for what is not there.
pub fn not_found() -> (body: ErrorBody)
    ensures
        body.status@ == "error"@,
        body.reason@ == "Resource was not found."@,
{
    ErrorBody { status: "error".to_owned(), reason: "Resource was not found.".to_owned() }
}

} // verus!
