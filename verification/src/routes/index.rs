//! The index endpoint.

use vstd::prelude::*;

verus! {

/// How the service is used.
pub const USAGE: &'static str = "
    USAGE
      GET /leaderboard
          Returns the current leaderboard as JSON

      GET /seed
          Returns a timestamp and a seed separated as JSON
          EXAMPLE: curl  http://localhost:8000/seed

      POST /proof
          Send your results here. They should be sent as JSON.
    
    LEARN MORE
      More details on how to play the replication game:
      https://github.com/filecoin-project/replication-game-server
    ";

/// The text served at the root of the API.
pub fn index() -> (usage: &'static str)
    ensures
        usage@ == USAGE@,
{
    USAGE
}

} // verus!
