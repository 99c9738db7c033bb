//! The leaderboard endpoint.

use crate::models::leaderboard::{is_listing, Entry, PrintableEntry, Store};
use vstd::prelude::*;

verus! {

/// The leaderboard: every entry with its parameter set, best time first.
pub fn leaderboard(store: &Store) -> (rows: Vec<PrintableEntry>)
    ensures
        is_listing(store@, rows@),
{
    Entry::all(store)
}

} // verus!
