//! How the sprint command starts: from the configured board, the cached
//! sprint or a fetch of the active one.

use vstd::prelude::*;
use crate::jira::sprint::Pbi;

verus! {

/// The first step of the sprint command.
pub enum SprintStart {
    /// No board is configured: the command stops and asks for one.
    MissingBoard,
    /// The cached sprint is shown as it was saved: name, goal and items.
    FromCache(String, String, Vec<Pbi>),
    /// Nothing usable is cached: the active sprint of the board is fetched,
    /// saved to the cache and shown.
    FetchActive,
}

/// Decide how the sprint command starts for the configured `board_id`,
/// given what the board's cache held (`None` when it is missing or
/// unreadable, or was not read).
pub fn sprint_start(board_id: &str, cached: Option<(String, String, Vec<Pbi>)>) -> (r: SprintStart)
    ensures
        board_id@.len() == 0 ==> r is MissingBoard,
        board_id@.len() > 0 ==> match cached {
            Some(c) => r == SprintStart::FromCache(c.0, c.1, c.2),
            None => r is FetchActive,
        },
{
    if board_id.is_empty() {
        SprintStart::MissingBoard
    } else {
        match cached {
            Some((name, goal, pbis)) => SprintStart::FromCache(name, goal, pbis),
            None => SprintStart::FetchActive,
        }
    }
}

/// The line shown while the active sprint of `board_id` is fetched.
pub fn fetching_notice(board_id: &str) -> (r: String)
    ensures
        r@ == "Fetching active sprint for board "@ + board_id@ + "..."@,
{
    let mut r = String::from_str("Fetching active sprint for board ");
    r.append(board_id);
    r.append("...");
    r
}

} // verus!
