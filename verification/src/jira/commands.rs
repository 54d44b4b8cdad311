//! The JIRA subcommands that the command line selects, with their defaults.

use vstd::prelude::*;
use vstd::string::*;

verus! {

/// A subcommand with its arguments.
pub enum JiraCommand {
    /// List the transitions available to a ticket.
    ListTransitions { ticket: String },
    /// Move a ticket to another status.
    MoveTicket { ticket: String, status: String },
    /// Show the given fields of a ticket.
    ShowDetails { ticket: String, fields: String },
    /// List the comments of a ticket.
    ListComments { ticket: String },
    /// Add a comment to a ticket.
    AddComment { ticket: String },
}

/// The fields shown of a ticket when none are asked for.
pub open spec fn default_detail_fields() -> Seq<char> {
    "key,summary,description"@
}

/// The `transition` subcommand: with the list flag, the transitions are
/// listed; otherwise the ticket moves to the given status, which must then
/// be present.
pub fn transition_command(ticket: String, list: bool, status: Option<String>) -> (r: JiraCommand)
    requires
        list || status is Some,
    ensures
        list ==> (r matches JiraCommand::ListTransitions { ticket: t } && t@ == ticket@),
        !list ==> (r matches JiraCommand::MoveTicket { ticket: t, status: s } && t@ == ticket@
            && s@ == status->Some_0@),
{
    if list {
        JiraCommand::ListTransitions { ticket }
    } else {
        match status {
            Some(status) => JiraCommand::MoveTicket { ticket, status },
            None => JiraCommand::ListTransitions { ticket },
        }
    }
}

/// The `detail` subcommand: the asked-for fields, by default key, summary
/// and description.
pub fn detail_command(ticket: String, fields: Option<String>) -> (r: JiraCommand)
    ensures
        r matches JiraCommand::ShowDetails { ticket: t, fields: f } && t@ == ticket@ && f@ == match fields {
            Some(f) => f@,
            None => default_detail_fields(),
        },
{
    let fields = match fields {
        Some(f) => f,
        None => String::from_str("key,summary,description"),
    };
    JiraCommand::ShowDetails { ticket, fields }
}

/// The `comments` subcommand: with the list flag the comments are listed,
/// otherwise one is added.
pub fn comments_command(ticket: String, list: bool) -> (r: JiraCommand)
    ensures
        list ==> (r matches JiraCommand::ListComments { ticket: t } && t@ == ticket@),
        !list ==> (r matches JiraCommand::AddComment { ticket: t } && t@ == ticket@),
{
    if list {
        JiraCommand::ListComments { ticket }
    } else {
        JiraCommand::AddComment { ticket }
    }
}

} // verus!
