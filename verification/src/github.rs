//! Reactions to events of the code host.

use crate::text::same_text;
use vstd::prelude::*;

pub mod prs;

verus! {

/// The kind of an event, as the code host names it in the request that
/// delivers the event.
#[derive(Debug)]
pub struct GitHubEvent(pub String);

impl View for GitHubEvent {
    type V = Seq<char>;

    open spec fn view(&self) -> Seq<char> {
        self.0@
    }
}

impl GitHubEvent {
    /// The event that a request announces in its event header, if it has
    /// that header.
    pub fn from_header(value: Option<&str>) -> (r: Option<GitHubEvent>)
        ensures
            match value {
                Some(kind) => r matches Some(e) && e@ == kind@,
                None => r is None,
            },
    {
        match value {
            Some(kind) => Some(GitHubEvent(kind.to_owned())),
            None => None,
        }
    }
}

/// What an event is about, as far as the bot reacts to it.
#[derive(Clone, Copy, Debug, PartialEq, Eq, Structural)]
pub enum Subject {
    /// A pull request was opened, closed or changed.
    PullRequest,
    /// A review of a pull request was submitted, edited or dismissed.
    PullRequestReview,
    /// Anything else: the bot does not react.
    Other,
}

/// What an event of the kind `kind` is about.
pub open spec fn subject_of(kind: Seq<char>) -> Subject {
    if kind == "pull_request"@ {
        Subject::PullRequest
    } else if kind == "pull_request_review"@ {
        Subject::PullRequestReview
    } else {
        Subject::Other
    }
}

/// Tells which reaction, if any, is due to `event`.
pub fn handle_github_event(event: &GitHubEvent) -> (r: Subject)
    ensures
        r == subject_of(event@),
{
    if same_text(event.0.as_str(), "pull_request") {
        Subject::PullRequest
    } else if same_text(event.0.as_str(), "pull_request_review") {
        Subject::PullRequestReview
    } else {
        Subject::Other
    }
}

} // verus!
