//! The parts of Bitbucket webhook handling that decide: which event keys are
//! recorded, under which event type, and under which pull-request key.
use vstd::prelude::*;
use crate::pr_model::{PullRequestEvent, PullRequestEventType, PullRequestTimestamp};
use crate::text::{decimal_text, render_decimal, text_equals};

verus! {

/// The pull-request events that webhooks report and the dashboard records.
#[derive(Clone, Copy, Debug, PartialEq, Eq, Structural)]
pub enum PREventType {
    Opened,
    Approved,
    Merged,
    CommentAdded,
    SourceBranchUpdated,
}

/// The recorded event type of a webhook event key; other keys are ignored.
pub open spec fn event_key_spec(key: Seq<char>) -> Option<PREventType> {
    if key == "pr:opened"@ {
        Some(PREventType::Opened)
    } else if key == "pr:approved"@ {
        Some(PREventType::Approved)
    } else if key == "pr:merged"@ {
        Some(PREventType::Merged)
    } else if key == "pr:comment:added"@ {
        Some(PREventType::CommentAdded)
    } else if key == "pr:from_ref_updated"@ {
        Some(PREventType::SourceBranchUpdated)
    } else {
        None
    }
}

/// The recorded event type of a webhook event key, if it is recorded.
pub fn map_event_key(event_key: &str) -> (r: Option<PREventType>)
    ensures
        r == event_key_spec(event_key@),
{
    if text_equals(event_key, "pr:opened") {
        Some(PREventType::Opened)
    } else if text_equals(event_key, "pr:approved") {
        Some(PREventType::Approved)
    } else if text_equals(event_key, "pr:merged") {
        Some(PREventType::Merged)
    } else if text_equals(event_key, "pr:comment:added") {
        Some(PREventType::CommentAdded)
    } else if text_equals(event_key, "pr:from_ref_updated") {
        Some(PREventType::SourceBranchUpdated)
    } else {
        None
    }
}

/// The stored event type of a webhook event.
pub open spec fn event_type_spec(event_type: PREventType) -> PullRequestEventType {
    match event_type {
        PREventType::Opened => PullRequestEventType::Opened,
        PREventType::Approved => PullRequestEventType::Approved,
        PREventType::Merged => PullRequestEventType::Merged,
        PREventType::CommentAdded => PullRequestEventType::CommentAdded,
        PREventType::SourceBranchUpdated => PullRequestEventType::SourceBranchUpdated,
    }
}

/// The stored event type of a webhook event.
pub fn map_event_type(event_type: PREventType) -> (r: PullRequestEventType)
    ensures
        r == event_type_spec(event_type),
{
    match event_type {
        PREventType::Opened => PullRequestEventType::Opened,
        PREventType::Approved => PullRequestEventType::Approved,
        PREventType::Merged => PullRequestEventType::Merged,
        PREventType::CommentAdded => PullRequestEventType::CommentAdded,
        PREventType::SourceBranchUpdated => PullRequestEventType::SourceBranchUpdated,
    }
}

/// The stable key of a pull request: the id of the repository it targets and
/// its number there, as `<repository id>-<pull request id>`.
pub open spec fn pull_request_key_spec(repository_id: nat, pull_request_id: nat) -> Seq<char> {
    decimal_text(repository_id) + "-"@ + decimal_text(pull_request_id)
}

/// The stable key of a pull request, from natural ids rather than a hash.
pub fn pull_request_key(repository_id: u32, pull_request_id: u32) -> (r: String)
    ensures
        r@ == pull_request_key_spec(repository_id as nat, pull_request_id as nat),
{
    let mut s = render_decimal(repository_id as u64);
    s.append("-");
    let id = render_decimal(pull_request_id as u64);
    s.append(id.as_str());
    s
}

/// The link of a pull request: the first of its self links.
pub fn get_pull_request_link(self_links: &[String]) -> (r: Option<String>)
    ensures
        self_links@.len() == 0 <==> r is None,
        r matches Some(l) ==> l@ == self_links@[0]@,
{
    if self_links.len() == 0 {
        None
    } else {
        Some(self_links[0].clone())
    }
}

/// The text stored with an event: the comment of a comment event, nothing for
/// the others. `None` where a comment event carries no comment.
pub fn get_event_text(event_type: PREventType, comment: Option<String>) -> (r: Option<String>)
    ensures
        event_type == PREventType::CommentAdded ==> r == comment,
        event_type != PREventType::CommentAdded ==> (r matches Some(t) && t@.len() == 0),
{
    match event_type {
        PREventType::CommentAdded => comment,
        _ => Some(String::new()),
    }
}

/// A new, not yet stored, event reported by a webhook.
pub fn new_pr_event(
    event_type: PREventType,
    pr_id: String,
    author: String,
    repository: String,
    title: String,
    text: String,
    timestamp: PullRequestTimestamp,
    pr_link: String,
) -> (r: PullRequestEvent)
    ensures
        r.id is None,
        r.event_type == event_type_spec(event_type),
        r.pr_id == pr_id,
        r.author == author,
        r.repository == repository,
        r.title == title,
        r.text == text,
        r.timestamp == timestamp,
        r.pr_link == pr_link,
{
    PullRequestEvent {
        id: None,
        pr_id,
        event_type: map_event_type(event_type),
        author,
        title,
        repository,
        text,
        timestamp,
        pr_link,
    }
}

} // verus!
