//! Raw pull-request events and the updates aggregated from them.
use vstd::prelude::*;

verus! {

/// An event timestamp: milliseconds since the Unix epoch, UTC.
pub type PullRequestTimestamp = i64;

/// The kind of a raw pull-request event. The declaration order is the order in
/// which the details of an update are listed.
#[derive(Clone, Copy, Debug, PartialEq, Eq, Structural, Hash, PartialOrd, Ord)]
pub enum PullRequestEventType {
    Opened,
    Approved,
    Merged,
    CommentAdded,
    SourceBranchUpdated,
}

/// A raw pull-request event as stored in the event log.
#[derive(Debug)]
pub struct PullRequestEvent {
    /// Row id, set by the store when the event is persisted.
    pub id: Option<i32>,
    pub pr_id: String,
    pub event_type: PullRequestEventType,
    pub author: String,
    pub title: String,
    pub repository: String,
    pub text: String,
    pub timestamp: PullRequestTimestamp,
    pub pr_link: String,
}

/// The kind of an aggregated update.
#[derive(Clone, Copy, Debug, PartialEq, Eq, Structural)]
pub enum PullRequestUpdateType {
    Aggregated,
    Opened,
    Approved,
    Merged,
    CommentAdded,
    SourceBranchUpdated,
}

/// A human-readable summary of the unseen events of one pull request.
#[derive(Debug)]
pub struct PullRequestUpdate {
    pub pr_id: String,
    pub update_type: PullRequestUpdateType,
    pub author: String,
    pub title: String,
    pub repository: String,
    pub details: Vec<String>,
    pub timestamp: PullRequestTimestamp,
    pub pr_link: String,
}

/// What a client sees of an update: its fields as text and values.
pub open spec fn update_view(u: PullRequestUpdate) -> (
    Seq<char>,
    PullRequestUpdateType,
    Seq<char>,
    Seq<char>,
    Seq<char>,
    Seq<Seq<char>>,
    PullRequestTimestamp,
    Seq<char>,
) {
    (
        u.pr_id@,
        u.update_type,
        u.author@,
        u.title@,
        u.repository@,
        texts(u.details@),
        u.timestamp,
        u.pr_link@,
    )
}

/// The texts of a sequence of strings.
pub open spec fn texts(v: Seq<String>) -> Seq<Seq<char>> {
    v.map_values(|s: String| s@)
}

impl PullRequestEventType {
    /// The stored name of the event type.
    pub open spec fn name_spec(self) -> Seq<char> {
        match self {
            PullRequestEventType::Opened => "Opened"@,
            PullRequestEventType::Approved => "Approved"@,
            PullRequestEventType::Merged => "Merged"@,
            PullRequestEventType::CommentAdded => "CommentAdded"@,
            PullRequestEventType::SourceBranchUpdated => "SourceBranchUpdated"@,
        }
    }

    /// The name under which the event type is stored.
    pub fn name(&self) -> (r: String)
        ensures
            r@ == self.name_spec(),
    {
        match self {
            PullRequestEventType::Opened => String::from_str("Opened"),
            PullRequestEventType::Approved => String::from_str("Approved"),
            PullRequestEventType::Merged => String::from_str("Merged"),
            PullRequestEventType::CommentAdded => String::from_str("CommentAdded"),
            PullRequestEventType::SourceBranchUpdated => String::from_str("SourceBranchUpdated"),
        }
    }

    /// Reads an event type back from its stored name.
    pub fn from_name(name: &str) -> (r: Option<PullRequestEventType>)
        ensures
            r matches Some(t) ==> t.name_spec() == name@,
            r is None ==> forall|t: PullRequestEventType| t.name_spec() != name@,
    {
        if crate::text::text_equals(name, "Opened") {
            Some(PullRequestEventType::Opened)
        } else if crate::text::text_equals(name, "Approved") {
            Some(PullRequestEventType::Approved)
        } else if crate::text::text_equals(name, "Merged") {
            Some(PullRequestEventType::Merged)
        } else if crate::text::text_equals(name, "CommentAdded") {
            Some(PullRequestEventType::CommentAdded)
        } else if crate::text::text_equals(name, "SourceBranchUpdated") {
            Some(PullRequestEventType::SourceBranchUpdated)
        } else {
            None
        }
    }
}

impl PullRequestEvent {
    /// A field-by-field copy of the event.
    pub fn duplicate(&self) -> (r: PullRequestEvent)
        ensures
            r == *self,
    {
        PullRequestEvent {
            id: self.id,
            pr_id: self.pr_id.clone(),
            event_type: self.event_type,
            author: self.author.clone(),
            title: self.title.clone(),
            repository: self.repository.clone(),
            text: self.text.clone(),
            timestamp: self.timestamp,
            pr_link: self.pr_link.clone(),
        }
    }
}

} // verus!
