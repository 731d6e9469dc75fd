use branch_dashboard::pr_model::{PullRequestEvent, PullRequestEventType, PullRequestUpdateType};
use branch_dashboard::pr_updates::{
    collect_pr_updates, filter_unseen_events, is_event_unseen, retention_cutoff,
    select_expired_event_ids, PullRequestLastSeen, EVENT_MAX_AGE_DAYS, EVENT_MAX_AGE_MILLIS,
};

const DAY: i64 = 24 * 60 * 60 * 1000;
const NOW: i64 = 1_700_000_000_000;

fn get_pr_event_with_timestamp(id: &str, timestamp: i64) -> PullRequestEvent {
    PullRequestEvent {
        id: None,
        pr_id: id.to_owned(),
        event_type: PullRequestEventType::Opened,
        author: "author".to_string(),
        title: "title".to_string(),
        repository: "repository".to_owned(),
        text: "text".to_string(),
        timestamp,
        pr_link: "pr_link".to_string(),
    }
}

fn event(row: i32, pr: &str, t: PullRequestEventType, timestamp: i64) -> PullRequestEvent {
    let mut e = get_pr_event_with_timestamp(pr, timestamp);
    e.id = Some(row);
    e.event_type = t;
    e
}

fn last_seen(pr: &str, t: i64) -> PullRequestLastSeen {
    PullRequestLastSeen { pr_id: pr.to_string(), last_seen_timestamp: t }
}

/// Stores events with ascending row ids, as the event store does.
fn store(events: Vec<PullRequestEvent>) -> Vec<PullRequestEvent> {
    events
        .into_iter()
        .enumerate()
        .map(|(i, mut e)| {
            e.id = Some(i as i32 + 1);
            e
        })
        .collect()
}

/// Deletes what retention selects at `now`, as the cleanup task does.
fn clean_up(events: Vec<PullRequestEvent>, now: i64) -> Vec<PullRequestEvent> {
    let expired = select_expired_event_ids(&events, retention_cutoff(now));
    events
        .into_iter()
        .filter(|e| !expired.contains(&e.id.unwrap()))
        .collect()
}

#[test]
fn clean_up_pr_updates_everything_new() {
    let events = store(vec![
        get_pr_event_with_timestamp("id1", NOW - DAY),
        get_pr_event_with_timestamp("id2", NOW - (EVENT_MAX_AGE_DAYS - 1) * DAY),
    ]);
    let events = clean_up(events, NOW + 1);
    let updates = collect_pr_updates(&events, &[]);
    assert_eq!(2, updates.len());
    assert_eq!("id1", updates.get(0).unwrap().pr_id);
    assert_eq!("id2", updates.get(1).unwrap().pr_id);
}

#[test]
fn clean_up_pr_updates_cleaned_up() {
    let events = store(vec![
        get_pr_event_with_timestamp("id1", NOW - DAY),
        get_pr_event_with_timestamp("id2", NOW - EVENT_MAX_AGE_DAYS * DAY),
        get_pr_event_with_timestamp("id3", NOW - (EVENT_MAX_AGE_DAYS + 1) * DAY),
    ]);
    // the cleanup runs a moment after the events were stored
    let events = clean_up(events, NOW + 1);
    let updates = collect_pr_updates(&events, &[]);
    assert_eq!(1, updates.len());
    assert_eq!("id1", updates.get(0).unwrap().pr_id);
}

#[test]
fn retention_boundary_is_exclusive() {
    assert_eq!(EVENT_MAX_AGE_MILLIS, 7 * DAY);
    let cutoff = retention_cutoff(NOW);
    assert_eq!(cutoff, NOW - 7 * DAY);
    let events = vec![
        event(1, "a", PullRequestEventType::Opened, cutoff - 1),
        event(2, "b", PullRequestEventType::Opened, cutoff),
        event(3, "c", PullRequestEventType::Opened, cutoff + 1),
        event(4, "d", PullRequestEventType::Opened, cutoff - 10 * DAY),
    ];
    assert_eq!(select_expired_event_ids(&events, cutoff), vec![1, 4]);
}

#[test]
fn retention_cutoff_saturates() {
    assert_eq!(retention_cutoff(i64::MIN + 5), i64::MIN);
}

#[test]
fn expired_events_without_id_are_skipped() {
    let events = vec![get_pr_event_with_timestamp("a", 0)];
    assert!(select_expired_event_ids(&events, 10).is_empty());
}

#[test]
fn watermark_equal_timestamp_is_seen() {
    let t = NOW;
    let seen = vec![last_seen("42", t)];
    let at_watermark = event(1, "42", PullRequestEventType::CommentAdded, t);
    let just_after = event(2, "42", PullRequestEventType::CommentAdded, t + 1);
    assert!(!is_event_unseen(&at_watermark, &seen));
    assert!(is_event_unseen(&just_after, &seen));
    let other_pr = event(3, "43", PullRequestEventType::CommentAdded, 0);
    assert!(is_event_unseen(&other_pr, &seen));
    let unseen = filter_unseen_events(&[at_watermark, just_after, other_pr], &seen);
    assert_eq!(unseen.iter().map(|e| e.id.unwrap()).collect::<Vec<_>>(), vec![2, 3]);
}

#[test]
fn later_watermark_entry_counts() {
    let seen = vec![last_seen("42", 100), last_seen("42", 5)];
    assert!(is_event_unseen(&event(1, "42", PullRequestEventType::Merged, 50), &seen));
}

#[test]
fn updates_grouped_and_ordered_by_latest_activity() {
    let events = vec![
        event(1, "a", PullRequestEventType::Opened, 10),
        event(2, "b", PullRequestEventType::Opened, 20),
        event(3, "a", PullRequestEventType::CommentAdded, 30),
        event(4, "c", PullRequestEventType::Approved, 20),
        event(5, "b", PullRequestEventType::Approved, 5),
    ];
    let updates = collect_pr_updates(&events, &[]);
    let ids: Vec<&str> = updates.iter().map(|u| u.pr_id.as_str()).collect();
    assert_eq!(ids, vec!["a", "b", "c"]);
    assert_eq!(updates[0].details, vec!["PR opened".to_string(), "New comment on PR".to_string()]);
    assert_eq!(updates[0].timestamp, 30);
    assert_eq!(updates[1].update_type, PullRequestUpdateType::Aggregated);
    assert_eq!(updates[2].update_type, PullRequestUpdateType::Approved);
}

#[test]
fn updates_skip_seen_events() {
    let events = vec![
        event(1, "a", PullRequestEventType::Opened, 10),
        event(2, "a", PullRequestEventType::CommentAdded, 30),
        event(3, "b", PullRequestEventType::Opened, 20),
    ];
    let updates = collect_pr_updates(&events, &[last_seen("a", 10), last_seen("b", 20)]);
    assert_eq!(updates.len(), 1);
    assert_eq!(updates[0].pr_id, "a");
    assert_eq!(updates[0].update_type, PullRequestUpdateType::CommentAdded);
    assert_eq!(updates[0].details, vec!["New comment on PR".to_string()]);
}

#[test]
fn updates_are_idempotent() {
    let events = vec![
        event(1, "a", PullRequestEventType::Opened, 10),
        event(2, "b", PullRequestEventType::Merged, 10),
        event(3, "a", PullRequestEventType::Approved, 12),
    ];
    let seen = vec![last_seen("b", 1)];
    let first = collect_pr_updates(&events, &seen);
    let second = collect_pr_updates(&events, &seen);
    assert_eq!(format!("{:?}", first), format!("{:?}", second));
    assert_eq!(first.len(), 2);
}

#[test]
fn no_events_no_updates() {
    assert!(collect_pr_updates(&[], &[]).is_empty());
}
