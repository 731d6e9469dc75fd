use branch_dashboard::aggregate::{
    aggregate_events, event_precedes, get_update_detail_for_event_type, get_update_details, map_event_type,
    AggregationError,
};
use branch_dashboard::pr_model::{PullRequestEvent, PullRequestEventType, PullRequestUpdateType};

fn get_pr_event(event_type: PullRequestEventType) -> PullRequestEvent {
    event_at(event_type, 1_700_000_000_000, "author1")
}

fn event_at(event_type: PullRequestEventType, timestamp: i64, author: &str) -> PullRequestEvent {
    PullRequestEvent {
        id: Some(1),
        repository: "repo1".to_string(),
        pr_id: "pr_1".to_string(),
        event_type,
        timestamp,
        author: author.to_string(),
        text: "text".to_string(),
        title: "title".to_string(),
        pr_link: "link".to_string(),
    }
}

#[test]
fn get_update_details_sorted() {
    let events: Vec<PullRequestEvent> = vec![
        get_pr_event(PullRequestEventType::SourceBranchUpdated),
        get_pr_event(PullRequestEventType::CommentAdded),
        get_pr_event(PullRequestEventType::CommentAdded),
    ];

    let update_details = get_update_details(&events);

    assert_eq!(
        update_details,
        vec![
            "2 new comments on PR".to_string(),
            "New update on PR".to_string(),
        ]
    )
}

#[test]
fn aggregate_comments_and_approval() {
    let events = vec![
        event_at(PullRequestEventType::CommentAdded, 10, "a"),
        event_at(PullRequestEventType::CommentAdded, 20, "b"),
        event_at(PullRequestEventType::Approved, 30, "c"),
    ];
    let update = aggregate_events("42".to_string(), events).unwrap();
    assert_eq!(update.update_type, PullRequestUpdateType::Aggregated);
    assert_eq!(
        update.details,
        vec!["PR approved".to_string(), "2 new comments on PR".to_string()]
    );
    assert_eq!(update.author, "c");
    assert_eq!(update.timestamp, 30);
    assert_eq!(update.pr_id, "42");
}

#[test]
fn aggregate_is_insertion_order_independent() {
    let orders: Vec<Vec<(PullRequestEventType, i64, &str)>> = vec![
        vec![
            (PullRequestEventType::CommentAdded, 10, "a"),
            (PullRequestEventType::CommentAdded, 20, "b"),
            (PullRequestEventType::Approved, 30, "c"),
        ],
        vec![
            (PullRequestEventType::Approved, 30, "c"),
            (PullRequestEventType::CommentAdded, 20, "b"),
            (PullRequestEventType::CommentAdded, 10, "a"),
        ],
        vec![
            (PullRequestEventType::CommentAdded, 20, "b"),
            (PullRequestEventType::Approved, 30, "c"),
            (PullRequestEventType::CommentAdded, 10, "a"),
        ],
    ];
    let mut results = Vec::new();
    for order in orders {
        let events = order
            .into_iter()
            .map(|(t, ts, a)| event_at(t, ts, a))
            .collect::<Vec<_>>();
        let u = aggregate_events("42".to_string(), events).unwrap();
        results.push((u.update_type, u.details, u.author, u.timestamp));
    }
    assert_eq!(results[0], results[1]);
    assert_eq!(results[0], results[2]);
}

#[test]
fn aggregate_single_opened_event() {
    let events = vec![event_at(PullRequestEventType::Opened, 5, "a")];
    let update = aggregate_events("7".to_string(), events).unwrap();
    assert_eq!(update.update_type, PullRequestUpdateType::Opened);
    assert_eq!(update.details, vec!["PR opened".to_string()]);
}

#[test]
fn aggregate_empty_group_fails() {
    let r = aggregate_events("7".to_string(), Vec::new());
    assert!(matches!(r, Err(AggregationError::NoEvents)));
}

#[test]
fn aggregate_tie_on_latest_timestamp_is_order_free() {
    let listed = |first: &str, second: &str| {
        vec![
            event_at(PullRequestEventType::Merged, 5, first),
            event_at(PullRequestEventType::Merged, 5, second),
            event_at(PullRequestEventType::Approved, 3, "third"),
        ]
    };
    for events in [listed("first", "second"), listed("second", "first")] {
        let update = aggregate_events("7".to_string(), events).unwrap();
        assert_eq!(update.author, "second");
        assert_eq!(
            update.details,
            vec!["PR approved".to_string(), "PR merged".to_string()]
        );
    }
}

#[test]
fn aggregate_tie_broken_by_row_id_first() {
    let mut older = event_at(PullRequestEventType::CommentAdded, 9, "zed");
    older.id = Some(1);
    let mut newer = event_at(PullRequestEventType::CommentAdded, 9, "amy");
    newer.id = Some(2);
    let mut unsaved = event_at(PullRequestEventType::CommentAdded, 9, "zzz");
    unsaved.id = None;
    assert!(event_precedes(&older, &newer));
    assert!(!event_precedes(&newer, &older));
    assert!(event_precedes(&unsaved, &older));
    let update = aggregate_events("7".to_string(), vec![newer, older, unsaved]).unwrap();
    assert_eq!(update.author, "amy");
}

#[test]
fn detail_texts() {
    assert_eq!(get_update_detail_for_event_type(PullRequestEventType::Opened, 3), "PR opened");
    assert_eq!(get_update_detail_for_event_type(PullRequestEventType::Approved, 1), "PR approved");
    assert_eq!(get_update_detail_for_event_type(PullRequestEventType::Approved, 12), "12 approvals on PR");
    assert_eq!(get_update_detail_for_event_type(PullRequestEventType::Merged, 1), "PR merged");
    assert_eq!(get_update_detail_for_event_type(PullRequestEventType::CommentAdded, 1), "New comment on PR");
    assert_eq!(get_update_detail_for_event_type(PullRequestEventType::CommentAdded, 105), "105 new comments on PR");
    assert_eq!(get_update_detail_for_event_type(PullRequestEventType::SourceBranchUpdated, 1), "New update on PR");
    assert_eq!(get_update_detail_for_event_type(PullRequestEventType::SourceBranchUpdated, 2), "2 new updates on PR");
}

#[test]
fn update_type_of_each_event_type() {
    assert_eq!(map_event_type(PullRequestEventType::Opened), PullRequestUpdateType::Opened);
    assert_eq!(map_event_type(PullRequestEventType::Approved), PullRequestUpdateType::Approved);
    assert_eq!(map_event_type(PullRequestEventType::Merged), PullRequestUpdateType::Merged);
    assert_eq!(
        map_event_type(PullRequestEventType::CommentAdded),
        PullRequestUpdateType::CommentAdded
    );
    assert_eq!(
        map_event_type(PullRequestEventType::SourceBranchUpdated),
        PullRequestUpdateType::SourceBranchUpdated
    );
}

#[test]
fn event_type_names_round_trip() {
    for t in [
        PullRequestEventType::Opened,
        PullRequestEventType::Approved,
        PullRequestEventType::Merged,
        PullRequestEventType::CommentAdded,
        PullRequestEventType::SourceBranchUpdated,
    ] {
        assert_eq!(PullRequestEventType::from_name(&t.name()), Some(t));
    }
    assert_eq!(PullRequestEventType::CommentAdded.name(), "CommentAdded");
    assert_eq!(PullRequestEventType::from_name("Closed"), None);
}
