use branch_dashboard::config::{
    BitbucketConfiguration, Configuration, GitlabConfiguration, VCSServerType,
};
use branch_dashboard::pr_model::PullRequestEventType;
use branch_dashboard::repositories::Repository;
use branch_dashboard::text::{render_decimal, text_equals, text_less};
use branch_dashboard::webhook::{
    get_event_text, get_pull_request_link, map_event_key, map_event_type, new_pr_event,
    pull_request_key, PREventType,
};

#[test]
fn repository_from_slug() {
    let r = Repository::from_slug("group/name");
    assert_eq!(r.group, "group");
    assert_eq!(r.name, "name");
    let r = Repository::from_slug("a/b/c");
    assert_eq!(r.group, "a");
    assert_eq!(r.name, "c");
    let r = Repository::from_slug("single");
    assert_eq!(r.group, "single");
    assert_eq!(r.name, "single");
    let r = Repository::from_slug("");
    assert_eq!(r.group, "");
    assert_eq!(r.name, "");
    assert_eq!(Repository::from_slug("g/n").to_slug(), "g/n");
}

fn configuration(gitlab: bool, bitbucket: bool) -> Configuration {
    Configuration {
        verbose: false,
        port: 8080,
        gitlab: if gitlab {
            Some(GitlabConfiguration { url: "https://gl".to_string(), token: "t".to_string() })
        } else {
            None
        },
        bitbucket: if bitbucket {
            Some(BitbucketConfiguration {
                url: "https://bb".to_string(),
                user: "u".to_string(),
                password: "p".to_string(),
            })
        } else {
            None
        },
        repositories: vec!["g/one".to_string(), "h/two".to_string()],
    }
}

#[test]
fn configured_server() {
    assert_eq!(configuration(true, true).server_type(), Some(VCSServerType::Gitlab));
    assert_eq!(configuration(false, true).server_type(), Some(VCSServerType::Bitbucket));
    assert_eq!(configuration(false, false).server_type(), None);
    let repos = configuration(true, false).parse_repositories();
    assert_eq!(repos.len(), 2);
    assert_eq!(repos[1].group, "h");
    assert_eq!(repos[1].name, "two");
}

#[test]
fn webhook_event_keys() {
    assert_eq!(map_event_key("pr:opened"), Some(PREventType::Opened));
    assert_eq!(map_event_key("pr:approved"), Some(PREventType::Approved));
    assert_eq!(map_event_key("pr:merged"), Some(PREventType::Merged));
    assert_eq!(map_event_key("pr:comment:added"), Some(PREventType::CommentAdded));
    assert_eq!(map_event_key("pr:from_ref_updated"), Some(PREventType::SourceBranchUpdated));
    assert_eq!(map_event_key("pr:declined"), None);
    assert_eq!(map_event_key(""), None);
    assert_eq!(map_event_type(PREventType::Merged), PullRequestEventType::Merged);
}

#[test]
fn webhook_pull_request_key_and_link() {
    assert_eq!(pull_request_key(12, 7), "12-7");
    assert_eq!(pull_request_key(0, 4294967295), "0-4294967295");
    assert_eq!(get_pull_request_link(&[]), None);
    assert_eq!(
        get_pull_request_link(&["a".to_string(), "b".to_string()]),
        Some("a".to_string())
    );
}

#[test]
fn webhook_event_text_and_event() {
    assert_eq!(get_event_text(PREventType::Opened, Some("x".to_string())), Some(String::new()));
    assert_eq!(
        get_event_text(PREventType::CommentAdded, Some("nice".to_string())),
        Some("nice".to_string())
    );
    assert_eq!(get_event_text(PREventType::CommentAdded, None), None);
    let e = new_pr_event(
        PREventType::Approved,
        "1-2".to_string(),
        "Jane".to_string(),
        "repo".to_string(),
        "Title".to_string(),
        String::new(),
        99,
        "link".to_string(),
    );
    assert!(e.id.is_none());
    assert_eq!(e.event_type, PullRequestEventType::Approved);
    assert_eq!(e.timestamp, 99);
}

#[test]
fn decimal_rendering_and_comparison() {
    assert_eq!(render_decimal(0), "0");
    assert_eq!(render_decimal(9), "9");
    assert_eq!(render_decimal(10), "10");
    assert_eq!(render_decimal(u64::MAX), u64::MAX.to_string());
    assert!(text_equals("äbc", "äbc"));
    assert!(!text_equals("abc", "abd"));
    assert!(!text_equals("ab", "abc"));
}

#[test]
fn text_order() {
    assert!(text_less("", "a"));
    assert!(!text_less("", ""));
    assert!(text_less("ab", "b"));
    assert!(text_less("ab", "abc"));
    assert!(!text_less("abc", "ab"));
    assert!(text_less("Z", "a"));
    assert!(text_less("a", "ä"));
}
