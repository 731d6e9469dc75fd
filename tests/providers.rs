use branch_dashboard::bitbucket::{
    self, BitbucketBuildState, BranchResponse, BuildStatusResponse, GitRefResponse, LinkResponse,
    LinksResponse, MappingError, PullRequestPropertiesResponse, PullRequestResponse,
    PullRequestUserDetailsResponse, PullRequestUserResponse, RepositoryResponse, UserResponse,
};
use branch_dashboard::gitlab::{
    self, encode_id_for_gitlab_url, BranchDetails, GitlabPipelineStatus, GitlabUserResponse,
    JobResponse, MergeRequestApprovalsResponse, MergeRequestDetails, PipelineResponse,
    ProjectDetails, SingleMergeRequestResponse,
};
use branch_dashboard::repositories::{PipelineStatus, Repository};

fn links(hrefs: &[&str]) -> LinksResponse {
    LinksResponse {
        self_link: hrefs.iter().map(|h| LinkResponse { href: h.to_string() }).collect(),
    }
}

fn git_ref(name: &str, commit: &str) -> GitRefResponse {
    GitRefResponse { display_id: name.to_string(), latest_commit: commit.to_string() }
}

fn branch(name: &str, commit: &str) -> BranchResponse {
    BranchResponse { display_id: name.to_string(), latest_commit: commit.to_string() }
}

fn reviewer(approved: bool) -> PullRequestUserResponse {
    PullRequestUserResponse {
        user: PullRequestUserDetailsResponse {
            display_name: "Alex".to_string(),
            slug: "alex".to_string(),
        },
        approved,
    }
}

fn pull_request(from: (&str, &str), to: (&str, &str), approved: bool) -> PullRequestResponse {
    PullRequestResponse {
        from_ref: git_ref(from.0, from.1),
        to_ref: git_ref(to.0, to.1),
        author: PullRequestUserResponse {
            user: PullRequestUserDetailsResponse {
                display_name: "Jane Doe".to_string(),
                slug: "jane".to_string(),
            },
            approved: false,
        },
        reviewers: vec![reviewer(false), reviewer(approved)],
        updated_date: 0,
        links: links(&["https://bb/pr/1"]),
        properties: PullRequestPropertiesResponse { comment_count: Some(3) },
    }
}

fn status(state: BitbucketBuildState) -> Option<BuildStatusResponse> {
    Some(BuildStatusResponse { state, url: "https://ci/1".to_string() })
}

#[test]
fn bitbucket_request_paths() {
    let repo = Repository { name: "repo".to_string(), group: "PROJ".to_string() };
    assert_eq!(
        bitbucket::get_repo_sub_url(&repo, "branches"),
        "api/latest/projects/PROJ/repos/repo/branches"
    );
    assert_eq!(bitbucket::get_repo_sub_url(&repo, ""), "api/latest/projects/PROJ/repos/repo/");
    assert_eq!(bitbucket::get_build_status_url("abc"), "build-status/latest/commits/abc");
    assert_eq!(bitbucket::get_user_url("jane"), "api/latest/users/jane?avatarSize=32");
}

#[test]
fn bitbucket_pipeline_status() {
    assert_eq!(
        bitbucket::map_pipeline_status(&status(BitbucketBuildState::InProgress)),
        PipelineStatus::Running
    );
    assert_eq!(
        bitbucket::map_pipeline_status(&status(BitbucketBuildState::Successful)),
        PipelineStatus::Successful
    );
    assert_eq!(
        bitbucket::map_pipeline_status(&status(BitbucketBuildState::Failed)),
        PipelineStatus::Failed
    );
    assert_eq!(bitbucket::map_pipeline_status(&None), PipelineStatus::NoPipeline);
}

#[test]
fn bitbucket_repository_mapping() {
    let repository = RepositoryResponse {
        name: "repo".to_string(),
        links: links(&["https://bb/first", "https://bb/repo"]),
    };
    let branches = vec![
        branch("main", "c-main"),
        branch("feature", "c-feature"),
        branch("lonely", "c-lonely"),
    ];
    let prs = vec![pull_request(("feature", "c-feature"), ("main", "c-main"), true)];
    let users = vec![("jane".to_string(), UserResponse { avatar_url: "/avatars/jane.png".to_string() })];
    let statuses = vec![
        ("c-main".to_string(), status(BitbucketBuildState::Successful)),
        ("c-feature".to_string(), status(BitbucketBuildState::InProgress)),
        ("c-lonely".to_string(), None),
    ];
    let data =
        bitbucket::map_repository_data("https://bb", repository, branches, prs, &users, &statuses)
            .unwrap();
    assert_eq!(data.repository_name, "repo");
    assert_eq!(data.repository_url, "https://bb/repo");
    assert_eq!(data.pull_request_target_branches.len(), 1);
    let target = &data.pull_request_target_branches[0];
    assert_eq!(target.branch_name, "main");
    assert_eq!(target.pipeline_status, PipelineStatus::Successful);
    let pr = &target.pull_requests[0];
    assert_eq!(pr.branch_name, "feature");
    assert_eq!(pr.user_name, "Jane Doe");
    assert_eq!(pr.user_profile_image, "https://bb/avatars/jane.png");
    assert_eq!(pr.comment_count, 3);
    assert!(pr.approved);
    assert_eq!(pr.pipeline_status, PipelineStatus::Running);
    assert_eq!(pr.pipeline_url.as_deref(), Some("https://ci/1"));
    assert_eq!(pr.last_activity_date, "1970-01-01T00:00:00+00:00");
    assert_eq!(pr.link_url, "https://bb/pr/1");
    assert_eq!(data.standalone_branches.len(), 1);
    assert_eq!(data.standalone_branches[0].branch_name, "lonely");
    assert_eq!(data.standalone_branches[0].pipeline_status, PipelineStatus::NoPipeline);
    assert!(data.standalone_branches[0].pipeline_url.is_none());
}

#[test]
fn bitbucket_mapping_errors() {
    let repo = |l: &[&str]| RepositoryResponse { name: "repo".to_string(), links: links(l) };
    let users = vec![("jane".to_string(), UserResponse { avatar_url: "x".to_string() })];
    let statuses = vec![("c-feature".to_string(), None)];
    let prs = || vec![pull_request(("feature", "c-feature"), ("main", "c-main"), false)];
    assert_eq!(
        bitbucket::map_repository_data("u", repo(&[]), vec![], prs(), &users, &statuses).err(),
        Some(MappingError::MissingRepositoryLink)
    );
    assert_eq!(
        bitbucket::map_repository_data("u", repo(&["l"]), vec![], prs(), &users, &statuses).err(),
        Some(MappingError::MissingTargetBranch)
    );
    assert_eq!(
        bitbucket::map_repository_data("u", repo(&["l"]), vec![], prs(), &[], &statuses).err(),
        Some(MappingError::MissingUser)
    );
    assert_eq!(
        bitbucket::map_repository_data(
            "u",
            repo(&["l"]),
            vec![branch("main", "c-main")],
            prs(),
            &users,
            &statuses
        )
        .err(),
        Some(MappingError::MissingBuildStatus)
    );
}

#[test]
fn bitbucket_relative_avatar_only() {
    let users = vec![("jane".to_string(), UserResponse { avatar_url: "https://cdn/a.png".to_string() })];
    let statuses = vec![("c-feature".to_string(), None)];
    let pr = pull_request(("feature", "c-feature"), ("main", "c-main"), false);
    let mapped = bitbucket::map_pull_request("https://bb", &pr, &users, &statuses).unwrap();
    assert_eq!(mapped.user_profile_image, "https://cdn/a.png");
    assert!(!mapped.approved);
}

#[test]
fn gitlab_encodes_ids() {
    assert_eq!(encode_id_for_gitlab_url("group/sub/project"), "group%2Fsub%2Fproject");
    assert_eq!(encode_id_for_gitlab_url("plain"), "plain");
    assert_eq!(encode_id_for_gitlab_url(""), "");
}

#[test]
fn gitlab_pipeline_status() {
    let p = |status| Some(PipelineResponse { id: 1, status });
    assert_eq!(gitlab::map_pipeline_status(&p(GitlabPipelineStatus::Success)), PipelineStatus::Successful);
    assert_eq!(gitlab::map_pipeline_status(&p(GitlabPipelineStatus::Pending)), PipelineStatus::Queued);
    assert_eq!(gitlab::map_pipeline_status(&p(GitlabPipelineStatus::Scheduled)), PipelineStatus::Queued);
    assert_eq!(gitlab::map_pipeline_status(&p(GitlabPipelineStatus::Canceled)), PipelineStatus::Canceled);
    assert_eq!(gitlab::map_pipeline_status(&p(GitlabPipelineStatus::Manual)), PipelineStatus::NoPipeline);
    assert_eq!(gitlab::map_pipeline_status(&None), PipelineStatus::NoPipeline);
}

fn gitlab_branch(name: &str) -> BranchDetails {
    BranchDetails {
        details_response: gitlab::BranchResponse { name: name.to_string() },
        pipeline_response: Some(PipelineResponse { id: 3, status: GitlabPipelineStatus::Failed }),
        job_response: Some(JobResponse { web_url: format!("https://gl/jobs/{name}") }),
    }
}

fn merge_request(source: &str, target: &str) -> MergeRequestDetails {
    MergeRequestDetails {
        details_response: SingleMergeRequestResponse {
            source_branch: source.to_string(),
            target_branch: target.to_string(),
            author: GitlabUserResponse { name: "Max".to_string(), avatar_url: "https://gl/a".to_string() },
            updated_at: "2023-03-22T21:10:54Z".to_string(),
            user_notes_count: 4,
            has_conflicts: false,
            blocking_discussions_resolved: true,
            pipeline: None,
            web_url: "https://gl/mr/1".to_string(),
        },
        approvals_response: MergeRequestApprovalsResponse { approved: true },
        job_response: None,
    }
}

#[test]
fn gitlab_project_mapping() {
    let project = ProjectDetails {
        id: 9,
        repository: Repository { name: "project".to_string(), group: "group".to_string() },
        url: "https://gl/group/project".to_string(),
    };
    let data = gitlab::map_repository_data(
        &project,
        vec![merge_request("feature", "main")],
        vec![gitlab_branch("main"), gitlab_branch("feature"), gitlab_branch("other")],
    )
    .unwrap();
    assert_eq!(data.repository_name, "project");
    assert_eq!(data.repository_url, "https://gl/group/project");
    assert_eq!(data.pull_request_target_branches.len(), 1);
    let target = &data.pull_request_target_branches[0];
    assert_eq!(target.pipeline_status, PipelineStatus::Failed);
    assert_eq!(target.pipeline_url.as_deref(), Some("https://gl/jobs/main"));
    assert_eq!(target.pull_requests[0].comment_count, 4);
    assert_eq!(target.pull_requests[0].pipeline_status, PipelineStatus::NoPipeline);
    assert_eq!(data.standalone_branches.len(), 1);
    assert_eq!(data.standalone_branches[0].branch_name, "other");
    assert!(gitlab::map_repository_data(&project, vec![merge_request("feature", "gone")], vec![])
        .is_none());
}

#[test]
fn bitbucket_pull_request_with_given_date() {
    let users = vec![("jane".to_string(), UserResponse { avatar_url: "a".to_string() })];
    let statuses = vec![("c-feature".to_string(), status(BitbucketBuildState::Failed))];
    let pr = pull_request(("feature", "c-feature"), ("main", "c-main"), false);
    let mapped = bitbucket::map_pull_request_dated(
        "https://bb",
        &pr,
        &users,
        &statuses,
        Some("yesterday".to_string()),
    )
    .unwrap();
    assert_eq!(mapped.last_activity_date, "yesterday");
    assert_eq!(mapped.pipeline_status, PipelineStatus::Failed);
    assert_eq!(
        bitbucket::map_pull_request_dated("u", &pr, &users, &statuses, None).err(),
        Some(MappingError::InvalidTimestamp)
    );
    let mut unlinked = pull_request(("feature", "c-feature"), ("main", "c-main"), false);
    unlinked.links = links(&[]);
    assert_eq!(
        bitbucket::map_pull_request_dated("u", &unlinked, &users, &statuses, Some("d".to_string()))
            .err(),
        Some(MappingError::MissingPullRequestLink)
    );
}

#[test]
fn bitbucket_date_range() {
    let users = vec![("jane".to_string(), UserResponse { avatar_url: "a".to_string() })];
    let statuses = vec![("c-feature".to_string(), None)];
    let mut pr = pull_request(("feature", "c-feature"), ("main", "c-main"), false);
    pr.updated_date = bitbucket::CHRONO_MAX_MILLIS as u64;
    let mapped = bitbucket::map_pull_request("u", &pr, &users, &statuses).unwrap();
    assert_eq!(mapped.last_activity_date, "+262142-12-31T23:59:59.999+00:00");
    pr.updated_date = bitbucket::CHRONO_MAX_MILLIS as u64 + 1;
    assert_eq!(
        bitbucket::map_pull_request("u", &pr, &users, &statuses).err(),
        Some(MappingError::InvalidTimestamp)
    );
}

#[test]
fn readers_see_refresh_flag() {
    let mut cache = branch_dashboard::cache::RepositoriesDataCache::new();
    cache.set_refreshing(true);
    assert!(cache.get_cached_data().currently_refreshing);
    cache.set_refreshing(false);
    assert!(cache.on_reload_signal_at(5));
    assert!(cache.get_cached_data().currently_refreshing);
    assert!(cache.is_refreshing());
    assert!(!cache.finish_refresh_at(None, 6));
    assert!(!cache.get_cached_data().currently_refreshing);
}
