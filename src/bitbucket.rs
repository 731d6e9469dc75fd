//! Bitbucket Server: the shapes of its REST responses, the paths the loader
//! requests, and the mapping of one repository's responses into the snapshot.
use vstd::prelude::*;
use chrono::TimeZone;
use crate::repositories::{
    PipelineStatus, PullRequest, PullRequestTargetBranch, RepositoryBranchData, StandaloneBranch,
};

verus! {

/// A page of a paginated response.
pub struct PaginatedResponse<T> {
    pub values: Vec<T>,
}

pub struct RepositoryResponse {
    pub name: String,
    pub links: LinksResponse,
}

pub struct BranchResponse {
    pub display_id: String,
    pub latest_commit: String,
}

pub struct BuildStatusResponse {
    pub state: BitbucketBuildState,
    pub url: String,
}

pub struct PullRequestResponse {
    pub from_ref: GitRefResponse,
    pub to_ref: GitRefResponse,
    pub author: PullRequestUserResponse,
    pub reviewers: Vec<PullRequestUserResponse>,
    /// Milliseconds since the Unix epoch.
    pub updated_date: u64,
    pub links: LinksResponse,
    pub properties: PullRequestPropertiesResponse,
}

pub struct PullRequestPropertiesResponse {
    pub comment_count: Option<u32>,
}

pub struct GitRefResponse {
    pub display_id: String,
    pub latest_commit: String,
}

pub struct PullRequestUserResponse {
    pub user: PullRequestUserDetailsResponse,
    pub approved: bool,
}

pub struct PullRequestUserDetailsResponse {
    pub display_name: String,
    pub slug: String,
}

pub struct UserResponse {
    pub avatar_url: String,
}

pub struct LinksResponse {
    pub self_link: Vec<LinkResponse>,
}

pub struct LinkResponse {
    pub href: String,
}

#[derive(Clone, Copy, Debug, PartialEq, Eq, Structural)]
pub enum BitbucketBuildState {
    Successful,
    InProgress,
    Failed,
}

/// Why the responses of a repository could not be mapped.
#[derive(Clone, Copy, Debug, PartialEq, Eq, Structural)]
pub enum MappingError {
    MissingRepositoryLink,
    MissingBuildStatus,
    MissingUser,
    InvalidTimestamp,
    MissingPullRequestLink,
    MissingTargetBranch,
}

/// The text chrono renders for the UTC time `ms` milliseconds after the Unix
/// epoch, in its `%+` (RFC 3339) format.
pub uninterp spec fn utc_text_of_millis(ms: int) -> Seq<char>;

/// The earliest time chrono represents (January 1, 262144 BCE), in
/// milliseconds since the Unix epoch.
pub const CHRONO_MIN_MILLIS: i64 = -8334601315200000;

/// The last millisecond chrono represents (December 31, 262142 CE), in
/// milliseconds since the Unix epoch.
pub const CHRONO_MAX_MILLIS: i64 = 8210266876799999;

/// chrono represents the time `ms` milliseconds after the Unix epoch.
pub open spec fn millis_representable(ms: int) -> bool {
    CHRONO_MIN_MILLIS <= ms <= CHRONO_MAX_MILLIS
}

/// Relies on chrono's Utc.timestamp_millis_opt and DateTime::format("%+"):
/// `None` where the date falls outside chrono's range of `NaiveDate`
/// (DateTime::from_timestamp_millis), else its RFC 3339 text.
#[verifier::external_body]
fn format_epoch_millis(ms: i64) -> (r: Option<String>)
    ensures
        r is Some <==> millis_representable(ms as int),
        r matches Some(t) ==> t@ == utc_text_of_millis(ms as int),
{
    match chrono::Utc.timestamp_millis_opt(ms).single() {
        Some(t) => Some(t.format("%+").to_string()),
        None => None,
    }
}

/// The request path of `suffix` under `repository`.
pub open spec fn repo_sub_url_spec(group: Seq<char>, name: Seq<char>, suffix: Seq<char>) -> Seq<char> {
    "api/latest/projects/"@ + group + "/repos/"@ + name + "/"@ + suffix
}

/// The request path of `suffix` under `repository`.
pub fn get_repo_sub_url(repository: &crate::repositories::Repository, suffix: &str) -> (r: String)
    ensures
        r@ == repo_sub_url_spec(repository.group@, repository.name@, suffix@),
{
    let mut s = String::from_str("api/latest/projects/");
    s.append(repository.group.as_str());
    s.append("/repos/");
    s.append(repository.name.as_str());
    s.append("/");
    s.append(suffix);
    s
}

/// The request path of the build statuses of a commit.
pub fn get_build_status_url(commit_id: &str) -> (r: String)
    ensures
        r@ == "build-status/latest/commits/"@ + commit_id@,
{
    let mut s = String::from_str("build-status/latest/commits/");
    s.append(commit_id);
    s
}

/// The request path of a user, with a small avatar.
pub fn get_user_url(user_slug: &str) -> (r: String)
    ensures
        r@ == "api/latest/users/"@ + user_slug@ + "?avatarSize=32"@,
{
    let mut s = String::from_str("api/latest/users/");
    s.append(user_slug);
    s.append("?avatarSize=32");
    s
}

/// The pipeline status shown for a build status, if any.
pub open spec fn pipeline_status_of(b: Option<BuildStatusResponse>) -> PipelineStatus {
    match b {
        Some(s) => match s.state {
            BitbucketBuildState::Successful => PipelineStatus::Successful,
            BitbucketBuildState::InProgress => PipelineStatus::Running,
            BitbucketBuildState::Failed => PipelineStatus::Failed,
        },
        None => PipelineStatus::NoPipeline,
    }
}

/// The pipeline link shown for a build status, if any.
pub open spec fn pipeline_url_of(b: Option<BuildStatusResponse>) -> Option<String> {
    match b {
        Some(s) => Some(s.url),
        None => None,
    }
}

/// The pipeline status shown for a build status, if any.
pub fn map_pipeline_status(response: &Option<BuildStatusResponse>) -> (r: PipelineStatus)
    ensures
        r == pipeline_status_of(*response),
{
    match response {
        Some(response) => match response.state {
            BitbucketBuildState::Successful => PipelineStatus::Successful,
            BitbucketBuildState::InProgress => PipelineStatus::Running,
            BitbucketBuildState::Failed => PipelineStatus::Failed,
        },
        None => PipelineStatus::NoPipeline,
    }
}

fn map_pipeline_url(response: &Option<BuildStatusResponse>) -> (r: Option<String>)
    ensures
        r == pipeline_url_of(*response),
{
    match response {
        Some(response) => Some(response.url.clone()),
        None => None,
    }
}

/// The build status known for `commit`: `None` if none was fetched, `Some(None)`
/// if the commit has no build. Where a commit is listed twice, the last entry counts.
pub open spec fn status_of(statuses: Seq<(String, Option<BuildStatusResponse>)>, commit: Seq<char>) -> Option<
    Option<BuildStatusResponse>,
>
    decreases statuses.len(),
{
    if statuses.len() == 0 {
        None
    } else if statuses.last().0@ == commit {
        Some(statuses.last().1)
    } else {
        status_of(statuses.drop_last(), commit)
    }
}

/// The user fetched for `slug`; where a slug is listed twice, the last entry counts.
pub open spec fn user_of(users: Seq<(String, UserResponse)>, slug: Seq<char>) -> Option<UserResponse>
    decreases users.len(),
{
    if users.len() == 0 {
        None
    } else if users.last().0@ == slug {
        Some(users.last().1)
    } else {
        user_of(users.drop_last(), slug)
    }
}

/// The first branch named `name`.
pub open spec fn branch_named(branches: Seq<BranchResponse>, name: Seq<char>) -> Option<BranchResponse>
    decreases branches.len(),
{
    if branches.len() == 0 {
        None
    } else if branches[0].display_id@ == name {
        Some(branches[0])
    } else {
        branch_named(branches.drop_first(), name)
    }
}

/// An avatar path that starts with '/' is relative to the server.
pub open spec fn avatar_of(base_url: Seq<char>, avatar: Seq<char>) -> Seq<char> {
    if avatar.len() > 0 && avatar[0] == '/' {
        base_url + avatar
    } else {
        avatar
    }
}

/// Someone asked to approve the pull request approved it.
pub open spec fn any_approved(reviewers: Seq<PullRequestUserResponse>) -> bool {
    exists|i: int| 0 <= i < reviewers.len() && #[trigger] reviewers[i].approved
}

/// The lookups that mapping `pr` needs succeed, and it has a link.
pub open spec fn pull_request_mappable(
    pr: PullRequestResponse,
    users: Seq<(String, UserResponse)>,
    statuses: Seq<(String, Option<BuildStatusResponse>)>,
) -> bool {
    &&& status_of(statuses, pr.from_ref.latest_commit@) is Some
    &&& user_of(users, pr.author.user.slug@) is Some
    &&& pr.links.self_link@.len() > 0
}

/// The lookups that mapping `pr` needs succeed, it has a link, and chrono
/// can represent its date.
pub open spec fn pull_request_loadable(
    pr: PullRequestResponse,
    users: Seq<(String, UserResponse)>,
    statuses: Seq<(String, Option<BuildStatusResponse>)>,
) -> bool {
    &&& pull_request_mappable(pr, users, statuses)
    &&& millis_representable(pr.updated_date as i64 as int)
}

/// `p` shows the pull request `pr`, with its date rendered as chrono renders it.
pub open spec fn is_mapped_pull_request(
    p: PullRequest,
    pr: PullRequestResponse,
    users: Seq<(String, UserResponse)>,
    statuses: Seq<(String, Option<BuildStatusResponse>)>,
    base_url: Seq<char>,
) -> bool {
    is_mapped_pull_request_dated(
        p,
        pr,
        users,
        statuses,
        base_url,
        utc_text_of_millis(pr.updated_date as i64 as int),
    )
}

/// `p` shows the pull request `pr`, with `date` as its last activity date.
pub open spec fn is_mapped_pull_request_dated(
    p: PullRequest,
    pr: PullRequestResponse,
    users: Seq<(String, UserResponse)>,
    statuses: Seq<(String, Option<BuildStatusResponse>)>,
    base_url: Seq<char>,
    date: Seq<char>,
) -> bool {
    let status = status_of(statuses, pr.from_ref.latest_commit@)->Some_0;
    let user = user_of(users, pr.author.user.slug@)->Some_0;
    &&& p.branch_name@ == pr.from_ref.display_id@
    &&& p.user_name@ == pr.author.user.display_name@
    &&& p.pipeline_status == pipeline_status_of(status)
    &&& p.pipeline_url == pipeline_url_of(status)
    &&& p.comment_count == match pr.properties.comment_count {
        Some(c) => c,
        None => 0,
    }
    &&& p.approved == any_approved(pr.reviewers@)
    &&& p.user_profile_image@ == avatar_of(base_url, user.avatar_url@)
    &&& p.last_activity_date@ == date
    &&& p.link_url@ == pr.links.self_link@[0].href@
}

fn find_status(statuses: &[(String, Option<BuildStatusResponse>)], commit: &String) -> (r: Option<
    usize,
>)
    ensures
        r is None <==> status_of(statuses@, commit@) is None,
        r matches Some(i) ==> i < statuses@.len() && status_of(statuses@, commit@) == Some(
            statuses@[i as int].1,
        ),
{
    let mut j: usize = statuses.len();
    assert(statuses@.subrange(0, j as int) =~= statuses@);
    while j > 0
        invariant
            j <= statuses@.len(),
            status_of(statuses@, commit@) == status_of(statuses@.subrange(0, j as int), commit@),
        decreases j,
    {
        let ghost prefix = statuses@.subrange(0, j as int);
        assert(prefix.drop_last() =~= statuses@.subrange(0, j - 1));
        if statuses[j - 1].0 == *commit {
            return Some(j - 1);
        }
        j = j - 1;
    }
    None
}

fn find_user(users: &[(String, UserResponse)], slug: &String) -> (r: Option<usize>)
    ensures
        r is None <==> user_of(users@, slug@) is None,
        r matches Some(i) ==> i < users@.len() && user_of(users@, slug@) == Some(users@[i as int].1),
{
    let mut j: usize = users.len();
    assert(users@.subrange(0, j as int) =~= users@);
    while j > 0
        invariant
            j <= users@.len(),
            user_of(users@, slug@) == user_of(users@.subrange(0, j as int), slug@),
        decreases j,
    {
        let ghost prefix = users@.subrange(0, j as int);
        assert(prefix.drop_last() =~= users@.subrange(0, j - 1));
        if users[j - 1].0 == *slug {
            return Some(j - 1);
        }
        j = j - 1;
    }
    None
}

fn find_branch(branches: &[BranchResponse], name: &String) -> (r: Option<usize>)
    ensures
        r is None <==> branch_named(branches@, name@) is None,
        r matches Some(i) ==> i < branches@.len() && branch_named(branches@, name@) == Some(
            branches@[i as int],
        ),
{
    let mut i: usize = 0;
    assert(branches@.subrange(0, branches@.len() as int) =~= branches@);
    while i < branches.len()
        invariant
            i <= branches@.len(),
            branch_named(branches@, name@) == branch_named(
                branches@.subrange(i as int, branches@.len() as int),
                name@,
            ),
        decreases branches@.len() - i,
    {
        let ghost rest = branches@.subrange(i as int, branches@.len() as int);
        assert(rest.drop_first() =~= branches@.subrange(i + 1, branches@.len() as int));
        assert(rest[0] == branches@[i as int]);
        if branches[i].display_id == *name {
            return Some(i);
        }
        i = i + 1;
    }
    None
}

fn any_reviewer_approved(reviewers: &Vec<PullRequestUserResponse>) -> (r: bool)
    ensures
        r == any_approved(reviewers@),
{
    let mut i: usize = 0;
    while i < reviewers.len()
        invariant
            i <= reviewers@.len(),
            forall|k: int| 0 <= k < i ==> !(#[trigger] reviewers@[k]).approved,
        decreases reviewers@.len() - i,
    {
        if reviewers[i].approved {
            return true;
        }
        i = i + 1;
    }
    false
}

fn avatar_url(base_url: &str, avatar: &String) -> (r: String)
    ensures
        r@ == avatar_of(base_url@, avatar@),
{
    if avatar.as_str().unicode_len() > 0 && avatar.as_str().get_char(0) == '/' {
        let mut s = String::from_str(base_url);
        s.append(avatar.as_str());
        s
    } else {
        avatar.clone()
    }
}

/// Maps one pull request whose date chrono rendered as `last_activity_date`
/// (`None` where it could not). The checks come in this order: the build
/// status of its source commit was fetched, its author was fetched, its date
/// was rendered, it has a link.
pub fn map_pull_request_dated(
    base_url: &str,
    pr: &PullRequestResponse,
    users: &[(String, UserResponse)],
    build_statuses: &[(String, Option<BuildStatusResponse>)],
    last_activity_date: Option<String>,
) -> (r: Result<PullRequest, MappingError>)
    ensures
        r is Ok <==> pull_request_mappable(*pr, users@, build_statuses@)
            && last_activity_date is Some,
        r matches Ok(p) ==> is_mapped_pull_request_dated(
            p,
            *pr,
            users@,
            build_statuses@,
            base_url@,
            last_activity_date->Some_0@,
        ),
        status_of(build_statuses@, pr.from_ref.latest_commit@) is None ==> r == Err::<
            PullRequest,
            MappingError,
        >(MappingError::MissingBuildStatus),
        status_of(build_statuses@, pr.from_ref.latest_commit@) is Some && user_of(
            users@,
            pr.author.user.slug@,
        ) is None ==> r == Err::<PullRequest, MappingError>(MappingError::MissingUser),
        status_of(build_statuses@, pr.from_ref.latest_commit@) is Some && user_of(
            users@,
            pr.author.user.slug@,
        ) is Some && last_activity_date is None ==> r == Err::<PullRequest, MappingError>(
            MappingError::InvalidTimestamp,
        ),
        status_of(build_statuses@, pr.from_ref.latest_commit@) is Some && user_of(
            users@,
            pr.author.user.slug@,
        ) is Some && last_activity_date is Some && pr.links.self_link@.len() == 0 ==> r
            == Err::<PullRequest, MappingError>(MappingError::MissingPullRequestLink),
{
    let si = match find_status(build_statuses, &pr.from_ref.latest_commit) {
        Some(i) => i,
        None => {
            return Err(MappingError::MissingBuildStatus);
        },
    };
    let build_status = &build_statuses[si].1;
    let ui = match find_user(users, &pr.author.user.slug) {
        Some(i) => i,
        None => {
            return Err(MappingError::MissingUser);
        },
    };
    let author = &users[ui].1;
    let approved = any_reviewer_approved(&pr.reviewers);
    let last_activity_date = match last_activity_date {
        Some(t) => t,
        None => {
            return Err(MappingError::InvalidTimestamp);
        },
    };
    if pr.links.self_link.len() == 0 {
        return Err(MappingError::MissingPullRequestLink);
    }
    let comment_count = match pr.properties.comment_count {
        Some(c) => c,
        None => 0,
    };
    Ok(
        PullRequest {
            branch_name: pr.from_ref.display_id.clone(),
            user_name: pr.author.user.display_name.clone(),
            user_profile_image: avatar_url(base_url, &author.avatar_url),
            comment_count,
            last_activity_date,
            approved,
            pipeline_status: map_pipeline_status(build_status),
            pipeline_url: map_pipeline_url(build_status),
            link_url: pr.links.self_link[0].href.clone(),
        },
    )
}

/// Maps one pull request, with its date rendered by chrono. Fails exactly
/// where its build status or author was not fetched, where chrono cannot
/// represent its date, or where it has no link.
pub fn map_pull_request(
    base_url: &str,
    pr: &PullRequestResponse,
    users: &[(String, UserResponse)],
    build_statuses: &[(String, Option<BuildStatusResponse>)],
) -> (r: Result<PullRequest, MappingError>)
    ensures
        r matches Ok(p) ==> is_mapped_pull_request(p, *pr, users@, build_statuses@, base_url@),
        r is Ok <==> pull_request_loadable(*pr, users@, build_statuses@),
{
    let date = format_epoch_millis(pr.updated_date as i64);
    map_pull_request_dated(base_url, pr, users, build_statuses, date)
}

/// The names of the branches that pull requests target, each once, in the
/// order of the first pull request targeting each.
pub open spec fn target_names(prs: Seq<PullRequestResponse>) -> Seq<Seq<char>>
    decreases prs.len(),
{
    if prs.len() == 0 {
        seq![]
    } else {
        let names = target_names(prs.drop_last());
        if names.contains(prs.last().to_ref.display_id@) {
            names
        } else {
            names.push(prs.last().to_ref.display_id@)
        }
    }
}

/// The test that a pull request targets `name`.
pub open spec fn targets_pred(name: Seq<char>) -> spec_fn(PullRequestResponse) -> bool {
    |pr: PullRequestResponse| pr.to_ref.display_id@ == name
}

/// The pull requests that target `name`, in their order.
pub open spec fn targeting(prs: Seq<PullRequestResponse>, name: Seq<char>) -> Seq<PullRequestResponse> {
    prs.filter(targets_pred(name))
}

/// The lookups that mapping the target branch `name` needs succeed, and
/// chrono can represent the date of every pull request targeting it.
pub open spec fn target_mappable(
    name: Seq<char>,
    prs: Seq<PullRequestResponse>,
    branches: Seq<BranchResponse>,
    users: Seq<(String, UserResponse)>,
    statuses: Seq<(String, Option<BuildStatusResponse>)>,
) -> bool {
    &&& forall|j: int|
        0 <= j < targeting(prs, name).len() ==> #[trigger] pull_request_loadable(
            targeting(prs, name)[j],
            users,
            statuses,
        )
    &&& branch_named(branches, name) is Some
    &&& status_of(statuses, branch_named(branches, name)->Some_0.latest_commit@) is Some
}

/// `t` shows the target branch `name` with the pull requests targeting it.
pub open spec fn is_mapped_target(
    t: PullRequestTargetBranch,
    name: Seq<char>,
    prs: Seq<PullRequestResponse>,
    branches: Seq<BranchResponse>,
    users: Seq<(String, UserResponse)>,
    statuses: Seq<(String, Option<BuildStatusResponse>)>,
    base_url: Seq<char>,
) -> bool {
    let g = targeting(prs, name);
    let status = status_of(statuses, branch_named(branches, name)->Some_0.latest_commit@)->Some_0;
    &&& t.branch_name@ == name
    &&& t.pipeline_status == pipeline_status_of(status)
    &&& t.pipeline_url == pipeline_url_of(status)
    &&& t.pull_requests@.len() == g.len()
    &&& forall|j: int|
        0 <= j < g.len() ==> is_mapped_pull_request(
            #[trigger] t.pull_requests@[j],
            g[j],
            users,
            statuses,
            base_url,
        )
}

/// Whether `name` is among `names`.
fn contains_name(names: &Vec<String>, name: &String) -> (r: bool)
    ensures
        r == names@.map_values(|x: String| x@).contains(name@),
{
    let ghost views = names@.map_values(|x: String| x@);
    let mut k: usize = 0;
    while k < names.len()
        invariant
            k <= names@.len(),
            views == names@.map_values(|x: String| x@),
            forall|m: int| 0 <= m < k ==> views[m] != name@,
        decreases names@.len() - k,
    {
        if names[k] == *name {
            assert(views[k as int] == name@);
            return true;
        }
        k = k + 1;
    }
    false
}

/// The names of the branches that pull requests target, each once.
pub fn collect_target_names(prs: &[PullRequestResponse]) -> (r: Vec<String>)
    ensures
        r@.map_values(|x: String| x@) == target_names(prs@),
{
    let mut r: Vec<String> = Vec::new();
    let mut i: usize = 0;
    while i < prs.len()
        invariant
            i <= prs@.len(),
            r@.map_values(|x: String| x@) == target_names(prs@.subrange(0, i as int)),
        decreases prs@.len() - i,
    {
        let ghost prefix = prs@.subrange(0, i + 1);
        assert(prefix.drop_last() =~= prs@.subrange(0, i as int));
        if !contains_name(&r, &prs[i].to_ref.display_id) {
            r.push(prs[i].to_ref.display_id.clone());
            assert(r@.map_values(|x: String| x@) =~= target_names(prefix));
        }
        i = i + 1;
    }
    assert(prs@.subrange(0, prs@.len() as int) =~= prs@);
    r
}

/// Maps the target branch `name` with the pull requests targeting it.
pub fn map_target_branch(
    base_url: &str,
    name: &String,
    prs: &[PullRequestResponse],
    branches: &[BranchResponse],
    users: &[(String, UserResponse)],
    build_statuses: &[(String, Option<BuildStatusResponse>)],
) -> (r: Result<PullRequestTargetBranch, MappingError>)
    ensures
        r matches Ok(t) ==> target_mappable(name@, prs@, branches@, users@, build_statuses@)
            && is_mapped_target(t, name@, prs@, branches@, users@, build_statuses@, base_url@),
        target_mappable(name@, prs@, branches@, users@, build_statuses@) ==> r is Ok,
{
    let ghost pred = targets_pred(name@);
    let ghost mut done: Seq<PullRequestResponse> = seq![];
    let mut mapped: Vec<PullRequest> = Vec::new();
    let mut i: usize = 0;
    while i < prs.len()
        invariant
            i <= prs@.len(),
            pred == targets_pred(name@),
            done == prs@.subrange(0, i as int).filter(pred),
            mapped@.len() == done.len(),
            forall|j: int|
                0 <= j < done.len() ==> #[trigger] pull_request_loadable(
                    done[j],
                    users@,
                    build_statuses@,
                ),
            forall|j: int|
                0 <= j < mapped@.len() ==> is_mapped_pull_request(
                    #[trigger] mapped@[j],
                    done[j],
                    users@,
                    build_statuses@,
                    base_url@,
                ),
        decreases prs@.len() - i,
    {
        proof {
            reveal(Seq::filter);
        }
        assert(prs@.subrange(0, i + 1).drop_last() =~= prs@.subrange(0, i as int));
        assert(pred(prs@[i as int]) == (prs@[i as int].to_ref.display_id@ == name@));
        if prs[i].to_ref.display_id == *name {
            match map_pull_request(base_url, &prs[i], users, build_statuses) {
                Ok(p) => {
                    let ghost old_mapped = mapped@;
                    let ghost old_done = done;
                    mapped.push(p);
                    proof {
                        done = done.push(prs@[i as int]);
                        assert(prs@.subrange(0, i + 1).filter(pred) == done);
                        assert forall|j: int| 0 <= j < done.len() implies #[trigger] pull_request_loadable(
                            done[j],
                            users@,
                            build_statuses@,
                        ) by {
                            if j < old_done.len() {
                                assert(done[j] == old_done[j]);
                            }
                        }
                        assert forall|j: int| 0 <= j < mapped@.len() implies is_mapped_pull_request(
                            #[trigger] mapped@[j],
                            done[j],
                            users@,
                            build_statuses@,
                            base_url@,
                        ) by {
                            if j < old_mapped.len() {
                                assert(mapped@[j] == old_mapped[j]);
                                assert(done[j] == old_done[j]);
                            }
                        }
                    }
                },
                Err(e) => {
                    proof {
                        let g = targeting(prs@, name@);
                        prs@.lemma_filter_contains(pred, i as int);
                        let j = choose|j: int| 0 <= j < g.len() && g[j] == prs@[i as int];
                        assert(!pull_request_loadable(g[j], users@, build_statuses@));
                    }
                    return Err(e);
                },
            }
        } else {
            assert(prs@.subrange(0, i + 1).filter(pred) == done);
        }
        i = i + 1;
    }
    assert(prs@.subrange(0, prs@.len() as int) =~= prs@);
    assert(done == targeting(prs@, name@));
    let bi = match find_branch(branches, name) {
        Some(b) => b,
        None => {
            return Err(MappingError::MissingTargetBranch);
        },
    };
    let si = match find_status(build_statuses, &branches[bi].latest_commit) {
        Some(s) => s,
        None => {
            return Err(MappingError::MissingBuildStatus);
        },
    };
    let build_status = &build_statuses[si].1;
    Ok(
        PullRequestTargetBranch {
            branch_name: name.clone(),
            pipeline_url: map_pipeline_url(build_status),
            pipeline_status: map_pipeline_status(build_status),
            pull_requests: mapped,
        },
    )
}

/// No pull request starts from or targets branch `b`.
pub open spec fn is_standalone(b: BranchResponse, prs: Seq<PullRequestResponse>) -> bool {
    forall|i: int|
        0 <= i < prs.len() ==> (#[trigger] prs[i]).from_ref.display_id@ != b.display_id@
            && prs[i].to_ref.display_id@ != b.display_id@
}

/// The test of `is_standalone` as a predicate.
pub open spec fn standalone_pred(prs: Seq<PullRequestResponse>) -> spec_fn(BranchResponse) -> bool {
    |b: BranchResponse| is_standalone(b, prs)
}

/// The branches that no pull request starts from or targets, in their order.
pub open spec fn standalone_branches(branches: Seq<BranchResponse>, prs: Seq<PullRequestResponse>) -> Seq<
    BranchResponse,
> {
    branches.filter(standalone_pred(prs))
}

/// `s` shows the standalone branch `b`.
pub open spec fn is_mapped_standalone(
    s: StandaloneBranch,
    b: BranchResponse,
    statuses: Seq<(String, Option<BuildStatusResponse>)>,
) -> bool {
    let status = status_of(statuses, b.latest_commit@)->Some_0;
    &&& s.branch_name@ == b.display_id@
    &&& s.pipeline_status == pipeline_status_of(status)
    &&& s.pipeline_url == pipeline_url_of(status)
}

/// The lookups that mapping a repository needs succeed, chrono can
/// represent every pull-request date, and the repository has a link.
pub open spec fn repository_mappable(
    repository: RepositoryResponse,
    branches: Seq<BranchResponse>,
    prs: Seq<PullRequestResponse>,
    users: Seq<(String, UserResponse)>,
    statuses: Seq<(String, Option<BuildStatusResponse>)>,
) -> bool {
    &&& repository.links.self_link@.len() > 0
    &&& forall|k: int|
        0 <= k < target_names(prs).len() ==> #[trigger] target_mappable(
            target_names(prs)[k],
            prs,
            branches,
            users,
            statuses,
        )
    &&& forall|j: int|
        0 <= j < standalone_branches(branches, prs).len() ==> #[trigger] status_of(
            statuses,
            standalone_branches(branches, prs)[j].latest_commit@,
        ) is Some
}

/// `d` shows the repository: each target branch with the pull requests that
/// target it, and each standalone branch.
pub open spec fn is_mapped_repository(
    d: RepositoryBranchData,
    repository: RepositoryResponse,
    branches: Seq<BranchResponse>,
    prs: Seq<PullRequestResponse>,
    users: Seq<(String, UserResponse)>,
    statuses: Seq<(String, Option<BuildStatusResponse>)>,
    base_url: Seq<char>,
) -> bool {
    let names = target_names(prs);
    let alone = standalone_branches(branches, prs);
    &&& d.repository_name@ == repository.name@
    &&& d.repository_url@ == repository.links.self_link@.last().href@
    &&& d.pull_request_target_branches@.len() == names.len()
    &&& forall|k: int|
        0 <= k < names.len() ==> is_mapped_target(
            #[trigger] d.pull_request_target_branches@[k],
            names[k],
            prs,
            branches,
            users,
            statuses,
            base_url,
        )
    &&& d.standalone_branches@.len() == alone.len()
    &&& forall|j: int|
        0 <= j < alone.len() ==> is_mapped_standalone(
            #[trigger] d.standalone_branches@[j],
            alone[j],
            statuses,
        )
}

fn branch_is_standalone(branch: &BranchResponse, prs: &[PullRequestResponse]) -> (r: bool)
    ensures
        r == is_standalone(*branch, prs@),
{
    let mut i: usize = 0;
    while i < prs.len()
        invariant
            i <= prs@.len(),
            forall|k: int|
                0 <= k < i ==> (#[trigger] prs@[k]).from_ref.display_id@ != branch.display_id@
                    && prs@[k].to_ref.display_id@ != branch.display_id@,
        decreases prs@.len() - i,
    {
        if prs[i].from_ref.display_id == branch.display_id || prs[i].to_ref.display_id
            == branch.display_id {
            return false;
        }
        i = i + 1;
    }
    true
}

/// Maps the branches that no pull request starts from or targets.
fn map_standalone_branches(
    branches: &[BranchResponse],
    prs: &[PullRequestResponse],
    build_statuses: &[(String, Option<BuildStatusResponse>)],
) -> (r: Result<Vec<StandaloneBranch>, MappingError>)
    ensures
        r matches Ok(v) ==> (forall|j: int|
            0 <= j < standalone_branches(branches@, prs@).len() ==> #[trigger] status_of(
                build_statuses@,
                standalone_branches(branches@, prs@)[j].latest_commit@,
            ) is Some) && v@.len() == standalone_branches(branches@, prs@).len() && (forall|j: int|
            0 <= j < v@.len() ==> is_mapped_standalone(
                #[trigger] v@[j],
                standalone_branches(branches@, prs@)[j],
                build_statuses@,
            )),
        r is Err ==> r == Err::<Vec<StandaloneBranch>, MappingError>(
            MappingError::MissingBuildStatus,
        ) && exists|j: int|
            0 <= j < standalone_branches(branches@, prs@).len() && #[trigger] status_of(
                build_statuses@,
                standalone_branches(branches@, prs@)[j].latest_commit@,
            ) is None,
{
    let ghost pred = standalone_pred(prs@);
    let ghost mut done: Seq<BranchResponse> = seq![];
    let mut mapped: Vec<StandaloneBranch> = Vec::new();
    let mut i: usize = 0;
    while i < branches.len()
        invariant
            i <= branches@.len(),
            pred == standalone_pred(prs@),
            done == branches@.subrange(0, i as int).filter(pred),
            mapped@.len() == done.len(),
            forall|j: int|
                0 <= j < done.len() ==> #[trigger] status_of(build_statuses@, done[j].latest_commit@) is Some,
            forall|j: int|
                0 <= j < mapped@.len() ==> is_mapped_standalone(
                    #[trigger] mapped@[j],
                    done[j],
                    build_statuses@,
                ),
        decreases branches@.len() - i,
    {
        proof {
            reveal(Seq::filter);
        }
        assert(branches@.subrange(0, i + 1).drop_last() =~= branches@.subrange(0, i as int));
        let alone = branch_is_standalone(&branches[i], prs);
        assert(pred(branches@[i as int]) == alone);
        if alone {
            let si = match find_status(build_statuses, &branches[i].latest_commit) {
                Some(s) => s,
                None => {
                    proof {
                        branches@.lemma_filter_contains(pred, i as int);
                        let g = standalone_branches(branches@, prs@);
                        let j = choose|j: int| 0 <= j < g.len() && g[j] == branches@[i as int];
                        assert(status_of(build_statuses@, g[j].latest_commit@) is None);
                    }
                    return Err(MappingError::MissingBuildStatus);
                },
            };
            let build_status = &build_statuses[si].1;
            let ghost old_mapped = mapped@;
            let ghost old_done = done;
            mapped.push(
                StandaloneBranch {
                    branch_name: branches[i].display_id.clone(),
                    pipeline_status: map_pipeline_status(build_status),
                    pipeline_url: map_pipeline_url(build_status),
                },
            );
            proof {
                done = done.push(branches@[i as int]);
                assert(branches@.subrange(0, i + 1).filter(pred) == done);
                assert forall|j: int| 0 <= j < done.len() implies #[trigger] status_of(
                    build_statuses@,
                    done[j].latest_commit@,
                ) is Some by {
                    if j < old_done.len() {
                        assert(done[j] == old_done[j]);
                    }
                }
                assert forall|j: int| 0 <= j < mapped@.len() implies is_mapped_standalone(
                    #[trigger] mapped@[j],
                    done[j],
                    build_statuses@,
                ) by {
                    if j < old_mapped.len() {
                        assert(mapped@[j] == old_mapped[j]);
                        assert(done[j] == old_done[j]);
                    }
                }
            }
        } else {
            assert(branches@.subrange(0, i + 1).filter(pred) == done);
        }
        i = i + 1;
    }
    assert(branches@.subrange(0, branches@.len() as int) =~= branches@);
    assert(done == standalone_branches(branches@, prs@));
    Ok(mapped)
}

/// Maps the responses fetched for one repository into its snapshot entry:
/// the branches that pull requests target, each with those pull requests,
/// and the branches that no pull request starts from or targets. The lookup
/// tables hold the users by slug and the build statuses by commit.
pub fn map_repository_data(
    bitbucket_url: &str,
    repository: RepositoryResponse,
    branches: Vec<BranchResponse>,
    pull_requests: Vec<PullRequestResponse>,
    users: &[(String, UserResponse)],
    build_statuses: &[(String, Option<BuildStatusResponse>)],
) -> (r: Result<RepositoryBranchData, MappingError>)
    ensures
        r matches Ok(d) ==> repository_mappable(
            repository,
            branches@,
            pull_requests@,
            users@,
            build_statuses@,
        ) && is_mapped_repository(
            d,
            repository,
            branches@,
            pull_requests@,
            users@,
            build_statuses@,
            bitbucket_url@,
        ),
        repository_mappable(repository, branches@, pull_requests@, users@, build_statuses@)
            ==> r is Ok,
{
    let n_links = repository.links.self_link.len();
    if n_links == 0 {
        return Err(MappingError::MissingRepositoryLink);
    }
    let repository_url = repository.links.self_link[n_links - 1].href.clone();
    let names = collect_target_names(pull_requests.as_slice());
    let ghost name_views = target_names(pull_requests@);
    let mut targets: Vec<PullRequestTargetBranch> = Vec::new();
    let mut k: usize = 0;
    while k < names.len()
        invariant
            k <= names@.len(),
            names@.map_values(|x: String| x@) == name_views,
            name_views == target_names(pull_requests@),
            targets@.len() == k,
            forall|m: int|
                0 <= m < k ==> #[trigger] target_mappable(
                    name_views[m],
                    pull_requests@,
                    branches@,
                    users@,
                    build_statuses@,
                ),
            forall|m: int|
                0 <= m < k ==> is_mapped_target(
                    #[trigger] targets@[m],
                    name_views[m],
                    pull_requests@,
                    branches@,
                    users@,
                    build_statuses@,
                    bitbucket_url@,
                ),
        decreases names@.len() - k,
    {
        assert(name_views[k as int] == names@[k as int]@);
        match map_target_branch(
            bitbucket_url,
            &names[k],
            pull_requests.as_slice(),
            branches.as_slice(),
            users,
            build_statuses,
        ) {
            Ok(t) => {
                let ghost old_targets = targets@;
                targets.push(t);
                assert forall|m: int| 0 <= m < k + 1 implies is_mapped_target(
                    #[trigger] targets@[m],
                    name_views[m],
                    pull_requests@,
                    branches@,
                    users@,
                    build_statuses@,
                    bitbucket_url@,
                ) by {
                    if m < k {
                        assert(targets@[m] == old_targets[m]);
                    }
                }
            },
            Err(e) => {
                return Err(e);
            },
        }
        k = k + 1;
    }
    let standalone_branches = match map_standalone_branches(
        branches.as_slice(),
        pull_requests.as_slice(),
        build_statuses,
    ) {
        Ok(v) => v,
        Err(e) => {
            return Err(e);
        },
    };
    Ok(
        RepositoryBranchData {
            repository_name: repository.name,
            repository_url,
            pull_request_target_branches: targets,
            standalone_branches,
        },
    )
}

} // verus!
