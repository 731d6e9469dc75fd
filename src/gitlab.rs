//! GitLab: the shapes of its REST responses, the encoding of ids in request
//! paths, and the mapping of one project's responses into the snapshot.
use vstd::prelude::*;
use crate::repositories::{
    PipelineStatus, PullRequest, PullRequestTargetBranch, Repository, RepositoryBranchData,
    StandaloneBranch,
};

verus! {

/// A project as the loader knows it once its id is fetched.
pub struct ProjectDetails {
    pub id: u32,
    pub repository: Repository,
    pub url: String,
}

/// A branch with its latest pipeline and that pipeline's latest job.
pub struct BranchDetails {
    pub details_response: BranchResponse,
    pub pipeline_response: Option<PipelineResponse>,
    pub job_response: Option<JobResponse>,
}

/// An open merge request with its approvals and its pipeline's latest job.
pub struct MergeRequestDetails {
    pub details_response: SingleMergeRequestResponse,
    pub approvals_response: MergeRequestApprovalsResponse,
    pub job_response: Option<JobResponse>,
}

pub struct ProjectResponse {
    pub id: u32,
    pub web_url: String,
}

pub struct BranchResponse {
    pub name: String,
}

pub struct MergeRequestResponse {
    pub iid: u32,
}

pub struct SingleMergeRequestResponse {
    pub source_branch: String,
    pub target_branch: String,
    pub author: GitlabUserResponse,
    pub updated_at: String,
    pub user_notes_count: u32,
    pub has_conflicts: bool,
    pub blocking_discussions_resolved: bool,
    pub pipeline: Option<PipelineResponse>,
    pub web_url: String,
}

pub struct PipelineResponse {
    pub id: u32,
    pub status: GitlabPipelineStatus,
}

pub struct JobResponse {
    pub web_url: String,
}

pub struct MergeRequestApprovalsResponse {
    pub approved: bool,
}

pub struct GitlabUserResponse {
    pub name: String,
    pub avatar_url: String,
}

#[derive(Clone, Copy, Debug, PartialEq, Eq, Structural)]
pub enum GitlabPipelineStatus {
    Success,
    Running,
    Failed,
    Created,
    WaitingForResource,
    Preparing,
    Pending,
    Canceled,
    Skipped,
    Manual,
    Scheduled,
}

/// `s` with each '/' written as `%2F`.
pub open spec fn encoded_id(s: Seq<char>) -> Seq<char>
    decreases s.len(),
{
    if s.len() == 0 {
        seq![]
    } else {
        encoded_id(s.drop_last()) + if s.last() == '/' {
            "%2F"@
        } else {
            seq![s.last()]
        }
    }
}

/// Encodes an id for a GitLab request path: `group/project` becomes `group%2Fproject`.
pub fn encode_id_for_gitlab_url(id: &str) -> (r: String)
    ensures
        r@ == encoded_id(id@),
{
    let n = id.unicode_len();
    let mut r = String::new();
    let mut i: usize = 0;
    while i < n
        invariant
            n == id@.len(),
            i <= n,
            r@ == encoded_id(id@.subrange(0, i as int)),
        decreases n - i,
    {
        let ghost prefix = id@.subrange(0, i + 1);
        assert(prefix.drop_last() =~= id@.subrange(0, i as int));
        if id.get_char(i) == '/' {
            r.append("%2F");
        } else {
            let c = id.substring_char(i, i + 1);
            assert(c@ =~= seq![id@[i as int]]);
            r.append(c);
        }
        i = i + 1;
    }
    assert(id@.subrange(0, n as int) =~= id@);
    r
}

/// The pipeline status shown for a pipeline, if any.
pub open spec fn pipeline_status_of(p: Option<PipelineResponse>) -> PipelineStatus {
    match p {
        Some(p) => match p.status {
            GitlabPipelineStatus::Running => PipelineStatus::Running,
            GitlabPipelineStatus::Success => PipelineStatus::Successful,
            GitlabPipelineStatus::Failed => PipelineStatus::Failed,
            GitlabPipelineStatus::Created => PipelineStatus::Queued,
            GitlabPipelineStatus::WaitingForResource => PipelineStatus::Queued,
            GitlabPipelineStatus::Preparing => PipelineStatus::Queued,
            GitlabPipelineStatus::Pending => PipelineStatus::Queued,
            GitlabPipelineStatus::Canceled => PipelineStatus::Canceled,
            GitlabPipelineStatus::Skipped => PipelineStatus::NoPipeline,
            GitlabPipelineStatus::Manual => PipelineStatus::NoPipeline,
            GitlabPipelineStatus::Scheduled => PipelineStatus::Queued,
        },
        None => PipelineStatus::NoPipeline,
    }
}

/// The pipeline status shown for a pipeline, if any.
pub fn map_pipeline_status(response: &Option<PipelineResponse>) -> (r: PipelineStatus)
    ensures
        r == pipeline_status_of(*response),
{
    match response {
        Some(response) => match response.status {
            GitlabPipelineStatus::Running => PipelineStatus::Running,
            GitlabPipelineStatus::Success => PipelineStatus::Successful,
            GitlabPipelineStatus::Failed => PipelineStatus::Failed,
            GitlabPipelineStatus::Created => PipelineStatus::Queued,
            GitlabPipelineStatus::WaitingForResource => PipelineStatus::Queued,
            GitlabPipelineStatus::Preparing => PipelineStatus::Queued,
            GitlabPipelineStatus::Pending => PipelineStatus::Queued,
            GitlabPipelineStatus::Canceled => PipelineStatus::Canceled,
            GitlabPipelineStatus::Skipped => PipelineStatus::NoPipeline,
            GitlabPipelineStatus::Manual => PipelineStatus::NoPipeline,
            GitlabPipelineStatus::Scheduled => PipelineStatus::Queued,
        },
        None => PipelineStatus::NoPipeline,
    }
}

/// The link of a pipeline's latest job, if any.
pub open spec fn job_url_of(j: Option<JobResponse>) -> Option<String> {
    match j {
        Some(j) => Some(j.web_url),
        None => None,
    }
}

fn map_job_url(job: &Option<JobResponse>) -> (r: Option<String>)
    ensures
        r == job_url_of(*job),
{
    match job {
        Some(j) => Some(j.web_url.clone()),
        None => None,
    }
}

/// `p` shows the merge request `mr`.
pub open spec fn is_mapped_merge_request(p: PullRequest, mr: MergeRequestDetails) -> bool {
    let d = mr.details_response;
    &&& p.branch_name == d.source_branch
    &&& p.user_name == d.author.name
    &&& p.pipeline_status == pipeline_status_of(d.pipeline)
    &&& p.pipeline_url == job_url_of(mr.job_response)
    &&& p.comment_count == d.user_notes_count
    &&& p.approved == mr.approvals_response.approved
    &&& p.user_profile_image == d.author.avatar_url
    &&& p.last_activity_date == d.updated_at
    &&& p.link_url == d.web_url
}

/// Maps one merge request.
pub fn map_merge_request(mr: &MergeRequestDetails) -> (r: PullRequest)
    ensures
        is_mapped_merge_request(r, *mr),
{
    let d = &mr.details_response;
    PullRequest {
        branch_name: d.source_branch.clone(),
        user_name: d.author.name.clone(),
        user_profile_image: d.author.avatar_url.clone(),
        comment_count: d.user_notes_count,
        last_activity_date: d.updated_at.clone(),
        approved: mr.approvals_response.approved,
        pipeline_status: map_pipeline_status(&d.pipeline),
        pipeline_url: map_job_url(&mr.job_response),
        link_url: d.web_url.clone(),
    }
}

/// The names of the branches that merge requests target, each once, in the
/// order of the first merge request targeting each.
pub open spec fn target_names(mrs: Seq<MergeRequestDetails>) -> Seq<Seq<char>>
    decreases mrs.len(),
{
    if mrs.len() == 0 {
        seq![]
    } else {
        let names = target_names(mrs.drop_last());
        if names.contains(mrs.last().details_response.target_branch@) {
            names
        } else {
            names.push(mrs.last().details_response.target_branch@)
        }
    }
}

/// The test that a merge request targets `name`.
pub open spec fn targets_pred(name: Seq<char>) -> spec_fn(MergeRequestDetails) -> bool {
    |mr: MergeRequestDetails| mr.details_response.target_branch@ == name
}

/// The first branch named `name`.
pub open spec fn branch_named(branches: Seq<BranchDetails>, name: Seq<char>) -> Option<BranchDetails>
    decreases branches.len(),
{
    if branches.len() == 0 {
        None
    } else if branches[0].details_response.name@ == name {
        Some(branches[0])
    } else {
        branch_named(branches.drop_first(), name)
    }
}

/// No merge request starts from or targets branch `b`.
pub open spec fn is_standalone(b: BranchDetails, mrs: Seq<MergeRequestDetails>) -> bool {
    forall|i: int|
        0 <= i < mrs.len() ==> (#[trigger] mrs[i]).details_response.source_branch@
            != b.details_response.name@ && mrs[i].details_response.target_branch@
            != b.details_response.name@
}

/// The test of `is_standalone` as a predicate.
pub open spec fn standalone_pred(mrs: Seq<MergeRequestDetails>) -> spec_fn(BranchDetails) -> bool {
    |b: BranchDetails| is_standalone(b, mrs)
}

/// `t` shows the target branch `name` with the merge requests targeting it.
pub open spec fn is_mapped_target(
    t: PullRequestTargetBranch,
    name: Seq<char>,
    mrs: Seq<MergeRequestDetails>,
    branches: Seq<BranchDetails>,
) -> bool {
    let g = mrs.filter(targets_pred(name));
    let b = branch_named(branches, name)->Some_0;
    &&& t.branch_name@ == name
    &&& t.pipeline_status == pipeline_status_of(b.pipeline_response)
    &&& t.pipeline_url == job_url_of(b.job_response)
    &&& t.pull_requests@.len() == g.len()
    &&& forall|j: int|
        0 <= j < g.len() ==> is_mapped_merge_request(#[trigger] t.pull_requests@[j], g[j])
}

/// `s` shows the standalone branch `b`.
pub open spec fn is_mapped_standalone(s: StandaloneBranch, b: BranchDetails) -> bool {
    &&& s.branch_name == b.details_response.name
    &&& s.pipeline_status == pipeline_status_of(b.pipeline_response)
    &&& s.pipeline_url == job_url_of(b.job_response)
}

/// Every branch that merge requests target is among the branches.
pub open spec fn targets_known(mrs: Seq<MergeRequestDetails>, branches: Seq<BranchDetails>) -> bool {
    forall|k: int|
        0 <= k < target_names(mrs).len() ==> #[trigger] branch_named(
            branches,
            target_names(mrs)[k],
        ) is Some
}

/// `d` shows the project: each target branch with the merge requests that
/// target it, and each standalone branch.
pub open spec fn is_mapped_project(
    d: RepositoryBranchData,
    project: ProjectDetails,
    mrs: Seq<MergeRequestDetails>,
    branches: Seq<BranchDetails>,
) -> bool {
    let names = target_names(mrs);
    let alone = branches.filter(standalone_pred(mrs));
    &&& d.repository_name == project.repository.name
    &&& d.repository_url == project.url
    &&& d.pull_request_target_branches@.len() == names.len()
    &&& forall|k: int|
        0 <= k < names.len() ==> is_mapped_target(
            #[trigger] d.pull_request_target_branches@[k],
            names[k],
            mrs,
            branches,
        )
    &&& d.standalone_branches@.len() == alone.len()
    &&& forall|j: int|
        0 <= j < alone.len() ==> is_mapped_standalone(#[trigger] d.standalone_branches@[j], alone[j])
}

/// Whether `name` is among `names`.
fn contains_name(names: &Vec<String>, name: &String) -> (r: bool)
    ensures
        r == names@.map_values(|x: String| x@).contains(name@),
{
    let ghost views = names@.map_values(|x: String| x@);
    let mut k: usize = 0;
    while k < names.len()
        invariant
            k <= names@.len(),
            views == names@.map_values(|x: String| x@),
            forall|m: int| 0 <= m < k ==> views[m] != name@,
        decreases names@.len() - k,
    {
        if names[k] == *name {
            assert(views[k as int] == name@);
            return true;
        }
        k = k + 1;
    }
    false
}

fn collect_target_names(mrs: &[MergeRequestDetails]) -> (r: Vec<String>)
    ensures
        r@.map_values(|x: String| x@) == target_names(mrs@),
{
    let mut r: Vec<String> = Vec::new();
    let mut i: usize = 0;
    while i < mrs.len()
        invariant
            i <= mrs@.len(),
            r@.map_values(|x: String| x@) == target_names(mrs@.subrange(0, i as int)),
        decreases mrs@.len() - i,
    {
        let ghost prefix = mrs@.subrange(0, i + 1);
        assert(prefix.drop_last() =~= mrs@.subrange(0, i as int));
        if !contains_name(&r, &mrs[i].details_response.target_branch) {
            r.push(mrs[i].details_response.target_branch.clone());
            assert(r@.map_values(|x: String| x@) =~= target_names(prefix));
        }
        i = i + 1;
    }
    assert(mrs@.subrange(0, mrs@.len() as int) =~= mrs@);
    r
}

fn find_branch(branches: &[BranchDetails], name: &String) -> (r: Option<usize>)
    ensures
        r is None <==> branch_named(branches@, name@) is None,
        r matches Some(i) ==> i < branches@.len() && branch_named(branches@, name@) == Some(
            branches@[i as int],
        ),
{
    let mut i: usize = 0;
    assert(branches@.subrange(0, branches@.len() as int) =~= branches@);
    while i < branches.len()
        invariant
            i <= branches@.len(),
            branch_named(branches@, name@) == branch_named(
                branches@.subrange(i as int, branches@.len() as int),
                name@,
            ),
        decreases branches@.len() - i,
    {
        let ghost rest = branches@.subrange(i as int, branches@.len() as int);
        assert(rest.drop_first() =~= branches@.subrange(i + 1, branches@.len() as int));
        assert(rest[0] == branches@[i as int]);
        if branches[i].details_response.name == *name {
            return Some(i);
        }
        i = i + 1;
    }
    None
}

/// Maps the target branch `name` with the merge requests targeting it; `None`
/// where no branch has that name.
fn map_target_branch(name: &String, mrs: &[MergeRequestDetails], branches: &[BranchDetails]) -> (r:
    Option<PullRequestTargetBranch>)
    ensures
        r is None <==> branch_named(branches@, name@) is None,
        r matches Some(t) ==> is_mapped_target(t, name@, mrs@, branches@),
{
    let ghost pred = targets_pred(name@);
    let ghost mut done: Seq<MergeRequestDetails> = seq![];
    let mut mapped: Vec<PullRequest> = Vec::new();
    let mut i: usize = 0;
    while i < mrs.len()
        invariant
            i <= mrs@.len(),
            pred == targets_pred(name@),
            done == mrs@.subrange(0, i as int).filter(pred),
            mapped@.len() == done.len(),
            forall|j: int|
                0 <= j < mapped@.len() ==> is_mapped_merge_request(#[trigger] mapped@[j], done[j]),
        decreases mrs@.len() - i,
    {
        proof {
            reveal(Seq::filter);
        }
        assert(mrs@.subrange(0, i + 1).drop_last() =~= mrs@.subrange(0, i as int));
        assert(pred(mrs@[i as int]) == (mrs@[i as int].details_response.target_branch@ == name@));
        if mrs[i].details_response.target_branch == *name {
            let ghost old_mapped = mapped@;
            let ghost old_done = done;
            mapped.push(map_merge_request(&mrs[i]));
            proof {
                done = done.push(mrs@[i as int]);
                assert(mrs@.subrange(0, i + 1).filter(pred) == done);
                assert forall|j: int| 0 <= j < mapped@.len() implies is_mapped_merge_request(
                    #[trigger] mapped@[j],
                    done[j],
                ) by {
                    if j < old_mapped.len() {
                        assert(mapped@[j] == old_mapped[j]);
                        assert(done[j] == old_done[j]);
                    }
                }
            }
        } else {
            assert(mrs@.subrange(0, i + 1).filter(pred) == done);
        }
        i = i + 1;
    }
    assert(mrs@.subrange(0, mrs@.len() as int) =~= mrs@);
    let bi = match find_branch(branches, name) {
        Some(b) => b,
        None => {
            return None;
        },
    };
    let b = &branches[bi];
    Some(
        PullRequestTargetBranch {
            branch_name: name.clone(),
            pipeline_url: map_job_url(&b.job_response),
            pipeline_status: map_pipeline_status(&b.pipeline_response),
            pull_requests: mapped,
        },
    )
}

fn branch_is_standalone(branch: &BranchDetails, mrs: &[MergeRequestDetails]) -> (r: bool)
    ensures
        r == is_standalone(*branch, mrs@),
{
    let mut i: usize = 0;
    while i < mrs.len()
        invariant
            i <= mrs@.len(),
            forall|k: int|
                0 <= k < i ==> (#[trigger] mrs@[k]).details_response.source_branch@
                    != branch.details_response.name@ && mrs@[k].details_response.target_branch@
                    != branch.details_response.name@,
        decreases mrs@.len() - i,
    {
        if mrs[i].details_response.source_branch == branch.details_response.name
            || mrs[i].details_response.target_branch == branch.details_response.name {
            return false;
        }
        i = i + 1;
    }
    true
}

fn map_standalone_branches(branches: &[BranchDetails], mrs: &[MergeRequestDetails]) -> (r: Vec<
    StandaloneBranch,
>)
    ensures
        r@.len() == branches@.filter(standalone_pred(mrs@)).len(),
        forall|j: int|
            0 <= j < r@.len() ==> is_mapped_standalone(
                #[trigger] r@[j],
                branches@.filter(standalone_pred(mrs@))[j],
            ),
{
    let ghost pred = standalone_pred(mrs@);
    let ghost mut done: Seq<BranchDetails> = seq![];
    let mut mapped: Vec<StandaloneBranch> = Vec::new();
    let mut i: usize = 0;
    while i < branches.len()
        invariant
            i <= branches@.len(),
            pred == standalone_pred(mrs@),
            done == branches@.subrange(0, i as int).filter(pred),
            mapped@.len() == done.len(),
            forall|j: int|
                0 <= j < mapped@.len() ==> is_mapped_standalone(#[trigger] mapped@[j], done[j]),
        decreases branches@.len() - i,
    {
        proof {
            reveal(Seq::filter);
        }
        assert(branches@.subrange(0, i + 1).drop_last() =~= branches@.subrange(0, i as int));
        let alone = branch_is_standalone(&branches[i], mrs);
        assert(pred(branches@[i as int]) == alone);
        if alone {
            let ghost old_mapped = mapped@;
            let ghost old_done = done;
            let b = &branches[i];
            mapped.push(
                StandaloneBranch {
                    branch_name: b.details_response.name.clone(),
                    pipeline_status: map_pipeline_status(&b.pipeline_response),
                    pipeline_url: map_job_url(&b.job_response),
                },
            );
            proof {
                done = done.push(branches@[i as int]);
                assert(branches@.subrange(0, i + 1).filter(pred) == done);
                assert forall|j: int| 0 <= j < mapped@.len() implies is_mapped_standalone(
                    #[trigger] mapped@[j],
                    done[j],
                ) by {
                    if j < old_mapped.len() {
                        assert(mapped@[j] == old_mapped[j]);
                        assert(done[j] == old_done[j]);
                    }
                }
            }
        } else {
            assert(branches@.subrange(0, i + 1).filter(pred) == done);
        }
        i = i + 1;
    }
    assert(branches@.subrange(0, branches@.len() as int) =~= branches@);
    mapped
}

/// Maps the responses fetched for one project into its snapshot entry. Fails
/// (`None`) only where a branch that merge requests target is not among the
/// branches.
pub fn map_repository_data(
    project: &ProjectDetails,
    merge_requests: Vec<MergeRequestDetails>,
    branches: Vec<BranchDetails>,
) -> (r: Option<RepositoryBranchData>)
    ensures
        r is Some <==> targets_known(merge_requests@, branches@),
        r matches Some(d) ==> is_mapped_project(d, *project, merge_requests@, branches@),
{
    let names = collect_target_names(merge_requests.as_slice());
    let ghost name_views = target_names(merge_requests@);
    let mut targets: Vec<PullRequestTargetBranch> = Vec::new();
    let mut k: usize = 0;
    while k < names.len()
        invariant
            k <= names@.len(),
            names@.map_values(|x: String| x@) == name_views,
            name_views == target_names(merge_requests@),
            targets@.len() == k,
            forall|m: int| 0 <= m < k ==> #[trigger] branch_named(branches@, name_views[m]) is Some,
            forall|m: int|
                0 <= m < k ==> is_mapped_target(
                    #[trigger] targets@[m],
                    name_views[m],
                    merge_requests@,
                    branches@,
                ),
        decreases names@.len() - k,
    {
        assert(name_views[k as int] == names@[k as int]@);
        match map_target_branch(&names[k], merge_requests.as_slice(), branches.as_slice()) {
            Some(t) => {
                let ghost old_targets = targets@;
                targets.push(t);
                assert forall|m: int| 0 <= m < k + 1 implies is_mapped_target(
                    #[trigger] targets@[m],
                    name_views[m],
                    merge_requests@,
                    branches@,
                ) by {
                    if m < k {
                        assert(targets@[m] == old_targets[m]);
                    }
                }
            },
            None => {
                return None;
            },
        }
        k = k + 1;
    }
    let standalone_branches = map_standalone_branches(branches.as_slice(), merge_requests.as_slice());
    Some(
        RepositoryBranchData {
            repository_name: project.repository.name.clone(),
            repository_url: project.url.clone(),
            pull_request_target_branches: targets,
            standalone_branches,
        },
    )
}

} // verus!
