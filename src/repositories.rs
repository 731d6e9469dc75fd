//! The repository snapshot shown on the dashboard, and the repositories it covers.
use vstd::prelude::*;

verus! {

/// The state of the latest pipeline of a branch or pull request.
#[derive(Clone, Copy, Debug, PartialEq, Eq, Structural)]
pub enum PipelineStatus {
    Running,
    Successful,
    Failed,
    Queued,
    Canceled,
    /// No pipeline ran, or its state is not shown.
    NoPipeline,
}

/// A pull request as shown under its target branch.
#[derive(Debug)]
pub struct PullRequest {
    pub branch_name: String,
    pub user_name: String,
    pub user_profile_image: String,
    pub comment_count: u32,
    pub last_activity_date: String,
    pub approved: bool,
    pub pipeline_status: PipelineStatus,
    pub pipeline_url: Option<String>,
    pub link_url: String,
}

/// A branch that no pull request starts from or targets.
#[derive(Debug)]
pub struct StandaloneBranch {
    pub branch_name: String,
    pub pipeline_status: PipelineStatus,
    pub pipeline_url: Option<String>,
}

/// A branch that pull requests target, with those pull requests.
#[derive(Debug)]
pub struct PullRequestTargetBranch {
    pub branch_name: String,
    pub pipeline_url: Option<String>,
    pub pipeline_status: PipelineStatus,
    pub pull_requests: Vec<PullRequest>,
}

/// The branch and pull-request state of one repository.
#[derive(Debug)]
pub struct RepositoryBranchData {
    pub repository_name: String,
    pub repository_url: String,
    pub pull_request_target_branches: Vec<PullRequestTargetBranch>,
    pub standalone_branches: Vec<StandaloneBranch>,
}

/// One complete snapshot of all configured repositories.
#[derive(Debug)]
pub struct RepositoriesData {
    pub last_updated_date: Option<String>,
    pub currently_refreshing: bool,
    pub repositories: Vec<RepositoryBranchData>,
}

/// A configured repository: its group (project) and its name.
#[derive(Debug)]
pub struct Repository {
    pub name: String,
    pub group: String,
}

fn copy_text_option(o: &Option<String>) -> (r: Option<String>)
    ensures
        r == *o,
{
    match o {
        Some(s) => Some(s.clone()),
        None => None,
    }
}

impl PullRequest {
    /// A field-by-field copy.
    pub fn duplicate(&self) -> (r: PullRequest)
        ensures
            r == *self,
    {
        PullRequest {
            branch_name: self.branch_name.clone(),
            user_name: self.user_name.clone(),
            user_profile_image: self.user_profile_image.clone(),
            comment_count: self.comment_count,
            last_activity_date: self.last_activity_date.clone(),
            approved: self.approved,
            pipeline_status: self.pipeline_status,
            pipeline_url: copy_text_option(&self.pipeline_url),
            link_url: self.link_url.clone(),
        }
    }
}

impl StandaloneBranch {
    /// A field-by-field copy.
    pub fn duplicate(&self) -> (r: StandaloneBranch)
        ensures
            r == *self,
    {
        StandaloneBranch {
            branch_name: self.branch_name.clone(),
            pipeline_status: self.pipeline_status,
            pipeline_url: copy_text_option(&self.pipeline_url),
        }
    }
}

impl PullRequestTargetBranch {
    /// `self` and `o` hold the same values.
    pub open spec fn same_as(self, o: PullRequestTargetBranch) -> bool {
        &&& self.branch_name == o.branch_name
        &&& self.pipeline_url == o.pipeline_url
        &&& self.pipeline_status == o.pipeline_status
        &&& self.pull_requests@ == o.pull_requests@
    }

    /// A deep copy.
    pub fn duplicate(&self) -> (r: PullRequestTargetBranch)
        ensures
            r.same_as(*self),
    {
        let mut pull_requests: Vec<PullRequest> = Vec::new();
        let mut i: usize = 0;
        while i < self.pull_requests.len()
            invariant
                i <= self.pull_requests@.len(),
                pull_requests@ == self.pull_requests@.subrange(0, i as int),
            decreases self.pull_requests@.len() - i,
        {
            pull_requests.push(self.pull_requests[i].duplicate());
            assert(pull_requests@ =~= self.pull_requests@.subrange(0, i + 1));
            i = i + 1;
        }
        assert(pull_requests@ =~= self.pull_requests@);
        PullRequestTargetBranch {
            branch_name: self.branch_name.clone(),
            pipeline_url: copy_text_option(&self.pipeline_url),
            pipeline_status: self.pipeline_status,
            pull_requests,
        }
    }
}

impl RepositoryBranchData {
    /// `self` and `o` hold the same values.
    pub open spec fn same_as(self, o: RepositoryBranchData) -> bool {
        &&& self.repository_name == o.repository_name
        &&& self.repository_url == o.repository_url
        &&& self.pull_request_target_branches@.len() == o.pull_request_target_branches@.len()
        &&& forall|i: int|
            0 <= i < self.pull_request_target_branches@.len()
                ==> #[trigger] self.pull_request_target_branches@[i].same_as(
                o.pull_request_target_branches@[i],
            )
        &&& self.standalone_branches@ == o.standalone_branches@
    }

    /// A deep copy.
    pub fn duplicate(&self) -> (r: RepositoryBranchData)
        ensures
            r.same_as(*self),
    {
        let mut targets: Vec<PullRequestTargetBranch> = Vec::new();
        let mut i: usize = 0;
        while i < self.pull_request_target_branches.len()
            invariant
                i <= self.pull_request_target_branches@.len(),
                targets@.len() == i,
                forall|k: int|
                    0 <= k < i ==> #[trigger] targets@[k].same_as(
                        self.pull_request_target_branches@[k],
                    ),
            decreases self.pull_request_target_branches@.len() - i,
        {
            targets.push(self.pull_request_target_branches[i].duplicate());
            i = i + 1;
        }
        let mut standalone: Vec<StandaloneBranch> = Vec::new();
        let mut j: usize = 0;
        while j < self.standalone_branches.len()
            invariant
                j <= self.standalone_branches@.len(),
                standalone@ == self.standalone_branches@.subrange(0, j as int),
            decreases self.standalone_branches@.len() - j,
        {
            standalone.push(self.standalone_branches[j].duplicate());
            assert(standalone@ =~= self.standalone_branches@.subrange(0, j + 1));
            j = j + 1;
        }
        assert(standalone@ =~= self.standalone_branches@);
        RepositoryBranchData {
            repository_name: self.repository_name.clone(),
            repository_url: self.repository_url.clone(),
            pull_request_target_branches: targets,
            standalone_branches: standalone,
        }
    }
}

impl RepositoriesData {
    /// The snapshot of a dashboard that was never loaded.
    pub open spec fn is_empty_snapshot(self) -> bool {
        &&& self.last_updated_date is None
        &&& !self.currently_refreshing
        &&& self.repositories@.len() == 0
    }

    /// `self` and `o` hold the same values.
    pub open spec fn same_as(self, o: RepositoriesData) -> bool {
        &&& self.last_updated_date == o.last_updated_date
        &&& self.currently_refreshing == o.currently_refreshing
        &&& self.repositories@.len() == o.repositories@.len()
        &&& forall|i: int|
            0 <= i < self.repositories@.len() ==> #[trigger] self.repositories@[i].same_as(
                o.repositories@[i],
            )
    }

    /// An empty snapshot, as shown before the first load.
    pub fn empty() -> (r: RepositoriesData)
        ensures
            r.is_empty_snapshot(),
    {
        RepositoriesData { last_updated_date: None, currently_refreshing: false, repositories: Vec::new() }
    }

    /// A deep copy.
    pub fn duplicate(&self) -> (r: RepositoriesData)
        ensures
            r.same_as(*self),
    {
        let mut repositories: Vec<RepositoryBranchData> = Vec::new();
        let mut i: usize = 0;
        while i < self.repositories.len()
            invariant
                i <= self.repositories@.len(),
                repositories@.len() == i,
                forall|k: int|
                    0 <= k < i ==> #[trigger] repositories@[k].same_as(self.repositories@[k]),
            decreases self.repositories@.len() - i,
        {
            repositories.push(self.repositories[i].duplicate());
            i = i + 1;
        }
        RepositoriesData {
            last_updated_date: copy_text_option(&self.last_updated_date),
            currently_refreshing: self.currently_refreshing,
            repositories,
        }
    }
}

/// The text of `s` before its first '/', or all of it.
pub open spec fn before_first_slash(s: Seq<char>) -> Seq<char>
    decreases s.len(),
{
    if s.len() == 0 {
        s
    } else if s[0] == '/' {
        seq![]
    } else {
        seq![s[0]] + before_first_slash(s.drop_first())
    }
}

/// The text of `s` after its last '/', or all of it.
pub open spec fn after_last_slash(s: Seq<char>) -> Seq<char>
    decreases s.len(),
{
    if s.len() == 0 {
        s
    } else if s.last() == '/' {
        seq![]
    } else {
        after_last_slash(s.drop_last()).push(s.last())
    }
}

proof fn lemma_before_first_slash(s: Seq<char>, p: int)
    requires
        0 <= p <= s.len(),
        forall|k: int| 0 <= k < p ==> s[k] != '/',
        p < s.len() ==> s[p] == '/',
    ensures
        before_first_slash(s) == s.subrange(0, p),
    decreases p,
{
    if p == 0 {
        assert(s.subrange(0, 0) =~= Seq::<char>::empty());
        if s.len() == 0 {
            assert(s =~= Seq::<char>::empty());
        }
    } else {
        lemma_before_first_slash(s.drop_first(), p - 1);
        assert(seq![s[0]] + s.drop_first().subrange(0, p - 1) =~= s.subrange(0, p));
    }
}

proof fn lemma_after_last_slash(s: Seq<char>, q: int)
    requires
        0 <= q <= s.len(),
        forall|k: int| q <= k < s.len() ==> s[k] != '/',
        q > 0 ==> s[q - 1] == '/',
    ensures
        after_last_slash(s) == s.subrange(q, s.len() as int),
    decreases s.len() - q,
{
    if q == s.len() {
        assert(s.subrange(q, s.len() as int) =~= Seq::<char>::empty());
        if s.len() == 0 {
            assert(s =~= Seq::<char>::empty());
        }
    } else {
        lemma_after_last_slash(s.drop_last(), q);
        assert(s.drop_last().subrange(q, s.len() - 1).push(s.last()) =~= s.subrange(
            q,
            s.len() as int,
        ));
    }
}

impl Repository {
    /// Reads a repository from its slug `group/name`: the group is the text
    /// before the first '/', the name the text after the last '/'. A slug
    /// without '/' gives that text for both.
    pub fn from_slug(slug: &str) -> (r: Repository)
        ensures
            r.group@ == before_first_slash(slug@),
            r.name@ == after_last_slash(slug@),
    {
        let n = slug.unicode_len();
        let mut p: usize = 0;
        while p < n && slug.get_char(p) != '/'
            invariant
                n == slug@.len(),
                p <= n,
                forall|k: int| 0 <= k < p ==> slug@[k] != '/',
            decreases n - p,
        {
            p = p + 1;
        }
        let mut q: usize = n;
        while q > 0 && slug.get_char(q - 1) != '/'
            invariant
                n == slug@.len(),
                q <= n,
                forall|k: int| q <= k < n ==> slug@[k] != '/',
            decreases q,
        {
            q = q - 1;
        }
        proof {
            lemma_before_first_slash(slug@, p as int);
            lemma_after_last_slash(slug@, q as int);
        }
        Repository {
            name: String::from_str(slug.substring_char(q, n)),
            group: String::from_str(slug.substring_char(0, p)),
        }
    }

    /// The slug `group/name`.
    pub fn to_slug(&self) -> (r: String)
        ensures
            r@ == self.group@ + "/"@ + self.name@,
    {
        let mut s = self.group.clone();
        s.append("/");
        s.append(self.name.as_str());
        s
    }

    /// A field-by-field copy.
    pub fn duplicate(&self) -> (r: Repository)
        ensures
            r.name@ == self.name@,
            r.group@ == self.group@,
    {
        Repository { name: self.name.clone(), group: self.group.clone() }
    }
}

} // verus!
