//! The process configuration: which version-control server to read and which
//! repositories to show.
use vstd::prelude::*;
use crate::repositories::{after_last_slash, before_first_slash, Repository};

verus! {

/// The kind of version-control server the dashboard reads.
#[derive(Clone, Copy, Debug, PartialEq, Eq, Structural)]
pub enum VCSServerType {
    Gitlab,
    Bitbucket,
}

#[derive(Debug)]
pub struct GitlabConfiguration {
    pub url: String,
    pub token: String,
}

#[derive(Debug)]
pub struct BitbucketConfiguration {
    pub url: String,
    pub user: String,
    pub password: String,
}

#[derive(Debug)]
pub struct Configuration {
    pub verbose: bool,
    pub port: u16,
    pub gitlab: Option<GitlabConfiguration>,
    pub bitbucket: Option<BitbucketConfiguration>,
    /// Repository slugs, `group/name`.
    pub repositories: Vec<String>,
}

impl Configuration {
    /// The server the snapshots are loaded from: GitLab where it is configured,
    /// else Bitbucket where it is configured.
    pub open spec fn server_type_spec(self) -> Option<VCSServerType> {
        if self.gitlab is Some {
            Some(VCSServerType::Gitlab)
        } else if self.bitbucket is Some {
            Some(VCSServerType::Bitbucket)
        } else {
            None
        }
    }

    /// The server the snapshots are loaded from; `None` where no server is
    /// configured, which makes the configuration invalid.
    pub fn server_type(&self) -> (r: Option<VCSServerType>)
        ensures
            r == self.server_type_spec(),
    {
        if self.gitlab.is_some() {
            Some(VCSServerType::Gitlab)
        } else if self.bitbucket.is_some() {
            Some(VCSServerType::Bitbucket)
        } else {
            None
        }
    }

    /// The configured repositories, read from their slugs, in their order.
    pub fn parse_repositories(&self) -> (r: Vec<Repository>)
        ensures
            r@.len() == self.repositories@.len(),
            forall|i: int|
                0 <= i < r@.len() ==> (#[trigger] r@[i]).group@ == before_first_slash(
                    self.repositories@[i]@,
                ) && r@[i].name@ == after_last_slash(self.repositories@[i]@),
    {
        let mut r: Vec<Repository> = Vec::new();
        let mut i: usize = 0;
        while i < self.repositories.len()
            invariant
                i <= self.repositories@.len(),
                r@.len() == i,
                forall|k: int|
                    0 <= k < i ==> (#[trigger] r@[k]).group@ == before_first_slash(
                        self.repositories@[k]@,
                    ) && r@[k].name@ == after_last_slash(self.repositories@[k]@),
            decreases self.repositories@.len() - i,
        {
            r.push(Repository::from_slug(self.repositories[i].as_str()));
            i = i + 1;
        }
        r
    }
}

} // verus!
