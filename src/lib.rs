//! Branch and pull-request dashboard core: the repository snapshot cache with its
//! single-flight refresh protocol, the aggregation of pull-request events into
//! human-readable updates, and the mapping of version-control responses into
//! repository snapshots.
pub mod text;
pub mod clock;
pub mod pr_model;
pub mod aggregate;
pub mod pr_updates;
pub mod repositories;
pub mod cache;
pub mod config;
pub mod webhook;
pub mod bitbucket;
pub mod gitlab;
