//! Decisions around the cluster's objects. What reads and writes the cluster
//! calls them.
pub mod apply;
pub mod cached;
pub mod conditions;
pub mod creds;
pub mod group_staging;
pub mod maintenance;
pub mod meta;
pub mod prune;
pub mod repo;
pub mod staging;
pub mod staging_run;
