//! The decisions of a Kubernetes backup operator, verified.
//!
//! The operator's controllers read the cluster, decide, and write the cluster. This
//! crate holds what they decide: plain values in, plain values out, each function with
//! a contract that says exactly what it returns. Reading and writing are left to the
//! process around it.
//!
//! * [`leader`] elects one replica by a Lease, so that no two lead at once.
//! * [`io`] looks after the objects: credentials, repositories, staging of volumes,
//!   conditions and status patches.
//! * [`replication_run`], [`maintenance`], [`naming`] and [`pool`] name and count Jobs.
//! * [`metrics`] and [`kube_metrics`] say what is measured, and under which labels.
//! * [`text`], [`strmap`], [`clock`], [`consts`] and [`error`] are what these rest on.
pub mod clock;
pub mod consts;
pub mod error;
pub mod io;
pub mod kube_metrics;
pub mod leader;
pub mod maintenance;
pub mod metrics;
pub mod naming;
pub mod pool;
pub mod replication_run;
pub mod strmap;
pub mod text;
