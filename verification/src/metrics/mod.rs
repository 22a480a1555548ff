//! What the operator tells about itself on `/metrics`.
//!
//! [`instruments`] holds what is counted and set when something happens,
//! [`series`] what is read off the objects of the cluster, [`deletions`] what is
//! counted of those that are being deleted, [`observe`] the gauges over both,
//! [`memory`] the process itself.
pub mod deletions;
pub mod instruments;
pub mod memory;
pub mod observe;
pub mod series;
pub mod table;
