//! A point-in-time description of a cluster's nodes, joined from a cloud
//! inventory and a workload scheduler, with lookups over it.

pub mod address;
pub mod bitte;
pub mod cli;
pub mod error;
pub mod ident;
pub mod nomad;
pub mod search;
pub mod text;
pub mod vault;
