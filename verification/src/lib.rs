//! A cluster-upgrade controller library.
//!
//! The controller watches a single cluster-wide resource that describes the
//! running and the available software versions of a managed cluster, selects
//! the highest available version, and asks the cluster to converge to it.
//! This crate holds the decision core of that control loop: the semantic
//! version order, the model of the watched resource, and the reconciliation
//! policy, each with a verified contract. Reading the cluster and submitting
//! the patch stay outside; a cycle hands the policy a snapshot and carries
//! its answer back.

pub mod version;
pub mod resource;
pub mod reconcile;
pub mod parse;
