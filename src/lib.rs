//! Admission rules for deprecated and removed Kubernetes APIs: a table of
//! deprecation events, a checker that answers point queries against it, and
//! the decision that a policy takes from the answer.
pub mod version;
pub mod rule;
pub mod checker;
pub mod policy;
pub mod text;
pub mod metadata;
pub mod tooling;
pub mod table;
pub mod metadata_helper;
pub mod version_helper;
pub mod yaml;
