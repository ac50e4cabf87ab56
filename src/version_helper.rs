//! The arguments of the package-version helper.
use crate::tooling::Commands;
use vstd::prelude::*;

verus! {

/// The arguments of the package-version helper.
pub struct Cli {
    /// Path to the Cargo.toml of the policy.
    pub manifest_path: String,
    /// Path to the versions file.
    pub versions_path: String,
    pub command: Option<Commands>,
}

impl Cli {
    pub fn new(manifest_path: String, versions_path: String, command: Option<Commands>) -> (r: Cli)
        ensures
            r.manifest_path@ == manifest_path@,
            r.versions_path@ == versions_path@,
            r.command == command,
    {
        Cli { manifest_path, versions_path, command }
    }

    /// The complaint when no path to the Cargo.toml was given.
    pub fn missing_path(&self) -> (r: Option<String>)
        ensures
            r is Some <==> self.manifest_path@.len() == 0,
            r matches Some(m) ==> m@ == "You must provide the path to the Cargo.toml file of the policy"@,
    {
        if self.manifest_path.as_str().is_empty() {
            Some(String::from_str("You must provide the path to the Cargo.toml file of the policy"))
        } else {
            None
        }
    }
}

} // verus!
