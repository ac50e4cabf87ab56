//! The arguments of the metadata-rules helper.
use crate::tooling::Commands;
use vstd::prelude::*;

verus! {

/// The arguments of the metadata-rules helper.
pub struct Cli {
    /// Path to the metadata.yml of the policy.
    pub metadata_path: String,
    /// Path to the versions file.
    pub versions_path: String,
    pub command: Option<Commands>,
}

impl Cli {
    pub fn new(metadata_path: String, versions_path: String, command: Option<Commands>) -> (r: Cli)
        ensures
            r.metadata_path@ == metadata_path@,
            r.versions_path@ == versions_path@,
            r.command == command,
    {
        Cli { metadata_path, versions_path, command }
    }

    /// The complaint when no path to the metadata.yml was given.
    pub fn missing_path(&self) -> (r: Option<String>)
        ensures
            r is Some <==> self.metadata_path@.len() == 0,
            r matches Some(m) ==> m@ == "You must provide the path to the metadata.yml file of the policy"@,
    {
        if self.metadata_path.as_str().is_empty() {
            Some(String::from_str("You must provide the path to the metadata.yml file of the policy"))
        } else {
            None
        }
    }
}

} // verus!
