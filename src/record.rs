//! Version records: the metadata of one published release of a package.

use vstd::prelude::*;
use crate::version::Version;

verus! {

/// One dependency of a release, carried as it was published.
#[derive(Debug, Clone)]
pub struct Dependency {
    /// Name of the dependency.
    pub name: String,
    /// Version requirement on it.
    pub req: String,
    /// Features of the dependency that are switched on.
    pub features: Vec<String>,
    /// Whether the dependency is optional.
    pub optional: bool,
    /// Whether the dependency's default features are on.
    pub default_features: bool,
    /// Platform the dependency is limited to.
    pub target: Option<String>,
    /// Kind of dependency (`normal`, `dev`, `build`).
    pub kind: Option<String>,
}

/// The record of one published version of a package.
#[derive(Debug)]
pub struct CrateVersion {
    /// Name of the package.
    pub name: String,
    /// The published version.
    pub vers: Version,
    /// Its dependencies.
    pub deps: Vec<Dependency>,
    /// Its features, each with what it switches on; names are unique.
    pub features: Vec<(String, Vec<String>)>,
    /// Hex digest of the published archive.
    pub cksum: String,
    /// Whether the version is yanked; unset counts as not yanked.
    pub yanked: Option<bool>,
}

/// Whether the record is marked yanked.
pub open spec fn is_yanked(r: CrateVersion) -> bool {
    r.yanked == Some(true)
}

/// Whether the record is the one of package `name` at version `v`.
pub open spec fn is_key(r: CrateVersion, name: Seq<char>, v: Seq<char>) -> bool {
    r.name@ == name && r.vers@ == v
}

/// The `(name, version)` pair that identifies a record.
pub open spec fn key_of(r: CrateVersion) -> (Seq<char>, Seq<char>) {
    (r.name@, r.vers@)
}

/// The record with its yank flag set to `flag` and nothing else changed.
pub open spec fn with_yanked(r: CrateVersion, flag: Option<bool>) -> CrateVersion {
    CrateVersion { yanked: flag, ..r }
}

impl CrateVersion {
    /// Whether this record is marked yanked.
    pub fn is_yanked(&self) -> (r: bool)
        ensures
            r == is_yanked(*self),
    {
        match self.yanked {
            Some(b) => b,
            None => false,
        }
    }
}

} // verus!
