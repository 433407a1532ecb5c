//! Configuration of the registry's collaborators.

use vstd::prelude::*;

verus! {

/// The database configuration.
#[derive(Debug, Clone, PartialEq)]
pub struct DatabaseConfig {
    /// The database connection URL.
    pub url: String,
}

} // verus!
