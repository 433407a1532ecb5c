//! Index management for a package registry: version records, the
//! line-framed record files, the sharded layout of the index tree, and the
//! decisions of the refresh-mutate-commit-push cycle.

pub mod catalogue;
pub mod codec;
pub mod config;
pub mod error;
pub mod index;
pub mod layout;
pub mod record;
pub mod sync;
pub mod version;
