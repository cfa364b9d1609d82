//! Verified core of a load-testing harness for vector-search storage providers:
//! batch preparation, recall measurement, the metric store with its snapshot
//! statistics, and the decision logic of the writer, query and freshness workers.
use vstd::prelude::*;

pub mod decimal;
pub mod document;
mod outside;
pub mod metrics;
pub mod snapshot;
pub mod query;
pub mod config;
pub mod recall;
pub mod names;
pub mod worker;
pub mod stats;
pub mod generator;
pub mod location;
pub mod export;

verus! {

/// Why installing the log subscriber failed.
#[derive(Debug, PartialEq, Eq, Structural)]
pub enum InstallError {
    /// A global subscriber was already installed.
    AlreadyInstalled,
}

/// Installs the process-wide log subscriber.
pub fn install() -> (r: Result<(), InstallError>) {
    if outside::try_init_tracing() {
        Ok(())
    } else {
        Err(InstallError::AlreadyInstalled)
    }
}

/// A fresh identifier for one run of the harness: a random UUID in its
/// 36-character hyphenated form.
pub fn new_run_id() -> (r: String)
    ensures
        r@.len() == 36,
{
    outside::new_uuid_v4()
}

} // verus!
