//! Configuration and scaffolding for a durable, remote snapshot store.
//! The remote operations themselves are not part of this core; only the
//! configuration shape and the local checks are.

use vstd::prelude::*;
use vstd::string::StringExecFns;

verus! {

/// Configuration for connecting to the remote snapshot store.
#[derive(Debug)]
pub struct QdrantStoreConfig {
    /// The server address.
    pub url: String,
    /// The collection to use.
    pub collection_name: String,
    /// An optional API key for authentication.
    pub api_key: Option<String>,
    /// Whether to store historical snapshots.
    pub enable_history: bool,
    /// Days to retain history, or forever when absent.
    pub history_retention_days: Option<u32>,
    /// Connection timeout in seconds.
    pub connect_timeout_secs: u64,
    /// Request timeout in seconds.
    pub request_timeout_secs: u64,
}

impl Default for QdrantStoreConfig {
    /// A local server, the default collection, no key, no history, and
    /// ten- and thirty-second timeouts.
    fn default() -> (r: Self)
        ensures
            r.url@ == "http://localhost:6334"@,
            r.collection_name@ == "attuned_state"@,
            r.api_key is None,
            r.enable_history == false,
            r.history_retention_days is None,
            r.connect_timeout_secs == 10,
            r.request_timeout_secs == 30,
    {
        QdrantStoreConfig {
            url: String::from_str("http://localhost:6334"),
            collection_name: String::from_str("attuned_state"),
            api_key: None,
            enable_history: false,
            history_retention_days: None,
            connect_timeout_secs: 10,
            request_timeout_secs: 30,
        }
    }
}

/// Failures of the remote snapshot store.
#[derive(Debug)]
pub enum QdrantError {
    /// The server could not be reached.
    Connection(String),
    /// An operation against the server failed.
    Operation(String),
    /// The named collection does not exist.
    CollectionNotFound(String),
    /// A snapshot could not be encoded or decoded.
    Serialization(String),
}

/// Handle to a remote snapshot store; holds the configuration it was
/// opened with.
#[derive(Debug)]
pub struct QdrantStore {
    config: QdrantStoreConfig,
}

impl QdrantStore {
    /// The configuration this handle was opened with.
    pub closed spec fn spec_config(&self) -> QdrantStoreConfig {
        self.config
    }

    /// Opens a handle with the given configuration.
    pub fn new(config: QdrantStoreConfig) -> (r: Result<Self, QdrantError>)
        ensures
            r matches Ok(s) && s.spec_config() == config,
    {
        Ok(QdrantStore { config })
    }

    /// Whether the remote server answers; this scaffolding always
    /// reports that it does.
    pub fn health_check(&self) -> (r: Result<bool, QdrantError>)
        ensures
            r matches Ok(b) && b,
    {
        Ok(true)
    }
}

} // verus!
