//! The relay service's configuration data model: plain values only, with
//! durations held as whole seconds. Reading and deserializing the
//! configuration file is the surrounding program's business.
use vstd::prelude::*;

verus! {

/// A secret value, such as a password, kept out of ordinary display paths.
#[derive(Debug, PartialEq, Eq, Clone)]
pub struct Secret {
    pub value: String,
}

impl Secret {
    pub fn new(value: String) -> (r: Secret)
        ensures
            r.value@ == value@,
    {
        Secret { value }
    }
}

/// The whole main configuration.
#[derive(Debug, PartialEq, Eq, Clone)]
pub struct Configuration {
    pub general: GeneralConfig,
    pub processing: ProcessingConfig,
    pub output: OutputConfig,
    pub remote_run: RemoteRun,
    pub shared_files: SharedFiles,
    pub shared_folder: SharedFolder,
}

/// General service settings.
#[derive(Debug, PartialEq, Eq, Clone)]
pub struct GeneralConfig {
    pub nodes_list_file: String,
    pub nodes_certs_file: String,
    pub node_id: String,
    /// The listen address, as text.
    pub listen: String,
    /// `None` means using the number of available processors.
    pub core_threads: Option<u64>,
    pub blocking_threads: u64,
}

/// How often unprocessed inputs are caught up, and how many at once.
#[derive(Debug, PartialEq, Eq, Copy, Clone)]
pub struct CatchupConfig {
    /// Seconds between catchup runs.
    pub frequency: u64,
    pub limit: u64,
}

/// How often processed inputs are cleaned up, and how long they are kept.
#[derive(Debug, PartialEq, Eq, Copy, Clone)]
pub struct CleanupConfig {
    /// Seconds between cleanup runs.
    pub frequency: u64,
    /// Seconds an entry is retained.
    pub retention: u64,
}

/// Ten seconds between catchup runs, by default.
pub fn default_catchup_frequency() -> (r: u64)
    ensures
        r == 10,
{
    10
}

/// Fifty entries per catchup run, by default.
pub fn default_catchup_limit() -> (r: u64)
    ensures
        r == 50,
{
    50
}

/// One hour between cleanup runs, by default.
pub fn default_cleanup_frequency() -> (r: u64)
    ensures
        r == 3600,
{
    3600
}

/// One week of retention, by default.
pub fn default_cleanup_retention() -> (r: u64)
    ensures
        r == 3600 * 24 * 7,
{
    604800
}

/// The two processing pipelines.
#[derive(Debug, PartialEq, Eq, Clone)]
pub struct ProcessingConfig {
    pub inventory: InventoryConfig,
    pub reporting: ReportingConfig,
}

/// The inventory pipeline's settings.
#[derive(Debug, PartialEq, Eq, Clone)]
pub struct InventoryConfig {
    pub directory: String,
    pub output: InventoryOutputSelect,
    pub catchup: CatchupConfig,
    pub cleanup: CleanupConfig,
}

/// Where inventories go.
#[derive(Debug, PartialEq, Eq, Structural, Copy, Clone)]
pub enum InventoryOutputSelect {
    Upstream,
    Disabled,
}

/// The reporting pipeline's settings.
#[derive(Debug, PartialEq, Eq, Clone)]
pub struct ReportingConfig {
    pub directory: String,
    pub output: ReportingOutputSelect,
    pub catchup: CatchupConfig,
    pub cleanup: CleanupConfig,
    pub skip_event_types: Vec<String>,
}

/// Where reports go.
#[derive(Debug, PartialEq, Eq, Structural, Copy, Clone)]
pub enum ReportingOutputSelect {
    Database,
    Upstream,
    Disabled,
}

/// An output destination that can be switched off.
pub trait OutputSelect {
    /// Whether this output is switched off.
    spec fn spec_enabled(&self) -> bool;

    /// Whether this output does anything.
    fn is_enabled(&self) -> (r: bool)
        ensures
            r == self.spec_enabled(),
    ;
}

impl OutputSelect for ReportingOutputSelect {
    open spec fn spec_enabled(&self) -> bool {
        !(self is Disabled)
    }

    fn is_enabled(&self) -> (r: bool) {
        match self {
            ReportingOutputSelect::Disabled => false,
            _ => true,
        }
    }
}

impl OutputSelect for InventoryOutputSelect {
    open spec fn spec_enabled(&self) -> bool {
        !(self is Disabled)
    }

    fn is_enabled(&self) -> (r: bool) {
        match self {
            InventoryOutputSelect::Disabled => false,
            _ => true,
        }
    }
}

/// How remote runs are triggered on this host.
#[derive(Debug, PartialEq, Eq, Clone)]
pub struct RemoteRun {
    /// The agent command to run.
    pub command: String,
    pub use_sudo: bool,
}

/// Where shared files live.
#[derive(Debug, PartialEq, Eq, Clone)]
pub struct SharedFiles {
    pub path: String,
}

/// Where the shared folder lives.
#[derive(Debug, PartialEq, Eq, Clone)]
pub struct SharedFolder {
    pub path: String,
}

/// The two upstream outputs.
#[derive(Debug, PartialEq, Eq, Clone)]
pub struct OutputConfig {
    pub database: DatabaseConfig,
    pub upstream: UpstreamConfig,
}

/// The report database connection.
#[derive(Debug, PartialEq, Eq, Clone)]
pub struct DatabaseConfig {
    /// Connection URL without the password.
    pub url: String,
    pub password: Secret,
    pub max_pool_size: u32,
}

/// The upstream policy server connection.
#[derive(Debug, PartialEq, Eq, Clone)]
pub struct UpstreamConfig {
    pub url: String,
    pub user: String,
    pub password: Secret,
    pub verify_certificates: bool,
}

} // verus!
