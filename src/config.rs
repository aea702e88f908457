//! Configuration values, threaded explicitly through the services.

use vstd::prelude::*;
use vstd::string::StringExecFns;
use crate::text::owned;

verus! {

/// Settings of the background sync.
#[derive(Debug, Clone, Copy, PartialEq, Eq, Structural)]
pub struct SyncConfig {
    /// Seconds between two sync cycles.
    pub interval_secs: u64,
    /// Whether sync runs at all.
    pub enabled: bool,
}

/// Default seconds between two sync cycles.
pub const DEFAULT_INTERVAL_SECS: u64 = 120;

/// Default storage limit in gigabytes.
pub const DEFAULT_MAX_SIZE_GB: u64 = 10;

/// Default days a backup is kept.
pub const DEFAULT_RETENTION_DAYS: u32 = 30;

/// Bytes in a gigabyte.
pub const GIGABYTE: u64 = 1073741824;

impl Default for SyncConfig {
    fn default() -> (r: SyncConfig)
        ensures
            r.interval_secs == DEFAULT_INTERVAL_SECS && r.enabled,
    {
        SyncConfig { interval_secs: DEFAULT_INTERVAL_SECS, enabled: true }
    }
}

/// Settings of the local storage.
#[derive(Debug, Clone, Copy, PartialEq, Eq, Structural)]
pub struct StorageConfig {
    /// Storage limit in gigabytes.
    pub max_size_gb: u64,
    /// Days a backup is kept.
    pub backup_retention_days: u32,
    /// Whether backups are compressed.
    pub compression: bool,
}

impl Default for StorageConfig {
    fn default() -> (r: StorageConfig)
        ensures
            r.max_size_gb == DEFAULT_MAX_SIZE_GB && r.backup_retention_days == DEFAULT_RETENTION_DAYS
                && r.compression,
    {
        StorageConfig {
            max_size_gb: DEFAULT_MAX_SIZE_GB,
            backup_retention_days: DEFAULT_RETENTION_DAYS,
            compression: true,
        }
    }
}

/// Paths that the configuration may set.
#[derive(Debug, Clone)]
pub struct PathConfig {
    /// Base data directory; the caller's default applies when absent.
    pub data_dir: Option<String>,
}

impl Default for PathConfig {
    fn default() -> (r: PathConfig)
        ensures
            r.data_dir.is_none(),
    {
        PathConfig { data_dir: None }
    }
}

/// The whole configuration.
#[derive(Debug, Clone)]
pub struct AppConfig {
    pub sync: SyncConfig,
    pub storage: StorageConfig,
    pub paths: PathConfig,
}

impl Default for AppConfig {
    fn default() -> (r: AppConfig)
        ensures
            r.sync.interval_secs == DEFAULT_INTERVAL_SECS && r.sync.enabled,
            r.storage.max_size_gb == DEFAULT_MAX_SIZE_GB,
            r.storage.backup_retention_days == DEFAULT_RETENTION_DAYS,
            r.storage.compression,
            r.paths.data_dir.is_none(),
    {
        AppConfig { sync: SyncConfig::default(), storage: StorageConfig::default(), paths: PathConfig::default() }
    }
}

/// A relative name appended to a directory path, as `Path::join` does.
pub open spec fn joined_path(dir: Seq<char>, name: Seq<char>) -> Seq<char> {
    if dir.len() == 0 {
        name
    } else if dir.last() == '/' {
        dir + name
    } else {
        dir + seq!['/'] + name
    }
}

/// Appends a relative name to a directory path.
pub fn join_path(dir: &str, name: &str) -> (r: String)
    ensures
        r@ == joined_path(dir@, name@),
{
    let n = dir.unicode_len();
    if n == 0 {
        return owned(name);
    }
    let mut out = owned(dir);
    if dir.get_char(n - 1) != '/' {
        out.append("/");
        proof {
            reveal_strlit("/");
        }
    }
    out.append(name);
    proof {
        assert(dir@.last() == dir@[n - 1]);
        if dir@.last() == '/' {
            assert(out@ =~= dir@ + name@);
        } else {
            assert(out@ =~= dir@ + seq!['/'] + name@);
        }
    }
    out
}

/// The data directory: the configured one, else `default_dir`.
pub open spec fn data_dir_of(c: AppConfig, default_dir: Seq<char>) -> Seq<char> {
    match c.paths.data_dir {
        Some(d) => d@,
        None => default_dir,
    }
}

impl AppConfig {
    /// The data directory: the configured one, else `default_dir`.
    pub fn data_dir(&self, default_dir: &str) -> (r: String)
        ensures
            r@ == data_dir_of(*self, default_dir@),
    {
        match &self.paths.data_dir {
            Some(d) => d.clone(),
            None => owned(default_dir),
        }
    }

    /// Path of the local store.
    pub fn storage_db_path(&self, default_dir: &str) -> (r: String)
        ensures
            r@ == joined_path(data_dir_of(*self, default_dir@), "storage.db"@),
    {
        join_path(self.data_dir(default_dir).as_str(), "storage.db")
    }

    /// Path of the configuration file.
    pub fn config_file_path(&self, default_dir: &str) -> (r: String)
        ensures
            r@ == joined_path(data_dir_of(*self, default_dir@), "config.toml"@),
    {
        join_path(self.data_dir(default_dir).as_str(), "config.toml")
    }

    /// Path of the lock file.
    pub fn lock_file_path(&self, default_dir: &str) -> (r: String)
        ensures
            r@ == joined_path(data_dir_of(*self, default_dir@), "sync.lock"@),
    {
        join_path(self.data_dir(default_dir).as_str(), "sync.lock")
    }

    /// Directory of exports.
    pub fn exports_dir(&self, default_dir: &str) -> (r: String)
        ensures
            r@ == joined_path(data_dir_of(*self, default_dir@), "exports"@),
    {
        join_path(self.data_dir(default_dir).as_str(), "exports")
    }

    /// Directory of backups.
    pub fn backups_dir(&self, default_dir: &str) -> (r: String)
        ensures
            r@ == joined_path(data_dir_of(*self, default_dir@), "backups"@),
    {
        join_path(self.data_dir(default_dir).as_str(), "backups")
    }

    /// The storage limit in bytes.
    pub fn max_storage_bytes(&self) -> (r: u64)
        requires
            self.storage.max_size_gb * GIGABYTE <= u64::MAX,
        ensures
            r == self.storage.max_size_gb * GIGABYTE,
    {
        self.storage.max_size_gb * GIGABYTE
    }
}

} // verus!
