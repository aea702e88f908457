//! Storage limits of the local data directory.

use vstd::prelude::*;
use crate::config::{AppConfig, GIGABYTE};

verus! {

/// Seconds in a day.
pub const SECONDS_PER_DAY: u64 = 86400;

/// Decides on storage limits and backup retention.
#[derive(Debug, Clone)]
pub struct StorageManager {
    config: AppConfig,
}

/// Result of a cleanup.
#[derive(Debug, Clone, Copy, PartialEq, Eq, Structural)]
pub struct CleanupResult {
    /// Files deleted.
    pub deleted_count: usize,
    /// Bytes freed.
    pub freed_bytes: u64,
}

impl Default for CleanupResult {
    fn default() -> (r: CleanupResult)
        ensures
            r.deleted_count == 0 && r.freed_bytes == 0,
    {
        CleanupResult { deleted_count: 0, freed_bytes: 0 }
    }
}

impl CleanupResult {
    /// Adds another cleanup's counts to these.
    pub fn add(&mut self, other: &CleanupResult)
        requires
            old(self).deleted_count + other.deleted_count <= usize::MAX,
            old(self).freed_bytes + other.freed_bytes <= u64::MAX,
        ensures
            final(self).deleted_count == old(self).deleted_count + other.deleted_count,
            final(self).freed_bytes == old(self).freed_bytes + other.freed_bytes,
    {
        self.deleted_count = self.deleted_count + other.deleted_count;
        self.freed_bytes = self.freed_bytes + other.freed_bytes;
    }
}

impl StorageManager {
    /// A manager for the given configuration.
    pub fn new(config: AppConfig) -> (r: StorageManager)
        ensures
            r.config() == config,
    {
        StorageManager { config }
    }

    /// The configuration of the manager.
    pub closed spec fn config(&self) -> AppConfig {
        self.config
    }

    /// Whether a data directory of `current_bytes` is within the limit.
    pub fn is_within_limits(&self, current_bytes: u64) -> (r: bool)
        requires
            self.config().storage.max_size_gb * GIGABYTE <= u64::MAX,
        ensures
            r == (current_bytes < self.config().storage.max_size_gb * GIGABYTE),
    {
        current_bytes < self.config.max_storage_bytes()
    }

    /// Whether a backup `age_secs` old has outlived the retention period;
    /// age is counted in whole days.
    pub fn is_backup_expired(&self, age_secs: u64) -> (r: bool)
        ensures
            r == (age_secs / SECONDS_PER_DAY > self.config().storage.backup_retention_days),
    {
        age_secs / SECONDS_PER_DAY > self.config.storage.backup_retention_days as u64
    }
}

/// Milliseconds in a day.
pub const MILLIS_PER_DAY: i64 = 86400000;

/// Metadata of a backup file.
#[derive(Debug, Clone)]
pub struct BackupMetadata {
    /// Identity of the backup.
    pub id: String,
    /// Creation time, in milliseconds since the epoch.
    pub created_at: i64,
    /// Size in bytes.
    pub size_bytes: u64,
    /// Conversations it holds.
    pub conversation_count: usize,
    /// Hash of its content.
    pub content_hash: String,
    /// Whether it is compressed.
    pub is_compressed: bool,
    /// Where the file is.
    pub file_path: String,
}

/// Whether something created at `created_at` is more than `days` whole days
/// old at `now` (both in milliseconds since the epoch).
pub open spec fn older_than_days(created_at: i64, now: i64, days: u32) -> bool {
    now - created_at >= (days + 1) * MILLIS_PER_DAY
}

impl BackupMetadata {
    /// Metadata of an uncompressed backup made at `created_at`.
    pub fn new(
        id: String,
        created_at: i64,
        size_bytes: u64,
        conversation_count: usize,
        content_hash: String,
        file_path: String,
    ) -> (r: BackupMetadata)
        ensures
            r.id == id && r.created_at == created_at && r.size_bytes == size_bytes
                && r.conversation_count == conversation_count && r.content_hash == content_hash
                && !r.is_compressed && r.file_path == file_path,
    {
        BackupMetadata { id, created_at, size_bytes, conversation_count, content_hash, is_compressed: false, file_path }
    }

    /// The same metadata, marked as compressed.
    pub fn compressed(self) -> (r: BackupMetadata)
        ensures
            r == (BackupMetadata { is_compressed: true, ..self }),
    {
        BackupMetadata { is_compressed: true, ..self }
    }

    /// Whether the backup is more than `retention_days` whole days old at
    /// `now_ms`.
    pub fn is_expired(&self, now_ms: i64, retention_days: u32) -> (r: bool)
        ensures
            r == older_than_days(self.created_at, now_ms, retention_days),
    {
        let age: i128 = now_ms as i128 - self.created_at as i128;
        let days: i128 = retention_days as i128 + 1;
        proof {
            assert(0 <= days * 86400000 <= 4294967296 * 86400000) by (nonlinear_arith)
                requires
                    1 <= days <= 4294967296,
            ;
        }
        age >= days * (MILLIS_PER_DAY as i128)
    }
}

} // verus!
