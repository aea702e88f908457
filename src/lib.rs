//! Extraction, change detection, synchronisation and restore of chat
//! conversations kept in an editor's embedded key-value store.
//!
//! The library holds the logic of the pipeline as verified code over plain
//! values; the program around it reads and writes the stores.

pub mod model;
pub mod text;
pub mod keys;
pub mod clock;
pub mod records;
pub mod title;
pub mod order;
pub mod extract;
pub mod fingerprint;
pub mod config;
pub mod sync;
pub mod restore;
pub mod workspace;
pub mod system;
pub mod storage;
pub mod format;

pub use crate::config::{AppConfig, PathConfig, StorageConfig, SyncConfig};
pub use crate::extract::{extract_conversations, BubbleEntry, ComposerEntry, ExtractOptions};
pub use crate::format::{truncate, OutputFormat};
pub use crate::keys::{bubble_key, composer_key, extract_composer_id, extract_conversation_id};
pub use crate::model::{
    Bubble, BubbleType, Conversation, ExtractionStats, ModelConfig, ThinkingBlock, TokenCount,
};
pub use crate::records::{
    bubble_from_raw, bubble_record, composer_record, conversation_from_composer, ComposerRecord,
    RawBubble, RawComposer, RawModelConfig, RawThinking, RawTokenCount,
};
pub use crate::restore::{RestoreBatch, RestoreResult, RestoreService};
pub use crate::storage::{BackupMetadata, CleanupResult, StorageManager};
pub use crate::sync::SyncState;
pub use crate::system::{
    matches_pattern, CleanupStats, CursorReset, InstallResult, KillResult, MachineIdResult,
    ResetResult, ServiceStatus, SystemdService,
};
pub use crate::workspace::WorkspaceInfo;
