use cursor_chat_handler::clock::parse_timestamp;
use cursor_chat_handler::{
    extract_composer_id, extract_conversation_id, matches_pattern, truncate, AppConfig,
    CleanupResult, CleanupStats, OutputFormat, ServiceStatus, SyncState, WorkspaceInfo,
};

#[test]
fn test_truncate() {
    assert_eq!(truncate("hello", 10), "hello");
    assert_eq!(truncate("hello world!", 8), "hello...");
}

#[test]
fn test_output_format_from_str() {
    assert!(matches!(
        "markdown".parse::<OutputFormat>(),
        Ok(OutputFormat::Markdown)
    ));
    assert!(matches!("json".parse::<OutputFormat>(), Ok(OutputFormat::Json)));
    assert!(matches!("table".parse::<OutputFormat>(), Ok(OutputFormat::Table)));
    assert!("invalid".parse::<OutputFormat>().is_err());
}

#[test]
fn test_extract_conversation_id() {
    let key = "bubbleId:abc-123:def-456";
    assert_eq!(extract_conversation_id(key), Some("abc-123"));
}

#[test]
fn test_extract_composer_id() {
    let key = "composerData:abc-123";
    assert_eq!(extract_composer_id(key), Some("abc-123"));
}

#[test]
fn test_parse_datetime_iso() {
    let dt = parse_timestamp("2025-12-01T16:25:48.612Z");
    assert!(dt.is_some());
}

#[test]
fn test_parse_datetime_millis() {
    let dt = parse_timestamp("1764561943374");
    assert!(dt.is_some());
}

#[test]
fn test_cleanup_result_default() {
    let result = CleanupResult::default();
    assert_eq!(result.deleted_count, 0);
    assert_eq!(result.freed_bytes, 0);
}

#[test]
fn test_default_config() {
    let config = AppConfig::default();
    assert_eq!(config.sync.interval_secs, 120);
    assert!(config.sync.enabled);
    assert_eq!(config.storage.max_size_gb, 10);
}

#[test]
fn test_sync_state_transitions() {
    let state = SyncState::default()
        .syncing()
        .with_sync_time(1764561943374)
        .completed();

    assert!(!state.is_syncing);
    assert!(state.last_sync.is_some());
}

#[test]
fn test_workspace_from_uri() {
    let ws = WorkspaceInfo::from_uri("file:///home/user/projects/my-app");
    assert_eq!(ws.name, "my-app");
    assert_eq!(ws.path, Some("/home/user/projects/my-app".to_string()));
}

#[test]
fn test_matches_pattern() {
    assert!(matches_pattern("cursor.desktop", "cursor*.desktop"));
    assert!(matches_pattern("cursor-app.desktop", "cursor*.desktop"));
    assert!(!matches_pattern("other.desktop", "cursor*.desktop"));

    assert!(matches_pattern("cursor.png", "cursor*.*"));
    assert!(matches_pattern("cursor-icon.svg", "cursor*.*"));
}

#[test]
fn test_cleanup_stats_merge() {
    let mut stats1 = CleanupStats {
        dirs_removed: 2,
        files_removed: 5,
        paths_cleaned: vec!["a".into()],
        paths_skipped: vec![],
    };

    let stats2 = CleanupStats {
        dirs_removed: 1,
        files_removed: 3,
        paths_cleaned: vec!["b".into()],
        paths_skipped: vec!["c".into()],
    };

    stats1.merge(stats2);

    assert_eq!(stats1.dirs_removed, 3);
    assert_eq!(stats1.files_removed, 8);
    assert_eq!(stats1.paths_cleaned.len(), 2);
}

#[test]
fn test_service_status_short() {
    let status = ServiceStatus {
        is_installed: true,
        is_enabled: true,
        is_running: true,
        status_text: String::new(),
    };
    assert_eq!(status.short_status(), "running");

    let status = ServiceStatus {
        is_installed: false,
        is_enabled: false,
        is_running: false,
        status_text: String::new(),
    };
    assert_eq!(status.short_status(), "not installed");
}

#[test]
fn test_backup_expiry() {
    let now = 1764561943374;
    let backup = cursor_chat_handler::BackupMetadata::new(
        "test".to_string(),
        now,
        1000,
        5,
        "abc123".to_string(),
        "/tmp/backup.db".to_string(),
    );

    // Fresh backup should not be expired
    assert!(!backup.is_expired(now, 30));
}
