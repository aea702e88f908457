use cursor_chat_handler::clock::{parse_timestamp, timestamp_from_millis};
use cursor_chat_handler::extract::matches_any_filter;
use cursor_chat_handler::order::sort_bubbles;
use cursor_chat_handler::sync::{changed_conversations, needs_write};
use cursor_chat_handler::text::blank;
use cursor_chat_handler::workspace::file_name;
use cursor_chat_handler::{
    bubble_from_raw, bubble_key, bubble_record, composer_key, composer_record,
    conversation_from_composer, extract_conversations, AppConfig, Bubble, BubbleEntry, BubbleType,
    ComposerEntry, Conversation, ExtractOptions, ModelConfig, OutputFormat, RawBubble, RawComposer,
    RawModelConfig, RawThinking, RawTokenCount, RestoreService, StorageManager, SyncState,
    ThinkingBlock, TokenCount, WorkspaceInfo,
};

fn raw_bubble(id: &str, code: u8, text: &str, created_at: Option<&str>) -> RawBubble {
    RawBubble {
        version: Some(10),
        bubble_type: code,
        bubble_id: id.to_string(),
        text: text.to_string(),
        created_at: created_at.map(|s| s.to_string()),
        thinking: None,
        thinking_duration_ms: None,
        token_count: None,
        is_agentic: false,
        workspace_uri: None,
        workspace_project_dir: None,
    }
}

fn raw_composer(created_at: Option<u64>, model: &str) -> RawComposer {
    RawComposer {
        version: None,
        created_at,
        model_config: Some(RawModelConfig { model_name: model.to_string(), max_mode: false }),
        unified_mode: None,
    }
}

fn bubble(id: &str, text: &str, created_at: Option<i64>) -> Bubble {
    Bubble {
        bubble_id: id.to_string(),
        bubble_type: BubbleType::User,
        text: text.to_string(),
        created_at,
        thinking: None,
        thinking_duration_ms: None,
        token_count: TokenCount { input_tokens: 0, output_tokens: 0 },
        is_agentic: false,
    }
}

fn conversation(id: &str, title: &str, bubbles: Vec<Bubble>) -> Conversation {
    Conversation {
        composer_id: id.to_string(),
        title: title.to_string(),
        created_at: None,
        model_config: ModelConfig { model_name: String::new(), max_mode: false },
        unified_mode: String::new(),
        bubbles,
    }
}

#[test]
fn scenario_one_composer_one_user_bubble() {
    let composers = vec![ComposerEntry {
        key: "composerData:c1".to_string(),
        composer: Some(raw_composer(Some(1700000000000), "gpt-x")),
    }];
    let bubbles = vec![BubbleEntry {
        key: "bubbleId:c1:b1".to_string(),
        bubble: Some(raw_bubble("b1", 1, "hi", None)),
    }];
    let (convs, stats) = extract_conversations(&composers, &bubbles, &ExtractOptions::default());
    assert_eq!(convs.len(), 1);
    let c = &convs[0];
    assert_eq!(c.composer_id, "c1");
    assert_eq!(c.created_at, Some(1700000000000));
    assert_eq!(c.model_config.model_name, "gpt-x");
    assert_eq!(c.bubbles.len(), 1);
    assert_eq!(c.bubbles[0].bubble_type, BubbleType::User);
    assert_eq!(c.message_count(), 1);
    assert_eq!(c.user_message_count(), 1);
    assert_eq!(c.assistant_message_count(), 0);
    assert_eq!(c.title, "hi");
    assert_eq!(stats.conversation_count, 1);
    assert_eq!(stats.total_bubbles, 1);
    assert_eq!(stats.user_messages, 1);
}

#[test]
fn orphan_bubble_gets_placeholder_conversation() {
    let composers = vec![ComposerEntry {
        key: "composerData:c1".to_string(),
        composer: Some(raw_composer(None, "m")),
    }];
    let bubbles = vec![BubbleEntry {
        key: "bubbleId:lost:b9".to_string(),
        bubble: Some(raw_bubble("b9", 2, "answer", Some("1700000000000"))),
    }];
    let (convs, _) = extract_conversations(&composers, &bubbles, &ExtractOptions::default());
    assert_eq!(convs.len(), 2);
    let orphan = convs.iter().find(|c| c.composer_id == "lost").unwrap();
    assert_eq!(orphan.bubbles.len(), 1);
    assert_eq!(orphan.bubbles[0].bubble_id, "b9");
    assert_eq!(orphan.created_at, Some(1700000000000));
    assert_eq!(orphan.title, "conversa");
    assert_eq!(orphan.unified_mode, "");
    assert_eq!(orphan.model_config.model_name, "");
}

#[test]
fn corrupt_composer_is_skipped_alone() {
    let mut composers = Vec::new();
    for i in 0..10 {
        let parsed = if i == 4 { None } else { Some(raw_composer(Some(1000 + i as u64), "m")) };
        composers.push(ComposerEntry { key: format!("composerData:id{}", i), composer: parsed });
    }
    let (convs, stats) = extract_conversations(&composers, &Vec::new(), &ExtractOptions::default());
    assert_eq!(convs.len(), 9);
    assert_eq!(stats.conversation_count, 9);
    assert!(convs.iter().all(|c| c.composer_id != "id4"));
    // newest first
    assert_eq!(convs[0].composer_id, "id9");
    assert_eq!(convs[8].composer_id, "id0");
}

#[test]
fn corrupt_bubble_is_skipped_alone() {
    let bubbles = vec![
        BubbleEntry { key: "bubbleId:c:b1".to_string(), bubble: Some(raw_bubble("b1", 1, "one", None)) },
        BubbleEntry { key: "bubbleId:c:b2".to_string(), bubble: None },
        BubbleEntry { key: "bubbleId:c:b3".to_string(), bubble: Some(raw_bubble("b3", 2, "three", None)) },
    ];
    let (convs, stats) = extract_conversations(&Vec::new(), &bubbles, &ExtractOptions::default());
    assert_eq!(convs.len(), 1);
    assert_eq!(convs[0].bubbles.len(), 2);
    assert_eq!(stats.total_bubbles, 2);
    assert_eq!(stats.assistant_messages, 1);
}

#[test]
fn blank_messages_are_dropped_unless_asked() {
    let bubbles = vec![
        BubbleEntry { key: "bubbleId:c:b1".to_string(), bubble: Some(raw_bubble("b1", 1, " \n\t", None)) },
        BubbleEntry { key: "bubbleId:c:b2".to_string(), bubble: Some(raw_bubble("b2", 1, "x", None)) },
    ];
    let (convs, _) = extract_conversations(&Vec::new(), &bubbles, &ExtractOptions::default());
    assert_eq!(convs[0].bubbles.len(), 1);
    let opts = ExtractOptions { include_empty: true, ..ExtractOptions::default() };
    let (convs, _) = extract_conversations(&Vec::new(), &bubbles, &opts);
    assert_eq!(convs[0].bubbles.len(), 2);
    assert!(blank(""));
    assert!(blank(" \u{3000}\n"));
    assert!(!blank(" a "));
}

#[test]
fn filters_and_min_messages() {
    let bubbles = vec![
        BubbleEntry { key: "bubbleId:abc-1:b1".to_string(), bubble: Some(raw_bubble("b1", 1, "x", None)) },
        BubbleEntry { key: "bubbleId:xyz-2:b2".to_string(), bubble: Some(raw_bubble("b2", 1, "y", None)) },
        BubbleEntry { key: "bubbleId:xyz-2:b3".to_string(), bubble: Some(raw_bubble("b3", 1, "z", None)) },
    ];
    let opts = ExtractOptions { conversation_ids: Some(vec!["bc".to_string()]), ..ExtractOptions::default() };
    let (convs, _) = extract_conversations(&Vec::new(), &bubbles, &opts);
    assert_eq!(convs.len(), 1);
    assert_eq!(convs[0].composer_id, "abc-1");
    let opts = ExtractOptions { min_messages: 2, ..ExtractOptions::default() };
    let (convs, _) = extract_conversations(&Vec::new(), &bubbles, &opts);
    assert_eq!(convs.len(), 1);
    assert_eq!(convs[0].composer_id, "xyz-2");
    assert!(matches_any_filter("abc-123", &vec!["zz".to_string(), "abc".to_string()]));
    assert!(!matches_any_filter("abc-123", &vec!["zz".to_string()]));
}

#[test]
fn bubbles_sort_by_time_stably() {
    let v = vec![
        bubble("late", "a", Some(30)),
        bubble("none1", "b", None),
        bubble("early", "c", Some(10)),
        bubble("tie1", "d", Some(20)),
        bubble("none2", "e", None),
        bubble("tie2", "f", Some(20)),
    ];
    let sorted = sort_bubbles(v);
    let ids: Vec<&str> = sorted.iter().map(|b| b.bubble_id.as_str()).collect();
    assert_eq!(ids, vec!["none1", "none2", "early", "tie1", "tie2", "late"]);
}

#[test]
fn title_from_first_user_message() {
    let mut a = bubble("b0", "ignored", None);
    a.bubble_type = BubbleType::Assistant;
    let c = conversation("c", "", vec![a, bubble("b1", "Fix the Parser, please! It's BROKEN", None)]);
    assert_eq!(c.generate_title(), "fix_the_parser_please_its_broken");
    let long = "one two three four five six seven eight nine ten eleven twelve thirteen";
    let c = conversation("c", "", vec![bubble("b1", long, None)]);
    assert_eq!(c.generate_title(), "one_two_three_four_five_six_seven_eight");
    let c = conversation("c", "", vec![]);
    assert_eq!(c.generate_title(), "conversa");
    let c = conversation("c", "", vec![bubble("b1", "Ärger über Öl", None)]);
    assert_eq!(c.generate_title(), "ärger_über_öl");
}

#[test]
fn fingerprint_exact_values() {
    let c = conversation("c1", "hi", vec![bubble("b1", "hi", None)]);
    assert_eq!(c.fingerprint(), "a8f3449ba3fbd14f");
    let empty = conversation("", "", vec![]);
    assert_eq!(empty.fingerprint(), "de322d9a6c0f2fb7");
}

#[test]
fn fingerprint_sees_recent_edits_only() {
    let make = |edit: Option<usize>| {
        let bubbles = (0..20)
            .map(|i| {
                let text = if Some(i) == edit { format!("edited {}", i) } else { format!("text {}", i) };
                bubble(&format!("b{}", i), &text, Some(i as i64))
            })
            .collect();
        conversation("conv", "title", bubbles)
    };
    let base = make(None).fingerprint();
    assert_eq!(base, make(None).fingerprint());
    assert_eq!(base, make(Some(0)).fingerprint());
    assert_eq!(base, make(Some(14)).fingerprint());
    for k in 15..20 {
        assert_ne!(base, make(Some(k)).fingerprint());
    }
}

#[test]
fn second_sync_writes_nothing() {
    let convs = vec![
        conversation("a", "t", vec![bubble("b1", "x", None)]),
        conversation("b", "u", vec![bubble("b2", "y", None)]),
    ];
    let stored = vec![None, Some("0".to_string())];
    assert_eq!(changed_conversations(&convs, &stored), vec![true, true]);
    let stored: Vec<Option<String>> = convs.iter().map(|c| Some(c.fingerprint())).collect();
    assert_eq!(changed_conversations(&convs, &stored), vec![false, false]);
    assert!(needs_write(&"abc".to_string(), &None));
    assert!(!needs_write(&"abc".to_string(), &Some("abc".to_string())));
}

#[test]
fn auto_restore_threshold() {
    let service = RestoreService::new(AppConfig::default());
    assert!(service.needs_restore(true, true, 100, 40));
    assert!(!service.needs_restore(true, true, 100, 60));
    assert!(!service.needs_restore(true, true, 100, 50));
    assert!(service.needs_restore(true, false, 0, 0));
    assert!(!service.needs_restore(false, false, 100, 0));
    assert!(service.needs_restore(true, true, 1, 0));
    assert!(!service.needs_restore(true, true, 0, 0));
    assert!(service.needs_restore(true, true, 101, 50));
    assert!(!service.needs_restore(true, true, 100, 50));
    assert!(!service.needs_restore(true, true, usize::MAX, usize::MAX / 2 + 1));
    let strict = RestoreService::new(AppConfig::default()).with_reset_factor(4);
    assert!(!strict.needs_restore(true, true, 100, 40));
    assert!(strict.needs_restore(true, true, 100, 24));
    assert!(service.cursor_is_empty(false, 5));
    assert!(service.cursor_is_empty(true, 0));
    assert!(!service.cursor_is_empty(true, 1));
}

#[test]
fn restore_tallies_written_conversations() {
    let service = RestoreService::new(AppConfig::default());
    let convs = vec![
        conversation("abc-1", "", vec![bubble("b1", "x", None), bubble("b2", "y", None)]),
        conversation("def-2", "", vec![bubble("b3", "z", None)]),
        conversation("abd-3", "", vec![bubble("b4", "w", None)]),
    ];
    let r = service.restore_all(&convs, &vec![true, false, true], "db".to_string());
    assert_eq!(r.restored_conversations, 2);
    assert_eq!(r.restored_messages, 3);
    let ids = vec!["ab".to_string()];
    assert_eq!(service.select_by_ids(&convs, &ids), vec![true, false, true]);
    let r = service.restore_by_ids(&convs, &ids, &vec![false, true, true], "db".to_string());
    assert_eq!(r.restored_conversations, 1);
    assert_eq!(r.restored_messages, 1);
}

#[test]
fn restore_records_frame_keys() {
    let mut c = conversation("c1", "t", vec![bubble("b1", "x", Some(1700000000000))]);
    c.created_at = Some(1700000000000);
    let batch = cursor_chat_handler::restore::restore_records(&c);
    assert_eq!(batch.composer_key, "composerData:c1");
    assert_eq!(batch.composer.created_at, Some(1700000000000));
    assert_eq!(batch.bubbles.len(), 1);
    assert_eq!(batch.bubbles[0].0, "bubbleId:c1:b1");
    assert_eq!(batch.bubbles[0].1.created_at.as_deref(), Some("2023-11-14T22:13:20+00:00"));
    assert_eq!(composer_key("x"), "composerData:x");
    assert_eq!(bubble_key("x", "y"), "bubbleId:x:y");
}

#[test]
fn bubble_round_trip() {
    let b = Bubble {
        bubble_id: "b7".to_string(),
        bubble_type: BubbleType::Assistant,
        text: "answer".to_string(),
        created_at: Some(1764606348612),
        thinking: Some(ThinkingBlock { text: "hmm".to_string(), signature: Some("sig".to_string()) }),
        thinking_duration_ms: Some(1500),
        token_count: TokenCount { input_tokens: 12, output_tokens: 34 },
        is_agentic: true,
    };
    let raw = bubble_record(&b);
    assert_eq!(raw.bubble_type, 2);
    assert_eq!(raw.version, Some(10));
    assert_eq!(raw.created_at.as_deref(), Some("2025-12-01T16:25:48.612+00:00"));
    let back = bubble_from_raw(&raw);
    assert_eq!(back.bubble_id, b.bubble_id);
    assert_eq!(back.bubble_type, b.bubble_type);
    assert_eq!(back.text, b.text);
    assert_eq!(back.created_at, b.created_at);
    assert_eq!(back.thinking.as_ref().unwrap().text, "hmm");
    assert_eq!(back.thinking.as_ref().unwrap().signature.as_deref(), Some("sig"));
    assert_eq!(back.thinking_duration_ms, Some(1500));
    assert_eq!(back.token_count, b.token_count);
    assert!(back.is_agentic);
}

#[test]
fn composer_round_trip() {
    let mut c = conversation("c1", "t", vec![]);
    c.created_at = Some(1700000000000);
    c.model_config = ModelConfig { model_name: "gpt-x".to_string(), max_mode: true };
    c.unified_mode = "agent".to_string();
    let rec = composer_record(&c);
    let raw = RawComposer {
        version: Some(10),
        created_at: rec.created_at.map(|v| v as u64),
        model_config: Some(RawModelConfig { model_name: rec.model_config.model_name.clone(), max_mode: rec.model_config.max_mode }),
        unified_mode: Some(rec.unified_mode.clone()),
    };
    let back = conversation_from_composer("c1", &raw);
    assert_eq!(back.created_at, c.created_at);
    assert_eq!(back.model_config.model_name, "gpt-x");
    assert!(back.model_config.max_mode);
    assert_eq!(back.unified_mode, "agent");
}

#[test]
fn raw_bubble_defaults() {
    let mut raw = raw_bubble("b", 7, "t", Some("not a date"));
    raw.token_count = Some(RawTokenCount { input_tokens: 5, output_tokens: 6 });
    raw.thinking = Some(RawThinking { text: "r".to_string(), signature: None });
    let b = bubble_from_raw(&raw);
    assert_eq!(b.bubble_type, BubbleType::Unknown);
    assert_eq!(b.created_at, None);
    assert_eq!(b.token_count.input_tokens, 5);
    assert_eq!(b.thinking.unwrap().signature, None);
    let b = bubble_from_raw(&raw_bubble("b", 1, "t", None));
    assert_eq!(b.token_count.output_tokens, 0);
}

#[test]
fn timestamps_in_both_encodings() {
    assert_eq!(parse_timestamp("2025-12-01T16:25:48.612Z"), Some(1764606348612));
    assert_eq!(parse_timestamp("1764561943374"), Some(1764561943374));
    assert_eq!(parse_timestamp("-5"), Some(-5));
    assert_eq!(parse_timestamp("12x"), None);
    assert_eq!(parse_timestamp(""), None);
    assert_eq!(parse_timestamp("9223372036854775807"), None);
    assert_eq!(timestamp_from_millis(1700000000000), Some(1700000000000));
    assert_eq!(timestamp_from_millis(u64::MAX), None);
}

#[test]
fn workspace_names() {
    assert_eq!(file_name("/a/b/"), Some("b"));
    assert_eq!(file_name("/a/b/."), Some("b"));
    assert_eq!(file_name("/a/.."), None);
    assert_eq!(file_name("/"), None);
    assert_eq!(file_name("."), None);
    let ws = WorkspaceInfo::from_uri("http://example.com/x");
    assert_eq!(ws.path, None);
    assert_eq!(ws.name, "unknown");
    let ws = WorkspaceInfo::new("/srv/proj".to_string(), Some("inner".to_string()));
    assert_eq!(ws.name, "proj");
    assert_eq!(ws.cursor_path.as_deref(), Some("inner"));
}

#[test]
fn config_paths_and_limits() {
    let mut config = AppConfig::default();
    assert_eq!(config.storage_db_path("/home/u/.data"), "/home/u/.data/storage.db");
    assert_eq!(config.backups_dir("/home/u/.data/"), "/home/u/.data/backups");
    config.paths.data_dir = Some("/custom".to_string());
    assert_eq!(config.exports_dir("/ignored"), "/custom/exports");
    assert_eq!(config.lock_file_path("/ignored"), "/custom/sync.lock");
    assert_eq!(config.config_file_path("/ignored"), "/custom/config.toml");
    assert_eq!(config.max_storage_bytes(), 10 * 1024 * 1024 * 1024);
    let manager = StorageManager::new(AppConfig::default());
    assert!(manager.is_within_limits(1024));
    assert!(!manager.is_within_limits(10 * 1024 * 1024 * 1024));
    assert!(!manager.is_backup_expired(30 * 86400 + 86399));
    assert!(manager.is_backup_expired(31 * 86400));
}

#[test]
fn sync_state_lifecycle() {
    let s = SyncState::default().syncing();
    assert!(s.is_syncing);
    let failed = s.clone().with_error("disk full".to_string());
    assert!(!failed.is_syncing);
    assert_eq!(failed.last_error.as_deref(), Some("disk full"));
    assert_eq!(failed.clear_error().last_error, None);
    let done = SyncState::after_cycle(5, 2, 7, 4096);
    assert_eq!(done.last_sync, Some(5));
    assert_eq!(done.message_count, 7);
    assert!(!done.is_syncing);
}

#[test]
fn output_format_names() {
    assert_eq!(OutputFormat::parse_name("MD"), Some(OutputFormat::Markdown));
    assert_eq!(OutputFormat::parse_name("Table"), Some(OutputFormat::Table));
    assert_eq!(OutputFormat::parse_name("csv"), None);
    assert_eq!(cursor_chat_handler::truncate("first\r\nsecond", 20), "first");
    assert_eq!(cursor_chat_handler::truncate("abcdef", 3), "...");
}
