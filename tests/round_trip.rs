use cursor_chat_handler::clock::pick_timestamp;
use cursor_chat_handler::extract::accepted_entry_workspace;
use cursor_chat_handler::keys::RawKvEntry;
use cursor_chat_handler::restore::restore_records;
use cursor_chat_handler::{
    extract_conversations, Bubble, BubbleEntry, BubbleType, ComposerEntry, Conversation, ExtractOptions,
    ModelConfig, RawBubble, RawComposer, RawModelConfig, SyncState, ThinkingBlock, TokenCount,
};

fn message(id: &str, kind: BubbleType, text: &str, at: i64) -> Bubble {
    Bubble {
        bubble_id: id.to_string(),
        bubble_type: kind,
        text: text.to_string(),
        created_at: Some(at),
        thinking: None,
        thinking_duration_ms: None,
        token_count: TokenCount { input_tokens: 3, output_tokens: 4 },
        is_agentic: false,
    }
}

#[test]
fn restore_then_extract_gives_conversation_back() {
    let mut answer = message("b2", BubbleType::Assistant, "Sure, here it is", 1700000001500);
    answer.thinking = Some(ThinkingBlock { text: "plan".to_string(), signature: None });
    answer.thinking_duration_ms = Some(250);
    answer.is_agentic = true;
    let mut conv = Conversation {
        composer_id: "c-42".to_string(),
        title: String::new(),
        created_at: Some(1700000000000),
        model_config: ModelConfig { model_name: "gpt-x".to_string(), max_mode: true },
        unified_mode: "agent".to_string(),
        bubbles: vec![
            message("b1", BubbleType::User, "Write a parser", 1700000000500),
            answer,
            message("b3", BubbleType::User, "Thanks", 1700000002000),
        ],
    };
    conv.title = conv.generate_title();
    assert_eq!(conv.title, "write_a_parser");

    let batch = restore_records(&conv);
    let rec = &batch.composer;
    let composers = vec![ComposerEntry {
        key: batch.composer_key.clone(),
        composer: Some(RawComposer {
            version: Some(10),
            created_at: rec.created_at.map(|v| v as u64),
            model_config: Some(RawModelConfig {
                model_name: rec.model_config.model_name.clone(),
                max_mode: rec.model_config.max_mode,
            }),
            unified_mode: Some(rec.unified_mode.clone()),
        }),
    }];
    let bubbles: Vec<BubbleEntry> = batch
        .bubbles
        .into_iter()
        .map(|(key, raw)| BubbleEntry { key, bubble: Some(raw) })
        .collect();
    let (convs, _) = extract_conversations(&composers, &bubbles, &ExtractOptions::default());
    assert_eq!(convs.len(), 1);
    let back = &convs[0];
    assert_eq!(back.composer_id, conv.composer_id);
    assert_eq!(back.title, conv.title);
    assert_eq!(back.created_at, conv.created_at);
    assert_eq!(back.model_config.model_name, conv.model_config.model_name);
    assert_eq!(back.model_config.max_mode, conv.model_config.max_mode);
    assert_eq!(back.unified_mode, conv.unified_mode);
    assert_eq!(back.bubbles.len(), conv.bubbles.len());
    for (a, b) in back.bubbles.iter().zip(&conv.bubbles) {
        assert_eq!(a.bubble_id, b.bubble_id);
        assert_eq!(a.bubble_type, b.bubble_type);
        assert_eq!(a.text, b.text);
        assert_eq!(a.created_at, b.created_at);
        assert_eq!(a.thinking.as_ref().map(|t| t.text.clone()), b.thinking.as_ref().map(|t| t.text.clone()));
        assert_eq!(a.thinking_duration_ms, b.thinking_duration_ms);
        assert_eq!(a.token_count, b.token_count);
        assert_eq!(a.is_agentic, b.is_agentic);
    }
}

#[test]
fn workspace_hints_of_accepted_entries() {
    let raw = RawBubble {
        version: None,
        bubble_type: 1,
        bubble_id: "b".to_string(),
        text: "hello".to_string(),
        created_at: None,
        thinking: None,
        thinking_duration_ms: None,
        token_count: None,
        is_agentic: false,
        workspace_uri: Some("file:///srv/app".to_string()),
        workspace_project_dir: Some("/srv/app".to_string()),
    };
    let entry = BubbleEntry { key: "bubbleId:c9:b".to_string(), bubble: Some(raw) };
    let hints = accepted_entry_workspace(&entry, &ExtractOptions::default());
    assert_eq!(
        hints,
        Some(("c9".to_string(), "file:///srv/app".to_string(), Some("/srv/app".to_string())))
    );
    let other = BubbleEntry { key: "composerData:c9".to_string(), bubble: None };
    assert_eq!(accepted_entry_workspace(&other, &ExtractOptions::default()), None);
}

#[test]
fn preview_and_filename() {
    let conv = Conversation {
        composer_id: "0123456789abcdef".to_string(),
        title: String::new(),
        created_at: None,
        model_config: ModelConfig { model_name: String::new(), max_mode: false },
        unified_mode: String::new(),
        bubbles: vec![message("b1", BubbleType::User, "Hello there", 1)],
    };
    assert_eq!(conv.preview(), "Hello there");
    assert_eq!(conv.filename(), "01234567_hello_there");
    let empty = Conversation { bubbles: vec![], composer_id: "abc".to_string(), ..conv };
    assert_eq!(empty.preview(), "[Empty conversation]");
    assert_eq!(empty.filename(), "abc_conversa");
    assert_eq!(BubbleType::from_code(2).name(), "Assistant");
    assert_eq!(BubbleType::User.code(), 1);
}

#[test]
fn interrupted_cycle_stays_marked() {
    let state = SyncState::default().syncing().failed("locked".to_string());
    assert!(state.is_syncing);
    assert_eq!(state.last_error.as_deref(), Some("locked"));
    let entry = RawKvEntry { key: "k".to_string(), value: vec![1, 2] };
    assert_eq!(entry.value.len(), 2);
}

#[test]
fn backup_expires_after_whole_days() {
    let day = 86_400_000i64;
    let b = cursor_chat_handler::BackupMetadata::new("b".into(), 0, 1, 1, "h".into(), "/p".into());
    assert!(!b.is_expired(31 * day - 1, 30));
    assert!(b.is_expired(31 * day, 30));
    assert!(!b.is_expired(-5 * day, 0));
    assert!(b.clone().compressed().is_compressed);
}

#[test]
fn timestamp_choice() {
    assert_eq!(pick_timestamp(Some(5), Some(7), true), Some(5));
    assert_eq!(pick_timestamp(None, Some(7), true), Some(7));
    assert_eq!(pick_timestamp(None, Some(7), false), None);
    assert_eq!(pick_timestamp(None, None, true), None);
}

#[test]
fn last_workspace_hint_wins() {
    let hinted = |id: &str, uri: &str| RawBubble {
        version: None,
        bubble_type: 1,
        bubble_id: id.to_string(),
        text: "x".to_string(),
        created_at: None,
        thinking: None,
        thinking_duration_ms: None,
        token_count: None,
        is_agentic: false,
        workspace_uri: Some(uri.to_string()),
        workspace_project_dir: None,
    };
    let entries = vec![
        BubbleEntry { key: "bubbleId:a:1".to_string(), bubble: Some(hinted("1", "file:///one")) },
        BubbleEntry { key: "bubbleId:b:2".to_string(), bubble: Some(hinted("2", "file:///two")) },
        BubbleEntry { key: "bubbleId:a:3".to_string(), bubble: Some(hinted("3", "file:///three")) },
    ];
    let hints = cursor_chat_handler::extract::workspace_hints(&entries, &ExtractOptions::default());
    assert_eq!(
        hints,
        vec![
            ("a".to_string(), "file:///three".to_string(), None),
            ("b".to_string(), "file:///two".to_string(), None),
        ]
    );
}
