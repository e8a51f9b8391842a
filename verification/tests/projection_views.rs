use orchid::domain::{
    AssistantMessageSent, ConversationArchived, ConversationEvent, ConversationHistoryView,
    ConversationListEntry, ConversationMemoryView, ConversationStarted, TitleChanged,
    UserMessageSent,
};

fn sample_events() -> Vec<ConversationEvent> {
    vec![
        ConversationEvent::Started(ConversationStarted {
            conversation_id: "conv-1".to_string(),
            user_id: "user-1".to_string(),
            title: "Original Title".to_string(),
            timestamp: "2026-01-01T00:00:00Z".to_string(),
        }),
        ConversationEvent::UserMessageSent(UserMessageSent {
            content: "Hello from user".to_string(),
            user_id: "user-1".to_string(),
            model_id: "gpt-4o".to_string(),
            timestamp: "2026-01-01T00:01:00Z".to_string(),
        }),
        ConversationEvent::AssistantMessageSent(AssistantMessageSent {
            content: "Hello from assistant".to_string(),
            model_id: "gpt-4o".to_string(),
            timestamp: "2026-01-01T00:02:00Z".to_string(),
        }),
        ConversationEvent::TitleChanged(TitleChanged {
            title: "Updated Title".to_string(),
        }),
    ]
}

#[test]
fn history_view_tracks_messages_and_models() {
    let history = ConversationHistoryView::from_events("conv-1", &sample_events());
    assert_eq!(history.title, "Updated Title");
    assert_eq!(history.messages.len(), 2);
    assert_eq!(history.messages[0].role, "user");
    assert_eq!(history.messages[0].model_id.as_deref(), Some("gpt-4o"));
    assert_eq!(history.messages[1].role, "assistant");
}

#[test]
fn list_entry_uses_last_message_preview_and_archive_flag() {
    let mut events = sample_events();
    events.push(ConversationEvent::ConversationArchived(
        ConversationArchived {
            timestamp: "2026-01-01T00:03:00Z".to_string(),
        },
    ));

    let entry = ConversationListEntry::from_events("conv-1", &events);
    assert_eq!(entry.title, "Updated Title");
    assert!(entry.last_message_preview.contains("assistant"));
    assert!(entry.archived);
}

#[test]
fn memory_view_keeps_recent_window() {
    let mut events = vec![ConversationEvent::Started(ConversationStarted {
        conversation_id: "conv-1".to_string(),
        user_id: "user-1".to_string(),
        title: "Windowed Chat".to_string(),
        timestamp: "2026-01-01T00:00:00Z".to_string(),
    })];

    for index in 0..6 {
        events.push(ConversationEvent::UserMessageSent(UserMessageSent {
            content: format!("message {index}"),
            user_id: "user-1".to_string(),
            model_id: "gpt-4o".to_string(),
            timestamp: format!("2026-01-01T00:0{index}:00Z"),
        }));
    }

    let memory = ConversationMemoryView::from_events("conv-1", &events, 4);
    assert_eq!(memory.recent_messages.len(), 4);
    assert_eq!(memory.recent_messages[0].content, "message 2");
    assert!(memory
        .summary
        .as_deref()
        .unwrap_or_default()
        .contains("message 5"));
}

#[test]
fn history_view_records_timestamps_ids_and_archive_time() {
    let mut events = sample_events();
    events.push(ConversationEvent::ConversationArchived(ConversationArchived {
        timestamp: "2026-01-01T00:09:00Z".to_string(),
    }));
    let history = ConversationHistoryView::from_events("conv-9", &events);
    assert_eq!(history.id, "conv-9");
    assert_eq!(history.user_id.as_deref(), Some("user-1"));
    assert!(history.archived);
    assert_eq!(history.updated_at, "2026-01-01T00:09:00Z");
    assert_eq!(history.messages[1].timestamp, "2026-01-01T00:02:00Z");
    assert_eq!(history.messages[1].content, "Hello from assistant");
}

#[test]
fn list_entry_preview_is_truncated_to_eighty_characters() {
    let long = "x".repeat(100);
    let events = vec![
        ConversationEvent::Started(ConversationStarted {
            conversation_id: "c".to_string(),
            user_id: "u".to_string(),
            title: "T".to_string(),
            timestamp: "t0".to_string(),
        }),
        ConversationEvent::UserMessageSent(UserMessageSent {
            content: long.clone(),
            user_id: "u".to_string(),
            model_id: "m".to_string(),
            timestamp: "t1".to_string(),
        }),
    ];
    let entry = ConversationListEntry::from_events("c", &events);
    assert_eq!(entry.last_message_preview, format!("{}...", "x".repeat(80)));
    assert_eq!(entry.updated_at, "t1");
    let empty = ConversationListEntry::from_events("c", &events[..1]);
    assert_eq!(empty.last_message_preview, "");
}

#[test]
fn memory_summary_names_the_title_and_quotes_the_last_message() {
    let memory = ConversationMemoryView::from_events("conv-1", &sample_events(), 4);
    assert_eq!(
        memory.summary.as_deref(),
        Some("Conversation 'Updated Title' most recently discussed: Hello from assistant")
    );
    let none = ConversationMemoryView::from_events("conv-1", &sample_events()[..1], 4);
    assert!(none.summary.is_none());
    assert!(none.recent_messages.is_empty());
}

#[test]
fn incremental_history_matches_history_built_at_once() {
    let events = sample_events();
    let mut view = ConversationHistoryView::default();
    view.id = "conv-1".to_string();
    for event in &events {
        view.update("conv-1", event);
    }
    assert_eq!(view, ConversationHistoryView::from_events("conv-1", &events));
}

#[test]
fn incremental_list_entry_ignores_archive_time() {
    let mut events = sample_events();
    events.push(ConversationEvent::ConversationArchived(ConversationArchived {
        timestamp: "2026-01-01T00:05:00Z".to_string(),
    }));
    let mut entry = ConversationListEntry::default();
    entry.id = "conv-1".to_string();
    for event in &events {
        entry.update("conv-1", event);
    }
    let built = ConversationListEntry::from_events("conv-1", &events);
    assert_eq!(entry.updated_at, "2026-01-01T00:02:00Z");
    assert_eq!(built.updated_at, "2026-01-01T00:05:00Z");
    assert_eq!(entry.title, built.title);
    assert_eq!(entry.last_message_preview, built.last_message_preview);
    assert_eq!(entry.archived, built.archived);
}

#[test]
fn incremental_history_from_the_default_view_matches_history_built_at_once() {
    let mut events = sample_events();
    events.push(ConversationEvent::ConversationArchived(ConversationArchived {
        timestamp: "2026-01-01T00:03:00Z".to_string(),
    }));
    let mut view = ConversationHistoryView::default();
    for event in &events {
        view.update("conv-1", event);
    }
    assert_eq!(view.id, "conv-1");
    assert_eq!(view, ConversationHistoryView::from_events("conv-1", &events));
}
