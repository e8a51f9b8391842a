//! Event projections kept up to date one event at a time.

use orchid::domain::{
    AssistantMessageSent, ConversationArchived, ConversationEvent, ConversationHistoryView,
    ConversationListEntry, ConversationMemoryView, ConversationStarted, ConversationSummarized,
    TitleChanged, UserMessageSent,
};
use orchid::state::{MemoryState, PublicUser, UserRole};

fn started(title: &str) -> ConversationEvent {
    ConversationEvent::Started(ConversationStarted {
        conversation_id: "conv-1".to_string(),
        user_id: "user-1".to_string(),
        title: title.to_string(),
        timestamp: "2026-01-01T00:00:00Z".to_string(),
    })
}

fn user_message(content: &str, model: &str, timestamp: &str) -> ConversationEvent {
    ConversationEvent::UserMessageSent(UserMessageSent {
        content: content.to_string(),
        user_id: "user-1".to_string(),
        model_id: model.to_string(),
        timestamp: timestamp.to_string(),
    })
}

fn assistant_message(content: &str, model: &str, timestamp: &str) -> ConversationEvent {
    ConversationEvent::AssistantMessageSent(AssistantMessageSent {
        content: content.to_string(),
        model_id: model.to_string(),
        timestamp: timestamp.to_string(),
    })
}

#[test]
fn conversation_history_view_builds_full_message_list() {
    let mut view = ConversationHistoryView::default();
    for event in [
        started("Chat"),
        user_message("Hi", "gpt-4o", "2026-01-01T00:01:00Z"),
        assistant_message("Hello!", "gpt-4o", "2026-01-01T00:02:00Z"),
    ] {
        view.update("conv-1", &event);
    }
    assert_eq!(view.id, "conv-1");
    assert_eq!(view.messages.len(), 2);
    assert_eq!(view.messages[0].role, "user");
    assert_eq!(view.messages[0].content, "Hi");
    assert_eq!(view.messages[0].timestamp, "2026-01-01T00:01:00Z");
    assert_eq!(view.messages[1].role, "assistant");
    assert_eq!(view.messages[1].content, "Hello!");
    assert_eq!(view.messages[1].timestamp, "2026-01-01T00:02:00Z");
    assert_eq!(view.updated_at, "2026-01-01T00:02:00Z");
}

#[test]
fn conversation_list_entry_shows_title_and_last_message_preview() {
    let long = "word ".repeat(30);
    let mut entry = ConversationListEntry::default();
    for event in [
        started("Planning"),
        user_message("first", "m", "2026-01-01T00:01:00Z"),
        assistant_message(&long, "m", "2026-01-01T00:02:00Z"),
    ] {
        entry.update("conv-1", &event);
    }
    assert_eq!(entry.title, "Planning");
    assert_eq!(entry.last_message_preview.chars().count(), 83);
    assert!(entry.last_message_preview.ends_with("..."));
    assert!(long.starts_with(&entry.last_message_preview[..80]));
    assert_eq!(entry.updated_at, "2026-01-01T00:02:00Z");
}

#[test]
fn conversation_list_entry_updates_on_title_change() {
    let mut entry = ConversationListEntry::default();
    entry.update("conv-1", &started("Old"));
    entry.update(
        "conv-1",
        &ConversationEvent::TitleChanged(TitleChanged { title: "New".to_string() }),
    );
    assert_eq!(entry.title, "New");
}

#[test]
fn conversation_memory_view_maintains_sliding_window() {
    let mut memory = ConversationMemoryView::default();
    memory.update("conv-1", &started("Chat"));
    for i in 0..7 {
        memory.update("conv-1", &user_message(&format!("m{i}"), "gpt-4o", "t"));
        assert!(memory.recent_messages.len() <= 4);
    }
    let contents: Vec<&str> = memory.recent_messages.iter().map(|m| m.content.as_str()).collect();
    assert_eq!(contents, vec!["m3", "m4", "m5", "m6"]);
    assert_eq!(memory.summary.as_deref(), Some("Most recently discussed: m0"));
    memory.update(
        "conv-1",
        &ConversationEvent::ConversationSummarized(ConversationSummarized {
            summary: "custom".to_string(),
        }),
    );
    assert_eq!(memory.summary.as_deref(), Some("custom"));
}

#[test]
fn archived_conversation_is_excluded_from_active_list() {
    let mut entry = ConversationListEntry::default();
    entry.update("conv-1", &started("Chat"));
    entry.update(
        "conv-1",
        &ConversationEvent::ConversationArchived(ConversationArchived { timestamp: "t".to_string() }),
    );
    assert!(entry.archived);

    let mut state = MemoryState::new("gpt-4o".to_string());
    let user = PublicUser { id: "user-1".to_string(), username: "u".to_string(), role: UserRole::User };
    let kept = state.create_conversation_with(&user, "a".to_string(), "Kept".to_string(), "2026-01-01T00:00:00Z".to_string());
    let gone = state.create_conversation_with(&user, "b".to_string(), "Gone".to_string(), "2026-01-01T00:00:01Z".to_string());
    assert_eq!(state.list_conversations(&user).len(), 2);
    state.archive_conversation_at(&user, &gone, "2026-01-01T00:00:02Z".to_string()).unwrap();
    let listed = state.list_conversations(&user);
    assert_eq!(listed.len(), 1);
    assert_eq!(listed[0].id, kept);
}

#[test]
fn conversation_history_view_records_model_per_message() {
    let mut view = ConversationHistoryView::default();
    for event in [
        started("Chat"),
        user_message("one", "ollama/llama3", "t1"),
        assistant_message("two", "ollama/llama3", "t2"),
        user_message("three", "openai/gpt-4", "t3"),
    ] {
        view.update("conv-1", &event);
    }
    let models: Vec<Option<&str>> = view.messages.iter().map(|m| m.model_id.as_deref()).collect();
    assert_eq!(models, vec![Some("ollama/llama3"), Some("ollama/llama3"), Some("openai/gpt-4")]);
}
