//! The conversation aggregate: the events each command emits on a given
//! history, and the commands it refuses.

use orchid::domain::conversation::{
    ArchiveConversation, AssistantMessageSent, ChangeTitle, CompleteAssistantResponse,
    Conversation, ConversationArchived, ConversationCommand, ConversationError, ConversationEvent,
    ConversationStarted, SendUserMessage, StartConversation, TitleChanged, UserMessageSent,
};

/// The aggregate after replaying `events` from its initial state.
fn given(events: Vec<ConversationEvent>) -> Conversation {
    let mut aggregate = Conversation::default();
    for event in events {
        aggregate.apply(event);
    }
    aggregate
}

fn expect_events(events: Vec<ConversationEvent>, cmd: ConversationCommand, expected: Vec<ConversationEvent>) {
    assert_eq!(given(events).handle(cmd), Ok(expected));
}

fn expect_error_message(events: Vec<ConversationEvent>, cmd: ConversationCommand, message: &str) {
    match given(events).handle(cmd) {
        Err(error) => assert_eq!(error.to_string(), message),
        Ok(events) => panic!("expected an error, got events {:?}", events),
    }
}

fn started(title: &str) -> ConversationEvent {
    ConversationEvent::Started(ConversationStarted {
        conversation_id: "conv-1".to_string(),
        user_id: "user-1".to_string(),
        title: title.to_string(),
        timestamp: "2026-01-01T00:00:00Z".to_string(),
    })
}

#[test]
fn starting_a_conversation_emits_conversation_started_event() {
    let cmd = ConversationCommand::Start(StartConversation {
        conversation_id: "conv-1".to_string(),
        user_id: "user-1".to_string(),
        title: "Test Chat".to_string(),
        timestamp: "2026-01-01T00:00:00Z".to_string(),
    });

    expect_events(
        vec![],
        cmd,
        vec![ConversationEvent::Started(ConversationStarted {
            conversation_id: "conv-1".to_string(),
            user_id: "user-1".to_string(),
            title: "Test Chat".to_string(),
            timestamp: "2026-01-01T00:00:00Z".to_string(),
        })],
    );
}

#[test]
fn sending_a_user_message_emits_user_message_sent_event() {
    let cmd = ConversationCommand::SendUserMessage(SendUserMessage {
        content: "Hello, world!".to_string(),
        user_id: "user-1".to_string(),
        model_id: "ollama/llama3".to_string(),
        timestamp: "2026-01-01T00:01:00Z".to_string(),
    });

    expect_events(
        vec![started("Test Chat")],
        cmd,
        vec![ConversationEvent::UserMessageSent(UserMessageSent {
            content: "Hello, world!".to_string(),
            user_id: "user-1".to_string(),
            model_id: "ollama/llama3".to_string(),
            timestamp: "2026-01-01T00:01:00Z".to_string(),
        })],
    );
}

#[test]
fn completing_assistant_response_emits_assistant_message_sent_event() {
    let user_message_event = ConversationEvent::UserMessageSent(UserMessageSent {
        content: "Hello, world!".to_string(),
        user_id: "user-1".to_string(),
        model_id: "ollama/llama3".to_string(),
        timestamp: "2026-01-01T00:01:00Z".to_string(),
    });

    let cmd = ConversationCommand::CompleteAssistantResponse(CompleteAssistantResponse {
        content: "This is the assistant response.".to_string(),
        model_id: "ollama/llama3".to_string(),
        timestamp: "2026-01-01T00:02:00Z".to_string(),
    });

    expect_events(
        vec![started("Test Chat"), user_message_event],
        cmd,
        vec![ConversationEvent::AssistantMessageSent(AssistantMessageSent {
            content: "This is the assistant response.".to_string(),
            model_id: "ollama/llama3".to_string(),
            timestamp: "2026-01-01T00:02:00Z".to_string(),
        })],
    );
}

#[test]
fn changing_conversation_title_emits_title_changed_event() {
    let cmd = ConversationCommand::ChangeTitle(ChangeTitle {
        title: "New Title".to_string(),
        timestamp: "2026-01-01T00:01:00Z".to_string(),
    });

    expect_events(
        vec![started("Old Title")],
        cmd,
        vec![ConversationEvent::TitleChanged(TitleChanged {
            title: "New Title".to_string(),
        })],
    );
}

#[test]
fn archiving_a_conversation_emits_conversation_archived_event() {
    let cmd = ConversationCommand::ArchiveConversation(ArchiveConversation {
        timestamp: "2026-01-01T00:01:00Z".to_string(),
    });

    expect_events(
        vec![started("Test Chat")],
        cmd,
        vec![ConversationEvent::ConversationArchived(ConversationArchived {
            timestamp: "2026-01-01T00:01:00Z".to_string(),
        })],
    );
}

#[test]
fn cannot_send_message_to_archived_conversation() {
    let archived_event = ConversationEvent::ConversationArchived(ConversationArchived {
        timestamp: "2026-01-01T00:01:00Z".to_string(),
    });

    let cmd = ConversationCommand::SendUserMessage(SendUserMessage {
        content: "Hello".to_string(),
        user_id: "user-1".to_string(),
        model_id: "ollama/llama3".to_string(),
        timestamp: "2026-01-01T00:02:00Z".to_string(),
    });

    expect_error_message(vec![started("Test Chat"), archived_event], cmd, "conversation is archived");
}

#[test]
fn cannot_archive_an_already_archived_conversation() {
    let archived_event = ConversationEvent::ConversationArchived(ConversationArchived {
        timestamp: "2026-01-01T00:01:00Z".to_string(),
    });

    let cmd = ConversationCommand::ArchiveConversation(ArchiveConversation {
        timestamp: "2026-01-01T00:02:00Z".to_string(),
    });

    expect_error_message(vec![started("Test Chat"), archived_event], cmd, "already archived");
}

#[test]
fn empty_message_content_is_rejected() {
    let cmd = ConversationCommand::SendUserMessage(SendUserMessage {
        content: "   ".to_string(),
        user_id: "user-1".to_string(),
        model_id: "ollama/llama3".to_string(),
        timestamp: "2026-01-01T00:01:00Z".to_string(),
    });

    expect_error_message(vec![started("Test Chat")], cmd, "message content cannot be empty");
}

#[test]
fn conversation_state_is_correct_after_many_events() {
    let mut events = vec![started("Test Chat")];

    for i in 0..25 {
        events.push(ConversationEvent::UserMessageSent(UserMessageSent {
            content: format!("User message {}", i + 1),
            user_id: "user-1".to_string(),
            model_id: "ollama/llama3".to_string(),
            timestamp: format!("2026-01-01T00:{:02}:00Z", i * 2),
        }));

        events.push(ConversationEvent::AssistantMessageSent(AssistantMessageSent {
            content: format!("Assistant response {}", i + 1),
            model_id: "ollama/llama3".to_string(),
            timestamp: format!("2026-01-01T00:{:02}:30Z", i * 2),
        }));
    }

    let cmd = ConversationCommand::SendUserMessage(SendUserMessage {
        content: "Final user message".to_string(),
        user_id: "user-1".to_string(),
        model_id: "openai/gpt-4".to_string(),
        timestamp: "2026-01-01T01:00:00Z".to_string(),
    });

    expect_events(
        events,
        cmd,
        vec![ConversationEvent::UserMessageSent(UserMessageSent {
            content: "Final user message".to_string(),
            user_id: "user-1".to_string(),
            model_id: "openai/gpt-4".to_string(),
            timestamp: "2026-01-01T01:00:00Z".to_string(),
        })],
    );
}

#[test]
fn model_selection_is_recorded_per_message() {
    let first_message = ConversationEvent::UserMessageSent(UserMessageSent {
        content: "First message".to_string(),
        user_id: "user-1".to_string(),
        model_id: "ollama/llama3".to_string(),
        timestamp: "2026-01-01T00:01:00Z".to_string(),
    });

    let cmd = ConversationCommand::SendUserMessage(SendUserMessage {
        content: "Second message".to_string(),
        user_id: "user-1".to_string(),
        model_id: "openai/gpt-4".to_string(),
        timestamp: "2026-01-01T00:02:00Z".to_string(),
    });

    expect_events(
        vec![started("Test Chat"), first_message],
        cmd,
        vec![ConversationEvent::UserMessageSent(UserMessageSent {
            content: "Second message".to_string(),
            user_id: "user-1".to_string(),
            model_id: "openai/gpt-4".to_string(),
            timestamp: "2026-01-01T00:02:00Z".to_string(),
        })],
    );
}

#[test]
fn apply_replays_events_to_reconstruct_aggregate_state() {
    let events = vec![
        started("Original Title"),
        ConversationEvent::UserMessageSent(UserMessageSent {
            content: "Hello".to_string(),
            user_id: "user-1".to_string(),
            model_id: "ollama/llama3".to_string(),
            timestamp: "2026-01-01T00:01:00Z".to_string(),
        }),
        ConversationEvent::AssistantMessageSent(AssistantMessageSent {
            content: "Hi there!".to_string(),
            model_id: "ollama/llama3".to_string(),
            timestamp: "2026-01-01T00:02:00Z".to_string(),
        }),
        ConversationEvent::TitleChanged(TitleChanged {
            title: "Updated Title".to_string(),
        }),
    ];

    let cmd = ConversationCommand::ArchiveConversation(ArchiveConversation {
        timestamp: "2026-01-01T00:03:00Z".to_string(),
    });

    expect_events(
        events,
        cmd,
        vec![ConversationEvent::ConversationArchived(ConversationArchived {
            timestamp: "2026-01-01T00:03:00Z".to_string(),
        })],
    );
}

#[test]
fn replayed_state_counts_messages_and_tracks_last_model() {
    let aggregate = given(vec![
        started("Original Title"),
        ConversationEvent::UserMessageSent(UserMessageSent {
            content: "Hello".to_string(),
            user_id: "user-1".to_string(),
            model_id: "ollama/llama3".to_string(),
            timestamp: "2026-01-01T00:01:00Z".to_string(),
        }),
        ConversationEvent::AssistantMessageSent(AssistantMessageSent {
            content: "Hi there!".to_string(),
            model_id: "openai/gpt-4".to_string(),
            timestamp: "2026-01-01T00:02:00Z".to_string(),
        }),
        ConversationEvent::TitleChanged(TitleChanged {
            title: "Updated Title".to_string(),
        }),
        ConversationEvent::ConversationArchived(ConversationArchived {
            timestamp: "2026-01-01T00:03:00Z".to_string(),
        }),
    ]);
    assert_eq!(aggregate.id, "conv-1");
    assert!(aggregate.started);
    assert!(aggregate.archived);
    assert_eq!(aggregate.message_count, 2);
    assert_eq!(aggregate.last_model_id.as_deref(), Some("openai/gpt-4"));
    assert_eq!(aggregate.title.as_deref(), Some("Updated Title"));
    assert_eq!(aggregate.user_id.as_deref(), Some("user-1"));
}

#[test]
fn restart_resets_message_count() {
    let aggregate = given(vec![
        started("One"),
        ConversationEvent::UserMessageSent(UserMessageSent {
            content: "Hello".to_string(),
            user_id: "user-1".to_string(),
            model_id: "m".to_string(),
            timestamp: "t".to_string(),
        }),
        started("Two"),
    ]);
    assert_eq!(aggregate.message_count, 0);
    assert_eq!(aggregate.title.as_deref(), Some("Two"));
}

#[test]
fn error_messages_and_event_names() {
    assert_eq!(ConversationError::ConversationArchived.to_string(), "conversation is archived");
    assert_eq!(ConversationError::AlreadyArchived.to_string(), "already archived");
    assert_eq!(ConversationError::EmptyMessageContent.to_string(), "message content cannot be empty");
    assert_eq!(ConversationError::other("boom").to_string(), "boom");
    assert_eq!(started("x").event_type(), "ConversationStarted");
    assert_eq!(
        ConversationEvent::ConversationArchived(ConversationArchived { timestamp: String::new() }).event_type(),
        "ConversationArchived"
    );
    assert_eq!(started("x").event_version(), "1.0");
}

#[test]
fn whitespace_of_every_kind_is_blank() {
    let cmd = ConversationCommand::SendUserMessage(SendUserMessage {
        content: "\t\n\u{00a0}\u{3000} ".to_string(),
        user_id: "user-1".to_string(),
        model_id: "m".to_string(),
        timestamp: "t".to_string(),
    });
    expect_error_message(vec![started("Test Chat")], cmd, "message content cannot be empty");
}

#[test]
fn replay_takes_each_field_from_the_last_event_that_sets_it() {
    let restarted = ConversationEvent::Started(ConversationStarted {
        conversation_id: "conv-2".to_string(),
        user_id: "user-2".to_string(),
        title: "Second".to_string(),
        timestamp: "2026-01-02T00:00:00Z".to_string(),
    });
    let message = |model: &str| {
        ConversationEvent::UserMessageSent(UserMessageSent {
            content: "hi".to_string(),
            user_id: "user-1".to_string(),
            model_id: model.to_string(),
            timestamp: "2026-01-01T00:01:00Z".to_string(),
        })
    };
    let state = given(vec![
        started("First"),
        message("m1"),
        message("m2"),
        restarted,
        message("m3"),
        ConversationEvent::TitleChanged(TitleChanged { title: "Renamed".to_string() }),
    ]);
    assert!(state.started);
    assert!(!state.archived);
    assert_eq!(state.id, "conv-2");
    assert_eq!(state.user_id.as_deref(), Some("user-2"));
    assert_eq!(state.title.as_deref(), Some("Renamed"));
    assert_eq!(state.message_count, 1);
    assert_eq!(state.last_model_id.as_deref(), Some("m3"));

    let untouched = given(vec![ConversationEvent::TitleChanged(TitleChanged { title: "T".to_string() })]);
    assert!(!untouched.started);
    assert_eq!(untouched.id, "");
    assert_eq!(untouched.user_id, None);
    assert_eq!(untouched.title.as_deref(), Some("T"));
}
