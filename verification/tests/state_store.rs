//! The in-memory application state: users, sessions and conversations.

use orchid::domain::{ConversationArchived, ConversationEvent, ConversationStarted, UserMessageSent};
use orchid::state::{
    list_entries, other_conversation_memories, ApiStateError, ConversationRecord, MemoryState, PublicUser,
    SeedError, UserRole,
};

fn state_with_owner() -> (MemoryState, PublicUser) {
    let mut state = MemoryState::new("gpt-4o".to_string());
    state.seed_user("admin", "change-me", UserRole::Owner).unwrap();
    let owner = state.authenticate("admin", "change-me").expect("owner logs in");
    (state, owner)
}

#[test]
fn seeded_owner_logs_in_with_the_right_password_only() {
    let (state, owner) = state_with_owner();
    assert_eq!(owner.username, "admin");
    assert_eq!(owner.role, UserRole::Owner);
    assert!(state.authenticate("admin", "wrong").is_none());
    assert!(state.authenticate("nobody", "change-me").is_none());
}

#[test]
fn seeding_refuses_blank_credentials_and_duplicate_users() {
    let (mut state, _) = state_with_owner();
    assert_eq!(state.seed_user("  ", "pw", UserRole::User), Err(SeedError::MissingCredentials));
    assert_eq!(state.seed_user("friend", " \t", UserRole::User), Err(SeedError::MissingCredentials));
    assert_eq!(state.seed_user("admin", "other", UserRole::User), Err(SeedError::UserExists));
    assert_eq!(state.seed_user("admin", "other", UserRole::Owner), Ok(()));
    assert!(state.authenticate("admin", "other").is_none());
    assert_eq!(SeedError::MissingCredentials.to_string(), "username and password are required");
    assert_eq!(SeedError::UserExists.to_string(), "user already exists");
}

#[test]
fn registration_creates_a_regular_user() {
    let (mut state, _) = state_with_owner();
    state.seed_user("friend", "secret", UserRole::User).unwrap();
    let friend = state.authenticate("friend", "secret").expect("friend logs in");
    assert_eq!(friend.role, UserRole::User);
}

#[test]
fn sessions_read_back_until_logout() {
    let (mut state, owner) = state_with_owner();
    let token = state.create_session(&owner);
    assert!(!token.is_empty());
    let other = state.create_session(&owner);
    assert_ne!(token, other);
    assert_eq!(state.get_user_by_session(&token), Some(owner.clone()));
    state.destroy_session(&token);
    assert_eq!(state.get_user_by_session(&token), None);
    assert_eq!(state.get_user_by_session(&other), Some(owner));
    assert_eq!(state.get_user_by_session("unknown"), None);
}

#[test]
fn conversation_crud_flow() {
    let (mut state, owner) = state_with_owner();
    let id = state.create_conversation(&owner, Some("Integration Chat".to_string()));
    let listed = state.list_conversations(&owner);
    assert_eq!(listed.len(), 1);
    assert_eq!(listed[0].id, id);
    assert_eq!(listed[0].title, "Integration Chat");

    state.rename_conversation(&owner, &id, "Renamed Chat".to_string()).unwrap();
    let history = state.get_history(&owner, &id).unwrap();
    assert_eq!(history.title, "Renamed Chat");
    assert_eq!(history.user_id.as_deref(), Some(owner.id.as_str()));

    state.archive_conversation(&owner, &id).unwrap();
    assert!(state.list_conversations(&owner).is_empty());
    assert_eq!(
        state.archive_conversation(&owner, &id),
        Err(ApiStateError::Conflict("conversation already archived".to_string()))
    );
}

#[test]
fn untitled_conversation_gets_a_chat_placeholder() {
    let (mut state, owner) = state_with_owner();
    let id = state.create_conversation(&owner, None);
    let history = state.get_history(&owner, &id).unwrap();
    assert!(history.title.starts_with("Chat "));
    assert!(history.messages.is_empty());
}

#[test]
fn other_users_are_forbidden_and_missing_conversations_not_found() {
    let (mut state, owner) = state_with_owner();
    let id = state.create_conversation(&owner, Some("Mine".to_string()));
    let stranger = PublicUser { id: "someone-else".to_string(), username: "x".to_string(), role: UserRole::User };
    assert_eq!(state.get_history(&stranger, &id), Err(ApiStateError::Forbidden));
    assert_eq!(state.rename_conversation(&stranger, &id, "t".to_string()), Err(ApiStateError::Forbidden));
    assert_eq!(state.archive_conversation(&stranger, &id), Err(ApiStateError::Forbidden));
    assert_eq!(
        state.add_user_message(&stranger, &id, "hi".to_string(), None),
        Err(ApiStateError::Forbidden)
    );
    assert_eq!(
        state.add_assistant_message(&stranger, &id, "hi".to_string(), "m".to_string()),
        Err(ApiStateError::Forbidden)
    );
    assert!(state.list_conversations(&stranger).is_empty());
    assert_eq!(state.get_history(&owner, "missing"), Err(ApiStateError::NotFound));
    assert_eq!(state.archive_conversation(&owner, "missing"), Err(ApiStateError::NotFound));
}

#[test]
fn user_messages_choose_a_model_and_are_refused_when_blank_or_archived() {
    let (mut state, owner) = state_with_owner();
    let id = state.create_conversation_with(&owner, "c1".to_string(), "Chat 1".to_string(), "t0".to_string());
    assert_eq!(state.add_user_message_at(&owner, &id, "hello".to_string(), None, "t1".to_string()), Ok("gpt-4o".to_string()));
    assert_eq!(
        state.add_user_message_at(&owner, &id, "again".to_string(), Some("llama".to_string()), "t2".to_string()),
        Ok("llama".to_string())
    );
    assert_eq!(state.add_user_message_at(&owner, &id, "third".to_string(), None, "t3".to_string()), Ok("llama".to_string()));
    assert_eq!(
        state.add_user_message(&owner, &id, "   ".to_string(), None),
        Err(ApiStateError::BadRequest("message content cannot be empty".to_string()))
    );
    state.add_assistant_message_at(&owner, &id, "reply".to_string(), "llama".to_string(), "t4".to_string()).unwrap();
    let history = state.get_history(&owner, &id).unwrap();
    assert_eq!(history.messages.len(), 4);
    assert_eq!(history.messages[3].role, "assistant");
    assert_eq!(history.updated_at, "t4");
    state.archive_conversation_at(&owner, &id, "t5".to_string()).unwrap();
    assert_eq!(
        state.add_user_message(&owner, &id, "late".to_string(), None),
        Err(ApiStateError::Conflict("conversation is archived".to_string()))
    );
}

#[test]
fn list_is_sorted_most_recent_first() {
    let (mut state, owner) = state_with_owner();
    let a = state.create_conversation_with(&owner, "a".to_string(), "A".to_string(), "2026-01-01T00:00:00Z".to_string());
    let b = state.create_conversation_with(&owner, "b".to_string(), "B".to_string(), "2026-01-02T00:00:00Z".to_string());
    let c = state.create_conversation_with(&owner, "c".to_string(), "C".to_string(), "2026-01-01T12:00:00Z".to_string());
    let ids: Vec<String> = state.list_conversations(&owner).into_iter().map(|e| e.id).collect();
    assert_eq!(ids, vec![b.clone(), c.clone(), a.clone()]);
    state.add_user_message_at(&owner, &a, "bump".to_string(), None, "2026-01-03T00:00:00Z".to_string()).unwrap();
    let ids: Vec<String> = state.list_conversations(&owner).into_iter().map(|e| e.id).collect();
    assert_eq!(ids, vec![a, b, c]);
}

#[test]
fn memory_covers_other_nonempty_unarchived_conversations() {
    let (mut state, owner) = state_with_owner();
    let current = state.create_conversation_with(&owner, "cur".to_string(), "Current".to_string(), "t".to_string());
    let empty = state.create_conversation_with(&owner, "empty".to_string(), "Empty".to_string(), "t".to_string());
    let talked = state.create_conversation_with(&owner, "talk".to_string(), "Garden".to_string(), "t".to_string());
    let archived = state.create_conversation_with(&owner, "arch".to_string(), "Old".to_string(), "t".to_string());
    state.add_user_message_at(&owner, &current, "now".to_string(), None, "t1".to_string()).unwrap();
    state.add_user_message_at(&owner, &talked, "tomatoes".to_string(), None, "t1".to_string()).unwrap();
    state.add_user_message_at(&owner, &archived, "gone".to_string(), None, "t1".to_string()).unwrap();
    state.archive_conversation_at(&owner, &archived, "t2".to_string()).unwrap();
    let memory = state.conversation_memory_for_user(&owner, &current);
    assert_eq!(memory.len(), 1);
    assert_eq!(memory[0].id, talked);
    assert_eq!(
        memory[0].summary.as_deref(),
        Some("Conversation 'Garden' most recently discussed: tomatoes")
    );
    let _ = empty;
}

#[test]
fn stored_events_are_the_ones_recorded() {
    let (mut state, owner) = state_with_owner();
    let id = state.create_conversation_with(&owner, "c".to_string(), "T".to_string(), "t0".to_string());
    state.rename_conversation(&owner, &id, "U".to_string()).unwrap();
    let history = state.get_history(&owner, &id).unwrap();
    assert_eq!(history.title, "U");
    assert_eq!(history.updated_at, "t0");
    let _unused: Option<ConversationEvent> = None;
}

#[test]
fn refusals_map_to_http_statuses() {
    assert_eq!(ApiStateError::NotFound.status_code(), 404);
    assert_eq!(ApiStateError::Forbidden.status_code(), 403);
    assert_eq!(ApiStateError::Conflict("x".to_string()).status_code(), 409);
    assert_eq!(ApiStateError::BadRequest("y".to_string()).status_code(), 400);
    assert_eq!(ApiStateError::Conflict("x".to_string()).message().as_deref(), Some("x"));
    assert_eq!(ApiStateError::NotFound.message(), None);
    assert_eq!(
        ApiStateError::from(orchid::domain::ConversationError::AlreadyArchived),
        ApiStateError::Conflict("already archived".to_string())
    );
}

fn started(id: &str, user_id: &str, title: &str, at: &str) -> ConversationEvent {
    ConversationEvent::Started(ConversationStarted {
        conversation_id: id.to_string(),
        user_id: user_id.to_string(),
        title: title.to_string(),
        timestamp: at.to_string(),
    })
}

fn user_message(content: &str, at: &str) -> ConversationEvent {
    ConversationEvent::UserMessageSent(UserMessageSent {
        content: content.to_string(),
        user_id: "u1".to_string(),
        model_id: "m".to_string(),
        timestamp: at.to_string(),
    })
}

#[test]
fn loaded_records_list_and_remember_like_the_store() {
    let user = PublicUser { id: "u1".to_string(), username: "ann".to_string(), role: UserRole::User };
    let records = vec![
        ("a".to_string(), ConversationRecord {
            user_id: "u1".to_string(),
            events: vec![started("a", "u1", "A", "2026-01-01T00:00:00Z"), user_message("hello", "2026-01-05T00:00:00Z")],
        }),
        ("b".to_string(), ConversationRecord {
            user_id: "u1".to_string(),
            events: vec![
                started("b", "u1", "B", "2026-01-03T00:00:00Z"),
                ConversationEvent::ConversationArchived(ConversationArchived { timestamp: "2026-01-04T00:00:00Z".to_string() }),
            ],
        }),
        ("c".to_string(), ConversationRecord {
            user_id: "u2".to_string(),
            events: vec![started("c", "u2", "C", "2026-01-09T00:00:00Z"), user_message("hi", "2026-01-09T00:00:00Z")],
        }),
        ("d".to_string(), ConversationRecord {
            user_id: "u1".to_string(),
            events: vec![started("d", "u1", "D", "2026-01-02T00:00:00Z")],
        }),
    ];
    let ids: Vec<String> = list_entries(&records, &user).into_iter().map(|e| e.id).collect();
    assert_eq!(ids, vec!["a".to_string(), "d".to_string()]);
    let memory = other_conversation_memories(&records, &user, "d");
    assert_eq!(memory.len(), 1);
    assert_eq!(memory[0].id, "a");
    assert_eq!(memory[0].summary.as_deref(), Some("Conversation 'A' most recently discussed: hello"));
    assert!(other_conversation_memories(&records, &user, "a").is_empty());
}

fn is_uuid_v4_text(s: &str) -> bool {
    let c: Vec<char> = s.chars().collect();
    c.len() == 36
        && c.iter().enumerate().all(|(i, ch)| {
            if [8, 13, 18, 23].contains(&i) {
                *ch == '-'
            } else {
                ch.is_ascii_digit() || ('a'..='f').contains(ch)
            }
        })
        && c[14] == '4'
        && ['8', '9', 'a', 'b'].contains(&c[19])
}

#[test]
fn session_tokens_and_conversation_ids_are_v4_uuids() {
    let (mut state, owner) = state_with_owner();
    let token = state.create_session(&owner);
    assert!(is_uuid_v4_text(&token), "{token}");
    let id = state.create_conversation(&owner, None);
    assert!(is_uuid_v4_text(&id), "{id}");
    assert!(is_uuid_v4_text(&owner.id), "{}", owner.id);
    assert_ne!(state.create_session(&owner), token);
}
