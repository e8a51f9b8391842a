//! Text helpers, titles, prompts and replies.

use orchid::ai::{ChatMessage, LlmError};
use orchid::domain::views::ConversationMemoryView;
use orchid::domain::{ConversationHistoryView, MessageView};
use orchid::state::{
    check_archive, check_history_owner, database_status, fallback_title, prepare_user_message,
    redis_status, reply_from_completion, reply_messages, sanitize_title, system_prompt_for,
    title_from_completion, title_messages, title_source_of, ApiStateError, PublicUser, UserRole,
};
use orchid::text::{lex_less, split_char, split_once, split_whitespace, starts_with, trim_str, truncate};

#[test]
fn truncate_keeps_short_values_and_marks_cut_ones() {
    assert_eq!(truncate("hello", 5), "hello");
    assert_eq!(truncate("hello!", 5), "hello...");
    assert_eq!(truncate("ééééé", 3), "ééé...");
    assert_eq!(truncate("", 0), "");
}

#[test]
fn trimming_and_splitting_follow_std() {
    assert_eq!(trim_str("  a b \n"), "a b");
    assert_eq!(trim_str("\u{3000}x\u{a0}"), "x");
    assert_eq!(split_whitespace(" a  bb\tc "), vec!["a", "bb", "c"]);
    assert!(split_whitespace("   ").is_empty());
    assert_eq!(split_char("a;b;;c", ';'), vec!["a", "b", "", "c"]);
    assert_eq!(split_char("", ';'), vec![""]);
    assert_eq!(split_once("k=v=w", '='), Some(("k".to_string(), "v=w".to_string())));
    assert_eq!(split_once("kv", '='), None);
    assert!(starts_with("Chat 2026", "Chat "));
    assert!(!starts_with("Cha", "Chat "));
}

#[test]
fn string_order_matches_std() {
    let cases = [("a", "b"), ("ab", "a"), ("", "a"), ("a", "a"), ("2026-01-02", "2026-01-10"), ("é", "z")];
    for (a, b) in cases {
        assert_eq!(lex_less(a, b), a < b, "{a} < {b}");
    }
}

#[test]
fn sanitize_title_trims_quotes_and_limits_length() {
    assert_eq!(sanitize_title("  \"Spring Garden\"  "), "Spring Garden");
    assert_eq!(sanitize_title("`\"Plan\"`"), "\"Plan\"");
    assert_eq!(sanitize_title(&"y".repeat(70)).chars().count(), 60);
}

#[test]
fn fallback_title_takes_first_five_words() {
    assert_eq!(fallback_title("plan my herb garden for spring please"), "plan my herb garden for");
    assert_eq!(fallback_title("  hi   there "), "hi there");
    assert_eq!(fallback_title(""), "");
}

fn history(title: &str, messages: &[(&str, &str)]) -> ConversationHistoryView {
    ConversationHistoryView {
        id: "c".to_string(),
        title: title.to_string(),
        user_id: Some("u".to_string()),
        archived: false,
        updated_at: "t".to_string(),
        messages: messages
            .iter()
            .map(|(role, content)| MessageView {
                role: role.to_string(),
                content: content.to_string(),
                timestamp: "t".to_string(),
                model_id: Some("m".to_string()),
            })
            .collect(),
    }
}

#[test]
fn a_title_is_generated_only_for_placeholder_titles_with_a_reply() {
    let h = history("Chat 2026-01-01 10:00", &[("user", "plan my herb garden"), ("assistant", "ok")]);
    assert_eq!(title_source_of(&h).as_deref(), Some("plan my herb garden"));
    let h = history("Conversation 1", &[("assistant", "hi"), ("user", "second")]);
    assert_eq!(title_source_of(&h).as_deref(), Some("second"));
    assert_eq!(title_source_of(&history("My Title", &[("user", "a"), ("assistant", "b")])), None);
    assert_eq!(title_source_of(&history("Chat x", &[("user", "a")])), None);
    assert_eq!(title_source_of(&history("Chat x", &[("user", ""), ("assistant", "b")])), None);
}

#[test]
fn title_prompt_and_result() {
    let messages = title_messages("plan my garden");
    assert_eq!(messages.len(), 2);
    assert_eq!(messages[0], ChatMessage::new("system", "You write concise chat titles."));
    assert_eq!(messages[1].role, "user");
    assert!(messages[1].content.ends_with("Request: plan my garden"));
    assert_eq!(title_from_completion(Ok("\"Garden Plan\"".to_string()), "x"), "Garden Plan");
    assert_eq!(title_from_completion(Err(LlmError::Timeout), "plan my herb garden for spring now"), "plan my herb garden for");
}

fn memory(summary: Option<&str>) -> ConversationMemoryView {
    ConversationMemoryView {
        id: "m".to_string(),
        user_id: Some("u".to_string()),
        archived: false,
        recent_messages: vec![],
        summary: summary.map(|s| s.to_string()),
    }
}

#[test]
fn reply_prompt_includes_two_memories_at_most() {
    let mems = vec![memory(Some("one")), memory(None), memory(Some("three"))];
    let messages = reply_messages("Owner prompt", &mems, "hello");
    assert_eq!(
        messages,
        vec![
            ChatMessage::new("system", "Owner prompt"),
            ChatMessage::new("system", "Memory: one"),
            ChatMessage::new("user", "hello"),
        ]
    );
    let owner = "Owner".to_string();
    let user = "User".to_string();
    assert_eq!(system_prompt_for(UserRole::Owner, &owner, &user), "Owner");
    assert_eq!(system_prompt_for(UserRole::User, &owner, &user), "User");
}

#[test]
fn fallback_reply_echoes_and_remembers() {
    let mems = vec![memory(Some("tomatoes"))];
    let unknown = || LlmError::UnknownModel("m".to_string());
    assert_eq!(reply_from_completion(Ok("answer".to_string()), "hi", &mems), Ok("answer".to_string()));
    assert_eq!(
        reply_from_completion(Err(unknown()), "hi", &mems),
        Ok("You said: hi. I also remember: tomatoes".to_string())
    );
    assert_eq!(reply_from_completion(Err(unknown()), "hi", &vec![]), Ok("You said: hi.".to_string()));
}

#[test]
fn a_failing_backend_is_reported_not_echoed() {
    let mems = vec![memory(Some("tomatoes"))];
    assert_eq!(reply_from_completion(Err(LlmError::Timeout), "hi", &mems), Err(LlmError::Timeout));
    let api = LlmError::ApiError("HTTP request failed: refused".to_string());
    assert_eq!(reply_from_completion(Err(api.clone()), "hi", &mems), Err(api));
}

#[test]
fn checks_on_a_stored_history() {
    let mut h = history("Chat", &[("user", "a")]);
    let owner = PublicUser { id: "u".to_string(), username: "n".to_string(), role: UserRole::User };
    let other = PublicUser { id: "v".to_string(), username: "n".to_string(), role: UserRole::User };
    assert_eq!(check_history_owner(&h, &owner), Ok(()));
    assert_eq!(check_history_owner(&h, &other), Err(ApiStateError::Forbidden));
    assert_eq!(check_archive(&h), Ok(()));
    let default = "gpt-4o".to_string();
    assert_eq!(prepare_user_message(&h, "x", None, &default), Ok("m".to_string()));
    assert_eq!(prepare_user_message(&h, "x", Some("k".to_string()), &default), Ok("k".to_string()));
    assert_eq!(
        prepare_user_message(&h, " ", None, &default),
        Err(ApiStateError::BadRequest("message content cannot be empty".to_string()))
    );
    let empty = history("Chat", &[]);
    assert_eq!(prepare_user_message(&empty, "x", None, &default), Ok("gpt-4o".to_string()));
    h.archived = true;
    assert_eq!(check_archive(&h), Err(ApiStateError::Conflict("conversation already archived".to_string())));
    assert_eq!(
        prepare_user_message(&h, "x", None, &default),
        Err(ApiStateError::Conflict("conversation is archived".to_string()))
    );
}

#[test]
fn health_labels() {
    assert_eq!(database_status(false, false), "in_memory");
    assert_eq!(database_status(true, true), "ok");
    assert_eq!(database_status(true, false), "error");
    assert_eq!(redis_status(false, true), "disabled");
    assert_eq!(redis_status(true, true), "ok");
    assert_eq!(redis_status(true, false), "error");
}
