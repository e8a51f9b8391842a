//! Sessions cookies, authenticated users, configuration and socket tokens.

use orchid::ai::LlmError;
use orchid::auth::models::AuthenticatedUser;
use orchid::auth::session::{logout_cookie, session_cookie, session_token, SESSION_COOKIE_NAME};
use orchid::config::{parse_port, AppConfig};
use orchid::state::{PublicUser, UserRole};
use orchid::ws::protocol::{
    assemble, continues_after_send, next_action, reply_error_frame, reply_plan, token_frame, tokenize,
    ClientFrame,
    ServerFrame, SocketAction, SocketEvent,
};

#[test]
fn session_cookie_round_trips() {
    let cookie = session_cookie("abc-123");
    assert_eq!(cookie, "orchid_session=abc-123; Path=/; HttpOnly; SameSite=Lax");
    assert_eq!(session_token(&cookie).as_deref(), Some("abc-123"));
    assert_eq!(session_token("orchid_session=abc-123").as_deref(), Some("abc-123"));
    assert_eq!(SESSION_COOKIE_NAME, "orchid_session");
    assert_eq!(logout_cookie(), "orchid_session=; Path=/; HttpOnly; SameSite=Lax; Max-Age=0");
}

#[test]
fn session_token_finds_the_named_pair() {
    assert_eq!(session_token("theme=dark; orchid_session=t1; x=y").as_deref(), Some("t1"));
    assert_eq!(session_token("orchid_session=a=b").as_deref(), Some("a=b"));
    assert_eq!(session_token("theme=dark"), None);
    assert_eq!(session_token("orchid_session"), None);
    assert_eq!(session_token(""), None);
    assert_eq!(session_token("orchid_session=; orchid_session=t2").as_deref(), Some(""));
}

#[test]
fn authenticated_user_names_the_role() {
    let user = PublicUser { id: "1".to_string(), username: "admin".to_string(), role: UserRole::Owner };
    let shown = AuthenticatedUser::from(user);
    assert_eq!(shown.role, "owner");
    assert_eq!(shown.username, "admin");
    let user = PublicUser { id: "2".to_string(), username: "friend".to_string(), role: UserRole::User };
    assert_eq!(AuthenticatedUser::from(user).role, "user");
}

#[test]
fn ports_parse_as_u16() {
    assert_eq!(parse_port("8080"), Some(8080));
    assert_eq!(parse_port("+80"), Some(80));
    assert_eq!(parse_port("0065535"), Some(65535));
    assert_eq!(parse_port("65536"), None);
    assert_eq!(parse_port("99999999999999999999"), None);
    assert_eq!(parse_port(""), None);
    assert_eq!(parse_port("+"), None);
    assert_eq!(parse_port("-1"), None);
    assert_eq!(parse_port(" 80"), None);
    for s in ["1", "300", "65535", "+7", "x", "12a"] {
        assert_eq!(parse_port(s), s.parse::<u16>().ok(), "{s}");
    }
}

#[test]
fn configuration_defaults() {
    let config = AppConfig::from_settings(None, None, None, None, None, None, None, None, None, None, None);
    assert_eq!(config.backend_port, 3000);
    assert_eq!(config.database_url, None);
    assert_eq!(config.owner_username, "admin");
    assert_eq!(config.owner_password, "change-me");
    assert_eq!(config.owner_system_prompt, "You are a helpful assistant for the system owner.");
    assert_eq!(config.user_system_prompt, "You are a helpful assistant.");
    assert_eq!(config.ai_provider, "openai");
    assert_eq!(config.ai_api_key, "");
    assert_eq!(config.ai_model, "Hermes-3-Llama-3.1-8B-Q6_K_L");
    assert_eq!(config.ai_base_url, "http://192.168.1.50:8080");
    let config = AppConfig::from_settings(
        Some("nope".to_string()),
        Some("postgres://x".to_string()),
        None,
        Some("root".to_string()),
        None,
        None,
        None,
        None,
        Some("key".to_string()),
        Some("gpt-4o".to_string()),
        None,
    );
    assert_eq!(config.backend_port, 3000);
    assert_eq!(config.database_url.as_deref(), Some("postgres://x"));
    assert_eq!(config.owner_username, "root");
    assert_eq!(config.ai_api_key, "key");
    assert_eq!(config.ai_model, "gpt-4o");
    let config = AppConfig::from_settings(Some("4000".to_string()), None, None, None, None, None, None, None, None, None, None);
    assert_eq!(config.backend_port, 4000);
}

#[test]
fn replies_stream_as_words_with_a_trailing_space() {
    let tokens = tokenize("You said:  hello\norb.");
    assert_eq!(tokens, vec!["You ", "said: ", "hello ", "orb. "]);
    assert_eq!(assemble(&tokens), "You said: hello orb. ");
    assert!(tokenize(" \n").is_empty());
    assert_eq!(assemble(&vec![]), "");
    let frame = token_frame(&"c1".to_string(), "hi ".to_string());
    assert_eq!(frame, ServerFrame::Token { conversation_id: "c1".to_string(), content: "hi ".to_string() });
}

#[test]
fn recorded_reply_has_the_words_of_the_reply() {
    let reply = "  Tomatoes\tneed\u{00a0}sun,\n\nwater  and time ";
    let recorded = assemble(&tokenize(reply));
    let recorded_words: Vec<&str> = recorded.split_whitespace().collect();
    let reply_words: Vec<&str> = reply.split_whitespace().collect();
    assert_eq!(recorded_words, reply_words);
    assert_eq!(recorded, "Tomatoes need sun, water and time ");
}

#[test]
fn socket_session_answers_frames_closes_and_skips_the_rest() {
    let frame = ClientFrame::SendMessage {
        conversation_id: "c".to_string(),
        content: "hi".to_string(),
        model_id: None,
    };
    assert_eq!(
        next_action(SocketEvent::Text(Some(frame))),
        SocketAction::Answer { conversation_id: "c".to_string(), content: "hi".to_string(), model_id: None }
    );
    assert_eq!(next_action(SocketEvent::Text(None)), SocketAction::Skip);
    assert_eq!(next_action(SocketEvent::Close), SocketAction::Close);
    assert_eq!(next_action(SocketEvent::Other), SocketAction::Skip);
}

#[test]
fn a_failed_send_ends_the_session_unless_it_was_an_error_frame() {
    let error = ServerFrame::Error { conversation_id: "c".to_string(), message: "NotFound".to_string() };
    let done = ServerFrame::Done { conversation_id: "c".to_string() };
    assert!(continues_after_send(&done, true));
    assert!(!continues_after_send(&done, false));
    assert!(!continues_after_send(&ServerFrame::Ack, false));
    assert!(continues_after_send(&error, false));
}

#[test]
fn reply_plan_streams_each_token_then_done() {
    let cid = "conv-9".to_string();
    let plan = reply_plan(&cid, " Hello  there\n");
    assert_eq!(
        plan.tokens,
        vec![
            ServerFrame::Token { conversation_id: cid.clone(), content: "Hello ".to_string() },
            ServerFrame::Token { conversation_id: cid.clone(), content: "there ".to_string() },
        ]
    );
    assert_eq!(plan.done, ServerFrame::Done { conversation_id: cid });
    assert_eq!(plan.recorded, "Hello there ");
}

#[test]
fn backend_failure_is_sent_as_an_error_frame_and_the_session_goes_on() {
    let cid = "conv-3".to_string();
    let frame = reply_error_frame(&cid, &LlmError::Timeout);
    assert_eq!(
        frame,
        ServerFrame::Error { conversation_id: cid.clone(), message: "Request timed out".to_string() }
    );
    assert!(continues_after_send(&frame, true));
    assert!(continues_after_send(&frame, false));
    let api = reply_error_frame(&cid, &LlmError::ApiError("Failed to parse response: eof".to_string()));
    assert_eq!(
        api,
        ServerFrame::Error { conversation_id: cid, message: "API error: Failed to parse response: eof".to_string() }
    );
}
