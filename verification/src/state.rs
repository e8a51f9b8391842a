//! The application state: users, sessions and conversations, with the rules
//! of every operation on them (who may see or change a conversation, what a
//! refused request is answered), and the prompts exchanged with the model.
use crate::ai::backend::{ChatMessage, LlmError};
use crate::domain::conversation::{
    applied, archived_in, is_initial, last_model_in, lemma_replay_flags, replay, Conversation,
    ConversationArchived, ConversationError, ConversationEvent, ConversationStarted,
    TitleChanged, UserMessageSent, AssistantMessageSent, error_message,
};
use crate::domain::views::{
    history_of, list_entry_of, memory_of, ConversationHistoryView, ConversationListEntry,
    ConversationMemoryView, HistoryModel, ListModel, MemoryModel, MessageModel, messages_view,
};
use crate::services::{
    generate_hash, is_rfc3339_utc_text, is_uuid_v4_text, new_uuid, now_chat_title, now_rfc3339, password_verifies,
    verify_password,
};
use crate::table::{has_key, keys_distinct, lemma_map_of_index, map_of, Table};
use crate::text::{
    has_prefix, is_blank, is_blank_str, joined, lex_less, lex_lt, starts_with, strip, strip_both,
    take_chars, take_chars_str, trim, words, split_whitespace, join_first, views_of, Strip,
    is_ws,
};
use vstd::prelude::*;
use vstd::string::*;

verus! {

broadcast use vstd::string::group_string_axioms;

// ============================================================================
// USERS, SESSIONS, RECORDS
// ============================================================================

#[derive(Debug, Clone, Copy, PartialEq, Eq, Structural)]
pub enum UserRole {
    Owner,
    User,
}

#[derive(Debug, Clone, PartialEq, Eq)]
pub struct PublicUser {
    pub id: String,
    pub username: String,
    pub role: UserRole,
}

#[derive(Debug, Clone, PartialEq, Eq)]
pub struct UserRecord {
    pub id: String,
    pub username: String,
    pub password_hash: String,
    pub role: UserRole,
}

#[derive(Debug, Clone, PartialEq, Eq)]
pub struct SessionRecord {
    pub user_id: String,
}

#[derive(Debug, Clone, PartialEq, Eq)]
pub struct ConversationRecord {
    pub user_id: String,
    pub events: Vec<ConversationEvent>,
}

/// The public part of a user record.
pub open spec fn public_of(rec: UserRecord) -> PublicUser {
    PublicUser { id: rec.id, username: rec.username, role: rec.role }
}

/// The public part of a user record.
pub fn to_public_user(user: &UserRecord) -> (r: PublicUser)
    ensures
        r == public_of(*user),
{
    PublicUser { id: user.id.clone(), username: user.username.clone(), role: user.role }
}

// ============================================================================
// ERRORS
// ============================================================================

/// Why a request on the state was refused.
#[derive(Debug, Clone, PartialEq, Eq)]
pub enum ApiStateError {
    NotFound,
    Forbidden,
    Conflict(String),
    BadRequest(String),
}

/// The HTTP status that answers each refusal.
pub open spec fn status_of(e: ApiStateError) -> u16 {
    match e {
        ApiStateError::NotFound => 404,
        ApiStateError::Forbidden => 403,
        ApiStateError::Conflict(_) => 409,
        ApiStateError::BadRequest(_) => 400,
    }
}

impl ApiStateError {
    /// A refused command of the aggregate is a conflict carrying its message.
    pub fn from(value: ConversationError) -> (r: Self)
        ensures
            r matches ApiStateError::Conflict(m) && m@ == error_message(value),
    {
        ApiStateError::Conflict(value.to_string())
    }

    /// The HTTP status that answers the refusal.
    pub fn status_code(&self) -> (r: u16)
        ensures
            r == status_of(*self),
    {
        match self {
            ApiStateError::NotFound => 404,
            ApiStateError::Forbidden => 403,
            ApiStateError::Conflict(_) => 409,
            ApiStateError::BadRequest(_) => 400,
        }
    }

    /// The message sent with the refusal, for those that carry one.
    pub fn message(&self) -> (r: Option<String>)
        ensures
            match *self {
                ApiStateError::Conflict(m) => r == Some(m),
                ApiStateError::BadRequest(m) => r == Some(m),
                _ => r is None,
            },
    {
        match self {
            ApiStateError::Conflict(m) => Some(m.clone()),
            ApiStateError::BadRequest(m) => Some(m.clone()),
            _ => None,
        }
    }
}

/// Why a user could not be seeded.
#[derive(Debug, Clone, Copy, PartialEq, Eq, Structural)]
pub enum SeedError {
    MissingCredentials,
    UserExists,
}

impl SeedError {
    /// The error's display message.
    pub fn to_string(&self) -> (r: String)
        ensures
            *self == SeedError::MissingCredentials ==> r@ == "username and password are required"@,
            *self == SeedError::UserExists ==> r@ == "user already exists"@,
    {
        match self {
            SeedError::MissingCredentials => "username and password are required".to_string(),
            SeedError::UserExists => "user already exists".to_string(),
        }
    }
}

// ============================================================================
// AGGREGATE AND OWNERSHIP
// ============================================================================

/// The aggregate state rebuilt by replaying `events` from the initial state.
pub fn aggregate_from_events(events: &[ConversationEvent]) -> (r: Conversation)
    ensures
        exists|c0: Conversation| is_initial(c0) && r == replay(c0, events@),
        r.archived == archived_in(events@),
        r.last_model_id == last_model_in(events@),
{
    let mut aggregate = Conversation::default();
    let _n = events.len();
    let ghost c0 = aggregate;
    aggregate.replay_all(events);
    proof {
        lemma_replay_flags(c0, events@);
    }
    aggregate
}

/// Only the user who started a conversation may use it.
pub fn ensure_owner(user: &PublicUser, record: &ConversationRecord) -> (r: Result<(), ApiStateError>)
    ensures
        record.user_id@ == user.id@ ==> r is Ok,
        record.user_id@ != user.id@ ==> r == Err::<(), ApiStateError>(ApiStateError::Forbidden),
{
    if record.user_id == user.id {
        Ok(())
    } else {
        Err(ApiStateError::Forbidden)
    }
}

// ============================================================================
// TITLES
// ============================================================================

/// The longest title, in characters.
pub const TITLE_MAX_CHARS: usize = 60;

/// A title as the model returned it, cleaned: trimmed, stripped of wrapping
/// double quotes and backticks, and cut to 60 characters.
pub open spec fn sanitized(title: Seq<char>) -> Seq<char> {
    take_chars(
        strip_both(strip_both(trim(title), Strip::Char('"')), Strip::Char('`')),
        TITLE_MAX_CHARS as nat,
    )
}

/// Cleans a title returned by the model.
pub fn sanitize_title(title: &str) -> (r: String)
    ensures
        r@ == sanitized(title@),
        r@.len() <= TITLE_MAX_CHARS,
{
    let a = strip(title, Strip::Whitespace);
    let b = strip(a.as_str(), Strip::Char('"'));
    let c = strip(b.as_str(), Strip::Char('`'));
    take_chars_str(c.as_str(), TITLE_MAX_CHARS)
}

/// The number of words of a message that make a fallback title.
pub const FALLBACK_TITLE_WORDS: usize = 5;

/// A title made from the first five words of a message.
pub open spec fn fallback_of(message: Seq<char>) -> Seq<char> {
    let w = words(message);
    sanitized(
        joined(
            w.take(if w.len() < FALLBACK_TITLE_WORDS { w.len() as int } else { FALLBACK_TITLE_WORDS as int }),
            " "@,
        ),
    )
}

/// A title made from the first five words of a message.
pub fn fallback_title(message: &str) -> (r: String)
    ensures
        r@ == fallback_of(message@),
{
    let w = split_whitespace(message);
    let joined_words = join_first(&w, FALLBACK_TITLE_WORDS, " ");
    sanitize_title(joined_words.as_str())
}

/// A title still holds the placeholder it was created with.
pub open spec fn is_placeholder_title(title: Seq<char>) -> bool {
    has_prefix(title, "Chat "@) || has_prefix(title, "Conversation "@)
}

/// The content of the first user message of a history, if any.
pub open spec fn first_user_message(messages: Seq<MessageModel>) -> Option<Seq<char>>
    decreases messages.len(),
{
    if messages.len() == 0 {
        None
    } else {
        match first_user_message(messages.drop_last()) {
            Some(c) => Some(c),
            None => if messages.last().role == "user"@ {
                Some(messages.last().content)
            } else {
                None
            },
        }
    }
}

/// The message a title is generated from: the first user message, asked for
/// only while the title is still a placeholder and there are at least two
/// messages, and only when that message is not empty.
pub open spec fn title_source(h: HistoryModel) -> Option<Seq<char>> {
    if !is_placeholder_title(h.title) || h.messages.len() < 2 {
        None
    } else {
        match first_user_message(h.messages) {
            Some(c) => if c.len() > 0 { Some(c) } else { None },
            None => None,
        }
    }
}

/// The message a better title should be generated from, if one is due.
pub fn title_source_of(history: &ConversationHistoryView) -> (r: Option<String>)
    ensures
        match title_source(history@) {
            Some(c) => r matches Some(s) && s@ == c,
            None => r is None,
        },
{
    let placeholder = starts_with(history.title.as_str(), "Chat ") || starts_with(
        history.title.as_str(),
        "Conversation ",
    );
    let n = history.messages.len();
    if !placeholder || n < 2 {
        return None;
    }
    let ghost mv = messages_view(history.messages@);
    let mut i: usize = 0;
    while i < n
        invariant
            n == history.messages@.len(),
            mv == messages_view(history.messages@),
            is_placeholder_title(history@.title),
            n >= 2,
            i <= n,
            first_user_message(mv.take(i as int)) is None,
        decreases n - i,
    {
        let m = &history.messages[i];
        proof {
            assert(mv.take(i + 1).drop_last() =~= mv.take(i as int));
            assert(mv.take(i + 1).last() == m@);
        }
        if crate::text::str_eq(m.role.as_str(), "user") {
            proof {
                assert(first_user_message(mv.take(i + 1)) == Some(m.content@));
                lemma_first_user_message_prefix(mv, i + 1);
            }
            if m.content.as_str().unicode_len() == 0 {
                return None;
            }
            return Some(m.content.clone());
        }
        i = i + 1;
    }
    assert(mv.take(n as int) =~= mv);
    None
}

proof fn lemma_first_user_message_prefix(s: Seq<MessageModel>, k: int)
    requires
        0 <= k <= s.len(),
        first_user_message(s.take(k)) is Some,
    ensures
        first_user_message(s) == first_user_message(s.take(k)),
    decreases s.len() - k,
{
    if k < s.len() {
        assert(s.take(k + 1).drop_last() =~= s.take(k));
        lemma_first_user_message_prefix(s, k + 1);
    } else {
        assert(s.take(k) =~= s);
    }
}

/// The system prompt that asks the model for a title.
pub open spec fn title_system_prompt() -> Seq<char> {
    "You write concise chat titles."@
}

/// The instruction that asks the model for a title, before the request.
pub open spec fn title_instruction() -> Seq<char> {
    "Write a short conversation title of 2 to 5 words for this request. Return only the title. Request: "@
}

/// The messages that ask the model for a title of a conversation that
/// began with `first_user_message`.
pub fn title_messages(first_user_message: &str) -> (r: Vec<ChatMessage>)
    ensures
        r@.len() == 2,
        r@[0].role@ == "system"@,
        r@[0].content@ == title_system_prompt(),
        r@[1].role@ == "user"@,
        r@[1].content@ == title_instruction() + first_user_message@,
{
    let prompt = "Write a short conversation title of 2 to 5 words for this request. Return only the title. Request: ".to_string().concat(
        first_user_message,
    );
    let mut r = Vec::new();
    r.push(ChatMessage::new("system", "You write concise chat titles."));
    r.push(ChatMessage::new("user", prompt.as_str()));
    r
}

/// The title made from the model's answer: the cleaned answer, or, when the
/// model failed, the first words of the request.
pub fn title_from_completion(result: Result<String, LlmError>, first_user_message: &str) -> (r:
    String)
    ensures
        match result {
            Ok(t) => r@ == sanitized(t@),
            Err(_) => r@ == fallback_of(first_user_message@),
        },
{
    match result {
        Ok(title) => sanitize_title(title.as_str()),
        Err(_) => fallback_title(first_user_message),
    }
}

// ============================================================================
// CHECKS ON A STORED HISTORY
// ============================================================================

/// The model of the last message of a history, if it records one.
pub open spec fn last_message_model(h: HistoryModel) -> Option<Seq<char>> {
    if h.messages.len() > 0 {
        h.messages.last().model_id
    } else {
        None
    }
}

/// A change to a stored history (a rename, a reply) is refused when the
/// history belongs to another user.
pub fn check_history_owner(history: &ConversationHistoryView, user: &PublicUser) -> (r: Result<(), ApiStateError>)
    ensures
        history@.user_id == Some(user.id@) ==> r is Ok,
        history@.user_id != Some(user.id@) ==> r == Err::<(), ApiStateError>(ApiStateError::Forbidden),
{
    match &history.user_id {
        Some(owner) => {
            if crate::text::str_eq(owner.as_str(), user.id.as_str()) {
                Ok(())
            } else {
                Err(ApiStateError::Forbidden)
            }
        },
        None => Err(ApiStateError::Forbidden),
    }
}

/// An archive is refused when the history is archived already.
pub fn check_archive(history: &ConversationHistoryView) -> (r: Result<(), ApiStateError>)
    ensures
        !history@.archived ==> r is Ok,
        history@.archived ==> (r matches Err(ApiStateError::Conflict(m)) && m@ == "conversation already archived"@),
{
    if history.archived {
        Err(ApiStateError::Conflict("conversation already archived".to_string()))
    } else {
        Ok(())
    }
}

/// The model a user message on a stored history is addressed to, or why the
/// message is refused: an archived conversation is a conflict, blank content
/// a bad request; the model is the one chosen, else that of the last
/// message, else the default.
pub fn prepare_user_message(
    history: &ConversationHistoryView,
    content: &str,
    model_id: Option<String>,
    default_model: &String,
) -> (r: Result<String, ApiStateError>)
    ensures
        history@.archived ==> (r matches Err(ApiStateError::Conflict(m)) && m@ == "conversation is archived"@),
        !history@.archived && is_blank(content@) ==> (r matches Err(ApiStateError::BadRequest(m)) && m@
            == "message content cannot be empty"@),
        !history@.archived && !is_blank(content@) && model_id is None && history@.messages.len() > 0
            && history@.messages[history@.messages.len() - 1].model_id is Some ==> (r matches Ok(m)
            && m@ == history@.messages[history@.messages.len() - 1].model_id->0),
        !history@.archived && !is_blank(content@) ==> (r matches Ok(m) && m@ == match model_id {
            Some(c) => c@,
            None => match last_message_model(history@) {
                Some(l) => l,
                None => default_model@,
            },
        }),
{
    if history.archived {
        return Err(ApiStateError::Conflict("conversation is archived".to_string()));
    }
    if is_blank_str(content) {
        return Err(ApiStateError::BadRequest("message content cannot be empty".to_string()));
    }
    match model_id {
        Some(m) => Ok(m),
        None => {
            let n = history.messages.len();
            if n > 0 {
                assert(messages_view(history.messages@).last() == history.messages@[n - 1]@);
                match &history.messages[n - 1].model_id {
                    Some(m) => Ok(m.clone()),
                    None => Ok(default_model.clone()),
                }
            } else {
                Ok(default_model.clone())
            }
        },
    }
}

/// The state of the database as reported by the health check: `in_memory`
/// without one, else `ok` or `error` as it answered.
pub fn database_status(configured: bool, answered: bool) -> (r: String)
    ensures
        !configured ==> r@ == "in_memory"@,
        configured && answered ==> r@ == "ok"@,
        configured && !answered ==> r@ == "error"@,
{
    if !configured {
        "in_memory".to_string()
    } else if answered {
        "ok".to_string()
    } else {
        "error".to_string()
    }
}

/// The state of redis as reported by the health check: `disabled` without
/// it, else `ok` or `error` as it answered.
pub fn redis_status(configured: bool, answered: bool) -> (r: String)
    ensures
        !configured ==> r@ == "disabled"@,
        configured && answered ==> r@ == "ok"@,
        configured && !answered ==> r@ == "error"@,
{
    if !configured {
        "disabled".to_string()
    } else if answered {
        "ok".to_string()
    } else {
        "error".to_string()
    }
}

// ============================================================================
// ASSISTANT REPLIES
// ============================================================================

/// The system prompt for a user of the given role.
pub fn system_prompt_for<'a>(role: UserRole, owner_prompt: &'a String, user_prompt: &'a String) -> (r:
    &'a String)
    ensures
        role == UserRole::Owner ==> r == owner_prompt,
        role == UserRole::User ==> r == user_prompt,
{
    match role {
        UserRole::Owner => owner_prompt,
        UserRole::User => user_prompt,
    }
}

/// The number of other conversations whose memory joins a prompt.
pub const MEMORY_IN_PROMPT: usize = 2;

/// The memory lines of a prompt: one system message per summary among the
/// first two memories.
pub open spec fn memory_lines(memory: Seq<MemoryModel>) -> Seq<Seq<char>>
    decreases memory.len(),
{
    if memory.len() == 0 {
        Seq::empty()
    } else {
        let rest = memory_lines(memory.drop_last());
        match memory.last().summary {
            Some(s) => rest.push("Memory: "@ + s),
            None => rest,
        }
    }
}

/// The models of a sequence of memories.
pub open spec fn memories_view(v: Seq<ConversationMemoryView>) -> Seq<MemoryModel> {
    v.map_values(|m: ConversationMemoryView| m@)
}

/// The messages sent to the model for a reply: the system prompt, then a
/// system message for each summary among the first two memories, then the
/// user's message.
pub fn reply_messages(system_prompt: &str, memory: &Vec<ConversationMemoryView>, content: &str) -> (r:
    Vec<ChatMessage>)
    ensures
        ({
            let mem = memory_lines(
                memories_view(memory@).take(
                    if memory@.len() < MEMORY_IN_PROMPT { memory@.len() as int } else { MEMORY_IN_PROMPT as int },
                ),
            );
            &&& r@.len() == mem.len() + 2
            &&& r@[0].role@ == "system"@
            &&& r@[0].content@ == system_prompt@
            &&& forall|i: int|
                0 <= i < mem.len() ==> (#[trigger] r@[i + 1]).role@ == "system"@ && r@[i + 1].content@
                    == mem[i]
            &&& r@[r@.len() - 1].role@ == "user"@
            &&& r@[r@.len() - 1].content@ == content@
        }),
{
    let mut r: Vec<ChatMessage> = Vec::new();
    r.push(ChatMessage::new("system", system_prompt));
    let k = if memory.len() < MEMORY_IN_PROMPT { memory.len() } else { MEMORY_IN_PROMPT };
    let ghost mv = memories_view(memory@);
    let mut i: usize = 0;
    while i < k
        invariant
            k <= memory@.len(),
            mv == memories_view(memory@),
            i <= k,
            r@.len() == memory_lines(mv.take(i as int)).len() + 1,
            r@[0].role@ == "system"@,
            r@[0].content@ == system_prompt@,
            forall|j: int|
                0 <= j < memory_lines(mv.take(i as int)).len() ==> (#[trigger] r@[j + 1]).role@
                    == "system"@ && r@[j + 1].content@ == memory_lines(mv.take(i as int))[j],
        decreases k - i,
    {
        let entry = &memory[i];
        proof {
            assert(mv.take(i + 1).drop_last() =~= mv.take(i as int));
            assert(mv.take(i + 1).last() == entry@);
        }
        match &entry.summary {
            Some(summary) => {
                let line = "Memory: ".to_string().concat(summary.as_str());
                r.push(ChatMessage::new("system", line.as_str()));
            },
            None => {},
        }
        i = i + 1;
    }
    r.push(ChatMessage::new("user", content));
    r
}

/// The reply given when the model fails: the user's words echoed, with the
/// summary of the first memory when there is one.
pub open spec fn fallback_reply_of(content: Seq<char>, memory: Seq<MemoryModel>) -> Seq<char> {
    let hint = if memory.len() > 0 && memory[0].summary is Some {
        " I also remember: "@ + memory[0].summary->0
    } else {
        Seq::empty()
    };
    "You said: "@ + content + "."@ + hint
}

/// The assistant's reply: the model's answer; the fallback reply when no
/// backend serves the model (no provider is configured for it); and, when a
/// backend that serves it fails, that failure, to be reported to the client.
pub fn reply_from_completion(result: Result<String, LlmError>, content: &str, memory: &Vec<
    ConversationMemoryView,
>) -> (r: Result<String, LlmError>)
    ensures
        match result {
            Ok(reply) => r == Ok::<String, LlmError>(reply),
            Err(LlmError::UnknownModel(_)) => r matches Ok(s) && s@ == fallback_reply_of(
                content@,
                memories_view(memory@),
            ) && (memory@.len() > 0 && memory@[0].summary is Some ==> s@ == "You said: "@ + content@
                + "."@ + " I also remember: "@ + memory@[0].summary->0@) && (memory@.len() == 0
                || memory@[0].summary is None ==> s@ == "You said: "@ + content@ + "."@),
            Err(e) => r == Err::<String, LlmError>(e),
        },
{
    match result {
        Ok(reply) => Ok(reply),
        Err(LlmError::UnknownModel(_)) => {
            let mut hint = String::new();
            if memory.len() > 0 {
                assert(memories_view(memory@)[0] == memory@[0]@);
                match &memory[0].summary {
                    Some(summary) => {
                        hint = " I also remember: ".to_string().concat(summary.as_str());
                    },
                    None => {},
                }
            }
            Ok("You said: ".to_string().concat(content).concat(".").concat(hint.as_str()))
        },
        Err(e) => Err(e),
    }
}

/// A user-message event.
pub open spec fn user_message_event(content: String, user_id: String, model_id: String, timestamp: String) -> ConversationEvent {
    ConversationEvent::UserMessageSent(UserMessageSent { content, user_id, model_id, timestamp })
}

/// An assistant-message event.
pub open spec fn assistant_message_event(content: String, model_id: String, timestamp: String) -> ConversationEvent {
    ConversationEvent::AssistantMessageSent(AssistantMessageSent { content, model_id, timestamp })
}

/// An archive event.
pub open spec fn archived_event(timestamp: String) -> ConversationEvent {
    ConversationEvent::ConversationArchived(ConversationArchived { timestamp })
}

// ============================================================================
// IN-MEMORY STATE
// ============================================================================

/// The state as maps from keys to records.
pub struct StateModel {
    pub users: Map<Seq<char>, UserRecord>,
    pub sessions: Map<Seq<char>, SessionRecord>,
    pub conversations: Map<Seq<char>, ConversationRecord>,
}

/// No two users share a username.
pub open spec fn usernames_distinct(users: Map<Seq<char>, UserRecord>) -> bool {
    forall|a: Seq<char>, b: Seq<char>|
        users.dom().contains(a) && users.dom().contains(b) && a != b ==> (#[trigger] users[a]).username@
            != (#[trigger] users[b]).username@
}

/// Every user is stored under its own id.
pub open spec fn ids_match(users: Map<Seq<char>, UserRecord>) -> bool {
    forall|k: Seq<char>| users.dom().contains(k) ==> (#[trigger] users[k]).id@ == k
}

/// Some user has the given username.
pub open spec fn username_taken(users: Map<Seq<char>, UserRecord>, name: Seq<char>) -> bool {
    exists|k: Seq<char>| users.dom().contains(k) && (#[trigger] users[k]).username@ == name
}

/// A user with this name whose password hash this password verifies.
pub open spec fn login_matches(
    users: Map<Seq<char>, UserRecord>,
    name: Seq<char>,
    password: Seq<char>,
    k: Seq<char>,
) -> bool {
    users.dom().contains(k) && users[k].username@ == name && password_verifies(
        password,
        users[k].password_hash@,
    )
}

/// The user that a username and password log in as, if any.
pub open spec fn login_user(users: Map<Seq<char>, UserRecord>, name: Seq<char>, password: Seq<char>) -> Option<
    UserRecord,
> {
    if exists|k: Seq<char>| #[trigger] login_matches(users, name, password, k) {
        Some(users[choose|k: Seq<char>| #[trigger] login_matches(users, name, password, k)])
    } else {
        None
    }
}

/// The user that a session token belongs to, if the session and the user
/// both exist.
pub open spec fn session_user(m: StateModel, token: Seq<char>) -> Option<UserRecord> {
    if m.sessions.dom().contains(token) && m.users.dom().contains(m.sessions[token].user_id@) {
        Some(m.users[m.sessions[token].user_id@])
    } else {
        None
    }
}

/// `after` is `before` with one event appended to conversation `key`.
pub open spec fn event_appended(
    before: Map<Seq<char>, ConversationRecord>,
    after: Map<Seq<char>, ConversationRecord>,
    key: Seq<char>,
    e: ConversationEvent,
) -> bool {
    &&& before.dom().contains(key)
    &&& after.dom() == before.dom()
    &&& forall|k: Seq<char>| before.dom().contains(k) && k != key ==> after[k] == before[k]
    &&& after[key].user_id == before[key].user_id
    &&& after[key].events@ == before[key].events@.push(e)
}

/// `after` is `before` with conversation `key` holding `user_id` and
/// `events` (added, or replacing the one with the same key).
pub open spec fn conversation_put(
    before: Map<Seq<char>, ConversationRecord>,
    after: Map<Seq<char>, ConversationRecord>,
    key: Seq<char>,
    user_id: String,
    events: Seq<ConversationEvent>,
) -> bool {
    &&& after.dom() == before.dom().insert(key)
    &&& forall|k: Seq<char>| before.dom().contains(k) && k != key ==> after[k] == before[k]
    &&& after[key].user_id == user_id
    &&& after[key].events@ == events
}

/// The refusal owed to `user` for conversation `key`: it must exist and
/// belong to the user.
pub open spec fn access_error(m: Map<Seq<char>, ConversationRecord>, user: PublicUser, key: Seq<char>) -> Option<
    ApiStateError,
> {
    if !m.dom().contains(key) {
        Some(ApiStateError::NotFound)
    } else if m[key].user_id@ != user.id@ {
        Some(ApiStateError::Forbidden)
    } else {
        None
    }
}

/// The list views of a sequence of list entries.
pub open spec fn list_view(v: Seq<ConversationListEntry>) -> Seq<ListModel> {
    v.map_values(|e: ConversationListEntry| e@)
}

/// The unarchived list entries of a user's conversations, in table order.
pub open spec fn active_entries(s: Seq<(String, ConversationRecord)>, user_id: Seq<char>) -> Seq<
    ListModel,
>
    decreases s.len(),
{
    if s.len() == 0 {
        Seq::empty()
    } else {
        let rest = active_entries(s.drop_last(), user_id);
        let k = s.last().0;
        let rec = s.last().1;
        let e = list_entry_of(k@, rec.events@);
        if rec.user_id@ == user_id && !e.archived {
            rest.push(e)
        } else {
            rest
        }
    }
}

/// Most recently updated first (ties in any order).
pub open spec fn sorted_by_recency(s: Seq<ListModel>) -> bool {
    forall|i: int, j: int|
        0 <= i < j < s.len() ==> !lex_lt((#[trigger] s[i]).updated_at, (#[trigger] s[j]).updated_at)
}

/// The size of the message window kept for a memory.
pub const MEMORY_RECENT_WINDOW: usize = 4;

/// The memories of a user's other conversations that are neither archived
/// nor empty, in table order.
pub open spec fn other_memories(
    s: Seq<(String, ConversationRecord)>,
    user_id: Seq<char>,
    current: Seq<char>,
) -> Seq<MemoryModel>
    decreases s.len(),
{
    if s.len() == 0 {
        Seq::empty()
    } else {
        let rest = other_memories(s.drop_last(), user_id, current);
        let k = s.last().0;
        let rec = s.last().1;
        let m = memory_of(k@, rec.events@, MEMORY_RECENT_WINDOW as nat);
        if rec.user_id@ == user_id && k@ != current && !m.archived && m.recent_messages.len() > 0 {
            rest.push(m)
        } else {
            rest
        }
    }
}

/// Users, sessions and conversations held in memory.
pub struct MemoryState {
    users: Table<UserRecord>,
    sessions: Table<SessionRecord>,
    conversations: Table<ConversationRecord>,
    default_model: String,
}

impl View for MemoryState {
    type V = StateModel;

    open spec fn view(&self) -> StateModel {
        StateModel {
            users: self.user_table()@,
            sessions: self.session_table()@,
            conversations: self.conversation_table()@,
        }
    }
}

fn insert_sorted(out: &mut Vec<ConversationListEntry>, e: ConversationListEntry)
    requires
        sorted_by_recency(list_view(old(out)@)),
    ensures
        sorted_by_recency(list_view(final(out)@)),
        list_view(final(out)@).to_multiset() == list_view(old(out)@).to_multiset().insert(e@),
{
    let ghost s = list_view(out@);
    let mut p: usize = 0;
    while p < out.len() && !lex_less(out[p].updated_at.as_str(), e.updated_at.as_str())
        invariant
            s == list_view(out@),
            p <= out@.len(),
            forall|q: int| 0 <= q < p ==> !lex_lt((#[trigger] s[q]).updated_at, e@.updated_at),
        decreases out@.len() - p,
    {
        assert(s[p as int] == out@[p as int]@);
        p = p + 1;
    }
    proof {
        if p < out@.len() {
            assert(s[p as int] == out@[p as int]@);
        }
    }
    out.insert(p, e);
    let ghost t = list_view(out@);
    assert(t =~= s.insert(p as int, e@));
    proof {
        vstd::seq_lib::to_multiset_insert(s, p as int, e@);
        assert forall|i: int, j: int| 0 <= i < j < t.len() implies !lex_lt(
            (#[trigger] t[i]).updated_at,
            (#[trigger] t[j]).updated_at,
        ) by {
            if j < p {
            } else if i < p && j == p {
            } else if i < p {
                assert(t[j] == s[j - 1]);
            } else if i == p {
                assert(t[j] == s[j - 1]);
                assert(lex_lt(s[p as int].updated_at, e@.updated_at));
                crate::text::lemma_lex_lt_total(s[j - 1].updated_at, s[p as int].updated_at);
                if lex_lt(s[j - 1].updated_at, s[p as int].updated_at) {
                    crate::text::lemma_lex_lt_trans(
                        s[j - 1].updated_at,
                        s[p as int].updated_at,
                        e@.updated_at,
                    );
                }
                crate::text::lemma_lex_lt_asym(s[j - 1].updated_at, e@.updated_at);
            } else {
                assert(t[i] == s[i - 1]);
                assert(t[j] == s[j - 1]);
            }
        }
    }
}

/// What recording a user message at a given time does: the refusal owed,
/// or the message appended and the model it is addressed to returned.
pub open spec fn user_message_outcome(
    before: MemoryState,
    after: MemoryState,
    user: PublicUser,
    id: Seq<char>,
    content: String,
    model_id: Option<String>,
    timestamp: String,
    r: Result<String, ApiStateError>,
) -> bool {
            match access_error(before@.conversations, user, id) {
                Some(err) => r == Err::<String, ApiStateError>(err) && after == before,
                None => if archived_in(before@.conversations[id].events@) {
                    after == before && (r matches Err(ApiStateError::Conflict(m)) && m@
                        == "conversation is archived"@)
                } else if is_blank(content@) {
                    after == before && (r matches Err(ApiStateError::BadRequest(m)) && m@
                        == "message content cannot be empty"@)
                } else {
                    let chosen = match model_id {
                        Some(m) => m,
                        None => match last_model_in(before@.conversations[id].events@) {
                            Some(m) => m,
                            None => before.default_model(),
                        },
                    };
                    r == Ok::<String, ApiStateError>(chosen) && after.only_conversations_changed(&before) && event_appended(
                        before@.conversations,
                        after@.conversations,
                        id,
                        ConversationEvent::UserMessageSent(
                            UserMessageSent {
                                content,
                                user_id: user.id,
                                model_id: chosen,
                                timestamp,
                            },
                        ),
                    )
                },
            }
}

impl MemoryState {
    pub closed spec fn user_table(&self) -> Table<UserRecord> {
        self.users
    }

    pub closed spec fn session_table(&self) -> Table<SessionRecord> {
        self.sessions
    }

    pub closed spec fn conversation_table(&self) -> Table<ConversationRecord> {
        self.conversations
    }

    /// The model used for a message when none was chosen before.
    pub closed spec fn default_model(&self) -> String {
        self.default_model
    }

    /// The state's invariant: distinct keys, distinct usernames, and every
    /// user stored under its own id.
    pub open spec fn wf(&self) -> bool {
        &&& self.user_table().wf()
        &&& self.session_table().wf()
        &&& self.conversation_table().wf()
        &&& usernames_distinct(self@.users)
        &&& ids_match(self@.users)
    }

    /// Everything but the users is as before.
    pub open spec fn only_users_changed(&self, other: &Self) -> bool {
        &&& self.session_table() == other.session_table()
        &&& self.conversation_table() == other.conversation_table()
        &&& self.default_model() == other.default_model()
    }

    /// Everything but the sessions is as before.
    pub open spec fn only_sessions_changed(&self, other: &Self) -> bool {
        &&& self.user_table() == other.user_table()
        &&& self.conversation_table() == other.conversation_table()
        &&& self.default_model() == other.default_model()
    }

    /// Everything but the conversations is as before.
    pub open spec fn only_conversations_changed(&self, other: &Self) -> bool {
        &&& self.user_table() == other.user_table()
        &&& self.session_table() == other.session_table()
        &&& self.default_model() == other.default_model()
    }

    /// An empty state that uses `default_model` for messages without a model.
    pub fn new(default_model: String) -> (r: Self)
        ensures
            r.wf(),
            r@.users == Map::<Seq<char>, UserRecord>::empty(),
            r@.sessions == Map::<Seq<char>, SessionRecord>::empty(),
            r@.conversations == Map::<Seq<char>, ConversationRecord>::empty(),
            r.conversation_table().entries().len() == 0,
            r.default_model() == default_model,
    {
        MemoryState {
            users: Table::new(),
            sessions: Table::new(),
            conversations: Table::new(),
            default_model,
        }
    }

    // ------------------------------------------------------------------------
    // Users
    // ------------------------------------------------------------------------

    /// The position of the user named `username`, if there is one.
    fn find_username(&self, username: &str) -> (r: Option<usize>)
        requires
            self.wf(),
        ensures
            match r {
                Some(i) => i < self.users.entries().len() && self.users.entries()[i as int].1.username@
                    == username@,
                None => !username_taken(self@.users, username@),
            },
    {
        let n = self.users.len();
        let mut i: usize = 0;
        while i < n
            invariant
                self.wf(),
                n == self.users.entries().len(),
                i <= n,
                forall|j: int| 0 <= j < i ==> (#[trigger] self.users.entries()[j]).1.username@ != username@,
            decreases n - i,
        {
            if crate::text::str_eq(self.users.value_at(i).username.as_str(), username) {
                return Some(i);
            }
            i = i + 1;
        }
        proof {
            if username_taken(self@.users, username@) {
                let k = choose|k: Seq<char>| self@.users.dom().contains(k) && (
                #[trigger] self@.users[k]).username@ == username@;
                let j = choose|j: int|
                    0 <= j < self.users.entries().len() && (#[trigger] self.users.entries()[j]).0@
                        == k;
                lemma_map_of_index(self.users.entries(), j);
            }
        }
        None
    }

    /// Adds a user whose username is not taken.
    pub fn add_user(&mut self, record: UserRecord)
        requires
            old(self).wf(),
            !username_taken(old(self)@.users, record.username@),
        ensures
            final(self).wf(),
            final(self).only_users_changed(old(self)),
            final(self)@.users == old(self)@.users.insert(record.id@, record),
    {
        let ghost before = self@.users;
        let key = record.id.clone();
        self.users.insert(key, record);
        proof {
            let after = self@.users;
            assert forall|a: Seq<char>, b: Seq<char>|
                after.dom().contains(a) && after.dom().contains(b) && a != b implies (
            #[trigger] after[a]).username@ != (#[trigger] after[b]).username@ by {
                if a == record.id@ {
                    assert(after[a] == record);
                    assert(before.dom().contains(b));
                    assert(after[b] == before[b]);
                } else if b == record.id@ {
                    assert(after[b] == record);
                    assert(before.dom().contains(a));
                    assert(after[a] == before[a]);
                } else {
                    assert(after[a] == before[a]);
                    assert(after[b] == before[b]);
                }
            }
            assert forall|k: Seq<char>| after.dom().contains(k) implies (#[trigger] after[k]).id@
                == k by {
                if k != record.id@ {
                    assert(after[k] == before[k]);
                }
            }
        }
    }

    /// Creates a user with a fresh id and a hash of `password`. Blank
    /// credentials are refused; a taken username is refused for a regular
    /// user and silently kept for the owner.
    pub fn seed_user(&mut self, username: &str, password: &str, role: UserRole) -> (r: Result<
        (),
        SeedError,
    >)
        requires
            old(self).wf(),
            password.spec_bytes().len() <= 0xFFFF_FFFF,
        ensures
            final(self).wf(),
            final(self).only_users_changed(old(self)),
            is_blank(username@) || is_blank(password@) ==> r == Err::<(), SeedError>(
                SeedError::MissingCredentials,
            ) && final(self)@.users == old(self)@.users,
            !is_blank(username@) && !is_blank(password@) && username_taken(old(self)@.users, username@)
                ==> final(self)@.users == old(self)@.users && (role == UserRole::Owner ==> r is Ok) && (
            role == UserRole::User ==> r == Err::<(), SeedError>(SeedError::UserExists)),
            !is_blank(username@) && !is_blank(password@) && !username_taken(old(self)@.users, username@)
                ==> r is Ok && exists|rec: UserRecord|
                #![trigger final(self)@.users[rec.id@]]
                rec.username@ == username@ && rec.role == role && is_uuid_v4_text(rec.id@) && password_verifies(
                    password@,
                    rec.password_hash@,
                ) && final(self)@.users == old(self)@.users.insert(rec.id@, rec),
    {
        if is_blank_str(username) || is_blank_str(password) {
            return Err(SeedError::MissingCredentials);
        }
        if let Some(i) = self.find_username(username) {
            proof {
                lemma_map_of_index(self.users.entries(), i as int);
                let k = self.users.entries()[i as int].0@;
                assert(self@.users.dom().contains(k) && self@.users[k].username@ == username@);
            }
            match role {
                UserRole::Owner => {
                    return Ok(());
                },
                UserRole::User => {
                    return Err(SeedError::UserExists);
                },
            }
        }
        let id = new_uuid();
        let password_hash = generate_hash(password);
        let record = UserRecord { id, username: username.to_string(), password_hash, role };
        self.add_user(record);
        assert(final(self)@.users[record.id@] == record);
        Ok(())
    }

    /// The user whose username and password match, if any.
    pub fn authenticate(&self, username: &str, password: &str) -> (r: Option<PublicUser>)
        requires
            self.wf(),
        ensures
            match login_user(self@.users, username@, password@) {
                Some(rec) => r == Some(public_of(rec)),
                None => r is None,
            },
    {
        match self.find_username(username) {
            Some(i) => {
                let rec = self.users.value_at(i);
                let ghost k = self.users.entries()[i as int].0@;
                proof {
                    lemma_map_of_index(self.users.entries(), i as int);
                    assert(self@.users[k] == *rec);
                }
                if verify_password(password, rec.password_hash.as_str()) {
                    proof {
                        assert(login_matches(self@.users, username@, password@, k));
                        let c = choose|c: Seq<char>| #[trigger] login_matches(self@.users, username@, password@, c);
                        assert(c == k);
                    }
                    Some(to_public_user(rec))
                } else {
                    proof {
                        assert forall|c: Seq<char>| !#[trigger] login_matches(self@.users, username@, password@, c) by {
                            if login_matches(self@.users, username@, password@, c) {
                                assert(c == k);
                            }
                        }
                    }
                    None
                }
            },
            None => None,
        }
    }

    // ------------------------------------------------------------------------
    // Sessions
    // ------------------------------------------------------------------------

    /// Opens a session for `user` under a given token.
    pub fn create_session_with_token(&mut self, user: &PublicUser, token: String) -> (r: String)
        requires
            old(self).wf(),
        ensures
            final(self).wf(),
            final(self).only_sessions_changed(old(self)),
            r == token,
            final(self)@.sessions == old(self)@.sessions.insert(
                token@,
                SessionRecord { user_id: user.id },
            ),
    {
        let key = token.clone();
        self.sessions.insert(key, SessionRecord { user_id: user.id.clone() });
        token
    }

    /// Opens a session for `user` under a fresh random token, and returns it.
    pub fn create_session(&mut self, user: &PublicUser) -> (r: String)
        requires
            old(self).wf(),
        ensures
            final(self).wf(),
            final(self).only_sessions_changed(old(self)),
            final(self)@.sessions == old(self)@.sessions.insert(r@, SessionRecord { user_id: user.id }),
            is_uuid_v4_text(r@),
    {
        let token = new_uuid();
        self.create_session_with_token(user, token)
    }

    /// The user of a session, if both exist.
    pub fn get_user_by_session(&self, token: &str) -> (r: Option<PublicUser>)
        requires
            self.wf(),
        ensures
            match session_user(self@, token@) {
                Some(rec) => r == Some(public_of(rec)),
                None => r is None,
            },
    {
        let session = match self.sessions.get(token) {
            Some(s) => s,
            None => {
                return None;
            },
        };
        match self.users.get(session.user_id.as_str()) {
            Some(u) => Some(to_public_user(u)),
            None => None,
        }
    }

    /// Ends a session.
    pub fn destroy_session(&mut self, token: &str)
        requires
            old(self).wf(),
        ensures
            final(self).wf(),
            final(self).only_sessions_changed(old(self)),
            final(self)@.sessions == old(self)@.sessions.remove(token@),
    {
        self.sessions.remove(token);
    }

    // ------------------------------------------------------------------------
    // Conversations
    // ------------------------------------------------------------------------

    /// Starts a conversation of `user` under a given id, title and time.
    pub fn create_conversation_with(
        &mut self,
        user: &PublicUser,
        id: String,
        title: String,
        timestamp: String,
    ) -> (r: String)
        requires
            old(self).wf(),
        ensures
            final(self).wf(),
            final(self).only_conversations_changed(old(self)),
            r == id,
            conversation_put(
                old(self)@.conversations,
                final(self)@.conversations,
                id@,
                user.id,
                seq![
                    ConversationEvent::Started(
                        ConversationStarted {
                            conversation_id: id,
                            user_id: user.id,
                            title,
                            timestamp,
                        },
                    ),
                ],
            ),
    {
        let event = ConversationEvent::Started(
            ConversationStarted {
                conversation_id: id.clone(),
                user_id: user.id.clone(),
                title,
                timestamp,
            },
        );
        let ghost e = event;
        let record = ConversationRecord { user_id: user.id.clone(), events: vec![event] };
        let key = id.clone();
        self.conversations.insert(key, record);
        assert(self@.conversations[id@].events@ =~= seq![e]);
        id
    }

    /// Starts a conversation of `user` with a fresh random id, at the current
    /// time, titled `title` or, without one, with a `Chat ` placeholder.
    pub fn create_conversation(&mut self, user: &PublicUser, title: Option<String>) -> (r: String)
        requires
            old(self).wf(),
        ensures
            final(self).wf(),
            final(self).only_conversations_changed(old(self)),
            is_uuid_v4_text(r@),
            exists|t: String, ts: String|
                is_rfc3339_utc_text(ts@) && (match title {
                    Some(given) => t == given,
                    None => has_prefix(t@, "Chat "@),
                }) && conversation_put(
                    old(self)@.conversations,
                    final(self)@.conversations,
                    r@,
                    user.id,
                    seq![
                        ConversationEvent::Started(
                            ConversationStarted {
                                conversation_id: r,
                                user_id: user.id,
                                title: t,
                                timestamp: ts,
                            },
                        ),
                    ],
                ),
    {
        let id = new_uuid();
        let title = match title {
            Some(t) => t,
            None => now_chat_title(),
        };
        let ghost t = title;
        let timestamp = now_rfc3339();
        let ghost ts = timestamp;
        let r = self.create_conversation_with(user, id, title, timestamp);
        r
    }

    /// The position and record of conversation `id` if `user` may use it, or
    /// the refusal.
    fn owned_index(&self, user: &PublicUser, id: &str) -> (r: Result<usize, ApiStateError>)
        requires
            self.wf(),
        ensures
            match access_error(self@.conversations, *user, id@) {
                Some(err) => r == Err::<usize, ApiStateError>(err),
                None => r matches Ok(i) && i < self.conversations.entries().len()
                    && self.conversations.entries()[i as int].0@ == id@
                    && self.conversations.entries()[i as int].1 == self@.conversations[id@],
            },
    {
        match self.conversations.find(id) {
            None => Err(ApiStateError::NotFound),
            Some(i) => {
                let rec = self.conversations.value_at(i);
                match ensure_owner(user, rec) {
                    Ok(()) => Ok(i),
                    Err(e) => Err(e),
                }
            },
        }
    }

    /// Appends an event to the conversation at position `i`.
    fn append_at(&mut self, i: usize, event: ConversationEvent)
        requires
            old(self).wf(),
            i < old(self).conversation_table().entries().len(),
        ensures
            final(self).wf(),
            final(self).only_conversations_changed(old(self)),
            event_appended(
                old(self)@.conversations,
                final(self)@.conversations,
                old(self).conversation_table().entries()[i as int].0@,
                event,
            ),
    {
        let ghost before = self@.conversations;
        proof {
            lemma_map_of_index(self.conversations.entries(), i as int);
        }
        let (key, mut record) = self.conversations.remove_at(i);
        let ghost old_events = record.events@;
        record.events.push(event);
        let ghost rec = record;
        self.conversations.insert_at(i, key, record);
        proof {
            let after = self@.conversations;
            assert(after == before.remove(key@).insert(key@, rec));
            assert(after.dom() =~= before.dom());
        }
    }

    /// The full history of conversation `id`, for its owner.
    pub fn get_history(&self, user: &PublicUser, id: &str) -> (r: Result<
        ConversationHistoryView,
        ApiStateError,
    >)
        requires
            self.wf(),
        ensures
            match access_error(self@.conversations, *user, id@) {
                Some(err) => r == Err::<ConversationHistoryView, ApiStateError>(err),
                None => r matches Ok(h) && h@ == history_of(id@, self@.conversations[id@].events@),
            },
    {
        let i = self.owned_index(user, id)?;
        let rec = self.conversations.value_at(i);
        Ok(ConversationHistoryView::from_events(id, rec.events.as_slice()))
    }

    /// Renames conversation `id` for its owner.
    pub fn rename_conversation(&mut self, user: &PublicUser, id: &str, title: String) -> (r: Result<
        (),
        ApiStateError,
    >)
        requires
            old(self).wf(),
        ensures
            final(self).wf(),
            match access_error(old(self)@.conversations, *user, id@) {
                Some(err) => r == Err::<(), ApiStateError>(err) && *final(self) == *old(self),
                None => r is Ok && final(self).only_conversations_changed(old(self)) && event_appended(
                    old(self)@.conversations,
                    final(self)@.conversations,
                    id@,
                    ConversationEvent::TitleChanged(TitleChanged { title }),
                ),
            },
    {
        let i = self.owned_index(user, id)?;
        self.append_at(i, ConversationEvent::TitleChanged(TitleChanged { title }));
        Ok(())
    }

    /// Archives conversation `id` for its owner at a given time; archiving
    /// twice is a conflict.
    pub fn archive_conversation_at(&mut self, user: &PublicUser, id: &str, timestamp: String) -> (r:
        Result<(), ApiStateError>)
        requires
            old(self).wf(),
        ensures
            final(self).wf(),
            match access_error(old(self)@.conversations, *user, id@) {
                Some(err) => r == Err::<(), ApiStateError>(err) && *final(self) == *old(self),
                None => if archived_in(old(self)@.conversations[id@].events@) {
                    *final(self) == *old(self) && (r matches Err(ApiStateError::Conflict(m)) && m@
                        == "conversation already archived"@)
                } else {
                    r is Ok && final(self).only_conversations_changed(old(self)) && event_appended(
                        old(self)@.conversations,
                        final(self)@.conversations,
                        id@,
                        ConversationEvent::ConversationArchived(ConversationArchived { timestamp }),
                    )
                },
            },
    {
        let i = self.owned_index(user, id)?;
        let archived = aggregate_from_events(self.conversations.value_at(i).events.as_slice()).archived;
        if archived {
            return Err(ApiStateError::Conflict("conversation already archived".to_string()));
        }
        self.append_at(
            i,
            ConversationEvent::ConversationArchived(ConversationArchived { timestamp }),
        );
        Ok(())
    }

    /// Archives conversation `id` for its owner now.
    pub fn archive_conversation(&mut self, user: &PublicUser, id: &str) -> (r: Result<
        (),
        ApiStateError,
    >)
        requires
            old(self).wf(),
        ensures
            final(self).wf(),
            match access_error(old(self)@.conversations, *user, id@) {
                Some(err) => r == Err::<(), ApiStateError>(err) && *final(self) == *old(self),
                None => if archived_in(old(self)@.conversations[id@].events@) {
                    *final(self) == *old(self) && (r matches Err(ApiStateError::Conflict(m)) && m@
                        == "conversation already archived"@)
                } else {
                    r is Ok && final(self).only_conversations_changed(old(self)) && exists|ts: String|
                        is_rfc3339_utc_text(ts@) && event_appended(
                            old(self)@.conversations,
                            final(self)@.conversations,
                            id@,
                            #[trigger] archived_event(ts),
                        )
                },
            },
    {
        let timestamp = now_rfc3339();
        let ghost ts = timestamp;
        let r = self.archive_conversation_at(user, id, timestamp);
        proof {
            if access_error(old(self)@.conversations, *user, id@) is None && !archived_in(
                old(self)@.conversations[id@].events@,
            ) {
                assert(event_appended(old(self)@.conversations, self@.conversations, id@, archived_event(ts)));
            }
        }
        r
    }

    /// Records a user message in conversation `id` at a given time, and
    /// returns the model it is addressed to: the one chosen, else the model
    /// of the last message, else the default model.
    pub fn add_user_message_at(
        &mut self,
        user: &PublicUser,
        id: &str,
        content: String,
        model_id: Option<String>,
        timestamp: String,
    ) -> (r: Result<String, ApiStateError>)
        requires
            old(self).wf(),
        ensures
            final(self).wf(),
            user_message_outcome(*old(self), *final(self), *user, id@, content, model_id, timestamp, r),
    {
        let i = self.owned_index(user, id)?;
        let aggregate = aggregate_from_events(self.conversations.value_at(i).events.as_slice());
        if aggregate.archived {
            return Err(ApiStateError::Conflict("conversation is archived".to_string()));
        }
        if is_blank_str(content.as_str()) {
            return Err(ApiStateError::BadRequest("message content cannot be empty".to_string()));
        }
        let model = match model_id {
            Some(m) => m,
            None => match aggregate.last_model_id {
                Some(m) => m,
                None => self.default_model.clone(),
            },
        };
        let event = ConversationEvent::UserMessageSent(
            UserMessageSent {
                content,
                user_id: user.id.clone(),
                model_id: model.clone(),
                timestamp,
            },
        );
        self.append_at(i, event);
        Ok(model)
    }

    /// Records a user message in conversation `id` now.
    pub fn add_user_message(
        &mut self,
        user: &PublicUser,
        id: &str,
        content: String,
        model_id: Option<String>,
    ) -> (r: Result<String, ApiStateError>)
        requires
            old(self).wf(),
        ensures
            final(self).wf(),
            exists|ts: String|
                is_rfc3339_utc_text(ts@) && #[trigger] user_message_outcome(*old(self), *final(self), *user, id@, content, model_id, ts, r),
    {
        let timestamp = now_rfc3339();
        let ghost ts = timestamp;
        let ghost mid = model_id;
        let ghost c = content;
        let r = self.add_user_message_at(user, id, content, model_id, timestamp);
        assert(user_message_outcome(*old(self), *self, *user, id@, c, mid, ts, r));
        r
    }

    /// Records the assistant's reply in conversation `id` at a given time.
    pub fn add_assistant_message_at(
        &mut self,
        user: &PublicUser,
        id: &str,
        content: String,
        model_id: String,
        timestamp: String,
    ) -> (r: Result<(), ApiStateError>)
        requires
            old(self).wf(),
        ensures
            final(self).wf(),
            match access_error(old(self)@.conversations, *user, id@) {
                Some(err) => r == Err::<(), ApiStateError>(err) && *final(self) == *old(self),
                None => r is Ok && final(self).only_conversations_changed(old(self)) && event_appended(
                    old(self)@.conversations,
                    final(self)@.conversations,
                    id@,
                    ConversationEvent::AssistantMessageSent(
                        AssistantMessageSent { content, model_id, timestamp },
                    ),
                ),
            },
    {
        let i = self.owned_index(user, id)?;
        self.append_at(
            i,
            ConversationEvent::AssistantMessageSent(
                AssistantMessageSent { content, model_id, timestamp },
            ),
        );
        Ok(())
    }

    /// Records the assistant's reply in conversation `id` now.
    pub fn add_assistant_message(
        &mut self,
        user: &PublicUser,
        id: &str,
        content: String,
        model_id: String,
    ) -> (r: Result<(), ApiStateError>)
        requires
            old(self).wf(),
        ensures
            final(self).wf(),
            match access_error(old(self)@.conversations, *user, id@) {
                Some(err) => r == Err::<(), ApiStateError>(err) && *final(self) == *old(self),
                None => r is Ok && final(self).only_conversations_changed(old(self)) && exists|ts: String|
                    is_rfc3339_utc_text(ts@) && event_appended(
                        old(self)@.conversations,
                        final(self)@.conversations,
                        id@,
                        #[trigger] assistant_message_event(content, model_id, ts),
                    ),
            },
    {
        let timestamp = now_rfc3339();
        let ghost ts = timestamp;
        let ghost c = content;
        let ghost m = model_id;
        let r = self.add_assistant_message_at(user, id, content, model_id, timestamp);
        proof {
            if access_error(old(self)@.conversations, *user, id@) is None {
                assert(event_appended(
                    old(self)@.conversations,
                    self@.conversations,
                    id@,
                    assistant_message_event(c, m, ts),
                ));
            }
        }
        r
    }

    /// The user's unarchived conversations as list entries, most recently
    /// updated first.
    pub fn list_conversations(&self, user: &PublicUser) -> (r: Vec<ConversationListEntry>)
        requires
            self.wf(),
        ensures
            sorted_by_recency(list_view(r@)),
            list_view(r@).to_multiset() == active_entries(
                self.conversation_table().entries(),
                user.id@,
            ).to_multiset(),
    {
        list_entries(self.conversations.as_slice(), user)
    }

    /// The memories of the user's other conversations that are neither
    /// archived nor empty, in the order the conversations were stored.
    pub fn conversation_memory_for_user(&self, user: &PublicUser, current_conversation_id: &str) -> (r:
        Vec<ConversationMemoryView>)
        requires
            self.wf(),
        ensures
            memories_view(r@) == other_memories(
                self.conversation_table().entries(),
                user.id@,
                current_conversation_id@,
            ),
    {
        other_conversation_memories(self.conversations.as_slice(), user, current_conversation_id)
    }
}

/// The unarchived conversations of `user` among `records`, as list entries,
/// most recently updated first.
pub fn list_entries(records: &[(String, ConversationRecord)], user: &PublicUser) -> (r: Vec<
    ConversationListEntry,
>)
    ensures
        sorted_by_recency(list_view(r@)),
        list_view(r@).to_multiset() == active_entries(records@, user.id@).to_multiset(),
{
    let ghost es = records@;
    let n = records.len();
    let mut out: Vec<ConversationListEntry> = Vec::new();
    let mut i: usize = 0;
    assert(es.take(0) =~= Seq::<(String, ConversationRecord)>::empty());
    assert(list_view(out@) =~= Seq::<ListModel>::empty());
    while i < n
        invariant
            es == records@,
            n == es.len(),
            i <= n,
            sorted_by_recency(list_view(out@)),
            list_view(out@).to_multiset() == active_entries(es.take(i as int), user.id@).to_multiset(),
        decreases n - i,
    {
        let key = &records[i].0;
        let rec = &records[i].1;
        proof {
            assert(es.take(i + 1).drop_last() =~= es.take(i as int));
            assert(es.take(i + 1).last() == es[i as int]);
        }
        if rec.user_id == user.id {
            let entry = ConversationListEntry::from_events(key.as_str(), rec.events.as_slice());
            if !entry.archived {
                proof {
                    vstd::seq_lib::to_multiset_build(active_entries(es.take(i as int), user.id@), entry@);
                }
                insert_sorted(&mut out, entry);
            }
        }
        i = i + 1;
    }
    assert(es.take(n as int) =~= es);
    out
}

/// The memories of the conversations of `user` among `records`, other than
/// `current_conversation_id`, that are neither archived nor empty, in the
/// order of `records`.
pub fn other_conversation_memories(
    records: &[(String, ConversationRecord)],
    user: &PublicUser,
    current_conversation_id: &str,
) -> (r: Vec<ConversationMemoryView>)
    ensures
        memories_view(r@) == other_memories(records@, user.id@, current_conversation_id@),
{
    let ghost es = records@;
    let n = records.len();
    let mut out: Vec<ConversationMemoryView> = Vec::new();
    let mut i: usize = 0;
    while i < n
        invariant
            es == records@,
            n == es.len(),
            i <= n,
            memories_view(out@) == other_memories(es.take(i as int), user.id@, current_conversation_id@),
        decreases n - i,
    {
        let key = &records[i].0;
        let rec = &records[i].1;
        proof {
            assert(es.take(i + 1).drop_last() =~= es.take(i as int));
            assert(es.take(i + 1).last() == es[i as int]);
        }
        if rec.user_id == user.id && !crate::text::str_eq(key.as_str(), current_conversation_id) {
            let memory = ConversationMemoryView::from_events(
                key.as_str(),
                rec.events.as_slice(),
                MEMORY_RECENT_WINDOW,
            );
            if !memory.archived && memory.recent_messages.len() > 0 {
                let ghost before = out@;
                out.push(memory);
                assert(memories_view(out@) =~= memories_view(before).push(memory@));
            }
        }
        i = i + 1;
    }
    assert(es.take(n as int) =~= es);
    out
}

// ============================================================================
// LAWS
// ============================================================================

/// The model of the most recent message of a history: the last message
/// when there is one, and the model it records.
pub proof fn law_last_message_model_is_most_recent(h: HistoryModel)
    ensures
        h.messages.len() > 0 ==> last_message_model(h) == h.messages[h.messages.len() - 1].model_id,
        h.messages.len() == 0 ==> last_message_model(h) is None,
{
}

/// After one more message, the model a later message falls back to is the
/// one that message records, whatever came before.
pub proof fn law_last_message_model_follows_new_message(h: HistoryModel, m: MessageModel)
    ensures
        last_message_model(HistoryModel { messages: h.messages.push(m), ..h }) == m.model_id,
{
}

/// The fallback reply quotes the summary of the first listed memory, when
/// it has one, and echoes the user's words without a hint otherwise.
pub proof fn law_fallback_reply_quotes_first_memory(content: Seq<char>, memory: Seq<MemoryModel>)
    ensures
        memory.len() > 0 && memory[0].summary is Some ==> fallback_reply_of(content, memory)
            == "You said: "@ + content + "."@ + " I also remember: "@ + memory[0].summary->0,
        memory.len() == 0 || memory[0].summary is None ==> fallback_reply_of(content, memory)
            == "You said: "@ + content + "."@,
{
    assert("You said: "@ + content + "."@ + Seq::<char>::empty() =~= "You said: "@ + content + "."@);
}

/// Only the first memory matters to the fallback reply: two memory lists
/// with the same first entry (or both empty) give the same reply.
pub proof fn law_fallback_reply_ignores_later_memories(
    content: Seq<char>,
    a: Seq<MemoryModel>,
    b: Seq<MemoryModel>,
)
    requires
        a.len() == 0 <==> b.len() == 0,
        a.len() > 0 ==> a[0] == b[0],
    ensures
        fallback_reply_of(content, a) == fallback_reply_of(content, b),
{
}

/// Each memory with a summary gives one prompt line, `Memory: ` and its
/// summary, in the order the memories are listed.
pub proof fn law_memory_lines_follow_memories(memory: Seq<MemoryModel>)
    requires
        forall|i: int| 0 <= i < memory.len() ==> (#[trigger] memory[i]).summary is Some,
    ensures
        memory_lines(memory).len() == memory.len(),
        forall|i: int|
            0 <= i < memory.len() ==> #[trigger] memory_lines(memory)[i] == "Memory: "@
                + memory[i].summary->0,
    decreases memory.len(),
{
    if memory.len() > 0 {
        let p = memory.drop_last();
        assert forall|i: int| 0 <= i < p.len() implies (#[trigger] p[i]).summary is Some by {
            assert(p[i] == memory[i]);
        }
        law_memory_lines_follow_memories(p);
        assert(memory[memory.len() - 1].summary is Some);
        assert forall|i: int| 0 <= i < memory.len() implies #[trigger] memory_lines(memory)[i]
            == "Memory: "@ + memory[i].summary->0 by {
            if i < p.len() {
                assert(memory[i] == p[i]);
            }
        }
    }
}

/// The position of the first user message of a list, when there is one:
/// every earlier message has another role.
pub open spec fn is_first_user_at(messages: Seq<MessageModel>, j: int) -> bool {
    &&& 0 <= j < messages.len()
    &&& messages[j].role == "user"@
    &&& forall|i: int| 0 <= i < j ==> (#[trigger] messages[i]).role != "user"@
}

proof fn lemma_first_user_message_at(messages: Seq<MessageModel>)
    ensures
        match first_user_message(messages) {
            Some(c) => exists|j: int| #[trigger] is_first_user_at(messages, j) && messages[j].content == c,
            None => forall|i: int| 0 <= i < messages.len() ==> (#[trigger] messages[i]).role != "user"@,
        },
    decreases messages.len(),
{
    if messages.len() > 0 {
        let p = messages.drop_last();
        lemma_first_user_message_at(p);
        match first_user_message(p) {
            Some(c) => {
                let j = choose|j: int| #[trigger] is_first_user_at(p, j) && p[j].content == c;
                assert forall|i: int| 0 <= i < j implies (#[trigger] messages[i]).role != "user"@ by {
                    assert(messages[i] == p[i]);
                }
                assert(messages[j] == p[j]);
                assert(is_first_user_at(messages, j));
            },
            None => {
                assert forall|i: int| 0 <= i < p.len() implies (#[trigger] messages[i]).role != "user"@ by {
                    assert(messages[i] == p[i]);
                }
                if messages.last().role == "user"@ {
                    assert(is_first_user_at(messages, messages.len() - 1));
                }
            },
        }
    }
}

/// A title is generated only for a history that still has its placeholder
/// title and holds at least two messages, and it is generated from the
/// content of the earliest user message (no earlier message is the user's);
/// when that content is empty no title is generated.
pub proof fn law_title_source_is_earliest_user_message(h: HistoryModel)
    ensures
        title_source(h) is Some ==> is_placeholder_title(h.title) && h.messages.len() >= 2,
        title_source(h) matches Some(c) ==> c.len() > 0 && exists|j: int|
            #[trigger] is_first_user_at(h.messages, j) && h.messages[j].content == c,
        forall|j: int|
            #[trigger] is_first_user_at(h.messages, j) && is_placeholder_title(h.title)
                && h.messages.len() >= 2 && h.messages[j].content.len() > 0 ==> title_source(h)
                == Some(h.messages[j].content),
{
    lemma_first_user_message_at(h.messages);
    assert forall|j: int|
        #[trigger] is_first_user_at(h.messages, j) && is_placeholder_title(h.title)
            && h.messages.len() >= 2 && h.messages[j].content.len() > 0 implies title_source(h)
            == Some(h.messages[j].content) by {
        match first_user_message(h.messages) {
            Some(c) => {
                let k = choose|k: int| #[trigger] is_first_user_at(h.messages, k) && h.messages[k].content == c;
                if k < j {
                    assert(h.messages[k].role != "user"@);
                } else if j < k {
                    assert(h.messages[j].role != "user"@);
                }
            },
            None => {
                assert(h.messages[j].role != "user"@);
            },
        }
    }
}

/// A session opened for an existing user reads back as that user.
pub proof fn law_session_roundtrip(m: StateModel, token: Seq<char>, user_id: String)
    requires
        m.users.dom().contains(user_id@),
    ensures
        session_user(
            StateModel { sessions: m.sessions.insert(token, SessionRecord { user_id }), ..m },
            token,
        ) == Some(m.users[user_id@]),
{
}

/// After logout, the session's token no longer reads as any user.
pub proof fn law_logout_ends_session(m: StateModel, token: Seq<char>)
    ensures
        session_user(StateModel { sessions: m.sessions.remove(token), ..m }, token) is None,
{
}

/// A user added under a free username logs in with the password that was
/// hashed for it.
pub proof fn law_login_after_seed(users: Map<Seq<char>, UserRecord>, rec: UserRecord, password: Seq<char>)
    requires
        !username_taken(users, rec.username@),
        password_verifies(password, rec.password_hash@),
    ensures
        login_user(users.insert(rec.id@, rec), rec.username@, password) == Some(rec),
{
    let after = users.insert(rec.id@, rec);
    assert(login_matches(after, rec.username@, password, rec.id@));
    let c = choose|c: Seq<char>| #[trigger] login_matches(after, rec.username@, password, c);
    if c != rec.id@ {
        assert(after[c] == users[c]);
        assert(users.dom().contains(c) && users[c].username@ == rec.username@);
    }
}

/// A login with a password that no stored hash of that username verifies is
/// refused.
pub proof fn law_wrong_password_refused(
    users: Map<Seq<char>, UserRecord>,
    name: Seq<char>,
    password: Seq<char>,
)
    requires
        forall|k: Seq<char>|
            users.dom().contains(k) && (#[trigger] users[k]).username@ == name ==> !password_verifies(
                password,
                users[k].password_hash@,
            ),
    ensures
        login_user(users, name, password) is None,
{
}

/// A conversation that belongs to another user is answered `Forbidden`, and
/// a missing one `NotFound`.
pub proof fn law_only_owner_may_access(
    m: Map<Seq<char>, ConversationRecord>,
    user: PublicUser,
    key: Seq<char>,
)
    ensures
        !m.dom().contains(key) ==> access_error(m, user, key) == Some(ApiStateError::NotFound),
        m.dom().contains(key) && m[key].user_id@ != user.id@ ==> access_error(m, user, key) == Some(
            ApiStateError::Forbidden,
        ),
        m.dom().contains(key) && m[key].user_id@ == user.id@ ==> access_error(m, user, key) is None,
{
}

/// A new conversation's history holds its title and owner, no messages, and
/// is not archived.
pub proof fn law_created_conversation_reads_back(
    before: Map<Seq<char>, ConversationRecord>,
    after: Map<Seq<char>, ConversationRecord>,
    key: String,
    user_id: String,
    title: String,
    timestamp: String,
)
    requires
        conversation_put(
            before,
            after,
            key@,
            user_id,
            seq![
                ConversationEvent::Started(
                    ConversationStarted { conversation_id: key, user_id, title, timestamp },
                ),
            ],
        ),
    ensures
        after.dom().contains(key@),
        after[key@].user_id == user_id,
        history_of(key@, after[key@].events@).title == title@,
        history_of(key@, after[key@].events@).user_id == Some(user_id@),
        history_of(key@, after[key@].events@).messages.len() == 0,
        !history_of(key@, after[key@].events@).archived,
{
    let es = after[key@].events@;
    assert(es.drop_last() =~= Seq::<ConversationEvent>::empty());
    assert(history_of(key@, es.drop_last()) == crate::domain::views::empty_history(key@));
    assert(es.last() == ConversationEvent::Started(
        ConversationStarted { conversation_id: key, user_id, title, timestamp },
    ));
}

/// After a rename, the history reads the new title.
pub proof fn law_rename_reads_back(
    before: Map<Seq<char>, ConversationRecord>,
    after: Map<Seq<char>, ConversationRecord>,
    key: Seq<char>,
    title: String,
)
    requires
        event_appended(before, after, key, ConversationEvent::TitleChanged(TitleChanged { title })),
    ensures
        history_of(key, after[key].events@).title == title@,
{
    assert(after[key].events@.drop_last() =~= before[key].events@);
}

/// After an archive, the conversation is archived: it leaves the list, and a
/// second archive or a new message is refused as a conflict.
pub proof fn law_archive_is_final(
    before: Map<Seq<char>, ConversationRecord>,
    after: Map<Seq<char>, ConversationRecord>,
    key: Seq<char>,
    timestamp: String,
)
    requires
        event_appended(before, after, key, archived_event(timestamp)),
    ensures
        archived_in(after[key].events@),
        list_entry_of(key, after[key].events@).archived,
        history_of(key, after[key].events@).archived,
{
    assert(after[key].events@.drop_last() =~= before[key].events@);
}

/// After a user message, the history ends with that message, addressed to
/// the model chosen for it.
pub proof fn law_message_reads_back(
    before: Map<Seq<char>, ConversationRecord>,
    after: Map<Seq<char>, ConversationRecord>,
    key: Seq<char>,
    content: String,
    user_id: String,
    model_id: String,
    timestamp: String,
)
    requires
        event_appended(before, after, key, user_message_event(content, user_id, model_id, timestamp)),
    ensures
        ({
            let h = history_of(key, after[key].events@);
            &&& h.messages.len() == history_of(key, before[key].events@).messages.len() + 1
            &&& h.messages.last().role == "user"@
            &&& h.messages.last().content == content@
            &&& h.messages.last().model_id == Some(model_id@)
            &&& h.updated_at == timestamp@
        }),
{
    assert(after[key].events@.drop_last() =~= before[key].events@);
}

} // verus!
