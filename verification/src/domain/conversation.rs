//! The conversation aggregate: commands, events, the decision that turns a
//! command into events, and the replay of events into aggregate state.
//! Pure domain logic with no I/O.
use crate::text::{is_blank, is_blank_str, is_ws, law_trimmed_empty_iff_all_whitespace, trim};
use vstd::prelude::*;

verus! {

broadcast use vstd::string::group_string_axioms;

// ============================================================================
// ERROR TYPE
// ============================================================================

/// Why the aggregate refused a command.
#[derive(Debug, PartialEq, Eq, Clone)]
pub enum ConversationError {
    ConversationArchived,
    AlreadyArchived,
    EmptyMessageContent,
    Other(String),
}

/// The message that each error displays.
pub open spec fn error_message(e: ConversationError) -> Seq<char> {
    match e {
        ConversationError::ConversationArchived => "conversation is archived"@,
        ConversationError::AlreadyArchived => "already archived"@,
        ConversationError::EmptyMessageContent => "message content cannot be empty"@,
        ConversationError::Other(s) => s@,
    }
}

impl ConversationError {
    /// The error's display message.
    pub fn to_string(&self) -> (r: String)
        ensures
            r@ == error_message(*self),
    {
        match self {
            ConversationError::ConversationArchived => "conversation is archived".to_string(),
            ConversationError::AlreadyArchived => "already archived".to_string(),
            ConversationError::EmptyMessageContent => "message content cannot be empty".to_string(),
            ConversationError::Other(s) => s.clone(),
        }
    }

    /// An error carrying a free-form message.
    pub fn other(s: &str) -> (r: Self)
        ensures
            r matches ConversationError::Other(m) && m@ == s@,
    {
        ConversationError::Other(s.to_string())
    }
}

// ============================================================================
// COMMANDS
// ============================================================================

#[derive(Debug, Clone, PartialEq, Eq)]
pub enum ConversationCommand {
    Start(StartConversation),
    SendUserMessage(SendUserMessage),
    CompleteAssistantResponse(CompleteAssistantResponse),
    ChangeTitle(ChangeTitle),
    ArchiveConversation(ArchiveConversation),
}

#[derive(Debug, Clone, PartialEq, Eq)]
pub struct StartConversation {
    pub conversation_id: String,
    pub user_id: String,
    pub title: String,
    pub timestamp: String,
}

#[derive(Debug, Clone, PartialEq, Eq)]
pub struct SendUserMessage {
    pub content: String,
    pub user_id: String,
    pub model_id: String,
    pub timestamp: String,
}

#[derive(Debug, Clone, PartialEq, Eq)]
pub struct CompleteAssistantResponse {
    pub content: String,
    pub model_id: String,
    pub timestamp: String,
}

#[derive(Debug, Clone, PartialEq, Eq)]
pub struct ChangeTitle {
    pub title: String,
    pub timestamp: String,
}

#[derive(Debug, Clone, PartialEq, Eq)]
pub struct ArchiveConversation {
    pub timestamp: String,
}

// ============================================================================
// EVENTS
// ============================================================================

#[derive(Debug, Clone, PartialEq, Eq)]
pub enum ConversationEvent {
    Started(ConversationStarted),
    UserMessageSent(UserMessageSent),
    AssistantMessageSent(AssistantMessageSent),
    TitleChanged(TitleChanged),
    ConversationArchived(ConversationArchived),
    ConversationSummarized(ConversationSummarized),
}

#[derive(Debug, Clone, PartialEq, Eq)]
pub struct ConversationStarted {
    pub conversation_id: String,
    pub user_id: String,
    pub title: String,
    pub timestamp: String,
}

#[derive(Debug, Clone, PartialEq, Eq)]
pub struct UserMessageSent {
    pub content: String,
    pub user_id: String,
    pub model_id: String,
    pub timestamp: String,
}

#[derive(Debug, Clone, PartialEq, Eq)]
pub struct AssistantMessageSent {
    pub content: String,
    pub model_id: String,
    pub timestamp: String,
}

#[derive(Debug, Clone, PartialEq, Eq)]
pub struct TitleChanged {
    pub title: String,
}

#[derive(Debug, Clone, PartialEq, Eq)]
pub struct ConversationArchived {
    pub timestamp: String,
}

#[derive(Debug, Clone, PartialEq, Eq)]
pub struct ConversationSummarized {
    pub summary: String,
}

/// The name under which each event is stored.
pub open spec fn event_type_name(e: ConversationEvent) -> Seq<char> {
    match e {
        ConversationEvent::Started(_) => "ConversationStarted"@,
        ConversationEvent::UserMessageSent(_) => "UserMessageSent"@,
        ConversationEvent::AssistantMessageSent(_) => "AssistantMessageSent"@,
        ConversationEvent::TitleChanged(_) => "TitleChanged"@,
        ConversationEvent::ConversationArchived(_) => "ConversationArchived"@,
        ConversationEvent::ConversationSummarized(_) => "ConversationSummarized"@,
    }
}

/// Whether an event records a message (from the user or from the assistant).
pub open spec fn is_message_event(e: ConversationEvent) -> bool {
    e is UserMessageSent || e is AssistantMessageSent
}

impl ConversationEvent {
    /// The stored type name of the event.
    pub fn event_type(&self) -> (r: String)
        ensures
            r@ == event_type_name(*self),
    {
        match self {
            ConversationEvent::Started(_) => "ConversationStarted".to_string(),
            ConversationEvent::UserMessageSent(_) => "UserMessageSent".to_string(),
            ConversationEvent::AssistantMessageSent(_) => "AssistantMessageSent".to_string(),
            ConversationEvent::TitleChanged(_) => "TitleChanged".to_string(),
            ConversationEvent::ConversationArchived(_) => "ConversationArchived".to_string(),
            ConversationEvent::ConversationSummarized(_) => "ConversationSummarized".to_string(),
        }
    }

    /// The schema version of every event.
    pub fn event_version(&self) -> (r: String)
        ensures
            r@ == "1.0"@,
    {
        "1.0".to_string()
    }
}

// ============================================================================
// AGGREGATE STATE
// ============================================================================

#[derive(Debug, Clone, PartialEq, Eq)]
pub struct Conversation {
    pub id: String,
    pub started: bool,
    pub archived: bool,
    pub message_count: usize,
    pub last_model_id: Option<String>,
    pub title: Option<String>,
    pub user_id: Option<String>,
}

/// The state of an aggregate before any event.
pub open spec fn is_initial(c: Conversation) -> bool {
    &&& c.id@ == Seq::<char>::empty()
    &&& !c.started
    &&& !c.archived
    &&& c.message_count == 0
    &&& c.last_model_id is None
    &&& c.title is None
    &&& c.user_id is None
}

impl Default for Conversation {
    fn default() -> (r: Self)
        ensures
            is_initial(r),
    {
        Conversation {
            id: String::new(),
            started: false,
            archived: false,
            message_count: 0,
            last_model_id: None,
            title: None,
            user_id: None,
        }
    }
}

/// Services the aggregate is handed with each command (none are needed).
pub struct ConversationServices;

/// The aggregate's type name.
pub const CONVERSATION_AGGREGATE_TYPE: &'static str = "conversation";

/// The single event that a command produces on a given state, or the error
/// that refuses it.
pub open spec fn decide(c: Conversation, command: ConversationCommand) -> Result<
    ConversationEvent,
    ConversationError,
> {
    match command {
        ConversationCommand::Start(cmd) => Ok(
            ConversationEvent::Started(
                ConversationStarted {
                    conversation_id: cmd.conversation_id,
                    user_id: cmd.user_id,
                    title: cmd.title,
                    timestamp: cmd.timestamp,
                },
            ),
        ),
        ConversationCommand::SendUserMessage(cmd) => if c.archived {
            Err(ConversationError::ConversationArchived)
        } else if is_blank(cmd.content@) {
            Err(ConversationError::EmptyMessageContent)
        } else {
            Ok(
                ConversationEvent::UserMessageSent(
                    UserMessageSent {
                        content: cmd.content,
                        user_id: cmd.user_id,
                        model_id: cmd.model_id,
                        timestamp: cmd.timestamp,
                    },
                ),
            )
        },
        ConversationCommand::CompleteAssistantResponse(cmd) => Ok(
            ConversationEvent::AssistantMessageSent(
                AssistantMessageSent {
                    content: cmd.content,
                    model_id: cmd.model_id,
                    timestamp: cmd.timestamp,
                },
            ),
        ),
        ConversationCommand::ChangeTitle(cmd) => Ok(
            ConversationEvent::TitleChanged(TitleChanged { title: cmd.title }),
        ),
        ConversationCommand::ArchiveConversation(cmd) => if c.archived {
            Err(ConversationError::AlreadyArchived)
        } else {
            Ok(
                ConversationEvent::ConversationArchived(
                    ConversationArchived { timestamp: cmd.timestamp },
                ),
            )
        },
    }
}

/// The state after one event.
pub open spec fn applied(c: Conversation, e: ConversationEvent) -> Conversation {
    match e {
        ConversationEvent::Started(evt) => Conversation {
            id: evt.conversation_id,
            started: true,
            user_id: Some(evt.user_id),
            title: Some(evt.title),
            message_count: 0,
            ..c
        },
        ConversationEvent::UserMessageSent(evt) => Conversation {
            message_count: (c.message_count + 1) as usize,
            last_model_id: Some(evt.model_id),
            ..c
        },
        ConversationEvent::AssistantMessageSent(evt) => Conversation {
            message_count: (c.message_count + 1) as usize,
            last_model_id: Some(evt.model_id),
            ..c
        },
        ConversationEvent::TitleChanged(evt) => Conversation { title: Some(evt.title), ..c },
        ConversationEvent::ConversationArchived(_) => Conversation { archived: true, ..c },
        ConversationEvent::ConversationSummarized(_) => c,
    }
}

/// An event can be applied unless it would overflow the message counter.
pub open spec fn can_apply(c: Conversation, e: ConversationEvent) -> bool {
    is_message_event(e) ==> c.message_count < usize::MAX
}

/// The state after replaying `events` in order, starting from `c`.
pub open spec fn replay(c: Conversation, events: Seq<ConversationEvent>) -> Conversation
    decreases events.len(),
{
    if events.len() == 0 {
        c
    } else {
        applied(replay(c, events.drop_last()), events.last())
    }
}

/// Whether the stream holds an archive event.
pub open spec fn archived_in(events: Seq<ConversationEvent>) -> bool
    decreases events.len(),
{
    events.len() > 0 && (events.last() is ConversationArchived || archived_in(events.drop_last()))
}

/// The model of the last message in the stream, if any.
pub open spec fn last_model_in(events: Seq<ConversationEvent>) -> Option<String>
    decreases events.len(),
{
    if events.len() == 0 {
        None
    } else {
        match events.last() {
            ConversationEvent::UserMessageSent(evt) => Some(evt.model_id),
            ConversationEvent::AssistantMessageSent(evt) => Some(evt.model_id),
            _ => last_model_in(events.drop_last()),
        }
    }
}

/// Replay keeps the archive flag once set and sets it exactly when the
/// stream holds an archive event; the last model is that of the last message.
pub proof fn lemma_replay_flags(c: Conversation, events: Seq<ConversationEvent>)
    ensures
        replay(c, events).archived == (c.archived || archived_in(events)),
        replay(c, events).last_model_id == match last_model_in(events) {
            Some(m) => Some(m),
            None => c.last_model_id,
        },
    decreases events.len(),
{
    if events.len() > 0 {
        lemma_replay_flags(c, events.drop_last());
    }
}

/// The message counter never grows faster than one per event.
pub proof fn lemma_replay_count_bound(c: Conversation, events: Seq<ConversationEvent>)
    ensures
        replay(c, events).message_count <= c.message_count + events.len(),
    decreases events.len(),
{
    if events.len() > 0 {
        lemma_replay_count_bound(c, events.drop_last());
    }
}

impl Conversation {
    /// Decides what a command does to this conversation: the event it emits,
    /// or why it is refused.
    pub fn handle(&self, command: ConversationCommand) -> (r: Result<
        Vec<ConversationEvent>,
        ConversationError,
    >)
        ensures
            match decide(*self, command) {
                Ok(e) => r matches Ok(v) && v@ == seq![e],
                Err(err) => r == Err::<Vec<ConversationEvent>, ConversationError>(err),
            },
    {
        match command {
            ConversationCommand::Start(cmd) => {
                let e = ConversationEvent::Started(
                    ConversationStarted {
                        conversation_id: cmd.conversation_id,
                        user_id: cmd.user_id,
                        title: cmd.title,
                        timestamp: cmd.timestamp,
                    },
                );
                let v = vec![e];
                Ok(v)
            },
            ConversationCommand::SendUserMessage(cmd) => {
                if self.archived {
                    return Err(ConversationError::ConversationArchived);
                }
                if is_blank_str(cmd.content.as_str()) {
                    return Err(ConversationError::EmptyMessageContent);
                }
                let e = ConversationEvent::UserMessageSent(
                    UserMessageSent {
                        content: cmd.content,
                        user_id: cmd.user_id,
                        model_id: cmd.model_id,
                        timestamp: cmd.timestamp,
                    },
                );
                let v = vec![e];
                Ok(v)
            },
            ConversationCommand::CompleteAssistantResponse(cmd) => {
                let e = ConversationEvent::AssistantMessageSent(
                    AssistantMessageSent {
                        content: cmd.content,
                        model_id: cmd.model_id,
                        timestamp: cmd.timestamp,
                    },
                );
                let v = vec![e];
                Ok(v)
            },
            ConversationCommand::ChangeTitle(cmd) => {
                let e = ConversationEvent::TitleChanged(TitleChanged { title: cmd.title });
                let v = vec![e];
                Ok(v)
            },
            ConversationCommand::ArchiveConversation(cmd) => {
                if self.archived {
                    return Err(ConversationError::AlreadyArchived);
                }
                let e = ConversationEvent::ConversationArchived(
                    ConversationArchived { timestamp: cmd.timestamp },
                );
                let v = vec![e];
                Ok(v)
            },
        }
    }

    /// Applies an event to the aggregate state.
    pub fn apply(&mut self, event: ConversationEvent)
        requires
            can_apply(*old(self), event),
        ensures
            *final(self) == applied(*old(self), event),
    {
        self.apply_ref(&event);
    }

    /// Applies an event, read by reference, to the aggregate state.
    pub fn apply_ref(&mut self, event: &ConversationEvent)
        requires
            can_apply(*old(self), *event),
        ensures
            *final(self) == applied(*old(self), *event),
    {
        match event {
            ConversationEvent::Started(evt) => {
                self.id = evt.conversation_id.clone();
                self.started = true;
                self.user_id = Some(evt.user_id.clone());
                self.title = Some(evt.title.clone());
                self.message_count = 0;
            },
            ConversationEvent::UserMessageSent(evt) => {
                self.message_count = self.message_count + 1;
                self.last_model_id = Some(evt.model_id.clone());
            },
            ConversationEvent::AssistantMessageSent(evt) => {
                self.message_count = self.message_count + 1;
                self.last_model_id = Some(evt.model_id.clone());
            },
            ConversationEvent::TitleChanged(evt) => {
                self.title = Some(evt.title.clone());
            },
            ConversationEvent::ConversationArchived(_) => {
                self.archived = true;
            },
            ConversationEvent::ConversationSummarized(_) => {},
        }
    }

    /// Replays `events` in order onto this state.
    pub fn replay_all(&mut self, events: &[ConversationEvent])
        requires
            old(self).message_count + events@.len() <= usize::MAX,
        ensures
            *final(self) == replay(*old(self), events@),
    {
        let ghost start = *self;
        let mut i: usize = 0;
        while i < events.len()
            invariant
                i <= events@.len(),
                start.message_count + events@.len() <= usize::MAX,
                *self == replay(start, events@.take(i as int)),
            decreases events@.len() - i,
        {
            proof {
                lemma_replay_count_bound(start, events@.take(i as int));
                assert(events@.take(i + 1).drop_last() =~= events@.take(i as int));
                assert(events@.take(i + 1).last() == events@[i as int]);
            }
            self.apply_ref(&events[i]);
            i = i + 1;
        }
        assert(events@.take(events@.len() as int) =~= events@);
    }
}

// ============================================================================
// LAWS
// ============================================================================

/// Replaying a stream in two parts gives the state of replaying it whole.
pub proof fn law_replay_concat(c: Conversation, a: Seq<ConversationEvent>, b: Seq<ConversationEvent>)
    ensures
        replay(c, a + b) == replay(replay(c, a), b),
    decreases b.len(),
{
    if b.len() == 0 {
        assert(a + b =~= a);
    } else {
        law_replay_concat(c, a, b.drop_last());
        assert((a + b).drop_last() =~= a + b.drop_last());
        assert((a + b).last() == b.last());
    }
}

/// Once a stream holds an archive event, every later state refuses a user
/// message as archived and refuses a second archive.
pub proof fn law_archived_refuses(
    c: Conversation,
    events: Seq<ConversationEvent>,
    message: SendUserMessage,
    archive: ArchiveConversation,
)
    requires
        archived_in(events),
    ensures
        decide(replay(c, events), ConversationCommand::SendUserMessage(message)) == Err::<
            ConversationEvent,
            ConversationError,
        >(ConversationError::ConversationArchived),
        decide(replay(c, events), ConversationCommand::ArchiveConversation(archive)) == Err::<
            ConversationEvent,
            ConversationError,
        >(ConversationError::AlreadyArchived),
{
    lemma_replay_flags(c, events);
}

/// An accepted user message, once applied, is counted and records the model
/// chosen for it.
pub proof fn law_accepted_message_is_recorded(c: Conversation, message: SendUserMessage)
    requires
        c.message_count < usize::MAX,
        decide(c, ConversationCommand::SendUserMessage(message)) is Ok,
    ensures
        ({
            let e = decide(c, ConversationCommand::SendUserMessage(message))->Ok_0;
            &&& can_apply(c, e)
            &&& applied(c, e).message_count == c.message_count + 1
            &&& applied(c, e).last_model_id == Some(message.model_id)
            &&& applied(c, e).archived == c.archived
        }),
{
}

/// On a conversation that is not archived, a user message is refused as
/// empty exactly when its content trims to nothing (every character is
/// whitespace); a content with any other character is accepted as one
/// `UserMessageSent` event that carries the command's content, author, model
/// and time unchanged.
pub proof fn law_blank_message_refused(c: Conversation, message: SendUserMessage)
    requires
        !c.archived,
    ensures
        (decide(c, ConversationCommand::SendUserMessage(message)) == Err::<
            ConversationEvent,
            ConversationError,
        >(ConversationError::EmptyMessageContent)) <==> trim(message.content@).len() == 0,
        (exists|i: int| 0 <= i < message.content@.len() && !is_ws(#[trigger] message.content@[i]))
            ==> decide(c, ConversationCommand::SendUserMessage(message)) == Ok::<
            ConversationEvent,
            ConversationError,
        >(
            ConversationEvent::UserMessageSent(
                UserMessageSent {
                    content: message.content,
                    user_id: message.user_id,
                    model_id: message.model_id,
                    timestamp: message.timestamp,
                },
            ),
        ),
{
    law_trimmed_empty_iff_all_whitespace(message.content@);
}

/// On an archived conversation every user message is refused as archived,
/// whatever its content.
pub proof fn law_archived_conversation_refuses_messages(c: Conversation, message: SendUserMessage)
    requires
        c.archived,
    ensures
        decide(c, ConversationCommand::SendUserMessage(message)) == Err::<
            ConversationEvent,
            ConversationError,
        >(ConversationError::ConversationArchived),
{
}

/// The number of message events in a stream.
pub open spec fn count_messages(events: Seq<ConversationEvent>) -> nat
    decreases events.len(),
{
    if events.len() == 0 {
        0
    } else {
        count_messages(events.drop_last()) + if is_message_event(events.last()) {
            1nat
        } else {
            0nat
        }
    }
}

/// Whether the stream holds a start event.
pub open spec fn has_start(events: Seq<ConversationEvent>) -> bool {
    exists|i: int| 0 <= i < events.len() && (#[trigger] events[i]) is Started
}

/// Without a restart, replay counts exactly the message events of the stream.
pub proof fn law_message_count(c: Conversation, events: Seq<ConversationEvent>)
    requires
        !has_start(events),
        c.message_count + events.len() <= usize::MAX,
    ensures
        replay(c, events).message_count == c.message_count + count_messages(events),
    decreases events.len(),
{
    if events.len() > 0 {
        let p = events.drop_last();
        assert(!has_start(p)) by {
            if has_start(p) {
                let i = choose|i: int| 0 <= i < p.len() && (#[trigger] p[i]) is Started;
                assert(events[i] == p[i]);
            }
        }
        assert(!(events[events.len() - 1] is Started));
        law_message_count(c, p);
        lemma_count_messages_bound(p);
    }
}

/// The last start event of the stream, if any.
pub open spec fn last_start(events: Seq<ConversationEvent>) -> Option<ConversationStarted>
    decreases events.len(),
{
    if events.len() == 0 {
        None
    } else {
        match events.last() {
            ConversationEvent::Started(evt) => Some(evt),
            _ => last_start(events.drop_last()),
        }
    }
}

/// The title set by the last start or title change of the stream, if any.
pub open spec fn last_title(events: Seq<ConversationEvent>) -> Option<String>
    decreases events.len(),
{
    if events.len() == 0 {
        None
    } else {
        match events.last() {
            ConversationEvent::Started(evt) => Some(evt.title),
            ConversationEvent::TitleChanged(evt) => Some(evt.title),
            _ => last_title(events.drop_last()),
        }
    }
}

/// The number of message events after the last start event (all of them
/// when there is none).
pub open spec fn messages_since_start(events: Seq<ConversationEvent>) -> nat
    decreases events.len(),
{
    if events.len() == 0 {
        0
    } else {
        match events.last() {
            ConversationEvent::Started(_) => 0,
            ConversationEvent::UserMessageSent(_) => messages_since_start(events.drop_last()) + 1,
            ConversationEvent::AssistantMessageSent(_) => messages_since_start(events.drop_last()) + 1,
            _ => messages_since_start(events.drop_last()),
        }
    }
}

/// What replay does to each field of the aggregate, from any state: each
/// field is set by the last event that sets it, else kept.
pub proof fn lemma_replay_fields(c: Conversation, events: Seq<ConversationEvent>)
    requires
        c.message_count + events.len() <= usize::MAX,
    ensures
        ({
            let r = replay(c, events);
            &&& r.started == (c.started || last_start(events) is Some)
            &&& r.archived == (c.archived || archived_in(events))
            &&& r.last_model_id == match last_model_in(events) {
                Some(m) => Some(m),
                None => c.last_model_id,
            }
            &&& r.message_count == match last_start(events) {
                Some(_) => messages_since_start(events) as int,
                None => c.message_count + messages_since_start(events),
            }
            &&& r.id == match last_start(events) {
                Some(s) => s.conversation_id,
                None => c.id,
            }
            &&& r.user_id == match last_start(events) {
                Some(s) => Some(s.user_id),
                None => c.user_id,
            }
            &&& r.title == match last_title(events) {
                Some(t) => Some(t),
                None => c.title,
            }
            &&& messages_since_start(events) <= events.len()
        }),
    decreases events.len(),
{
    if events.len() > 0 {
        lemma_replay_fields(c, events.drop_last());
        lemma_replay_flags(c, events);
    }
}

/// Replaying a stream from the initial state sets each field of the
/// aggregate from the events: started and archived when such an event
/// occurs, the id and owner from the last start, the title from the last
/// start or title change, the model from the last message, and the count of
/// messages since the last start; a field that no event sets keeps its
/// initial value.
pub proof fn law_replay_from_initial(c: Conversation, events: Seq<ConversationEvent>)
    requires
        is_initial(c),
        events.len() <= usize::MAX,
    ensures
        ({
            let r = replay(c, events);
            &&& r.started == last_start(events) is Some
            &&& r.archived == archived_in(events)
            &&& r.last_model_id == last_model_in(events)
            &&& r.message_count == messages_since_start(events)
            &&& r.id@ == match last_start(events) {
                Some(s) => s.conversation_id@,
                None => Seq::<char>::empty(),
            }
            &&& r.user_id == match last_start(events) {
                Some(s) => Some(s.user_id),
                None => None,
            }
            &&& r.title == last_title(events)
        }),
{
    lemma_replay_fields(c, events);
}

proof fn lemma_count_messages_bound(events: Seq<ConversationEvent>)
    ensures
        count_messages(events) <= events.len(),
    decreases events.len(),
{
    if events.len() > 0 {
        lemma_count_messages_bound(events.drop_last());
    }
}

} // verus!
