//! Read models projected from a conversation's events: the full history, the
//! entry shown in the conversation list, and the short memory used as AI
//! context. Each can be built from the whole event stream at once or kept up
//! to date one event at a time.
use crate::domain::conversation::ConversationEvent;
use crate::text::{truncate, truncated};
use vstd::prelude::*;
use vstd::string::*;

verus! {

broadcast use vstd::string::group_string_axioms;

/// The character view of an optional string.
pub open spec fn opt_view(o: Option<String>) -> Option<Seq<char>> {
    match o {
        Some(s) => Some(s@),
        None => None,
    }
}

/// The last `n` items of `s` (all of them when there are fewer).
pub open spec fn last_n<A>(s: Seq<A>, n: nat) -> Seq<A> {
    if s.len() <= n {
        s
    } else {
        s.subrange(s.len() - n, s.len() as int)
    }
}

// ============================================================================
// MESSAGES
// ============================================================================

#[derive(Debug, Clone, PartialEq, Eq)]
pub struct MessageView {
    pub role: String,
    pub content: String,
    pub timestamp: String,
    pub model_id: Option<String>,
}

/// A message as plain character sequences.
pub struct MessageModel {
    pub role: Seq<char>,
    pub content: Seq<char>,
    pub timestamp: Seq<char>,
    pub model_id: Option<Seq<char>>,
}

impl View for MessageView {
    type V = MessageModel;

    open spec fn view(&self) -> MessageModel {
        MessageModel {
            role: self.role@,
            content: self.content@,
            timestamp: self.timestamp@,
            model_id: opt_view(self.model_id),
        }
    }
}

/// The models of a sequence of messages.
pub open spec fn messages_view(v: Seq<MessageView>) -> Seq<MessageModel> {
    v.map_values(|m: MessageView| m@)
}

/// The message that an event records, if it records one.
pub open spec fn message_of(e: ConversationEvent) -> Option<MessageModel> {
    match e {
        ConversationEvent::UserMessageSent(evt) => Some(
            MessageModel {
                role: "user"@,
                content: evt.content@,
                timestamp: evt.timestamp@,
                model_id: Some(evt.model_id@),
            },
        ),
        ConversationEvent::AssistantMessageSent(evt) => Some(
            MessageModel {
                role: "assistant"@,
                content: evt.content@,
                timestamp: evt.timestamp@,
                model_id: Some(evt.model_id@),
            },
        ),
        _ => None,
    }
}

/// The message recorded by a message event.
fn message_from_event(e: &ConversationEvent) -> (r: Option<MessageView>)
    ensures
        match message_of(*e) {
            Some(m) => r matches Some(v) && v@ == m,
            None => r is None,
        },
{
    match e {
        ConversationEvent::UserMessageSent(evt) => Some(
            MessageView {
                role: "user".to_string(),
                content: evt.content.clone(),
                timestamp: evt.timestamp.clone(),
                model_id: Some(evt.model_id.clone()),
            },
        ),
        ConversationEvent::AssistantMessageSent(evt) => Some(
            MessageView {
                role: "assistant".to_string(),
                content: evt.content.clone(),
                timestamp: evt.timestamp.clone(),
                model_id: Some(evt.model_id.clone()),
            },
        ),
        _ => None,
    }
}

fn push_message(v: &mut Vec<MessageView>, m: MessageView)
    ensures
        messages_view(final(v)@) == messages_view(old(v)@).push(m@),
{
    v.push(m);
    assert(messages_view(v@) =~= messages_view(old(v)@).push(m@));
}

// ============================================================================
// HISTORY VIEW
// ============================================================================

#[derive(Debug, Clone, PartialEq, Eq)]
pub struct ConversationHistoryView {
    pub id: String,
    pub title: String,
    pub user_id: Option<String>,
    pub archived: bool,
    pub updated_at: String,
    pub messages: Vec<MessageView>,
}

pub struct HistoryModel {
    pub id: Seq<char>,
    pub title: Seq<char>,
    pub user_id: Option<Seq<char>>,
    pub archived: bool,
    pub updated_at: Seq<char>,
    pub messages: Seq<MessageModel>,
}

impl View for ConversationHistoryView {
    type V = HistoryModel;

    open spec fn view(&self) -> HistoryModel {
        HistoryModel {
            id: self.id@,
            title: self.title@,
            user_id: opt_view(self.user_id),
            archived: self.archived,
            updated_at: self.updated_at@,
            messages: messages_view(self.messages@),
        }
    }
}

/// A history with the given id and nothing else.
pub open spec fn empty_history(id: Seq<char>) -> HistoryModel {
    HistoryModel {
        id,
        title: Seq::empty(),
        user_id: None,
        archived: false,
        updated_at: Seq::empty(),
        messages: Seq::empty(),
    }
}

/// One event folded into a history.
pub open spec fn history_step(v: HistoryModel, e: ConversationEvent) -> HistoryModel {
    match e {
        ConversationEvent::Started(evt) => HistoryModel {
            title: evt.title@,
            user_id: Some(evt.user_id@),
            updated_at: evt.timestamp@,
            ..v
        },
        ConversationEvent::UserMessageSent(evt) => HistoryModel {
            messages: v.messages.push(message_of(e)->0),
            updated_at: evt.timestamp@,
            ..v
        },
        ConversationEvent::AssistantMessageSent(evt) => HistoryModel {
            messages: v.messages.push(message_of(e)->0),
            updated_at: evt.timestamp@,
            ..v
        },
        ConversationEvent::TitleChanged(evt) => HistoryModel { title: evt.title@, ..v },
        ConversationEvent::ConversationArchived(evt) => HistoryModel {
            archived: true,
            updated_at: evt.timestamp@,
            ..v
        },
        ConversationEvent::ConversationSummarized(_) => v,
    }
}

/// A stream of events folded into a history, in order.
pub open spec fn history_fold(v: HistoryModel, events: Seq<ConversationEvent>) -> HistoryModel
    decreases events.len(),
{
    if events.len() == 0 {
        v
    } else {
        history_step(history_fold(v, events.drop_last()), events.last())
    }
}

/// The history of a conversation built from its whole event stream.
pub open spec fn history_of(id: Seq<char>, events: Seq<ConversationEvent>) -> HistoryModel {
    history_fold(empty_history(id), events)
}

/// One event, delivered with the id of its aggregate, folded into a history.
pub open spec fn history_update(
    v: HistoryModel,
    aggregate_id: Seq<char>,
    e: ConversationEvent,
) -> HistoryModel {
    match e {
        ConversationEvent::Started(_) => HistoryModel { id: aggregate_id, ..history_step(v, e) },
        _ => history_step(v, e),
    }
}

impl Default for ConversationHistoryView {
    fn default() -> (r: Self)
        ensures
            r@ == empty_history(Seq::empty()),
    {
        let r = ConversationHistoryView {
            id: String::new(),
            title: String::new(),
            user_id: None,
            archived: false,
            updated_at: String::new(),
            messages: Vec::new(),
        };
        assert(messages_view(r.messages@) =~= Seq::<MessageModel>::empty());
        r
    }
}

impl ConversationHistoryView {
    fn step(&mut self, event: &ConversationEvent)
        ensures
            final(self)@ == history_step(old(self)@, *event),
    {
        match event {
            ConversationEvent::Started(evt) => {
                self.title = evt.title.clone();
                self.user_id = Some(evt.user_id.clone());
                self.updated_at = evt.timestamp.clone();
            },
            ConversationEvent::UserMessageSent(evt) => {
                let m = message_from_event(event);
                push_message(&mut self.messages, m.unwrap());
                self.updated_at = evt.timestamp.clone();
            },
            ConversationEvent::AssistantMessageSent(evt) => {
                let m = message_from_event(event);
                push_message(&mut self.messages, m.unwrap());
                self.updated_at = evt.timestamp.clone();
            },
            ConversationEvent::TitleChanged(evt) => {
                self.title = evt.title.clone();
            },
            ConversationEvent::ConversationArchived(evt) => {
                self.archived = true;
                self.updated_at = evt.timestamp.clone();
            },
            ConversationEvent::ConversationSummarized(_) => {},
        }
    }

    /// The full history of conversation `id` built from its events in order.
    pub fn from_events(id: &str, events: &[ConversationEvent]) -> (r: Self)
        ensures
            r@ == history_of(id@, events@),
    {
        let mut view = ConversationHistoryView {
            id: id.to_string(),
            title: String::new(),
            user_id: None,
            archived: false,
            updated_at: String::new(),
            messages: Vec::new(),
        };
        assert(view@ == empty_history(id@)) by {
            assert(messages_view(view.messages@) =~= Seq::<MessageModel>::empty());
        }
        let mut i: usize = 0;
        while i < events.len()
            invariant
                i <= events@.len(),
                view@ == history_fold(empty_history(id@), events@.take(i as int)),
            decreases events@.len() - i,
        {
            proof {
                assert(events@.take(i + 1).drop_last() =~= events@.take(i as int));
                assert(events@.take(i + 1).last() == events@[i as int]);
            }
            view.step(&events[i]);
            i = i + 1;
        }
        assert(events@.take(events@.len() as int) =~= events@);
        view
    }

    /// Folds one event, delivered with the id of its aggregate, into the view.
    pub fn update(&mut self, aggregate_id: &str, event: &ConversationEvent)
        ensures
            final(self)@ == history_update(old(self)@, aggregate_id@, *event),
    {
        if let ConversationEvent::Started(_) = event {
            self.id = aggregate_id.to_string();
        }
        self.step(event);
    }
}

// ============================================================================
// LIST ENTRY
// ============================================================================

#[derive(Debug, Clone, PartialEq, Eq)]
pub struct ConversationListEntry {
    pub id: String,
    pub user_id: Option<String>,
    pub title: String,
    pub last_message_preview: String,
    pub updated_at: String,
    pub archived: bool,
}

pub struct ListModel {
    pub id: Seq<char>,
    pub user_id: Option<Seq<char>>,
    pub title: Seq<char>,
    pub last_message_preview: Seq<char>,
    pub updated_at: Seq<char>,
    pub archived: bool,
}

impl View for ConversationListEntry {
    type V = ListModel;

    open spec fn view(&self) -> ListModel {
        ListModel {
            id: self.id@,
            user_id: opt_view(self.user_id),
            title: self.title@,
            last_message_preview: self.last_message_preview@,
            updated_at: self.updated_at@,
            archived: self.archived,
        }
    }
}

/// The preview length of the last message in a list entry.
pub const PREVIEW_LEN: usize = 80;

/// The preview of the last message of a history (empty without messages).
pub open spec fn preview_of(messages: Seq<MessageModel>) -> Seq<char> {
    if messages.len() > 0 {
        truncated(messages.last().content, PREVIEW_LEN as nat)
    } else {
        Seq::empty()
    }
}

/// The list entry of a conversation built from its whole event stream.
pub open spec fn list_entry_of(id: Seq<char>, events: Seq<ConversationEvent>) -> ListModel {
    let h = history_of(id, events);
    ListModel {
        id: h.id,
        user_id: h.user_id,
        title: h.title,
        last_message_preview: preview_of(h.messages),
        updated_at: h.updated_at,
        archived: h.archived,
    }
}

/// A list entry with the given id and nothing else.
pub open spec fn empty_list_entry(id: Seq<char>) -> ListModel {
    ListModel {
        id,
        user_id: None,
        title: Seq::empty(),
        last_message_preview: Seq::empty(),
        updated_at: Seq::empty(),
        archived: false,
    }
}

/// One event, delivered with the id of its aggregate, folded into a list entry.
pub open spec fn list_update(v: ListModel, aggregate_id: Seq<char>, e: ConversationEvent) -> ListModel {
    match e {
        ConversationEvent::Started(evt) => ListModel {
            id: aggregate_id,
            user_id: Some(evt.user_id@),
            title: evt.title@,
            updated_at: evt.timestamp@,
            ..v
        },
        ConversationEvent::UserMessageSent(evt) => ListModel {
            last_message_preview: truncated(evt.content@, PREVIEW_LEN as nat),
            updated_at: evt.timestamp@,
            ..v
        },
        ConversationEvent::AssistantMessageSent(evt) => ListModel {
            last_message_preview: truncated(evt.content@, PREVIEW_LEN as nat),
            updated_at: evt.timestamp@,
            ..v
        },
        ConversationEvent::TitleChanged(evt) => ListModel { title: evt.title@, ..v },
        ConversationEvent::ConversationArchived(_) => ListModel { archived: true, ..v },
        ConversationEvent::ConversationSummarized(_) => v,
    }
}

impl Default for ConversationListEntry {
    fn default() -> (r: Self)
        ensures
            r@ == empty_list_entry(Seq::empty()),
    {
        ConversationListEntry {
            id: String::new(),
            user_id: None,
            title: String::new(),
            last_message_preview: String::new(),
            updated_at: String::new(),
            archived: false,
        }
    }
}

impl ConversationListEntry {
    /// The list entry of conversation `id` built from its events in order.
    pub fn from_events(id: &str, events: &[ConversationEvent]) -> (r: Self)
        ensures
            r@ == list_entry_of(id@, events@),
    {
        let history = ConversationHistoryView::from_events(id, events);
        let n = history.messages.len();
        let last_message_preview = if n > 0 {
            let last = &history.messages[n - 1];
            assert(messages_view(history.messages@).last() == last@);
            truncate(last.content.as_str(), PREVIEW_LEN)
        } else {
            String::new()
        };
        ConversationListEntry {
            id: history.id,
            user_id: history.user_id,
            title: history.title,
            last_message_preview,
            updated_at: history.updated_at,
            archived: history.archived,
        }
    }

    /// Folds one event, delivered with the id of its aggregate, into the entry.
    pub fn update(&mut self, aggregate_id: &str, event: &ConversationEvent)
        ensures
            final(self)@ == list_update(old(self)@, aggregate_id@, *event),
    {
        match event {
            ConversationEvent::Started(evt) => {
                self.id = aggregate_id.to_string();
                self.user_id = Some(evt.user_id.clone());
                self.title = evt.title.clone();
                self.updated_at = evt.timestamp.clone();
            },
            ConversationEvent::UserMessageSent(evt) => {
                self.last_message_preview = truncate(evt.content.as_str(), PREVIEW_LEN);
                self.updated_at = evt.timestamp.clone();
            },
            ConversationEvent::AssistantMessageSent(evt) => {
                self.last_message_preview = truncate(evt.content.as_str(), PREVIEW_LEN);
                self.updated_at = evt.timestamp.clone();
            },
            ConversationEvent::TitleChanged(evt) => {
                self.title = evt.title.clone();
            },
            ConversationEvent::ConversationArchived(_) => {
                self.archived = true;
            },
            ConversationEvent::ConversationSummarized(_) => {},
        }
    }
}

// ============================================================================
// MEMORY VIEW
// ============================================================================

#[derive(Debug, Clone, PartialEq, Eq)]
pub struct ConversationMemoryView {
    pub id: String,
    pub user_id: Option<String>,
    pub archived: bool,
    pub recent_messages: Vec<MessageView>,
    pub summary: Option<String>,
}

pub struct MemoryModel {
    pub id: Seq<char>,
    pub user_id: Option<Seq<char>>,
    pub archived: bool,
    pub recent_messages: Seq<MessageModel>,
    pub summary: Option<Seq<char>>,
}

impl View for ConversationMemoryView {
    type V = MemoryModel;

    open spec fn view(&self) -> MemoryModel {
        MemoryModel {
            id: self.id@,
            user_id: opt_view(self.user_id),
            archived: self.archived,
            recent_messages: messages_view(self.recent_messages@),
            summary: opt_view(self.summary),
        }
    }
}

/// The length to which a summary quotes a message.
pub const SUMMARY_QUOTE_LEN: usize = 120;

/// The number of recent messages that the incrementally kept memory holds.
pub const MEMORY_WINDOW: usize = 4;

/// The memory of a conversation built from its whole event stream: its last
/// `window` messages, summarised by the last of them.
pub open spec fn memory_of(id: Seq<char>, events: Seq<ConversationEvent>, window: nat) -> MemoryModel {
    let h = history_of(id, events);
    let recent = last_n(h.messages, window);
    MemoryModel {
        id: h.id,
        user_id: h.user_id,
        archived: h.archived,
        recent_messages: recent,
        summary: if recent.len() > 0 {
            Some(
                "Conversation '"@ + h.title + "' most recently discussed: "@ + truncated(
                    recent.last().content,
                    SUMMARY_QUOTE_LEN as nat,
                ),
            )
        } else {
            None
        },
    }
}

/// A memory with the given id and nothing else.
pub open spec fn empty_memory(id: Seq<char>) -> MemoryModel {
    MemoryModel {
        id,
        user_id: None,
        archived: false,
        recent_messages: Seq::empty(),
        summary: None,
    }
}

/// The event part of an incremental memory update.
pub open spec fn memory_event_step(v: MemoryModel, aggregate_id: Seq<char>, e: ConversationEvent) -> MemoryModel {
    match e {
        ConversationEvent::Started(evt) => MemoryModel {
            id: aggregate_id,
            user_id: Some(evt.user_id@),
            ..v
        },
        ConversationEvent::UserMessageSent(_) => MemoryModel {
            recent_messages: v.recent_messages.push(message_of(e)->0),
            ..v
        },
        ConversationEvent::AssistantMessageSent(_) => MemoryModel {
            recent_messages: v.recent_messages.push(message_of(e)->0),
            ..v
        },
        ConversationEvent::TitleChanged(_) => v,
        ConversationEvent::ConversationArchived(_) => MemoryModel { archived: true, ..v },
        ConversationEvent::ConversationSummarized(s) => MemoryModel {
            summary: Some(s.summary@),
            ..v
        },
    }
}

/// One event, delivered with the id of its aggregate, folded into a memory:
/// the event's change, then the window cut to its last four messages, then a
/// summary of the last message where there is none yet.
pub open spec fn memory_update(v: MemoryModel, aggregate_id: Seq<char>, e: ConversationEvent) -> MemoryModel {
    let a = memory_event_step(v, aggregate_id, e);
    let b = MemoryModel { recent_messages: last_n(a.recent_messages, MEMORY_WINDOW as nat), ..a };
    if b.summary is None && b.recent_messages.len() > 0 {
        MemoryModel {
            summary: Some(
                "Most recently discussed: "@ + truncated(
                    b.recent_messages.last().content,
                    SUMMARY_QUOTE_LEN as nat,
                ),
            ),
            ..b
        }
    } else {
        b
    }
}

impl Default for ConversationMemoryView {
    fn default() -> (r: Self)
        ensures
            r@ == empty_memory(Seq::empty()),
    {
        let r = ConversationMemoryView {
            id: String::new(),
            user_id: None,
            archived: false,
            recent_messages: Vec::new(),
            summary: None,
        };
        assert(messages_view(r.recent_messages@) =~= Seq::<MessageModel>::empty());
        r
    }
}

/// Keeps the last `n` messages of `v`.
fn keep_last(v: &mut Vec<MessageView>, n: usize)
    ensures
        messages_view(final(v)@) == last_n(messages_view(old(v)@), n as nat),
{
    let len = v.len();
    if len > n {
        let tail = v.split_off(len - n);
        *v = tail;
        assert(messages_view(v@) =~= last_n(messages_view(old(v)@), n as nat));
    }
}

impl ConversationMemoryView {
    /// The memory of conversation `id` built from its events: its last
    /// `window` messages, summarised by the last of them.
    pub fn from_events(id: &str, events: &[ConversationEvent], window: usize) -> (r: Self)
        ensures
            r@ == memory_of(id@, events@, window as nat),
    {
        let history = ConversationHistoryView::from_events(id, events);
        let mut recent_messages = history.messages;
        keep_last(&mut recent_messages, window);
        let n = recent_messages.len();
        let summary = if n > 0 {
            let last = &recent_messages[n - 1];
            assert(messages_view(recent_messages@).last() == last@);
            let quoted = truncate(last.content.as_str(), SUMMARY_QUOTE_LEN);
            let s = "Conversation '".to_string().concat(history.title.as_str()).concat(
                "' most recently discussed: ",
            ).concat(quoted.as_str());
            Some(s)
        } else {
            None
        };
        ConversationMemoryView {
            id: history.id,
            user_id: history.user_id,
            archived: history.archived,
            recent_messages,
            summary,
        }
    }

    /// Folds one event, delivered with the id of its aggregate, into the memory.
    pub fn update(&mut self, aggregate_id: &str, event: &ConversationEvent)
        ensures
            final(self)@ == memory_update(old(self)@, aggregate_id@, *event),
    {
        match event {
            ConversationEvent::Started(evt) => {
                self.id = aggregate_id.to_string();
                self.user_id = Some(evt.user_id.clone());
            },
            ConversationEvent::UserMessageSent(_) => {
                let m = message_from_event(event);
                push_message(&mut self.recent_messages, m.unwrap());
            },
            ConversationEvent::AssistantMessageSent(_) => {
                let m = message_from_event(event);
                push_message(&mut self.recent_messages, m.unwrap());
            },
            ConversationEvent::TitleChanged(_) => {},
            ConversationEvent::ConversationArchived(_) => {
                self.archived = true;
            },
            ConversationEvent::ConversationSummarized(s) => {
                self.summary = Some(s.summary.clone());
            },
        }
        keep_last(&mut self.recent_messages, MEMORY_WINDOW);
        if self.summary.is_none() {
            let n = self.recent_messages.len();
            if n > 0 {
                let last = &self.recent_messages[n - 1];
                assert(messages_view(self.recent_messages@).last() == last@);
                let quoted = truncate(last.content.as_str(), SUMMARY_QUOTE_LEN);
                self.summary = Some("Most recently discussed: ".to_string().concat(quoted.as_str()));
            }
        }
    }
}

// ============================================================================
// LAWS
// ============================================================================

/// A history kept up to date event by event.
pub open spec fn history_updates(v: HistoryModel, aggregate_id: Seq<char>, events: Seq<ConversationEvent>) -> HistoryModel
    decreases events.len(),
{
    if events.len() == 0 {
        v
    } else {
        history_update(history_updates(v, aggregate_id, events.drop_last()), aggregate_id, events.last())
    }
}

/// A history kept up to date event by event, from an empty history of the
/// same conversation, equals the history built from the whole stream.
pub proof fn law_history_incremental(id: Seq<char>, events: Seq<ConversationEvent>)
    ensures
        history_updates(empty_history(id), id, events) == history_of(id, events),
    decreases events.len(),
{
    if events.len() > 0 {
        law_history_incremental(id, events.drop_last());
        lemma_history_fold_keeps_id(id, events.drop_last());
    }
}

/// A history kept up to date event by event from the default history,
/// whose id is empty, equals the history built from the whole stream once
/// the stream begins with its start event (which sets the id).
pub proof fn law_history_incremental_from_default(id: Seq<char>, events: Seq<ConversationEvent>)
    requires
        events.len() > 0,
        events[0] is Started,
    ensures
        history_updates(empty_history(Seq::empty()), id, events) == history_of(id, events),
{
    law_history_incremental(id, events);
    lemma_updates_same_but_id(empty_history(Seq::empty()), empty_history(id), id, events);
    assert(crate::domain::conversation::has_start(events));
}

/// Two histories that differ at most in their id stay so under the same
/// updates, and share the aggregate's id once a start event has been seen.
proof fn lemma_updates_same_but_id(
    v: HistoryModel,
    w: HistoryModel,
    id: Seq<char>,
    events: Seq<ConversationEvent>,
)
    requires
        v.title == w.title,
        v.user_id == w.user_id,
        v.archived == w.archived,
        v.updated_at == w.updated_at,
        v.messages == w.messages,
    ensures
        ({
            let a = history_updates(v, id, events);
            let b = history_updates(w, id, events);
            &&& a.title == b.title
            &&& a.user_id == b.user_id
            &&& a.archived == b.archived
            &&& a.updated_at == b.updated_at
            &&& a.messages == b.messages
            &&& crate::domain::conversation::has_start(events) ==> a.id == id && b.id == id
        }),
    decreases events.len(),
{
    if events.len() > 0 {
        let p = events.drop_last();
        lemma_updates_same_but_id(v, w, id, p);
        if crate::domain::conversation::has_start(events) && !(events.last() is Started) {
            let i = choose|i: int| 0 <= i < events.len() && (#[trigger] events[i]) is Started;
            assert(p[i] == events[i]);
            assert(crate::domain::conversation::has_start(p));
        }
    }
}

proof fn lemma_history_fold_keeps_id(id: Seq<char>, events: Seq<ConversationEvent>)
    ensures
        history_of(id, events).id == id,
    decreases events.len(),
{
    if events.len() > 0 {
        lemma_history_fold_keeps_id(id, events.drop_last());
    }
}

/// A list entry kept up to date event by event.
pub open spec fn list_updates(v: ListModel, aggregate_id: Seq<char>, events: Seq<ConversationEvent>) -> ListModel
    decreases events.len(),
{
    if events.len() == 0 {
        v
    } else {
        list_update(list_updates(v, aggregate_id, events.drop_last()), aggregate_id, events.last())
    }
}

/// The timestamp of the last start or message event (empty without one).
pub open spec fn last_activity(events: Seq<ConversationEvent>) -> Seq<char>
    decreases events.len(),
{
    if events.len() == 0 {
        Seq::empty()
    } else {
        match events.last() {
            ConversationEvent::Started(evt) => evt.timestamp@,
            ConversationEvent::UserMessageSent(evt) => evt.timestamp@,
            ConversationEvent::AssistantMessageSent(evt) => evt.timestamp@,
            _ => last_activity(events.drop_last()),
        }
    }
}

/// The timestamp of the last start, message or archive event (empty
/// without one).
pub open spec fn last_change(events: Seq<ConversationEvent>) -> Seq<char>
    decreases events.len(),
{
    if events.len() == 0 {
        Seq::empty()
    } else {
        match events.last() {
            ConversationEvent::Started(evt) => evt.timestamp@,
            ConversationEvent::UserMessageSent(evt) => evt.timestamp@,
            ConversationEvent::AssistantMessageSent(evt) => evt.timestamp@,
            ConversationEvent::ConversationArchived(evt) => evt.timestamp@,
            _ => last_change(events.drop_last()),
        }
    }
}

proof fn lemma_history_updated_at(id: Seq<char>, events: Seq<ConversationEvent>)
    ensures
        history_of(id, events).updated_at == last_change(events),
    decreases events.len(),
{
    if events.len() > 0 {
        lemma_history_updated_at(id, events.drop_last());
    }
}

/// A list entry kept up to date event by event agrees with the entry built
/// from the whole stream in every field but `updated_at`, which moves with
/// starts and messages only, and not with an archive.
pub proof fn law_list_incremental(id: Seq<char>, events: Seq<ConversationEvent>)
    ensures
        list_updates(empty_list_entry(id), id, events) == (ListModel {
            updated_at: last_activity(events),
            ..list_entry_of(id, events)
        }),
    decreases events.len(),
{
    if events.len() > 0 {
        law_list_incremental(id, events.drop_last());
        lemma_history_fold_keeps_id(id, events.drop_last());
    }
}

/// The timestamps agree while no archive event has been seen.
pub proof fn law_list_incremental_without_archive(id: Seq<char>, events: Seq<ConversationEvent>)
    requires
        forall|i: int| 0 <= i < events.len() ==> !((#[trigger] events[i]) is ConversationArchived),
    ensures
        list_updates(empty_list_entry(id), id, events) == list_entry_of(id, events),
    decreases events.len(),
{
    law_list_incremental(id, events);
    lemma_history_updated_at(id, events);
    lemma_activity_is_change(events);
}

proof fn lemma_activity_is_change(events: Seq<ConversationEvent>)
    requires
        forall|i: int| 0 <= i < events.len() ==> !((#[trigger] events[i]) is ConversationArchived),
    ensures
        last_activity(events) == last_change(events),
    decreases events.len(),
{
    if events.len() > 0 {
        let p = events.drop_last();
        assert forall|i: int| 0 <= i < p.len() implies !((#[trigger] p[i]) is ConversationArchived) by {
            assert(p[i] == events[i]);
        }
        assert(!(events[events.len() - 1] is ConversationArchived));
        lemma_activity_is_change(p);
    }
}

/// A memory kept up to date event by event.
pub open spec fn memory_updates(v: MemoryModel, aggregate_id: Seq<char>, events: Seq<ConversationEvent>) -> MemoryModel
    decreases events.len(),
{
    if events.len() == 0 {
        v
    } else {
        memory_update(memory_updates(v, aggregate_id, events.drop_last()), aggregate_id, events.last())
    }
}

/// Whether the stream holds an archive event.
pub open spec fn has_archive_event(events: Seq<ConversationEvent>) -> bool {
    exists|i: int| 0 <= i < events.len() && (#[trigger] events[i]) is ConversationArchived
}

proof fn lemma_archive_event_prefix(events: Seq<ConversationEvent>)
    requires
        events.len() > 0,
    ensures
        has_archive_event(events) == (has_archive_event(events.drop_last())
            || events.last() is ConversationArchived),
{
    let p = events.drop_last();
    if has_archive_event(p) {
        let i = choose|i: int| 0 <= i < p.len() && (#[trigger] p[i]) is ConversationArchived;
        assert(events[i] == p[i]);
    }
    if has_archive_event(events) && !(events.last() is ConversationArchived) {
        let i = choose|i: int| 0 <= i < events.len() && (#[trigger] events[i]) is ConversationArchived;
        assert(p[i] == events[i]);
    }
    if events.last() is ConversationArchived {
        assert(events[events.len() - 1] is ConversationArchived);
    }
}

/// A history, from any starting point, is archived after a stream exactly
/// when it was archived before or the stream holds an archive event.
pub proof fn law_history_archive_flag(v: HistoryModel, events: Seq<ConversationEvent>)
    ensures
        history_fold(v, events).archived == (v.archived || has_archive_event(events)),
    decreases events.len(),
{
    if events.len() > 0 {
        law_history_archive_flag(v, events.drop_last());
        lemma_archive_event_prefix(events);
    }
}

/// Views built from the whole stream are archived exactly when the stream
/// holds an archive event: the history, the list entry and the memory.
pub proof fn law_views_archived_iff_archive_event(
    id: Seq<char>,
    events: Seq<ConversationEvent>,
    window: nat,
)
    ensures
        history_of(id, events).archived == has_archive_event(events),
        list_entry_of(id, events).archived == has_archive_event(events),
        memory_of(id, events, window).archived == has_archive_event(events),
{
    law_history_archive_flag(empty_history(id), events);
}

/// A memory kept up to date event by event, from any starting memory, is
/// archived exactly when it was archived before or an archive event was
/// delivered, so an archived conversation's memory never stays active.
pub proof fn law_memory_updates_archive_flag(
    v: MemoryModel,
    aggregate_id: Seq<char>,
    events: Seq<ConversationEvent>,
)
    ensures
        memory_updates(v, aggregate_id, events).archived == (v.archived || has_archive_event(events)),
    decreases events.len(),
{
    if events.len() > 0 {
        law_memory_updates_archive_flag(v, aggregate_id, events.drop_last());
        lemma_archive_event_prefix(events);
    }
}

/// A list entry kept up to date event by event, from any starting entry, is
/// archived exactly when it was archived before or an archive event was
/// delivered.
pub proof fn law_list_updates_archive_flag(
    v: ListModel,
    aggregate_id: Seq<char>,
    events: Seq<ConversationEvent>,
)
    ensures
        list_updates(v, aggregate_id, events).archived == (v.archived || has_archive_event(events)),
    decreases events.len(),
{
    if events.len() > 0 {
        law_list_updates_archive_flag(v, aggregate_id, events.drop_last());
        lemma_archive_event_prefix(events);
    }
}

/// A history kept up to date event by event, from any starting history, is
/// archived exactly when it was archived before or an archive event was
/// delivered.
pub proof fn law_history_updates_archive_flag(
    v: HistoryModel,
    aggregate_id: Seq<char>,
    events: Seq<ConversationEvent>,
)
    ensures
        history_updates(v, aggregate_id, events).archived == (v.archived || has_archive_event(
            events,
        )),
    decreases events.len(),
{
    if events.len() > 0 {
        law_history_updates_archive_flag(v, aggregate_id, events.drop_last());
        lemma_archive_event_prefix(events);
    }
}

/// The memory kept event by event and the memory built from the whole
/// stream agree on whether the conversation is archived.
pub proof fn law_memory_incremental_archive(id: Seq<char>, events: Seq<ConversationEvent>, window: nat)
    ensures
        memory_updates(empty_memory(id), id, events).archived == memory_of(id, events, window).archived,
{
    law_memory_updates_archive_flag(empty_memory(id), id, events);
    law_views_archived_iff_archive_event(id, events, window);
}

proof fn lemma_last_n_push<A>(s: Seq<A>, x: A, n: nat)
    requires
        n > 0,
    ensures
        last_n(last_n(s, n).push(x), n) == last_n(s.push(x), n),
{
    assert(last_n(last_n(s, n).push(x), n) =~= last_n(s.push(x), n));
}

proof fn lemma_last_n_idem<A>(s: Seq<A>, n: nat)
    ensures
        last_n(last_n(s, n), n) == last_n(s, n),
{
    assert(last_n(last_n(s, n), n) =~= last_n(s, n));
}

/// A memory kept up to date event by event holds exactly the last four
/// messages of the conversation (its sliding window).
pub proof fn law_memory_window(id: Seq<char>, events: Seq<ConversationEvent>)
    ensures
        memory_updates(empty_memory(id), id, events).recent_messages == last_n(
            history_of(id, events).messages,
            MEMORY_WINDOW as nat,
        ),
        memory_updates(empty_memory(id), id, events).recent_messages.len() <= MEMORY_WINDOW,
    decreases events.len(),
{
    if events.len() == 0 {
        assert(last_n(Seq::<MessageModel>::empty(), MEMORY_WINDOW as nat) =~= Seq::<MessageModel>::empty());
    } else {
        let p = events.drop_last();
        law_memory_window(id, p);
        let prev = history_of(id, p).messages;
        match events.last() {
            ConversationEvent::UserMessageSent(_) => {
                lemma_last_n_push(prev, message_of(events.last())->0, MEMORY_WINDOW as nat);
            },
            ConversationEvent::AssistantMessageSent(_) => {
                lemma_last_n_push(prev, message_of(events.last())->0, MEMORY_WINDOW as nat);
            },
            _ => {
                lemma_last_n_idem(prev, MEMORY_WINDOW as nat);
            },
        }
    }
}

} // verus!
