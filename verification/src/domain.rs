//! The conversation domain: the event-sourced aggregate and its read models.
pub mod conversation;

pub use conversation::{
    ArchiveConversation, AssistantMessageSent, ChangeTitle, CompleteAssistantResponse,
    Conversation, ConversationArchived, ConversationCommand, ConversationError, ConversationEvent,
    ConversationServices, ConversationStarted, ConversationSummarized, SendUserMessage,
    StartConversation, TitleChanged, UserMessageSent,
};
pub mod views;

pub use views::{ConversationHistoryView, ConversationListEntry, ConversationMemoryView, MessageView};
