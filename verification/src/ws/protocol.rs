//! Frames exchanged over the chat socket, and the tokens a reply is
//! streamed in.
use crate::text::{
    is_word, lemma_words_append_word, lemma_words_are_words, lemma_words_trailing_ws, split_whitespace,
    views_of, words,
};
use crate::ai::backend::{llm_error_message, LlmError};
use vstd::prelude::*;
use vstd::string::*;

verus! {

broadcast use vstd::string::group_string_axioms;

#[derive(Debug, Clone, PartialEq, Eq)]
pub enum ClientFrame {
    SendMessage { conversation_id: String, content: String, model_id: Option<String> },
}

#[derive(Debug, Clone, PartialEq, Eq)]
pub enum ServerFrame {
    Ack,
    Token { conversation_id: String, content: String },
    Done { conversation_id: String },
    Error { conversation_id: String, message: String },
}

/// The tokens of a reply: each word followed by one space.
pub open spec fn tokens_of(input: Seq<char>) -> Seq<Seq<char>> {
    words(input).map_values(|w: Seq<char>| w + " "@)
}

/// Splits a reply into the tokens it is streamed in.
pub fn tokenize(input: &str) -> (r: Vec<String>)
    ensures
        views_of(r@) == tokens_of(input@),
{
    let w = split_whitespace(input);
    let mut r: Vec<String> = Vec::new();
    let mut i: usize = 0;
    while i < w.len()
        invariant
            views_of(w@) == words(input@),
            i <= w@.len(),
            views_of(r@) == words(input@).take(i as int).map_values(|x: Seq<char>| x + " "@),
        decreases w@.len() - i,
    {
        let t = w[i].clone().concat(" ");
        let ghost tv = t@;
        assert(views_of(w@)[i as int] == w@[i as int]@);
        assert(tv == words(input@)[i as int] + " "@);
        let ghost before = r@;
        r.push(t);
        assert(views_of(r@) =~= views_of(before).push(tv));
        assert(views_of(r@) =~= words(input@).take(i + 1).map_values(|x: Seq<char>| x + " "@));
        i = i + 1;
    }
    assert(words(input@).take(w@.len() as int) =~= words(input@));
    r
}

/// The strings of `v` one after the other.
pub open spec fn concat_all(v: Seq<Seq<char>>) -> Seq<char>
    decreases v.len(),
{
    if v.len() == 0 {
        Seq::empty()
    } else {
        concat_all(v.drop_last()) + v.last()
    }
}

/// The reply as recorded once streamed: its tokens one after the other.
pub fn assemble(tokens: &Vec<String>) -> (r: String)
    ensures
        r@ == concat_all(views_of(tokens@)),
{
    let mut r = String::new();
    let mut i: usize = 0;
    while i < tokens.len()
        invariant
            i <= tokens@.len(),
            r@ == concat_all(views_of(tokens@).take(i as int)),
        decreases tokens@.len() - i,
    {
        r.append(tokens[i].as_str());
        assert(views_of(tokens@).take(i + 1).drop_last() =~= views_of(tokens@).take(i as int));
        i = i + 1;
    }
    assert(views_of(tokens@).take(tokens@.len() as int) =~= views_of(tokens@));
    r
}

/// The frame that carries one token of a reply.
pub fn token_frame(conversation_id: &String, token: String) -> (r: ServerFrame)
    ensures
        r == (ServerFrame::Token { conversation_id: *conversation_id, content: token }),
{
    ServerFrame::Token { conversation_id: conversation_id.clone(), content: token }
}

// ----------------------------------------------------------------------------
// The socket session
// ----------------------------------------------------------------------------

/// A message the socket received.
#[derive(Debug, Clone, PartialEq, Eq)]
pub enum SocketEvent {
    /// A text message: the frame it holds, or `None` when it is not a valid
    /// client frame.
    Text(Option<ClientFrame>),
    /// The client closed the socket.
    Close,
    /// Any other kind of message (binary, ping, pong).
    Other,
}

/// What the session does with a received message.
#[derive(Debug, Clone, PartialEq, Eq)]
pub enum SocketAction {
    /// Ignore the message and wait for the next.
    Skip,
    /// Close the socket and end the session.
    Close,
    /// Record the user's message and answer it.
    Answer { conversation_id: String, content: String, model_id: Option<String> },
}

/// What the session does with a received message: a valid frame is
/// answered, a close ends the session, anything else is skipped.
pub fn next_action(event: SocketEvent) -> (r: SocketAction)
    ensures
        match event {
            SocketEvent::Text(Some(ClientFrame::SendMessage { conversation_id, content, model_id })) => r
                == (SocketAction::Answer { conversation_id, content, model_id }),
            SocketEvent::Text(None) => r == SocketAction::Skip,
            SocketEvent::Close => r == SocketAction::Close,
            SocketEvent::Other => r == SocketAction::Skip,
        },
{
    match event {
        SocketEvent::Text(Some(ClientFrame::SendMessage { conversation_id, content, model_id })) => {
            SocketAction::Answer { conversation_id, content, model_id }
        },
        SocketEvent::Text(None) => SocketAction::Skip,
        SocketEvent::Close => SocketAction::Close,
        SocketEvent::Other => SocketAction::Skip,
    }
}

/// Whether the session goes on after sending `frame`: a frame that could
/// not be sent ends it, except an error frame, whose failure is ignored.
pub fn continues_after_send(frame: &ServerFrame, sent: bool) -> (r: bool)
    ensures
        r == (sent || frame is Error),
{
    match frame {
        ServerFrame::Error { .. } => true,
        _ => sent,
    }
}

/// The frame that reports, for conversation `conversation_id`, that the
/// model backend failed to answer; its message is the error's display text.
pub fn reply_error_frame(conversation_id: &String, error: &LlmError) -> (r: ServerFrame)
    ensures
        r matches ServerFrame::Error { conversation_id: c, message: m } && c == *conversation_id
            && m@ == llm_error_message(*error),
{
    ServerFrame::Error { conversation_id: conversation_id.clone(), message: error.to_string() }
}

/// How a reply is streamed: one token frame per token, in order, then the
/// frame that ends the reply; and the text recorded as the assistant's
/// message, the tokens one after the other.
pub struct ReplyPlan {
    pub tokens: Vec<ServerFrame>,
    pub done: ServerFrame,
    pub recorded: String,
}

/// The frames that stream `reply` in conversation `conversation_id`, and
/// the text recorded for it.
pub fn reply_plan(conversation_id: &String, reply: &str) -> (r: ReplyPlan)
    ensures
        r.tokens@.len() == tokens_of(reply@).len(),
        forall|i: int|
            0 <= i < r.tokens@.len() ==> (#[trigger] r.tokens@[i] matches ServerFrame::Token {
                conversation_id: c,
                content: t,
            } && c == *conversation_id && t@ == tokens_of(reply@)[i]),
        r.done == (ServerFrame::Done { conversation_id: *conversation_id }),
        r.recorded@ == concat_all(tokens_of(reply@)),
{
    let tokens = tokenize(reply);
    let recorded = assemble(&tokens);
    let mut frames: Vec<ServerFrame> = Vec::new();
    let mut i: usize = 0;
    while i < tokens.len()
        invariant
            views_of(tokens@) == tokens_of(reply@),
            i <= tokens@.len(),
            frames@.len() == i,
            forall|j: int|
                0 <= j < i ==> (#[trigger] frames@[j] matches ServerFrame::Token {
                    conversation_id: c,
                    content: t,
                } && c == *conversation_id && t@ == tokens_of(reply@)[j]),
        decreases tokens@.len() - i,
    {
        assert(views_of(tokens@)[i as int] == tokens@[i as int]@);
        frames.push(token_frame(conversation_id, tokens[i].clone()));
        i = i + 1;
    }
    ReplyPlan {
        tokens: frames,
        done: ServerFrame::Done { conversation_id: conversation_id.clone() },
        recorded,
    }
}

/// The text recorded for a streamed reply, its tokens one after the other,
/// has the same words as the reply itself.
pub proof fn law_recorded_reply_keeps_words(reply: Seq<char>)
    ensures
        words(concat_all(tokens_of(reply))) == words(reply),
{
    lemma_words_are_words(reply);
    lemma_tokens_keep_words(words(reply));
}

/// Words, each followed by one space and put one after the other, split
/// back into the same words.
proof fn lemma_tokens_keep_words(ws: Seq<Seq<char>>)
    requires
        forall|i: int| 0 <= i < ws.len() ==> is_word(#[trigger] ws[i]),
    ensures
        words(concat_all(ws.map_values(|w: Seq<char>| w + " "@))) == ws,
        ws.len() > 0 ==> concat_all(ws.map_values(|w: Seq<char>| w + " "@)).last() == ' ',
    decreases ws.len(),
{
    reveal_strlit(" ");
    let toks = ws.map_values(|w: Seq<char>| w + " "@);
    if ws.len() == 0 {
        assert(concat_all(toks) =~= Seq::<char>::empty());
        assert(words(Seq::<char>::empty()) =~= Seq::<Seq<char>>::empty());
    } else {
        let front = ws.drop_last();
        let w = ws.last();
        assert(is_word(ws[ws.len() - 1]));
        lemma_tokens_keep_words(front);
        let x = concat_all(front.map_values(|w: Seq<char>| w + " "@));
        assert(toks.drop_last() =~= front.map_values(|w: Seq<char>| w + " "@));
        assert(toks.last() == w + " "@);
        assert(concat_all(toks) == x + (w + " "@));
        assert(x + (w + " "@) =~= (x + w).push(' '));
        lemma_words_append_word(x, w);
        lemma_words_trailing_ws(x + w, ' ');
        assert(words(x).push(w) =~= ws);
    }
}

} // verus!
