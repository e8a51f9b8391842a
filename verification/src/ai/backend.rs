//! Chat messages, model errors, and the OpenAI-compatible chat completion
//! wire format: the request that is sent, and how a reply or a stream of
//! server-sent events is read back.
use crate::text::{has_prefix, split_char, split_on, starts_with, str_eq, views_of};
use vstd::prelude::*;
use vstd::string::*;

verus! {

broadcast use vstd::string::group_string_axioms;

/// Represents a single message in a conversation.
#[derive(Debug, Clone, PartialEq, Eq)]
pub struct ChatMessage {
    pub role: String,
    pub content: String,
}

impl ChatMessage {
    pub fn new(role: &str, content: &str) -> (r: Self)
        ensures
            r.role@ == role@,
            r.content@ == content@,
    {
        ChatMessage { role: role.to_string(), content: content.to_string() }
    }
}

/// Error types returned by LLM operations.
#[derive(Debug, Clone, PartialEq, Eq)]
pub enum LlmError {
    UnknownModel(String),
    Timeout,
    ApiError(String),
}

/// The message that each error displays.
pub open spec fn llm_error_message(e: LlmError) -> Seq<char> {
    match e {
        LlmError::UnknownModel(m) => "Model '"@ + m@ + "' is not registered with any provider"@,
        LlmError::Timeout => "Request timed out"@,
        LlmError::ApiError(m) => "API error: "@ + m@,
    }
}

impl LlmError {
    /// The error's display message.
    pub fn to_string(&self) -> (r: String)
        ensures
            r@ == llm_error_message(*self),
    {
        match self {
            LlmError::UnknownModel(m) => "Model '".to_string().concat(m.as_str()).concat(
                "' is not registered with any provider",
            ),
            LlmError::Timeout => "Request timed out".to_string(),
            LlmError::ApiError(m) => "API error: ".to_string().concat(m.as_str()),
        }
    }
}

impl LlmError {
    /// The error for a model that no provider serves.
    pub fn unknown_model(model_id: &str) -> (r: Self)
        ensures
            r matches LlmError::UnknownModel(m) && m@ == model_id@,
    {
        LlmError::UnknownModel(model_id.to_string())
    }
}

/// An API error whose message is `prefix` followed by `detail`.
fn api_error(prefix: &str, detail: &str) -> (r: LlmError)
    ensures
        r matches LlmError::ApiError(m) && m@ == prefix@ + detail@,
{
    LlmError::ApiError(prefix.to_string().concat(detail))
}

/// The HTTP client could not be built.
pub fn client_build_error(detail: &str) -> (r: LlmError)
    ensures
        r matches LlmError::ApiError(m) && m@ == "Failed to create HTTP client: "@ + detail@,
{
    api_error("Failed to create HTTP client: ", detail)
}

/// The request failed in transport: a timeout, or any other failure.
pub fn request_error(is_timeout: bool, detail: &str) -> (r: LlmError)
    ensures
        is_timeout ==> r == LlmError::Timeout,
        !is_timeout ==> (r matches LlmError::ApiError(m) && m@ == "HTTP request failed: "@ + detail@),
{
    if is_timeout {
        LlmError::Timeout
    } else {
        api_error("HTTP request failed: ", detail)
    }
}

/// The reply body could not be parsed.
pub fn response_parse_error(detail: &str) -> (r: LlmError)
    ensures
        r matches LlmError::ApiError(m) && m@ == "Failed to parse response: "@ + detail@,
{
    api_error("Failed to parse response: ", detail)
}

/// The reply body could not be read.
pub fn response_read_error(detail: &str) -> (r: LlmError)
    ensures
        r matches LlmError::ApiError(m) && m@ == "Failed to read response: "@ + detail@,
{
    api_error("Failed to read response: ", detail)
}

/// The body of a chat completion request.
#[derive(Debug, Clone, PartialEq, Eq)]
pub struct CompletionRequest {
    pub model: String,
    pub messages: Vec<ChatMessage>,
    pub stream: bool,
}

/// OpenAI-compatible backend configuration.
/// Works with any API that implements the OpenAI chat completion interface.
pub struct OpenAiCompatBackend {
    api_base: String,
    api_key: String,
    timeout_secs: u64,
}

/// The path of the chat completion endpoint below the API base.
pub open spec fn completions_path() -> Seq<char> {
    "/v1/chat/completions"@
}

impl OpenAiCompatBackend {
    pub fn new(api_base: String, api_key: String, timeout_secs: u64) -> (r: Self)
        ensures
            r.api_base() == api_base,
            r.api_key() == api_key,
            r.timeout_secs() == timeout_secs,
    {
        OpenAiCompatBackend { api_base, api_key, timeout_secs }
    }

    pub closed spec fn api_base(&self) -> String {
        self.api_base
    }

    pub closed spec fn api_key(&self) -> String {
        self.api_key
    }

    pub closed spec fn timeout_secs(&self) -> u64 {
        self.timeout_secs
    }

    /// The request timeout, in seconds.
    pub fn timeout(&self) -> (r: u64)
        ensures
            r == self.timeout_secs(),
    {
        self.timeout_secs
    }

    /// The URL of the chat completion endpoint.
    pub fn completions_url(&self) -> (r: String)
        ensures
            r@ == self.api_base()@ + completions_path(),
    {
        self.api_base.clone().concat("/v1/chat/completions")
    }

    /// The value of the `Authorization` header.
    pub fn authorization(&self) -> (r: String)
        ensures
            r@ == "Bearer "@ + self.api_key()@,
    {
        "Bearer ".to_string().concat(self.api_key.as_str())
    }

    /// The request body for `model` with the full message history.
    pub fn completion_request(&self, model: &str, messages: Vec<ChatMessage>, stream: bool) -> (r:
        CompletionRequest)
        ensures
            r.model@ == model@,
            r.messages == messages,
            r.stream == stream,
    {
        CompletionRequest { model: model.to_string(), messages, stream }
    }
}

/// The content of a non-streaming reply: the message of its first choice.
pub fn completion_content(first_choice: Option<String>) -> (r: Result<String, LlmError>)
    ensures
        match first_choice {
            Some(c) => r == Ok::<String, LlmError>(c),
            None => r matches Err(LlmError::ApiError(m)) && m@ == "No choices in response"@,
        },
{
    match first_choice {
        Some(c) => Ok(c),
        None => Err(LlmError::ApiError("No choices in response".to_string())),
    }
}

// ----------------------------------------------------------------------------
// Server-sent events
// ----------------------------------------------------------------------------

/// A line without the carriage return of a `\r\n` ending.
pub open spec fn strip_cr(l: Seq<char>) -> Seq<char> {
    if l.len() > 0 && l.last() == '\r' {
        l.drop_last()
    } else {
        l
    }
}

/// `str::lines`: the lines of `s`, split at `\n` or `\r\n`, without a final
/// empty line.
pub open spec fn lines_of(s: Seq<char>) -> Seq<Seq<char>> {
    let p = split_on(s, '\n');
    let head = p.drop_last().map_values(|l: Seq<char>| strip_cr(l));
    if p.last().len() > 0 {
        head.push(p.last())
    } else {
        head
    }
}

/// The prefix of an event-stream data line.
pub open spec fn data_prefix() -> Seq<char> {
    "data: "@
}

/// The payload that ends a stream.
pub open spec fn done_marker() -> Seq<char> {
    "[DONE]"@
}

/// The payloads of the data lines, in order, without the end marker.
pub open spec fn sse_payloads(lines: Seq<Seq<char>>) -> Seq<Seq<char>>
    decreases lines.len(),
{
    if lines.len() == 0 {
        Seq::empty()
    } else {
        let rest = sse_payloads(lines.drop_last());
        let l = lines.last();
        if has_prefix(l, data_prefix()) && l.skip(6) != done_marker() {
            rest.push(l.skip(6))
        } else {
            rest
        }
    }
}

fn strip_cr_str(l: &str) -> (r: String)
    ensures
        r@ == strip_cr(l@),
{
    let n = l.unicode_len();
    if n > 0 && l.get_char(n - 1) == '\r' {
        assert(l@.subrange(0, n - 1) =~= l@.drop_last());
        l.substring_char(0, n - 1).to_string()
    } else {
        l.to_string()
    }
}

/// Folds one line into the payloads read so far.
fn push_payload(out: &mut Vec<String>, line: &str)
    ensures
        views_of(final(out)@) == ({
            let l = line@;
            if has_prefix(l, data_prefix()) && l.skip(6) != done_marker() {
                views_of(old(out)@).push(l.skip(6))
            } else {
                views_of(old(out)@)
            }
        }),
{
    proof {
        reveal_strlit("data: ");
        reveal_strlit("[DONE]");
    }
    if starts_with(line, "data: ") {
        let n = line.unicode_len();
        let payload = line.substring_char(6, n);
        assert(payload@ =~= line@.skip(6));
        if !str_eq(payload, "[DONE]") {
            let p = payload.to_string();
            out.push(p);
            assert(views_of(out@) =~= views_of(old(out)@).push(line@.skip(6)));
        }
    }
}

/// The data payloads of an event-stream body, in order, up to but without
/// the `[DONE]` marker lines.
pub fn sse_data_payloads(body: &str) -> (r: Vec<String>)
    ensures
        views_of(r@) == sse_payloads(lines_of(body@)),
{
    let pieces = split_char(body, '\n');
    let ghost p = split_on(body@, '\n');
    assert(views_of(pieces@) == p);
    let n = pieces.len();
    proof {
        crate::text::lemma_split_on_nonempty(body@, '\n');
    }
    let ghost head = p.drop_last().map_values(|l: Seq<char>| strip_cr(l));
    let mut out: Vec<String> = Vec::new();
    let mut i: usize = 0;
    while i + 1 < n
        invariant
            n == pieces@.len(),
            n == p.len(),
            n > 0,
            views_of(pieces@) == p,
            head == p.drop_last().map_values(|l: Seq<char>| strip_cr(l)),
            i + 1 <= n,
            views_of(out@) == sse_payloads(head.take(i as int)),
        decreases n - i,
    {
        let line = strip_cr_str(pieces[i].as_str());
        assert(pieces@[i as int]@ == p[i as int]);
        assert(head[i as int] == line@);
        assert(head.take(i + 1).drop_last() =~= head.take(i as int));
        push_payload(&mut out, line.as_str());
        i = i + 1;
    }
    assert(head.take(i as int) =~= head);
    let last = &pieces[n - 1];
    assert(last@ == p.last());
    if last.unicode_len() > 0 {
        assert(head.push(p.last()).drop_last() =~= head);
        push_payload(&mut out, last.as_str());
    }
    out
}

/// What one data payload contributes to a stream, given how it parsed: its
/// text when it parsed to a non-empty delta, nothing when it parsed to an
/// empty or absent delta, and an error when it did not parse.
pub fn stream_chunk_text(parsed: Result<Option<String>, String>) -> (r: Option<
    Result<String, LlmError>,
>)
    ensures
        match parsed {
            Ok(Some(c)) => if c@.len() > 0 {
                r == Some(Ok::<String, LlmError>(c))
            } else {
                r is None
            },
            Ok(None) => r is None,
            Err(detail) => r matches Some(Err(LlmError::ApiError(m))) && m@
                == "Failed to parse stream chunk: "@ + detail@,
        },
{
    match parsed {
        Ok(Some(c)) => {
            if c.as_str().unicode_len() > 0 {
                Some(Ok(c))
            } else {
                None
            }
        },
        Ok(None) => None,
        Err(detail) => Some(Err(api_error("Failed to parse stream chunk: ", detail.as_str()))),
    }
}

} // verus!
