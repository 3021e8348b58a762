//! The DeepSeek chat client's logic: the request's messages, the collection
//! of a streamed (SSE) reply, and the client's errors.

use vstd::prelude::*;
use crate::text::{is_blank, is_blank_text, joined, same_text};

verus! {

/// The chat completions endpoint.
pub const CHAT_COMPLETIONS_URL: &'static str = "https://api.deepseek.com/chat/completions";

/// The model that is asked.
pub const CHAT_MODEL: &'static str = "deepseek-chat";

/// The data of the event that ends a stream.
pub const DONE_MARKER: &'static str = "[DONE]";

/// Errors that can occur during LLM API calls.
pub enum LLMError {
    /// The HTTP request to the LLM provider failed (with the client's message).
    HttpError(String),
    /// An SSE event could not be parsed.
    SSEError(String),
    /// The API returned an error response.
    ApiError(String),
    /// The streamed response contained no content.
    EmptyResponse,
}

/// The text by which an error is shown.
pub open spec fn error_text(e: LLMError) -> Seq<char> {
    match e {
        LLMError::HttpError(m) => "HTTP request failed: "@ + m@,
        LLMError::SSEError(m) => "SSE parse error: "@ + m@,
        LLMError::ApiError(m) => "API error: "@ + m@,
        LLMError::EmptyResponse => "No response content"@,
    }
}

impl LLMError {
    /// The error's message.
    pub fn describe(&self) -> (s: String)
        ensures
            s@ == error_text(*self),
    {
        match self {
            LLMError::HttpError(m) => joined("HTTP request failed: ", m.as_str()),
            LLMError::SSEError(m) => joined("SSE parse error: ", m.as_str()),
            LLMError::ApiError(m) => joined("API error: ", m.as_str()),
            LLMError::EmptyResponse => "No response content".to_owned(),
        }
    }
}

/// The error for a non-success HTTP status: `"HTTP {status}: {body}"`.
pub fn api_failure(status: &str, body: &str) -> (e: LLMError)
    ensures
        e matches LLMError::ApiError(m) && m@ == "HTTP "@ + status@ + ": "@ + body@,
{
    let a = joined("HTTP ", status);
    let b = joined(a.as_str(), ": ");
    let c = joined(b.as_str(), body);
    proof {
        assert(c@ =~= "HTTP "@ + status@ + ": "@ + body@);
    }
    LLMError::ApiError(c)
}

/// The error for an event whose data is not a valid chunk:
/// `"JSON parse failed: {error} | data: {data}"`.
pub fn malformed_chunk(error: &str, data: &str) -> (e: LLMError)
    ensures
        e matches LLMError::SSEError(m) && m@ == "JSON parse failed: "@ + error@ + " | data: "@ + data@,
{
    let a = joined("JSON parse failed: ", error);
    let b = joined(a.as_str(), " | data: ");
    let c = joined(b.as_str(), data);
    proof {
        assert(c@ =~= "JSON parse failed: "@ + error@ + " | data: "@ + data@);
    }
    LLMError::SSEError(c)
}

/// The `Authorization` header value for an API key.
pub fn bearer(api_key: &str) -> (h: String)
    ensures
        h@ == "Bearer "@ + api_key@,
{
    joined("Bearer ", api_key)
}

/// A single message in the chat completion request.
pub struct ChatMessage {
    pub role: String,
    pub content: String,
}

/// Chat messages as (role, content) texts.
pub open spec fn messages_view(msgs: Seq<ChatMessage>) -> Seq<(Seq<char>, Seq<char>)> {
    msgs.map_values(|m: ChatMessage| (m.role@, m.content@))
}

/// The messages of a request as (role, content) texts: the system prompt,
/// then the history in order, then the user's message.
pub open spec fn chat_request(
    system_prompt: Seq<char>,
    history: Seq<(Seq<char>, Seq<char>)>,
    user_message: Seq<char>,
) -> Seq<(Seq<char>, Seq<char>)> {
    seq![("system"@, system_prompt)] + history + seq![("user"@, user_message)]
}

/// The messages of a request: the system prompt, then the history in order,
/// then the user's message.
pub fn build_chat_messages(
    system_prompt: &str,
    history: &Vec<(String, String)>,
    user_message: &str,
) -> (msgs: Vec<ChatMessage>)
    requires
        history@.len() + 2 <= usize::MAX,
    ensures
        msgs@.len() == history@.len() + 2,
        msgs@[0].role@ == "system"@,
        msgs@[0].content@ == system_prompt@,
        forall|i: int|
            0 <= i < history@.len() ==> (#[trigger] msgs@[i + 1]).role@ == history@[i].0@
                && msgs@[i + 1].content@ == history@[i].1@,
        msgs@[history@.len() + 1int].role@ == "user"@,
        msgs@[history@.len() + 1int].content@ == user_message@,
        messages_view(msgs@) == chat_request(
            system_prompt@,
            crate::session::history_view(history@),
            user_message@,
        ),
{
    let mut msgs: Vec<ChatMessage> = Vec::new();
    msgs.push(ChatMessage { role: "system".to_owned(), content: system_prompt.to_owned() });
    let mut i: usize = 0;
    while i < history.len()
        invariant
            i <= history@.len(),
            msgs@.len() == i + 1,
            msgs@[0].role@ == "system"@,
            msgs@[0].content@ == system_prompt@,
            forall|j: int|
                0 <= j < i ==> (#[trigger] msgs@[j + 1]).role@ == history@[j].0@ && msgs@[j + 1].content@
                    == history@[j].1@,
        decreases history.len() - i,
    {
        let role = history[i].0.clone();
        let content = history[i].1.clone();
        msgs.push(ChatMessage { role, content });
        i += 1;
    }
    msgs.push(ChatMessage { role: "user".to_owned(), content: user_message.to_owned() });
    let ghost expected = chat_request(system_prompt@, crate::session::history_view(history@), user_message@);
    assert forall|k: int| 0 <= k < msgs@.len() implies #[trigger] messages_view(msgs@)[k] == expected[k] by {
        if 1 <= k <= history@.len() {
            let j = k - 1;
            assert(msgs@[j + 1].role@ == history@[j].0@);
        }
    }
    assert(messages_view(msgs@) =~= chat_request(
        system_prompt@,
        crate::session::history_view(history@),
        user_message@,
    ));
    msgs
}

/// A request holds the user's message once, after the history: with no
/// history it is exactly the system prompt and the user's message.
pub proof fn law_request_holds_message_once(
    system_prompt: Seq<char>,
    history: Seq<(Seq<char>, Seq<char>)>,
    user_message: Seq<char>,
)
    ensures
        chat_request(system_prompt, history, user_message).len() == history.len() + 2,
        chat_request(system_prompt, history, user_message).subrange(1, history.len() + 1int) == history,
        chat_request(system_prompt, history, user_message).last() == ("user"@, user_message),
        chat_request(system_prompt, Seq::empty(), user_message) == seq![
            ("system"@, system_prompt),
            ("user"@, user_message),
        ],
{
    assert(chat_request(system_prompt, history, user_message).subrange(1, history.len() + 1int) =~= history);
    assert(chat_request(system_prompt, Seq::empty(), user_message) =~= seq![
        ("system"@, system_prompt),
        ("user"@, user_message),
    ]);
}

/// Whether an event's data is the `[DONE]` marker.
pub fn is_done_marker(data: &str) -> (r: bool)
    ensures
        r == (data@ == DONE_MARKER@),
{
    same_text(data, DONE_MARKER)
}

/// The first choice of a streamed chunk.
pub struct ChunkChoice {
    /// The content fragment, if any.
    pub content: Option<String>,
    /// Why generation finished, if it did.
    pub finish_reason: Option<String>,
}

/// One event of the reply stream, as the transport decoded it.
pub enum StreamEvent {
    /// The `[DONE]` marker.
    Done,
    /// A chunk, with its first choice if it has one.
    Chunk(Option<ChunkChoice>),
    /// Data that is not a valid chunk: the decoder's error and the data.
    Malformed { error: String, data: String },
    /// The event stream itself failed, with the transport's message.
    Broken(String),
}

/// What follows an event.
pub enum StreamStep {
    /// Read the next event.
    Continue,
    /// The reply is complete.
    Stop,
    /// The call fails with this error.
    Fail(LLMError),
}

/// The text a chunk adds to the reply.
pub open spec fn chunk_text(choice: Option<ChunkChoice>) -> Seq<char> {
    match choice {
        Some(c) => match c.content {
            Some(t) => t@,
            None => Seq::empty(),
        },
        None => Seq::empty(),
    }
}

/// Whether a chunk says that generation stopped.
pub open spec fn chunk_stops(choice: Option<ChunkChoice>) -> bool {
    match choice {
        Some(c) => match c.finish_reason {
            Some(r) => r@ == "stop"@,
            None => false,
        },
        None => false,
    }
}

/// A chunk ends the reply exactly when its finish reason is `stop`, whatever
/// content it carries (an empty opening fragment does not end it); it adds
/// exactly its content fragment to the reply.
pub proof fn law_only_stop_ends_the_reply(c: ChunkChoice)
    ensures
        chunk_stops(Some(c)) <==> (c.finish_reason matches Some(r) && r@ == seq!['s', 't', 'o', 'p']),
        !chunk_stops(None),
        forall|d: ChunkChoice| #[trigger]
            chunk_stops(Some(d)) && d.finish_reason == c.finish_reason ==> chunk_stops(Some(c)),
        c.content matches Some(t) ==> chunk_text(Some(c)) == t@,
        c.content is None ==> chunk_text(Some(c)) == Seq::<char>::empty(),
        chunk_text(None) == Seq::<char>::empty(),
{
    reveal_strlit("stop");
    assert("stop"@ =~= seq!['s', 't', 'o', 'p']);
}

/// Collects the content fragments of a streamed reply.
pub struct ReplyCollector {
    text: String,
}

impl View for ReplyCollector {
    type V = Seq<char>;

    closed spec fn view(&self) -> Seq<char> {
        self.text@
    }
}

impl ReplyCollector {
    /// A collector that has seen nothing.
    pub fn new() -> (c: Self)
        ensures
            c@ == Seq::<char>::empty(),
    {
        ReplyCollector { text: String::new() }
    }

    /// Take in one event: a chunk's content is appended; `[DONE]` or a
    /// `stop` finish reason end the reply; bad data or a broken stream fail
    /// the call.
    pub fn on_event(&mut self, event: StreamEvent) -> (step: StreamStep)
        ensures
            match event {
                StreamEvent::Done => step is Stop && final(self)@ == old(self)@,
                StreamEvent::Chunk(choice) => final(self)@ == old(self)@ + chunk_text(choice) && (if chunk_stops(choice) {
                    step is Stop
                } else {
                    step is Continue
                }),
                StreamEvent::Malformed { error, data } => final(self)@ == old(self)@ && (step matches StreamStep::Fail(
                    LLMError::SSEError(m),
                ) && m@ == "JSON parse failed: "@ + error@ + " | data: "@ + data@),
                StreamEvent::Broken(msg) => final(self)@ == old(self)@ && (step matches StreamStep::Fail(
                    LLMError::SSEError(m),
                ) && m == msg),
            },
    {
        match event {
            StreamEvent::Done => StreamStep::Stop,
            StreamEvent::Chunk(None) => StreamStep::Continue,
            StreamEvent::Chunk(Some(choice)) => {
                match &choice.content {
                    Some(t) => {
                        self.text = joined(self.text.as_str(), t.as_str());
                    },
                    None => {},
                }
                let stops = match &choice.finish_reason {
                    Some(r) => same_text(r.as_str(), "stop"),
                    None => false,
                };
                if stops {
                    StreamStep::Stop
                } else {
                    StreamStep::Continue
                }
            },
            StreamEvent::Malformed { error, data } => StreamStep::Fail(
                malformed_chunk(error.as_str(), data.as_str()),
            ),
            StreamEvent::Broken(m) => StreamStep::Fail(LLMError::SSEError(m)),
        }
    }

    /// The complete reply, or `EmptyResponse` when it is blank.
    pub fn finish(self) -> (r: Result<String, LLMError>)
        ensures
            match r {
                Ok(t) => t@ == self@ && !is_blank_text(self@),
                Err(e) => e == LLMError::EmptyResponse && is_blank_text(self@),
            },
    {
        if is_blank(self.text.as_str()) {
            Err(LLMError::EmptyResponse)
        } else {
            Ok(self.text)
        }
    }
}

} // verus!
