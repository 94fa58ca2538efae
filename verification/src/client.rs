//! The decisions of a chat request to a local Ollama instance: what is sent,
//! which events report a failure, and which events each streamed chunk
//! becomes. The transport (HTTP, awaiting the body, cancellation) is left to
//! the caller, which hands the results back to these functions.

use vstd::prelude::*;

use crate::config::{
    endpoint_url, spec_extract_model_name, OllamaConfig, CHAT_COMPLETIONS_PATH, OLLAMA_MODEL_PREFIX,
};
use crate::stream::{
    chunk_contents, create_stream_finished_event, create_stream_init_event, delta_content,
    events_view, finished_event, init_event, is_v4_uuid_text, text_chunk_event, ActionView,
    MessageView, AGENT_OUTPUT_TEXT_PATH, ChunkChoice, ChunkDelta,
    text_chunk_to_response_event, ChatCompletionChunk, EventView, ResponseEvent,
    StreamContext,
};
use crate::sse::{sse_step, strings_view, utf8_lossy, SseDecoder};
use crate::text::{chars_of, concat_chars, has_prefix, string_of};

verus! {

/// The instructions sent ahead of the user's messages.
pub const SYSTEM_PROMPT: &'static str = "You are a helpful AI assistant integrated into the Warp terminal. Help the user with coding tasks, command-line operations, and technical questions. When suggesting shell commands, format them as code blocks. Be concise and practical.";

/// Text of the error reported when Ollama cannot be reached, before the URL.
pub const CONNECT_ERROR_HEAD: &'static str = "Error: Could not connect to Ollama at ";

/// Text of the error reported when Ollama cannot be reached, between the URL
/// and the details of the failure.
pub const CONNECT_ERROR_TAIL: &'static str = ". Make sure Ollama is running (`ollama serve`).\n\nDetails: ";

/// Text of the error reported when Ollama answers with an error status,
/// before the status.
pub const STATUS_ERROR_HEAD: &'static str = "Error: Ollama returned status ";

/// Text of the error reported when Ollama answers with an error status,
/// between the status and the body of the answer.
pub const STATUS_ERROR_TAIL: &'static str = ".\n\nDetails: ";

// ---------------------------------------------------------------------------
// The agent request, as far as it is read here
// ---------------------------------------------------------------------------

/// One input of the user.
#[derive(Debug)]
pub enum UserInput {
    /// A query typed by the user.
    UserQuery { query: String },
    /// A query relayed by a command-line agent, which may carry no query.
    CliAgentUserQuery { user_query: Option<String> },
    /// Any other kind of input, or an input without content.
    Other,
}

/// What a multi-agent request holds that the local client reads.
#[derive(Debug)]
pub struct AgentRequest {
    /// The identifiers of the tasks of the request's task context, when it has one.
    pub task_ids: Option<Vec<String>>,
    /// The user inputs of the request, when its input is made of user inputs.
    pub inputs: Option<Vec<UserInput>>,
    /// The base model identifier of the request's settings, when it has one.
    pub model_base: Option<String>,
}

/// The author of a chat message.
#[derive(Clone, Copy, Debug, PartialEq, Eq)]
pub enum ChatRole {
    System,
    User,
}

impl ChatRole {
    /// The role's name in the chat completions format.
    pub fn as_str(&self) -> (name: &'static str)
        ensures
            name@ == role_name(*self),
    {
        match self {
            ChatRole::System => "system",
            ChatRole::User => "user",
        }
    }
}

/// The name of `role` in the chat completions format.
pub open spec fn role_name(role: ChatRole) -> Seq<char> {
    match role {
        ChatRole::System => "system"@,
        ChatRole::User => "user"@,
    }
}

/// A message of an OpenAI-compatible chat completions request.
#[derive(Debug)]
pub struct ChatMessage {
    pub role: ChatRole,
    pub content: String,
}

/// A chat message, by its role and the view of its content.
pub struct ChatMessageView {
    pub role: ChatRole,
    pub content: Seq<char>,
}

impl View for ChatMessage {
    type V = ChatMessageView;

    open spec fn view(&self) -> ChatMessageView {
        ChatMessageView { role: self.role, content: self.content@ }
    }
}

/// An OpenAI-compatible chat completions request.
#[derive(Debug)]
pub struct ChatRequest {
    pub model: String,
    pub messages: Vec<ChatMessage>,
    pub stream: bool,
}

/// A request ready to be sent: where to, what, and the context of its answer.
pub struct PreparedChat {
    pub url: String,
    pub body: ChatRequest,
    pub context: StreamContext,
}

/// The client that talks to a local Ollama instance.
pub struct OllamaClient;

// ---------------------------------------------------------------------------
// Specification of the request
// ---------------------------------------------------------------------------

/// The task the answer belongs to: the last task of the task context, or
/// the empty identifier when there is none.
pub open spec fn request_task_id(r: AgentRequest) -> Seq<char> {
    match r.task_ids {
        Some(ids) => if ids@.len() > 0 {
            ids@.last()@
        } else {
            Seq::empty()
        },
        None => Seq::empty(),
    }
}

/// The query that a user input carries, if any.
pub open spec fn input_query(input: UserInput) -> Option<Seq<char>> {
    match input {
        UserInput::UserQuery { query } => Some(query@),
        UserInput::CliAgentUserQuery { user_query } => match user_query {
            Some(q) => Some(q@),
            None => None,
        },
        UserInput::Other => None,
    }
}

/// The queries of `inputs`, in order.
pub open spec fn queries_of(inputs: Seq<UserInput>) -> Seq<Seq<char>>
    decreases inputs.len(),
{
    if inputs.len() == 0 {
        Seq::empty()
    } else {
        let earlier = queries_of(inputs.drop_last());
        match input_query(inputs.last()) {
            Some(q) => earlier.push(q),
            None => earlier,
        }
    }
}

/// The queries of the request.
pub open spec fn request_queries(r: AgentRequest) -> Seq<Seq<char>> {
    match r.inputs {
        Some(inputs) => queries_of(inputs@),
        None => Seq::empty(),
    }
}

/// A user message with `content`.
pub open spec fn user_message(content: Seq<char>) -> ChatMessageView {
    ChatMessageView { role: ChatRole::User, content }
}

/// The messages sent for a request: the system prompt, then one user message
/// per query, in order.
pub open spec fn request_messages(r: AgentRequest) -> Seq<ChatMessageView> {
    seq![ChatMessageView { role: ChatRole::System, content: SYSTEM_PROMPT@ }]
        + request_queries(r).map_values(|q: Seq<char>| user_message(q))
}

/// The model named by the request's settings: a non-empty Ollama model identifier
/// stripped of its prefix.
pub open spec fn request_model_name(r: AgentRequest) -> Option<Seq<char>> {
    match r.model_base {
        Some(base) => if base@.len() == 0 {
            None
        } else {
            spec_extract_model_name(base@)
        },
        None => None,
    }
}

/// The model a request is answered by: the one its settings name, else the
/// configured one.
pub open spec fn chosen_model(config: OllamaConfig, r: AgentRequest) -> Seq<char> {
    match request_model_name(r) {
        Some(m) => m,
        None => config.model@,
    }
}

/// The views of a sequence of chat messages.
pub open spec fn messages_view(v: Seq<ChatMessage>) -> Seq<ChatMessageView> {
    v.map_values(|m: ChatMessage| m@)
}

// ---------------------------------------------------------------------------
// Specification of the answer
// ---------------------------------------------------------------------------

/// The error text reported when Ollama at `url` cannot be reached.
pub open spec fn connect_error_text(url: Seq<char>, details: Seq<char>) -> Seq<char> {
    CONNECT_ERROR_HEAD@ + url + CONNECT_ERROR_TAIL@ + details
}

/// The error text reported when Ollama answers with an error `status`.
pub open spec fn status_error_text(status: Seq<char>, body: Seq<char>) -> Seq<char> {
    STATUS_ERROR_HEAD@ + status + STATUS_ERROR_TAIL@ + body
}

/// The whole answer that reports the error `text`: the stream opens, the
/// text is the first and only chunk, and the stream closes.
pub open spec fn error_answer(request_id: Seq<char>, message_id: Seq<char>, task_id: Seq<char>, text: Seq<char>) -> Seq<EventView> {
    seq![init_event(request_id), text_chunk_event(text, message_id, task_id, true), finished_event()]
}

/// The events that a run of choice contents becomes, and whether the next
/// text is still the first of the answer. Each non-empty content becomes one
/// text chunk event; absent and empty contents become nothing.
pub open spec fn content_events(
    contents: Seq<Option<Seq<char>>>,
    message_id: Seq<char>,
    task_id: Seq<char>,
    is_first: bool,
) -> (Seq<EventView>, bool)
    decreases contents.len(),
{
    if contents.len() == 0 {
        (Seq::empty(), is_first)
    } else {
        let (earlier, first) = content_events(contents.drop_last(), message_id, task_id, is_first);
        match contents.last() {
            Some(t) => if t.len() > 0 {
                (earlier.push(text_chunk_event(t, message_id, task_id, first)), false)
            } else {
                (earlier, first)
            },
            None => (earlier, first),
        }
    }
}

/// The non-empty texts of a run of choice contents, in order.
pub open spec fn nonempty_texts(contents: Seq<Option<Seq<char>>>) -> Seq<Seq<char>>
    decreases contents.len(),
{
    if contents.len() == 0 {
        Seq::empty()
    } else {
        let earlier = nonempty_texts(contents.drop_last());
        match contents.last() {
            Some(t) => if t.len() > 0 {
                earlier.push(t)
            } else {
                earlier
            },
            None => earlier,
        }
    }
}

// ---------------------------------------------------------------------------
// Building the request
// ---------------------------------------------------------------------------

/// Extracts the identifier of the task the answer belongs to.
pub fn extract_task_id(request: &AgentRequest) -> (id: String)
    ensures
        id@ == request_task_id(*request),
{
    match &request.task_ids {
        Some(ids) => if ids.len() > 0 {
            ids[ids.len() - 1].clone()
        } else {
            String::new()
        },
        None => String::new(),
    }
}

/// Extracts the chat messages of a request: the system prompt, then one user
/// message per user query, in order.
pub fn extract_messages_from_request(request: &AgentRequest) -> (messages: Vec<ChatMessage>)
    ensures
        messages_view(messages@) == request_messages(*request),
{
    let mut messages: Vec<ChatMessage> = Vec::new();
    messages.push(ChatMessage { role: ChatRole::System, content: SYSTEM_PROMPT.to_owned() });
    let ghost head = seq![ChatMessageView { role: ChatRole::System, content: SYSTEM_PROMPT@ }];
    assert(messages_view(messages@) =~= head);
    match &request.inputs {
        Some(inputs) => {
            let mut i: usize = 0;
            assert(inputs@.take(0) =~= Seq::<UserInput>::empty());
            while i < inputs.len()
                invariant
                    i <= inputs.len(),
                    messages_view(messages@) == head + queries_of(inputs@.take(i as int)).map_values(
                        |q: Seq<char>| user_message(q),
                    ),
                decreases inputs.len() - i,
            {
                let ghost before = messages_view(messages@);
                assert(inputs@.take(i + 1).drop_last() =~= inputs@.take(i as int));
                assert(inputs@.take(i + 1).last() == inputs@[i as int]);
                let query: Option<&String> = match &inputs[i] {
                    UserInput::UserQuery { query } => Some(query),
                    UserInput::CliAgentUserQuery { user_query } => match user_query {
                        Some(q) => Some(q),
                        None => None,
                    },
                    UserInput::Other => None,
                };
                match query {
                    Some(q) => {
                        messages.push(ChatMessage { role: ChatRole::User, content: q.clone() });
                        assert(messages_view(messages@) =~= before.push(user_message(q@)));
                        assert(queries_of(inputs@.take(i + 1)) == queries_of(
                            inputs@.take(i as int),
                        ).push(q@));
                        assert(queries_of(inputs@.take(i + 1)).map_values(
                            |q: Seq<char>| user_message(q),
                        ) =~= queries_of(inputs@.take(i as int)).map_values(
                            |q: Seq<char>| user_message(q),
                        ).push(user_message(q@)));
                    },
                    None => {},
                }
                i = i + 1;
            }
            assert(inputs@.take(inputs.len() as int) =~= inputs@);
        },
        None => {
            assert(Seq::<Seq<char>>::empty().map_values(|q: Seq<char>| user_message(q))
                =~= Seq::<ChatMessageView>::empty());
            assert(head + Seq::<ChatMessageView>::empty() =~= head);
        },
    }
    messages
}

/// Extracts the model name from the request settings, stripping the Ollama
/// model prefix.
pub fn extract_model_name(request: &AgentRequest) -> (name: Option<String>)
    ensures
        match name {
            Some(n) => request_model_name(*request) == Some(n@),
            None => request_model_name(*request) is None,
        },
{
    match &request.model_base {
        Some(base) => {
            if base.as_str().is_empty() {
                None
            } else {
                match OllamaConfig::extract_model_name(base.as_str()) {
                    Some(n) => Some(n.to_owned()),
                    None => None,
                }
            }
        },
        None => None,
    }
}

/// The error text reported when Ollama at `url` cannot be reached.
fn connect_error_message(url: &str, details: &str) -> (text: String)
    ensures
        text@ == connect_error_text(url@, details@),
{
    let a = concat_chars(&chars_of(CONNECT_ERROR_HEAD), &chars_of(url));
    let b = concat_chars(&a, &chars_of(CONNECT_ERROR_TAIL));
    let c = concat_chars(&b, &chars_of(details));
    string_of(c.as_slice())
}

/// The error text reported when Ollama answers with an error `status`.
fn status_error_message(status: &str, body: &str) -> (text: String)
    ensures
        text@ == status_error_text(status@, body@),
{
    let a = concat_chars(&chars_of(STATUS_ERROR_HEAD), &chars_of(status));
    let b = concat_chars(&a, &chars_of(STATUS_ERROR_TAIL));
    let c = concat_chars(&b, &chars_of(body));
    string_of(c.as_slice())
}

/// The whole answer that reports the error `text`.
fn error_events(ctx: &StreamContext, text: &str) -> (events: Vec<ResponseEvent>)
    ensures
        events_view(events@) == error_answer(ctx.request_id@, ctx.message_id@, ctx.task_id@, text@),
{
    let mut events: Vec<ResponseEvent> = Vec::new();
    events.push(create_stream_init_event(ctx.request_id.as_str()));
    events.push(
        text_chunk_to_response_event(text, ctx.message_id.as_str(), ctx.task_id.as_str(), true),
    );
    events.push(create_stream_finished_event(ctx.request_id.as_str()));
    assert(events_view(events@) =~= error_answer(
        ctx.request_id@,
        ctx.message_id@,
        ctx.task_id@,
        text@,
    ));
    events
}

impl OllamaClient {
    /// Prepares the chat request for `request`: the chat completions URL of
    /// `config`, a streamed request for the chosen model with the request's
    /// messages, and a fresh context for the answer's events.
    pub fn prepare(config: &OllamaConfig, request: &AgentRequest) -> (prepared: PreparedChat)
        ensures
            prepared.url@ == endpoint_url(config.base_url@, CHAT_COMPLETIONS_PATH@),
            prepared.body.model@ == chosen_model(*config, *request),
            messages_view(prepared.body.messages@) == request_messages(*request),
            prepared.body.stream,
            prepared.context.task_id@ == request_task_id(*request),
            is_v4_uuid_text(prepared.context.request_id@),
            is_v4_uuid_text(prepared.context.message_id@),
    {
        let task_id = extract_task_id(request);
        let context = StreamContext::new(task_id);
        let messages = extract_messages_from_request(request);
        let model = match extract_model_name(request) {
            Some(m) => m,
            None => config.model.clone(),
        };
        let url = config.chat_completions_url();
        PreparedChat { url, body: ChatRequest { model, messages, stream: true }, context }
    }

    /// The answer given when Ollama at `url` cannot be reached: the stream
    /// opens, reports the failure as its only text, and closes.
    pub fn connection_failed(ctx: &StreamContext, url: &str, details: &str) -> (events: Vec<ResponseEvent>)
        ensures
            events_view(events@) == error_answer(
                ctx.request_id@,
                ctx.message_id@,
                ctx.task_id@,
                connect_error_text(url@, details@),
            ),
    {
        let text = connect_error_message(url, details);
        error_events(ctx, text.as_str())
    }

    /// The answer given when Ollama answers with an error `status`: the stream
    /// opens, reports the status and the body of the answer as its only text,
    /// and closes.
    pub fn status_failed(ctx: &StreamContext, status: &str, body: &str) -> (events: Vec<ResponseEvent>)
        ensures
            events_view(events@) == error_answer(
                ctx.request_id@,
                ctx.message_id@,
                ctx.task_id@,
                status_error_text(status@, body@),
            ),
    {
        let text = status_error_message(status, body);
        error_events(ctx, text.as_str())
    }
}

// ---------------------------------------------------------------------------
// Turning streamed chunks into events
// ---------------------------------------------------------------------------

/// Turns the parsed chunks of a streamed answer into text chunk events,
/// remembering whether the answer's first text is still to come.
pub struct ChunkEmitter {
    pub message_id: String,
    pub task_id: String,
    /// Whether no text of the answer has been emitted yet.
    pub is_first_chunk: bool,
}

impl ChunkEmitter {
    /// An emitter for the answer described by `ctx`, before any text.
    pub fn new(ctx: &StreamContext) -> (e: Self)
        ensures
            e.message_id@ == ctx.message_id@,
            e.task_id@ == ctx.task_id@,
            e.is_first_chunk,
    {
        ChunkEmitter {
            message_id: ctx.message_id.clone(),
            task_id: ctx.task_id.clone(),
            is_first_chunk: true,
        }
    }

    /// The events of one parsed chunk: one text chunk event per choice whose
    /// content is present and non-empty, in order.
    pub fn chunk_events(&mut self, chunk: &ChatCompletionChunk) -> (events: Vec<ResponseEvent>)
        ensures
            final(self).message_id == old(self).message_id,
            final(self).task_id == old(self).task_id,
            events_view(events@) == content_events(
                chunk_contents(*chunk),
                old(self).message_id@,
                old(self).task_id@,
                old(self).is_first_chunk,
            ).0,
            final(self).is_first_chunk == content_events(
                chunk_contents(*chunk),
                old(self).message_id@,
                old(self).task_id@,
                old(self).is_first_chunk,
            ).1,
    {
        let ghost contents = chunk_contents(*chunk);
        let ghost mid = self.message_id@;
        let ghost tid = self.task_id@;
        let ghost first0 = self.is_first_chunk;
        let mut events: Vec<ResponseEvent> = Vec::new();
        let mut i: usize = 0;
        assert(contents.take(0) =~= Seq::<Option<Seq<char>>>::empty());
        while i < chunk.choices.len()
            invariant
                i <= chunk.choices.len(),
                contents == chunk_contents(*chunk),
                contents.len() == chunk.choices.len(),
                self.message_id == old(self).message_id,
                self.task_id == old(self).task_id,
                mid == self.message_id@,
                tid == self.task_id@,
                events_view(events@) == content_events(contents.take(i as int), mid, tid, first0).0,
                self.is_first_chunk == content_events(contents.take(i as int), mid, tid, first0).1,
            decreases chunk.choices.len() - i,
        {
            let ghost before = events_view(events@);
            assert(contents.take(i + 1).drop_last() =~= contents.take(i as int));
            assert(contents.take(i + 1).last() == contents[i as int]);
            assert(contents[i as int] == delta_content(chunk.choices@[i as int].delta));
            match &chunk.choices[i].delta.content {
                Some(content) => {
                    if !content.as_str().is_empty() {
                        let ev = text_chunk_to_response_event(
                            content.as_str(),
                            self.message_id.as_str(),
                            self.task_id.as_str(),
                            self.is_first_chunk,
                        );
                        events.push(ev);
                        assert(events_view(events@) =~= before.push(ev@));
                        self.is_first_chunk = false;
                    }
                },
                None => {},
            }
            i = i + 1;
        }
        assert(contents.take(chunk.choices.len() as int) =~= contents);
        events
    }
}

// ---------------------------------------------------------------------------
// The whole answer
// ---------------------------------------------------------------------------

/// The whole answer to a request that Ollama accepted, given the contents of
/// the choices of all its parsed chunks in order: the stream opens, each
/// non-empty content becomes a text chunk event (only the first of them marked
/// first), and the stream closes.
pub open spec fn answer_events(
    request_id: Seq<char>,
    message_id: Seq<char>,
    task_id: Seq<char>,
    contents: Seq<Option<Seq<char>>>,
) -> Seq<EventView> {
    seq![init_event(request_id)] + content_events(contents, message_id, task_id, true).0 + seq![
        finished_event(),
    ]
}

/// The answer to a request that Ollama accepted, step by step: it is opened,
/// reads the body's bytes into data payloads, turns each parsed payload into
/// events, and is closed.
pub struct AnswerStream {
    request_id: String,
    decoder: SseDecoder,
    emitter: ChunkEmitter,
    received: Ghost<Seq<Option<Seq<char>>>>,
}

impl AnswerStream {
    /// The first-text flag agrees with the contents received so far.
    pub closed spec fn wf(&self) -> bool {
        self.emitter.is_first_chunk == content_events(
            self.received@,
            self.emitter.message_id@,
            self.emitter.task_id@,
            true,
        ).1
    }

    /// The identifier of the answer's request.
    pub closed spec fn request_id(&self) -> Seq<char> {
        self.request_id@
    }

    /// The identifier of the answer's agent message.
    pub closed spec fn message_id(&self) -> Seq<char> {
        self.emitter.message_id@
    }

    /// The task the answer belongs to.
    pub closed spec fn task_id(&self) -> Seq<char> {
        self.emitter.task_id@
    }

    /// The contents of the choices of the chunks received so far, in order.
    pub closed spec fn received(&self) -> Seq<Option<Seq<char>>> {
        self.received@
    }

    /// The body text received after the last complete line.
    pub closed spec fn pending(&self) -> Seq<char> {
        self.decoder@
    }

    /// The events given out so far: the opening event, then the events of the
    /// contents received.
    pub open spec fn emitted(&self) -> Seq<EventView> {
        seq![init_event(self.request_id())] + content_events(
            self.received(),
            self.message_id(),
            self.task_id(),
            true,
        ).0
    }

    /// Opens the answer described by `ctx`, and gives its opening event.
    pub fn open(ctx: &StreamContext) -> (r: (Self, ResponseEvent))
        ensures
            r.0.wf(),
            r.0.request_id() == ctx.request_id@,
            r.0.message_id() == ctx.message_id@,
            r.0.task_id() == ctx.task_id@,
            r.0.received() == Seq::<Option<Seq<char>>>::empty(),
            r.0.pending() == Seq::<char>::empty(),
            r.1@ == init_event(ctx.request_id@),
            r.0.emitted() == seq![r.1@],
    {
        let s = AnswerStream {
            request_id: ctx.request_id.clone(),
            decoder: SseDecoder::new(),
            emitter: ChunkEmitter::new(ctx),
            received: Ghost(Seq::empty()),
        };
        let init = create_stream_init_event(ctx.request_id.as_str());
        assert(seq![init_event(ctx.request_id@)] + Seq::<EventView>::empty() =~= seq![init@]);
        (s, init)
    }

    /// Reads a chunk of the body's bytes: returns the data payloads of the
    /// lines it completes, in order, and keeps the unfinished rest pending.
    pub fn on_bytes(&mut self, bytes: &[u8]) -> (payloads: Vec<String>)
        requires
            old(self).wf(),
        ensures
            final(self).wf(),
            final(self).request_id() == old(self).request_id(),
            final(self).message_id() == old(self).message_id(),
            final(self).task_id() == old(self).task_id(),
            final(self).received() == old(self).received(),
            strings_view(payloads@) == sse_step(old(self).pending(), utf8_lossy(bytes@)).0,
            final(self).pending() == sse_step(old(self).pending(), utf8_lossy(bytes@)).1,
    {
        self.decoder.push_bytes(bytes)
    }

    /// Turns one parsed payload into events: one text chunk event per choice
    /// whose content is present and non-empty, in order, the first text of the
    /// whole answer marked first.
    pub fn on_chunk(&mut self, chunk: &ChatCompletionChunk) -> (events: Vec<ResponseEvent>)
        requires
            old(self).wf(),
        ensures
            final(self).wf(),
            final(self).request_id() == old(self).request_id(),
            final(self).message_id() == old(self).message_id(),
            final(self).task_id() == old(self).task_id(),
            final(self).pending() == old(self).pending(),
            final(self).received() == old(self).received() + chunk_contents(*chunk),
            final(self).emitted() == old(self).emitted() + events_view(events@),
    {
        let ghost before = self.received@;
        let ghost mid = self.emitter.message_id@;
        let ghost tid = self.emitter.task_id@;
        let events = self.emitter.chunk_events(chunk);
        proof {
            let contents = chunk_contents(*chunk);
            law_content_events_compose(before, contents, mid, tid, true);
            self.received = Ghost(before + contents);
            let e0 = content_events(before, mid, tid, true).0;
            let e1 = content_events(contents, mid, tid, content_events(before, mid, tid, true).1).0;
            assert(seq![init_event(self.request_id@)] + (e0 + e1) =~= (seq![
                init_event(self.request_id@),
            ] + e0) + e1);
        }
        events
    }

    /// Closes the answer, and gives its closing event: the events given out,
    /// followed by it, are the whole answer to the contents received.
    pub fn close(self) -> (event: ResponseEvent)
        requires
            self.wf(),
        ensures
            event@ == finished_event(),
            self.emitted().push(event@) == answer_events(
                self.request_id(),
                self.message_id(),
                self.task_id(),
                self.received(),
            ),
    {
        let event = create_stream_finished_event(self.request_id.as_str());
        assert(self.emitted().push(event@) =~= answer_events(
            self.request_id(),
            self.message_id(),
            self.task_id(),
            self.received(),
        ));
        event
    }
}

// ---------------------------------------------------------------------------
// Laws
// ---------------------------------------------------------------------------

/// Turning two runs of contents into events one after the other, carrying
/// whether the first text is still to come, gives the events of the two runs
/// taken together.
pub proof fn law_content_events_compose(
    a: Seq<Option<Seq<char>>>,
    b: Seq<Option<Seq<char>>>,
    message_id: Seq<char>,
    task_id: Seq<char>,
    is_first: bool,
)
    ensures
        ({
            let (ea, fa) = content_events(a, message_id, task_id, is_first);
            let (eb, fb) = content_events(b, message_id, task_id, fa);
            content_events(a + b, message_id, task_id, is_first) == (ea + eb, fb)
        }),
    decreases b.len(),
{
    let (ea, fa) = content_events(a, message_id, task_id, is_first);
    if b.len() == 0 {
        assert(a + b =~= a);
        assert(ea + Seq::<EventView>::empty() =~= ea);
    } else {
        law_content_events_compose(a, b.drop_last(), message_id, task_id, is_first);
        assert((a + b).drop_last() =~= a + b.drop_last());
        assert((a + b).last() == b.last());
        let (eb0, fb0) = content_events(b.drop_last(), message_id, task_id, fa);
        match b.last() {
            Some(t) => if t.len() > 0 {
                let ev = text_chunk_event(t, message_id, task_id, fb0);
                assert((ea + eb0).push(ev) =~= ea + eb0.push(ev));
            },
            None => {},
        }
    }
}

/// Only the first text of an answer opens the agent message: the events of a
/// run of contents are one text chunk event per non-empty content, in order,
/// of which only the very first of the answer is marked first; and the first
/// text is still to come afterwards exactly when it was before and no
/// non-empty content came.
pub proof fn law_only_first_text_opens_message(
    contents: Seq<Option<Seq<char>>>,
    message_id: Seq<char>,
    task_id: Seq<char>,
    is_first: bool,
)
    ensures
        ({
            let (events, first_after) = content_events(contents, message_id, task_id, is_first);
            let texts = nonempty_texts(contents);
            &&& events.len() == texts.len()
            &&& forall|i: int|
                0 <= i < texts.len() ==> #[trigger] events[i] == text_chunk_event(
                    texts[i],
                    message_id,
                    task_id,
                    is_first && i == 0,
                )
            &&& first_after == (is_first && texts.len() == 0)
        }),
    decreases contents.len(),
{
    if contents.len() > 0 {
        law_only_first_text_opens_message(contents.drop_last(), message_id, task_id, is_first);
    }
}

/// The whole answer opens the stream, then gives one text chunk event per
/// non-empty content in order, only the first of them marked first, and then
/// closes the stream.
pub proof fn law_answer_shape(
    request_id: Seq<char>,
    message_id: Seq<char>,
    task_id: Seq<char>,
    contents: Seq<Option<Seq<char>>>,
)
    ensures
        ({
            let answer = answer_events(request_id, message_id, task_id, contents);
            let texts = nonempty_texts(contents);
            &&& answer.len() == texts.len() + 2
            &&& answer[0] == init_event(request_id)
            &&& answer.last() == finished_event()
            &&& forall|i: int|
                0 <= i < texts.len() ==> #[trigger] answer[i + 1] == text_chunk_event(
                    texts[i],
                    message_id,
                    task_id,
                    i == 0,
                )
        }),
{
    law_only_first_text_opens_message(contents, message_id, task_id, true);
    let answer = answer_events(request_id, message_id, task_id, contents);
    let events = content_events(contents, message_id, task_id, true).0;
    assert forall|i: int| 0 <= i < events.len() implies #[trigger] answer[i + 1] == events[i] by {}
}

/// A single content becomes one text chunk event carrying it unchanged
/// exactly when it is present and not empty (white space counts as content),
/// and that event is marked first exactly when the answer's first text was
/// still to come; anything else becomes no event and keeps the flag.
pub proof fn law_one_content(text: Seq<char>, message_id: Seq<char>, task_id: Seq<char>, is_first: bool)
    ensures
        text.len() > 0 ==> content_events(seq![Some(text)], message_id, task_id, is_first) == (
            seq![text_chunk_event(text, message_id, task_id, is_first)],
            false,
        ),
        text.len() == 0 ==> content_events(seq![Some(text)], message_id, task_id, is_first) == (
            Seq::<EventView>::empty(),
            is_first,
        ),
        content_events(seq![None], message_id, task_id, is_first) == (
            Seq::<EventView>::empty(),
            is_first,
        ),
        text.len() > 0 ==> nonempty_texts(seq![Some(text)]) == seq![text],
        text.len() == 0 ==> nonempty_texts(seq![Some(text)]) == Seq::<Seq<char>>::empty(),
        nonempty_texts(seq![None]) == Seq::<Seq<char>>::empty(),
{
    let e = Seq::<Option<Seq<char>>>::empty();
    let one = seq![Some(text)];
    let none = seq![None::<Seq<char>>];
    assert(content_events(e, message_id, task_id, is_first) == (Seq::<EventView>::empty(), is_first));
    assert(nonempty_texts(e) == Seq::<Seq<char>>::empty());
    assert(one.drop_last() =~= e);
    assert(none.drop_last() =~= e);
    assert(one.last() == Some(text));
    assert(none.last() == None::<Seq<char>>);
    assert(Seq::<EventView>::empty().push(text_chunk_event(text, message_id, task_id, is_first))
        =~= seq![text_chunk_event(text, message_id, task_id, is_first)]);
    assert(Seq::<Seq<char>>::empty().push(text) =~= seq![text]);
}

/// The non-empty texts of two runs of contents are those of the first run,
/// then those of the second.
pub proof fn law_nonempty_texts_compose(a: Seq<Option<Seq<char>>>, b: Seq<Option<Seq<char>>>)
    ensures
        nonempty_texts(a + b) == nonempty_texts(a) + nonempty_texts(b),
    decreases b.len(),
{
    if b.len() == 0 {
        assert(a + b =~= a);
        assert(nonempty_texts(a) + Seq::<Seq<char>>::empty() =~= nonempty_texts(a));
    } else {
        law_nonempty_texts_compose(a, b.drop_last());
        assert((a + b).drop_last() =~= a + b.drop_last());
        assert((a + b).last() == b.last());
        match b.last() {
            Some(t) => if t.len() > 0 {
                assert((nonempty_texts(a) + nonempty_texts(b.drop_last())).push(t) =~= nonempty_texts(
                    a,
                ) + nonempty_texts(b.drop_last()).push(t));
            },
            None => {},
        }
    }
}

/// The contents of a chunk are those of its choices, one per choice, in order,
/// each the delta's text as it came.
pub proof fn law_chunk_contents(chunk: ChatCompletionChunk)
    ensures
        chunk_contents(chunk).len() == chunk.choices@.len(),
        forall|i: int|
            0 <= i < chunk.choices@.len() ==> #[trigger] chunk_contents(chunk)[i] == match chunk.choices@[i].delta.content {
                Some(s) => Some(s@),
                None => None,
            },
{
}

/// The queries of two runs of inputs are those of the first run, then those of
/// the second.
pub proof fn law_queries_compose(a: Seq<UserInput>, b: Seq<UserInput>)
    ensures
        queries_of(a + b) == queries_of(a) + queries_of(b),
    decreases b.len(),
{
    if b.len() == 0 {
        assert(a + b =~= a);
        assert(queries_of(a) + Seq::<Seq<char>>::empty() =~= queries_of(a));
    } else {
        law_queries_compose(a, b.drop_last());
        assert((a + b).drop_last() =~= a + b.drop_last());
        assert((a + b).last() == b.last());
        match input_query(b.last()) {
            Some(q) => {
                assert((queries_of(a) + queries_of(b.drop_last())).push(q) =~= queries_of(a)
                    + queries_of(b.drop_last()).push(q));
            },
            None => {},
        }
    }
}

/// A typed query is sent as it is, all of it; a relayed query is sent as it is
/// when there is one; any other input sends nothing.
pub proof fn law_one_input(query: String, user_query: Option<String>)
    ensures
        queries_of(seq![UserInput::UserQuery { query }]) == seq![query@],
        queries_of(seq![UserInput::CliAgentUserQuery { user_query }]) == match user_query {
            Some(q) => seq![q@],
            None => Seq::<Seq<char>>::empty(),
        },
        queries_of(seq![UserInput::Other]) == Seq::<Seq<char>>::empty(),
{
    let e = Seq::<UserInput>::empty();
    assert(queries_of(e) == Seq::<Seq<char>>::empty());
    let a = seq![UserInput::UserQuery { query }];
    let b = seq![UserInput::CliAgentUserQuery { user_query }];
    let c = seq![UserInput::Other];
    assert(a.drop_last() =~= e);
    assert(b.drop_last() =~= e);
    assert(c.drop_last() =~= e);
    assert(a.last() == UserInput::UserQuery { query });
    assert(b.last() == UserInput::CliAgentUserQuery { user_query });
    assert(c.last() == UserInput::Other);
    assert(Seq::<Seq<char>>::empty().push(query@) =~= seq![query@]);
    match user_query {
        Some(q) => {
            assert(Seq::<Seq<char>>::empty().push(q@) =~= seq![q@]);
        },
        None => {},
    }
}

/// The messages of a request are the system prompt, then one user message per
/// query carrying the query unchanged, in order, and nothing else.
pub proof fn law_request_messages(r: AgentRequest)
    ensures
        request_messages(r).len() == 1 + request_queries(r).len(),
        request_messages(r)[0] == (ChatMessageView { role: ChatRole::System, content: SYSTEM_PROMPT@ }),
        forall|i: int|
            0 <= i < request_queries(r).len() ==> #[trigger] request_messages(r)[i + 1] == (
            ChatMessageView { role: ChatRole::User, content: request_queries(r)[i] }),
{
}

/// The model named by a request is its non-empty settings identifier with
/// exactly the Ollama prefix removed, all the rest kept (a tag after a further
/// `:` included); an identifier without the prefix, an empty one or none names
/// no model.
pub proof fn law_request_model_name(r: AgentRequest, base: String)
    requires
        r.model_base == Some(base),
    ensures
        base@.len() > 0 && has_prefix(base@, OLLAMA_MODEL_PREFIX@) ==> (request_model_name(r) matches Some(
            n,
        ) && OLLAMA_MODEL_PREFIX@ + n == base@),
        !has_prefix(base@, OLLAMA_MODEL_PREFIX@) ==> request_model_name(r) is None,
{
    if base@.len() > 0 && has_prefix(base@, OLLAMA_MODEL_PREFIX@) {
        let k = OLLAMA_MODEL_PREFIX@.len() as int;
        assert(base@.take(k) + base@.skip(k) =~= base@);
    }
}

/// A request whose settings name no model names no model.
pub proof fn law_request_without_model(r: AgentRequest)
    requires
        r.model_base is None,
    ensures
        request_model_name(r) is None,
{
}

/// The answer belongs to the last task of the request's task context, and to
/// the empty task when the context is missing or has no task.
pub proof fn law_request_task_id(r: AgentRequest, ids: Vec<String>)
    requires
        r.task_ids == Some(ids),
    ensures
        ids@.len() > 0 ==> request_task_id(r) == ids@[ids@.len() - 1]@,
        ids@.len() == 0 ==> request_task_id(r) == Seq::<char>::empty(),
{
}

/// The task of a request without a task context is the empty one.
pub proof fn law_request_task_id_without_context(r: AgentRequest)
    requires
        r.task_ids is None,
    ensures
        request_task_id(r) == Seq::<char>::empty(),
{
}

/// The error texts hold the URL (or the status) right after their opening
/// words, and end with the details of the failure, in full.
pub proof fn law_error_texts(url: Seq<char>, status: Seq<char>, details: Seq<char>)
    ensures
        ({
            let t = connect_error_text(url, details);
            let h = CONNECT_ERROR_HEAD@.len() as int;
            &&& t.len() == h + url.len() + CONNECT_ERROR_TAIL@.len() + details.len()
            &&& t.take(h) == CONNECT_ERROR_HEAD@
            &&& t.subrange(h, h + url.len()) == url
            &&& t.skip(t.len() - details.len()) == details
        }),
        ({
            let t = status_error_text(status, details);
            let h = STATUS_ERROR_HEAD@.len() as int;
            &&& t.len() == h + status.len() + STATUS_ERROR_TAIL@.len() + details.len()
            &&& t.take(h) == STATUS_ERROR_HEAD@
            &&& t.subrange(h, h + status.len()) == status
            &&& t.skip(t.len() - details.len()) == details
        }),
{
    let t = connect_error_text(url, details);
    let h = CONNECT_ERROR_HEAD@.len() as int;
    assert(t.take(h) =~= CONNECT_ERROR_HEAD@);
    assert(t.subrange(h, h + url.len()) =~= url);
    assert(t.skip(t.len() - details.len()) =~= details);
    let u = status_error_text(status, details);
    let k = STATUS_ERROR_HEAD@.len() as int;
    assert(u.take(k) =~= STATUS_ERROR_HEAD@);
    assert(u.subrange(k, k + status.len()) =~= status);
    assert(u.skip(u.len() - details.len()) =~= details);
}

} // verus!
