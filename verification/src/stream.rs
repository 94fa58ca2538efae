//! Response events of a streamed answer, and the chunks of an OpenAI-compatible
//! streaming response from which they are made.
//!
//! The event types hold, as plain values, what the conversation pipeline reads
//! of its protobuf `ResponseEvent` messages: a stream starts with an `Init`
//! event, carries the answer in `ClientActions` events and ends with a
//! `Finished` event.

use vstd::prelude::*;

verus! {

/// The field path that an appended text chunk updates.
pub const AGENT_OUTPUT_TEXT_PATH: &'static str = "message.agent_output.text";

// ---------------------------------------------------------------------------
// Streaming chunks of the chat completions endpoint
// ---------------------------------------------------------------------------

/// A single chunk from the OpenAI-compatible streaming response.
#[derive(Debug)]
pub struct ChatCompletionChunk {
    pub choices: Vec<ChunkChoice>,
}

/// One choice of a streaming chunk.
#[derive(Debug)]
pub struct ChunkChoice {
    pub delta: ChunkDelta,
}

/// The text that a choice adds to the answer, if any.
#[derive(Debug)]
pub struct ChunkDelta {
    pub content: Option<String>,
}

/// The content of each choice of `chunk`, in order.
pub open spec fn chunk_contents(chunk: ChatCompletionChunk) -> Seq<Option<Seq<char>>> {
    chunk.choices@.map_values(|c: ChunkChoice| delta_content(c.delta))
}

/// The content of a delta, by its view.
pub open spec fn delta_content(delta: ChunkDelta) -> Option<Seq<char>> {
    match delta.content {
        Some(s) => Some(s@),
        None => None,
    }
}

// ---------------------------------------------------------------------------
// Response events
// ---------------------------------------------------------------------------

/// Signals the start of a response.
#[derive(Debug)]
pub struct StreamInit {
    pub request_id: String,
}

/// Why a stream finished.
#[derive(Clone, Copy, Debug, PartialEq, Eq)]
pub enum FinishReason {
    Done,
}

/// Signals the end of a response.
#[derive(Debug)]
pub struct StreamFinished {
    pub reason: Option<FinishReason>,
}

/// Text written by the agent.
#[derive(Debug)]
pub struct AgentOutput {
    pub text: String,
}

/// The body of a message.
#[derive(Debug)]
pub enum MessageKind {
    AgentOutput(AgentOutput),
}

/// A message of a task.
#[derive(Debug)]
pub struct Message {
    pub id: String,
    pub message: Option<MessageKind>,
    pub task_id: String,
}

/// The fields of a message that an update touches.
#[derive(Debug)]
pub struct FieldMask {
    pub paths: Vec<String>,
}

/// An action that the client applies to its conversation state.
#[derive(Debug)]
pub enum ClientAction {
    BeginTransaction,
    AddMessagesToTask { task_id: String, messages: Vec<Message> },
    CommitTransaction,
    AppendToMessageContent { task_id: String, message: Option<Message>, mask: Option<FieldMask> },
}

/// A batch of client actions.
#[derive(Debug)]
pub struct ClientActions {
    pub actions: Vec<ClientAction>,
}

/// One event of a streamed response.
#[derive(Debug)]
pub enum ResponseEvent {
    Init(StreamInit),
    ClientActions(ClientActions),
    Finished(StreamFinished),
}

/// A message, by the views of its fields.
pub struct MessageView {
    pub id: Seq<char>,
    pub task_id: Seq<char>,
    pub agent_output: Option<Seq<char>>,
}

/// A client action, by the views of its fields.
pub enum ActionView {
    BeginTransaction,
    AddMessagesToTask { task_id: Seq<char>, messages: Seq<MessageView> },
    CommitTransaction,
    AppendToMessageContent {
        task_id: Seq<char>,
        message: Option<MessageView>,
        mask: Option<Seq<Seq<char>>>,
    },
}

/// A response event, by the views of its fields.
pub enum EventView {
    Init { request_id: Seq<char> },
    ClientActions { actions: Seq<ActionView> },
    Finished { reason: Option<FinishReason> },
}

impl View for Message {
    type V = MessageView;

    open spec fn view(&self) -> MessageView {
        MessageView {
            id: self.id@,
            task_id: self.task_id@,
            agent_output: match self.message {
                Some(MessageKind::AgentOutput(o)) => Some(o.text@),
                None => None,
            },
        }
    }
}

/// The view of an optional message.
pub open spec fn opt_message_view(m: Option<Message>) -> Option<MessageView> {
    match m {
        Some(m) => Some(m@),
        None => None,
    }
}

/// The paths of an optional field mask.
pub open spec fn opt_mask_view(m: Option<FieldMask>) -> Option<Seq<Seq<char>>> {
    match m {
        Some(m) => Some(m.paths@.map_values(|p: String| p@)),
        None => None,
    }
}

impl View for ClientAction {
    type V = ActionView;

    open spec fn view(&self) -> ActionView {
        match self {
            ClientAction::BeginTransaction => ActionView::BeginTransaction,
            ClientAction::AddMessagesToTask { task_id, messages } => ActionView::AddMessagesToTask {
                task_id: task_id@,
                messages: messages@.map_values(|m: Message| m@),
            },
            ClientAction::CommitTransaction => ActionView::CommitTransaction,
            ClientAction::AppendToMessageContent { task_id, message, mask } =>
                ActionView::AppendToMessageContent {
                    task_id: task_id@,
                    message: opt_message_view(*message),
                    mask: opt_mask_view(*mask),
                },
        }
    }
}

impl View for ResponseEvent {
    type V = EventView;

    open spec fn view(&self) -> EventView {
        match self {
            ResponseEvent::Init(init) => EventView::Init { request_id: init.request_id@ },
            ResponseEvent::ClientActions(batch) => EventView::ClientActions {
                actions: batch.actions@.map_values(|a: ClientAction| a@),
            },
            ResponseEvent::Finished(fin) => EventView::Finished { reason: fin.reason },
        }
    }
}

/// The views of a sequence of events.
pub open spec fn events_view(events: Seq<ResponseEvent>) -> Seq<EventView> {
    events.map_values(|e: ResponseEvent| e@)
}

// ---------------------------------------------------------------------------
// What each event holds
// ---------------------------------------------------------------------------

/// A message of the agent with the given identifiers and text.
pub open spec fn agent_message(id: Seq<char>, task_id: Seq<char>, text: Seq<char>) -> MessageView {
    MessageView { id, task_id, agent_output: Some(text) }
}

/// The event that opens the response `request_id`.
pub open spec fn init_event(request_id: Seq<char>) -> EventView {
    EventView::Init { request_id }
}

/// The event that closes a response.
pub open spec fn finished_event() -> EventView {
    EventView::Finished { reason: Some(FinishReason::Done) }
}

/// The action that appends `text` to the agent message `message_id` of `task_id`.
pub open spec fn append_action(text: Seq<char>, message_id: Seq<char>, task_id: Seq<char>) -> ActionView {
    ActionView::AppendToMessageContent {
        task_id,
        message: Some(agent_message(message_id, task_id, text)),
        mask: Some(seq![AGENT_OUTPUT_TEXT_PATH@]),
    }
}

/// The actions for one text chunk. The first chunk of an answer first adds
/// the (empty) agent message to its task inside a transaction; every chunk
/// then appends its text to that message.
pub open spec fn text_chunk_actions(
    text: Seq<char>,
    message_id: Seq<char>,
    task_id: Seq<char>,
    is_first_chunk: bool,
) -> Seq<ActionView> {
    if is_first_chunk {
        seq![
            ActionView::BeginTransaction,
            ActionView::AddMessagesToTask {
                task_id,
                messages: seq![agent_message(message_id, task_id, Seq::<char>::empty())],
            },
            ActionView::CommitTransaction,
            append_action(text, message_id, task_id),
        ]
    } else {
        seq![append_action(text, message_id, task_id)]
    }
}

/// The event for one text chunk.
pub open spec fn text_chunk_event(
    text: Seq<char>,
    message_id: Seq<char>,
    task_id: Seq<char>,
    is_first_chunk: bool,
) -> EventView {
    EventView::ClientActions { actions: text_chunk_actions(text, message_id, task_id, is_first_chunk) }
}

// ---------------------------------------------------------------------------
// Constructors
// ---------------------------------------------------------------------------

/// An agent message with the given identifiers and text.
fn new_agent_message(id: &str, task_id: &str, text: &str) -> (m: Message)
    ensures
        m@ == agent_message(id@, task_id@, text@),
{
    Message {
        id: id.to_owned(),
        message: Some(MessageKind::AgentOutput(AgentOutput { text: text.to_owned() })),
        task_id: task_id.to_owned(),
    }
}

/// Generates a `StreamInit` event to signal the start of a response.
pub fn create_stream_init_event(request_id: &str) -> (event: ResponseEvent)
    ensures
        event@ == init_event(request_id@),
{
    ResponseEvent::Init(StreamInit { request_id: request_id.to_owned() })
}

/// Converts a text content chunk into a `ClientActions` event whose last action
/// appends the text delta to the agent message.
pub fn text_chunk_to_response_event(
    text: &str,
    message_id: &str,
    task_id: &str,
    is_first_chunk: bool,
) -> (event: ResponseEvent)
    ensures
        event@ == text_chunk_event(text@, message_id@, task_id@, is_first_chunk),
{
    let mut actions: Vec<ClientAction> = Vec::new();

    if is_first_chunk {
        actions.push(ClientAction::BeginTransaction);
        let mut messages: Vec<Message> = Vec::new();
        let empty = new_agent_message(message_id, task_id, "");
        proof {
            reveal_strlit("");
            assert(""@ =~= Seq::<char>::empty());
        }
        messages.push(empty);
        assert(messages@.map_values(|m: Message| m@) =~= seq![
            agent_message(message_id@, task_id@, Seq::<char>::empty()),
        ]);
        actions.push(ClientAction::AddMessagesToTask { task_id: task_id.to_owned(), messages });
        actions.push(ClientAction::CommitTransaction);
    }
    let mut paths: Vec<String> = Vec::new();
    paths.push(AGENT_OUTPUT_TEXT_PATH.to_owned());
    let mask = FieldMask { paths };
    assert(mask.paths@.map_values(|p: String| p@) =~= seq![AGENT_OUTPUT_TEXT_PATH@]);
    actions.push(
        ClientAction::AppendToMessageContent {
            task_id: task_id.to_owned(),
            message: Some(new_agent_message(message_id, task_id, text)),
            mask: Some(mask),
        },
    );
    let event = ResponseEvent::ClientActions(ClientActions { actions });
    assert(actions@.map_values(|a: ClientAction| a@) =~= text_chunk_actions(
        text@,
        message_id@,
        task_id@,
        is_first_chunk,
    ));
    event
}

/// Generates a `StreamFinished` event to signal the end of a response.
pub fn create_stream_finished_event(_request_id: &str) -> (event: ResponseEvent)
    ensures
        event@ == finished_event(),
{
    ResponseEvent::Finished(StreamFinished { reason: Some(FinishReason::Done) })
}

/// Every text chunk event ends by appending its text to the agent message;
/// the first chunk of an answer first adds that message, empty, to its task,
/// between the beginning and the commit of a transaction, and a later chunk
/// does nothing else.
pub proof fn law_text_chunk_shape(
    text: Seq<char>,
    message_id: Seq<char>,
    task_id: Seq<char>,
    is_first_chunk: bool,
)
    ensures
        ({
            let actions = text_chunk_actions(text, message_id, task_id, is_first_chunk);
            &&& actions.len() == (if is_first_chunk { 4int } else { 1int })
            &&& actions.last() == append_action(text, message_id, task_id)
            &&& is_first_chunk ==> {
                &&& actions[0] == ActionView::BeginTransaction
                &&& actions[1] == ActionView::AddMessagesToTask {
                    task_id,
                    messages: seq![agent_message(message_id, task_id, Seq::<char>::empty())],
                }
                &&& actions[2] == ActionView::CommitTransaction
            }
        }),
{
}

/// The last action of a text chunk event appends the chunk's text to the agent
/// message `message_id` of `task_id`, unchanged (white space included), and
/// updates only the agent output's text; on the first chunk the message is
/// first added to the task with no text.
pub proof fn law_text_chunk_carries_text(
    text: Seq<char>,
    message_id: Seq<char>,
    task_id: Seq<char>,
    is_first_chunk: bool,
)
    ensures
        text_chunk_event(text, message_id, task_id, is_first_chunk) matches EventView::ClientActions {
            actions,
        } && actions.len() > 0 && actions.last() == (ActionView::AppendToMessageContent {
            task_id,
            message: Some(MessageView { id: message_id, task_id, agent_output: Some(text) }),
            mask: Some(seq![AGENT_OUTPUT_TEXT_PATH@]),
        }),
        is_first_chunk ==> (text_chunk_event(text, message_id, task_id, is_first_chunk) matches EventView::ClientActions {
            actions,
        } && actions.len() == 4 && actions[1] == (ActionView::AddMessagesToTask {
            task_id,
            messages: seq![MessageView { id: message_id, task_id, agent_output: Some(Seq::<char>::empty()) }],
        })),
        !is_first_chunk ==> (text_chunk_event(text, message_id, task_id, is_first_chunk) matches EventView::ClientActions {
            actions,
        } && actions.len() == 1),
{
}

// ---------------------------------------------------------------------------
// Stream context
// ---------------------------------------------------------------------------

/// A lower-case hexadecimal digit.
pub open spec fn is_lower_hex_digit(c: char) -> bool {
    ('0' <= c && c <= '9') || ('a' <= c && c <= 'f')
}

/// The hyphenated lower-case text of a version 4 (random) UUID, such as
/// `67e55044-10b1-426f-9247-bb680e5fe0c8`.
pub open spec fn is_v4_uuid_text(s: Seq<char>) -> bool {
    &&& s.len() == 36
    &&& forall|i: int|
        0 <= i < 36 ==> if i == 8 || i == 13 || i == 18 || i == 23 {
            #[trigger] s[i] == '-'
        } else {
            is_lower_hex_digit(s[i])
        }
    &&& s[14] == '4'
    &&& (s[19] == '8' || s[19] == '9' || s[19] == 'a' || s[19] == 'b')
}

/// Makes a fresh random identifier: `uuid::Uuid::new_v4`, displayed. The uuid
/// crate sets the version nibble to 4 and the variant bits to `10`, and
/// displays a UUID hyphenated in lower case; the random bits are not stated.
#[verifier::external_body]
fn new_v4_uuid_text() -> (s: String)
    ensures
        is_v4_uuid_text(s@),
{
    uuid::Uuid::new_v4().to_string()
}

/// Context for tracking state across a streaming response.
pub struct StreamContext {
    pub request_id: String,
    pub task_id: String,
    pub message_id: String,
}

impl StreamContext {
    /// A context for a response to the task `task_id`, with a fresh random
    /// request identifier and a fresh random message identifier.
    pub fn new(task_id: String) -> (ctx: Self)
        ensures
            ctx.task_id == task_id,
            is_v4_uuid_text(ctx.request_id@),
            is_v4_uuid_text(ctx.message_id@),
    {
        let request_id = new_v4_uuid_text();
        let message_id = new_v4_uuid_text();
        Self::from_ids(task_id, request_id, message_id)
    }

    /// A context for a response to the task `task_id` with the given request
    /// and message identifiers.
    pub fn from_ids(task_id: String, request_id: String, message_id: String) -> (ctx: Self)
        ensures
            ctx.task_id == task_id,
            ctx.request_id == request_id,
            ctx.message_id == message_id,
    {
        StreamContext { request_id, task_id, message_id }
    }
}

} // verus!
