use warp_ollama::client::{
    extract_messages_from_request, extract_model_name, extract_task_id, AgentRequest,
    AnswerStream, ChatRole, ChunkEmitter, OllamaClient, UserInput, SYSTEM_PROMPT,
};
use warp_ollama::config::OllamaConfig;
use warp_ollama::stream::{
    ChatCompletionChunk, ChunkChoice, ChunkDelta, ClientAction, FinishReason, MessageKind,
    ResponseEvent, StreamContext,
};

fn request(
    task_ids: Option<Vec<&str>>,
    inputs: Option<Vec<UserInput>>,
    model_base: Option<&str>,
) -> AgentRequest {
    AgentRequest {
        task_ids: task_ids.map(|ids| ids.into_iter().map(|s| s.to_string()).collect()),
        inputs,
        model_base: model_base.map(|s| s.to_string()),
    }
}

fn query(q: &str) -> UserInput {
    UserInput::UserQuery { query: q.to_string() }
}

fn chunk(contents: &[Option<&str>]) -> ChatCompletionChunk {
    ChatCompletionChunk {
        choices: contents
            .iter()
            .map(|c| ChunkChoice { delta: ChunkDelta { content: c.map(|s| s.to_string()) } })
            .collect(),
    }
}

fn ctx(task: &str) -> StreamContext {
    StreamContext {
        request_id: "req".to_string(),
        task_id: task.to_string(),
        message_id: "msg".to_string(),
    }
}

/// (action count, appended text) of a text chunk event.
fn shape(event: &ResponseEvent) -> (usize, String) {
    match event {
        ResponseEvent::ClientActions(batch) => match batch.actions.last().unwrap() {
            ClientAction::AppendToMessageContent { message, .. } => {
                match &message.as_ref().unwrap().message {
                    Some(MessageKind::AgentOutput(o)) => (batch.actions.len(), o.text.clone()),
                    None => panic!("Expected AgentOutput message"),
                }
            }
            _ => panic!("Expected AppendToMessageContent action"),
        },
        _ => panic!("Expected ClientActions response event"),
    }
}

#[test]
fn task_id_is_the_last_task_or_empty() {
    assert_eq!(extract_task_id(&request(Some(vec!["a", "b"]), None, None)), "b");
    assert_eq!(extract_task_id(&request(Some(vec![]), None, None)), "");
    assert_eq!(extract_task_id(&request(None, None, None)), "");
}

#[test]
fn messages_start_with_the_system_prompt() {
    let messages = extract_messages_from_request(&request(None, None, None));
    assert_eq!(messages.len(), 1);
    assert_eq!(messages[0].role, ChatRole::System);
    assert_eq!(messages[0].content, SYSTEM_PROMPT);
    assert!(SYSTEM_PROMPT.starts_with("You are a helpful AI assistant integrated into the Warp terminal. Help"));
    assert!(SYSTEM_PROMPT.ends_with("Be concise and practical."));
}

#[test]
fn every_query_becomes_a_user_message_in_order() {
    let inputs = vec![
        query("first"),
        UserInput::Other,
        UserInput::CliAgentUserQuery { user_query: Some("second".to_string()) },
        UserInput::CliAgentUserQuery { user_query: None },
        query("third"),
    ];
    let messages = extract_messages_from_request(&request(None, Some(inputs), None));
    let got: Vec<(ChatRole, &str)> = messages.iter().map(|m| (m.role, m.content.as_str())).collect();
    assert_eq!(
        got,
        vec![
            (ChatRole::System, SYSTEM_PROMPT),
            (ChatRole::User, "first"),
            (ChatRole::User, "second"),
            (ChatRole::User, "third"),
        ]
    );
    assert_eq!(ChatRole::System.as_str(), "system");
    assert_eq!(ChatRole::User.as_str(), "user");
}

#[test]
fn model_name_comes_from_ollama_settings_only() {
    assert_eq!(extract_model_name(&request(None, None, Some("ollama:mistral"))), Some("mistral".to_string()));
    assert_eq!(extract_model_name(&request(None, None, Some("gpt-4o"))), None);
    assert_eq!(extract_model_name(&request(None, None, Some(""))), None);
    assert_eq!(extract_model_name(&request(None, None, None)), None);
}

#[test]
fn prepared_request_uses_the_chosen_model() {
    let config = OllamaConfig {
        enabled: true,
        base_url: "http://127.0.0.1:9/".to_string(),
        model: "fallback".to_string(),
    };
    let r = request(Some(vec!["t1"]), Some(vec![query("hi")]), Some("ollama:codellama"));
    let prepared = OllamaClient::prepare(&config, &r);
    assert_eq!(prepared.url, "http://127.0.0.1:9/v1/chat/completions");
    assert_eq!(prepared.body.model, "codellama");
    assert!(prepared.body.stream);
    assert_eq!(prepared.body.messages.len(), 2);
    assert_eq!(prepared.body.messages[1].content, "hi");
    assert_eq!(prepared.context.task_id, "t1");
    assert_eq!(prepared.context.request_id.len(), 36);

    let other = OllamaClient::prepare(&config, &request(None, None, Some("gpt-4o")));
    assert_eq!(other.body.model, "fallback");
    assert_eq!(other.context.task_id, "");
}

#[test]
fn connection_failure_is_reported_as_one_chunk() {
    let events = OllamaClient::connection_failed(&ctx("t"), "http://x/v1/chat/completions", "refused");
    assert_eq!(events.len(), 3);
    match &events[0] {
        ResponseEvent::Init(init) => assert_eq!(init.request_id, "req"),
        _ => panic!("Expected Init event"),
    }
    assert_eq!(
        shape(&events[1]),
        (
            4,
            "Error: Could not connect to Ollama at http://x/v1/chat/completions. Make sure Ollama is running (`ollama serve`).\n\nDetails: refused".to_string()
        )
    );
    match &events[2] {
        ResponseEvent::Finished(fin) => assert_eq!(fin.reason, Some(FinishReason::Done)),
        _ => panic!("Expected Finished event"),
    }
}

#[test]
fn error_status_is_reported_as_one_chunk() {
    let events = OllamaClient::status_failed(&ctx("t"), "404 Not Found", "model not found");
    assert_eq!(events.len(), 3);
    assert_eq!(
        shape(&events[1]),
        (4, "Error: Ollama returned status 404 Not Found.\n\nDetails: model not found".to_string())
    );
    assert!(matches!(events[2], ResponseEvent::Finished(_)));
}

#[test]
fn only_the_first_text_opens_the_message() {
    let mut emitter = ChunkEmitter::new(&ctx("t"));
    assert!(emitter.is_first_chunk);
    assert!(emitter.chunk_events(&chunk(&[None, Some("")])).is_empty());
    assert!(emitter.is_first_chunk);
    let events = emitter.chunk_events(&chunk(&[Some("Hel"), None, Some("lo")]));
    assert_eq!(events.len(), 2);
    assert_eq!(shape(&events[0]), (4, "Hel".to_string()));
    assert_eq!(shape(&events[1]), (1, "lo".to_string()));
    assert!(!emitter.is_first_chunk);
    let events = emitter.chunk_events(&chunk(&[Some(" world")]));
    assert_eq!(shape(&events[0]), (1, " world".to_string()));
    assert_eq!(emitter.message_id, "msg");
    assert_eq!(emitter.task_id, "t");
}

#[test]
fn chunks_compose() {
    let mut split = ChunkEmitter::new(&ctx("t"));
    let mut got = split.chunk_events(&chunk(&[Some("a")]));
    got.extend(split.chunk_events(&chunk(&[Some("b"), Some("c")])));
    let mut whole = ChunkEmitter::new(&ctx("t"));
    let all = whole.chunk_events(&chunk(&[Some("a"), Some("b"), Some("c")]));
    let a: Vec<(usize, String)> = got.iter().map(shape).collect();
    let b: Vec<(usize, String)> = all.iter().map(shape).collect();
    assert_eq!(a, b);
    assert_eq!(split.is_first_chunk, whole.is_first_chunk);
}

#[test]
fn whole_answer_opens_streams_and_closes() {
    let (mut answer, init) = AnswerStream::open(&ctx("t"));
    match &init {
        ResponseEvent::Init(i) => assert_eq!(i.request_id, "req"),
        _ => panic!("Expected Init event"),
    }
    let payloads = answer.on_bytes(b"data: {\"choices\":[]}\n\ndata: [DONE]\n: ping\ndata: x");
    assert_eq!(payloads, vec!["{\"choices\":[]}".to_string()]);
    assert_eq!(answer.on_bytes(b"y\n"), vec!["xy".to_string()]);

    let mut texts = Vec::new();
    for part in [&[Some("Hel")][..], &[None][..], &[Some(""), Some("lo")][..]] {
        for event in answer.on_chunk(&chunk(part)) {
            texts.push(shape(&event));
        }
    }
    assert_eq!(texts, vec![(4, "Hel".to_string()), (1, "lo".to_string())]);
    match answer.close() {
        ResponseEvent::Finished(fin) => assert_eq!(fin.reason, Some(FinishReason::Done)),
        _ => panic!("Expected Finished event"),
    }
}

#[test]
fn answer_without_text_is_just_open_and_close() {
    let (mut answer, _init) = AnswerStream::open(&ctx("t"));
    assert!(answer.on_chunk(&chunk(&[None, Some("")])).is_empty());
    assert!(matches!(answer.close(), ResponseEvent::Finished(_)));
}

#[test]
fn context_from_ids_keeps_them() {
    let c = StreamContext::from_ids("t".to_string(), "r".to_string(), "m".to_string());
    assert_eq!((c.task_id.as_str(), c.request_id.as_str(), c.message_id.as_str()), ("t", "r", "m"));
}
