use warp_ollama::stream::{
    create_stream_finished_event, create_stream_init_event, text_chunk_to_response_event,
    ClientAction, FinishReason, MessageKind, ResponseEvent, StreamContext,
};

#[test]
fn test_text_chunk_to_response_event_first_chunk() {
    let text = "Hello";
    let message_id = "msg-123";
    let task_id = "task-456";
    let is_first_chunk = true;

    let event = text_chunk_to_response_event(text, message_id, task_id, is_first_chunk);

    if let ResponseEvent::ClientActions(client_actions) = &event {
        let actions = &client_actions.actions;
        assert_eq!(actions.len(), 4);

        assert!(matches!(actions[0], ClientAction::BeginTransaction));

        if let ClientAction::AddMessagesToTask { task_id: add_task_id, messages } = &actions[1] {
            assert_eq!(add_task_id, task_id);
            assert_eq!(messages.len(), 1);
            assert_eq!(messages[0].id, message_id);
        } else {
            panic!("Expected AddMessagesToTask action");
        }

        assert!(matches!(actions[2], ClientAction::CommitTransaction));

        if let ClientAction::AppendToMessageContent { task_id: append_task_id, message, .. } =
            &actions[3]
        {
            assert_eq!(append_task_id, task_id);
            let msg = message.as_ref().unwrap();
            assert_eq!(msg.id, message_id);
            if let Some(MessageKind::AgentOutput(output)) = &msg.message {
                assert_eq!(output.text, text);
            } else {
                panic!("Expected AgentOutput message");
            }
        } else {
            panic!("Expected AppendToMessageContent action");
        }
    } else {
        panic!("Expected ClientActions response event");
    }
}

#[test]
fn test_text_chunk_to_response_event_subsequent_chunk() {
    let text = " World";
    let message_id = "msg-123";
    let task_id = "task-456";
    let is_first_chunk = false;

    let event = text_chunk_to_response_event(text, message_id, task_id, is_first_chunk);

    if let ResponseEvent::ClientActions(client_actions) = &event {
        let actions = &client_actions.actions;
        assert_eq!(actions.len(), 1);

        if let ClientAction::AppendToMessageContent { task_id: append_task_id, message, .. } =
            &actions[0]
        {
            assert_eq!(append_task_id, task_id);
            let msg = message.as_ref().unwrap();
            assert_eq!(msg.id, message_id);
            if let Some(MessageKind::AgentOutput(output)) = &msg.message {
                assert_eq!(output.text, text);
            } else {
                panic!("Expected AgentOutput message");
            }
        } else {
            panic!("Expected AppendToMessageContent action");
        }
    } else {
        panic!("Expected ClientActions response event");
    }
}

#[test]
fn first_chunk_adds_an_empty_agent_message_to_the_task() {
    let event = text_chunk_to_response_event("Hi", "m-1", "t-1", true);
    match &event {
        ResponseEvent::ClientActions(batch) => match &batch.actions[1] {
            ClientAction::AddMessagesToTask { messages, .. } => {
                assert_eq!(messages[0].task_id, "t-1");
                match &messages[0].message {
                    Some(MessageKind::AgentOutput(output)) => assert_eq!(output.text, ""),
                    None => panic!("Expected AgentOutput message"),
                }
            }
            _ => panic!("Expected AddMessagesToTask action"),
        },
        _ => panic!("Expected ClientActions response event"),
    }
}

#[test]
fn appended_chunk_carries_the_agent_output_mask() {
    for first in [true, false] {
        let event = text_chunk_to_response_event("x", "m", "t", first);
        match &event {
            ResponseEvent::ClientActions(batch) => match batch.actions.last().unwrap() {
                ClientAction::AppendToMessageContent { mask, message, .. } => {
                    let mask = mask.as_ref().unwrap();
                    assert_eq!(mask.paths, vec!["message.agent_output.text".to_string()]);
                    assert_eq!(message.as_ref().unwrap().task_id, "t");
                }
                _ => panic!("Expected AppendToMessageContent action"),
            },
            _ => panic!("Expected ClientActions response event"),
        }
    }
}

#[test]
fn init_and_finished_events() {
    match create_stream_init_event("req-1") {
        ResponseEvent::Init(init) => assert_eq!(init.request_id, "req-1"),
        _ => panic!("Expected Init event"),
    }
    match create_stream_finished_event("req-1") {
        ResponseEvent::Finished(fin) => assert_eq!(fin.reason, Some(FinishReason::Done)),
        _ => panic!("Expected Finished event"),
    }
}

fn is_v4_uuid(s: &str) -> bool {
    let chars: Vec<char> = s.chars().collect();
    if chars.len() != 36 {
        return false;
    }
    for (i, c) in chars.iter().enumerate() {
        if i == 8 || i == 13 || i == 18 || i == 23 {
            if *c != '-' {
                return false;
            }
        } else if !(c.is_ascii_digit() || ('a'..='f').contains(c)) {
            return false;
        }
    }
    chars[14] == '4' && matches!(chars[19], '8' | '9' | 'a' | 'b')
}

#[test]
fn stream_context_keeps_the_task_and_draws_fresh_ids() {
    let ctx = StreamContext::new("task-9".to_string());
    assert_eq!(ctx.task_id, "task-9");
    assert!(is_v4_uuid(&ctx.request_id));
    assert!(is_v4_uuid(&ctx.message_id));
    assert_ne!(ctx.request_id, ctx.message_id);
    let other = StreamContext::new(String::new());
    assert_ne!(other.request_id, ctx.request_id);
    assert_eq!(other.task_id, "");
}
