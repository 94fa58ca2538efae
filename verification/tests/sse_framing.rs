use warp_ollama::sse::{data_payload, decode_utf8_lossy, SseDecoder};

fn payload_of(line: &str) -> Option<String> {
    let chars: Vec<char> = line.chars().collect();
    data_payload(&chars).map(|d| d.into_iter().collect())
}

#[test]
fn data_lines_with_and_without_space() {
    assert_eq!(payload_of("data: {\"a\":1}"), Some("{\"a\":1}".to_string()));
    assert_eq!(payload_of("data:{\"a\":1}"), Some("{\"a\":1}".to_string()));
    assert_eq!(payload_of("  data:   x  \r"), Some("x".to_string()));
}

#[test]
fn other_lines_carry_no_payload() {
    assert_eq!(payload_of(""), None);
    assert_eq!(payload_of("   "), None);
    assert_eq!(payload_of(": keep-alive"), None);
    assert_eq!(payload_of("event: message"), None);
    assert_eq!(payload_of("Data: x"), None);
}

#[test]
fn done_marker_is_dropped() {
    assert_eq!(payload_of("data: [DONE]"), None);
    assert_eq!(payload_of("data:[DONE]  "), None);
    assert_eq!(payload_of("data: [DONE] x"), Some("[DONE] x".to_string()));
}

#[test]
fn empty_data_is_kept() {
    assert_eq!(payload_of("data:"), Some(String::new()));
    assert_eq!(payload_of("data:   "), Some(String::new()));
}

#[test]
fn complete_lines_are_taken_and_the_rest_waits() {
    let mut decoder = SseDecoder::new();
    let out = decoder.push_text("data: one\n\ndata: tw");
    assert_eq!(out, vec!["one".to_string()]);
    let out = decoder.push_text("o\ndata: [DONE]\n");
    assert_eq!(out, vec!["two".to_string()]);
    let out = decoder.push_text("");
    assert!(out.is_empty());
}

#[test]
fn text_without_newline_is_only_buffered() {
    let mut decoder = SseDecoder::new();
    assert!(decoder.push_text("data: a").is_empty());
    assert!(decoder.push_text("bc").is_empty());
    assert_eq!(decoder.push_text("\n"), vec!["abc".to_string()]);
}

#[test]
fn chunking_does_not_change_the_payloads() {
    let body = "data: {\"x\":1}\n\ndata:{\"y\":2}\r\n: comment\ndata: [DONE]\n\ndata: tail";
    let mut whole = SseDecoder::new();
    let all = whole.push_text(body);
    assert_eq!(all, vec!["{\"x\":1}".to_string(), "{\"y\":2}".to_string()]);
    for cut in 0..=body.len() {
        if !body.is_char_boundary(cut) {
            continue;
        }
        let mut split = SseDecoder::new();
        let mut got = split.push_text(&body[..cut]);
        got.extend(split.push_text(&body[cut..]));
        assert_eq!(got, all, "cut at {}", cut);
        assert_eq!(split.push_text("\n"), vec!["tail".to_string()]);
    }
}

#[test]
fn byte_chunks_are_decoded_before_framing() {
    let mut decoder = SseDecoder::new();
    let out = decoder.push_bytes(b"data: caf\xc3\xa9\ndata: x");
    assert_eq!(out, vec!["caf\u{e9}".to_string()]);
    assert_eq!(decoder.push_bytes(b"y\n"), vec!["xy".to_string()]);
}

#[test]
fn invalid_utf8_is_replaced() {
    assert_eq!(decode_utf8_lossy(b"a\xffb"), "a\u{fffd}b");
    assert_eq!(decode_utf8_lossy(b"plain"), "plain");
    let mut decoder = SseDecoder::new();
    assert_eq!(decoder.push_bytes(b"data: \xc3"), Vec::<String>::new());
    assert_eq!(decoder.push_bytes(b"\xa9\n"), vec!["\u{fffd}\u{fffd}".to_string()]);
}

#[test]
fn unicode_white_space_is_trimmed() {
    assert_eq!(payload_of("\u{a0}data:\u{3000}x\u{2028}"), Some("x".to_string()));
    assert_eq!(payload_of("\tdata:\u{b}x\u{c}"), Some("x".to_string()));
    assert_eq!(payload_of("data:\u{200b}x"), Some("\u{200b}x".to_string()));
}

#[test]
fn crlf_lines_carry_the_same_payload() {
    assert_eq!(payload_of("data: y\r"), payload_of("data: y"));
    assert_eq!(payload_of("data: [DONE]\r"), None);
}
