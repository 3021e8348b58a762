use ellen_rust_backend::llm::{
    api_failure, bearer, build_chat_messages, is_done_marker, ChunkChoice, LLMError, ReplyCollector,
    StreamEvent, StreamStep,
};

fn chunk(content: Option<&str>, finish: Option<&str>) -> StreamEvent {
    StreamEvent::Chunk(Some(ChunkChoice {
        content: content.map(|s| s.to_string()),
        finish_reason: finish.map(|s| s.to_string()),
    }))
}

/// The first choice of a chunk, read from its JSON with `serde_json::Value`.
fn first_choice(json: &str) -> Option<ChunkChoice> {
    let v: serde_json::Value = serde_json::from_str(json).unwrap();
    let choice = v.get("choices")?.get(0)?;
    Some(ChunkChoice {
        content: choice.get("delta").and_then(|d| d.get("content")).and_then(|c| c.as_str()).map(|s| s.to_string()),
        finish_reason: choice.get("finish_reason").and_then(|c| c.as_str()).map(|s| s.to_string()),
    })
}

#[test]
fn test_parse_multiple_chunks_concatenation() {
    let chunks_json = vec![
        r#"{"choices":[{"delta":{"content":"[motion:idle]"},"index":0,"finish_reason":null}]}"#,
        r#"{"choices":[{"delta":{"content":"[exp:lazy]"},"index":0,"finish_reason":null}]}"#,
        r#"{"choices":[{"delta":{"content":"何か用？"},"index":0,"finish_reason":null}]}"#,
        r#"{"choices":[{"delta":{"content":""},"index":0,"finish_reason":"stop"}]}"#,
    ];

    let mut collector = ReplyCollector::new();
    for json in chunks_json {
        let _ = collector.on_event(StreamEvent::Chunk(first_choice(json)));
    }
    let full_text = match collector.finish() {
        Ok(t) => t,
        Err(_) => panic!("reply expected"),
    };
    assert_eq!(full_text, "[motion:idle][exp:lazy]何か用？");
}

#[test]
fn test_llm_error_display() {
    let err = LLMError::SSEError("bad json".to_string());
    assert_eq!(err.describe(), "SSE parse error: bad json");

    let err = LLMError::ApiError("rate limited".to_string());
    assert_eq!(err.describe(), "API error: rate limited");

    let err = LLMError::EmptyResponse;
    assert_eq!(err.describe(), "No response content");
}

#[test]
fn http_error_text() {
    let err = LLMError::HttpError("connection refused".to_string());
    assert_eq!(err.describe(), "HTTP request failed: connection refused");
}

#[test]
fn stop_reason_ends_the_stream() {
    let mut c = ReplyCollector::new();
    assert!(matches!(c.on_event(chunk(Some("はぁ…"), None)), StreamStep::Continue));
    assert!(matches!(c.on_event(chunk(Some("眠い"), Some("stop"))), StreamStep::Stop));
    assert_eq!(c.finish().ok().unwrap(), "はぁ…眠い");
}

#[test]
fn other_finish_reasons_continue() {
    let mut c = ReplyCollector::new();
    assert!(matches!(c.on_event(chunk(Some("a"), Some("length"))), StreamStep::Continue));
    assert!(matches!(c.on_event(chunk(None, None)), StreamStep::Continue));
    assert!(matches!(c.on_event(StreamEvent::Chunk(None)), StreamStep::Continue));
    assert!(matches!(c.on_event(StreamEvent::Done), StreamStep::Stop));
    assert_eq!(c.finish().ok().unwrap(), "a");
}

#[test]
fn blank_reply_is_an_error() {
    let mut c = ReplyCollector::new();
    let _ = c.on_event(chunk(Some("  \n\t"), None));
    assert!(matches!(c.finish(), Err(LLMError::EmptyResponse)));
    assert!(matches!(ReplyCollector::new().finish(), Err(LLMError::EmptyResponse)));
}

#[test]
fn malformed_and_broken_streams_fail() {
    let mut c = ReplyCollector::new();
    match c.on_event(StreamEvent::Malformed { error: "expected value".into(), data: "oops".into() }) {
        StreamStep::Fail(e) => assert_eq!(e.describe(), "SSE parse error: JSON parse failed: expected value | data: oops"),
        _ => panic!("expected failure"),
    }
    match c.on_event(StreamEvent::Broken("eof".into())) {
        StreamStep::Fail(LLMError::SSEError(m)) => assert_eq!(m, "eof"),
        _ => panic!("expected failure"),
    }
}

#[test]
fn done_marker() {
    assert!(is_done_marker("[DONE]"));
    assert!(!is_done_marker("[DONE] "));
    assert!(!is_done_marker("{}"));
}

#[test]
fn request_messages_and_headers() {
    let history = vec![
        ("user".to_string(), "こんにちは".to_string()),
        ("assistant".to_string(), "はぁ…".to_string()),
    ];
    let msgs = build_chat_messages("PROMPT", &history, "飴ちょうだい");
    assert_eq!(msgs.len(), 4);
    assert_eq!((msgs[0].role.as_str(), msgs[0].content.as_str()), ("system", "PROMPT"));
    assert_eq!((msgs[1].role.as_str(), msgs[1].content.as_str()), ("user", "こんにちは"));
    assert_eq!((msgs[2].role.as_str(), msgs[2].content.as_str()), ("assistant", "はぁ…"));
    assert_eq!((msgs[3].role.as_str(), msgs[3].content.as_str()), ("user", "飴ちょうだい"));
    assert_eq!(bearer("sk-1"), "Bearer sk-1");
    match api_failure("429 Too Many Requests", "slow down") {
        LLMError::ApiError(m) => assert_eq!(m, "HTTP 429 Too Many Requests: slow down"),
        _ => panic!("expected api error"),
    }
}

#[test]
fn first_message_is_sent_once() {
    let history: Vec<(String, String)> = Vec::new();
    let msgs = build_chat_messages("PROMPT", &history, "おはよう");
    assert_eq!(msgs.len(), 2);
    assert_eq!((msgs[0].role.as_str(), msgs[0].content.as_str()), ("system", "PROMPT"));
    assert_eq!((msgs[1].role.as_str(), msgs[1].content.as_str()), ("user", "おはよう"));
}
