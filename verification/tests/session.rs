use ellen_rust_backend::llm::LLMError;
use ellen_rust_backend::session::{
    judge_text_frame, sync_message, ClientMessage, ClientRegistry, FrameVerdict, Heartbeat,
    HeartbeatAction, Turn, TurnAction, WSMessage, HISTORY_LIMIT, MAX_HISTORY,
};
use ellen_rust_backend::parser::parse_llm_response;
use ellen_rust_backend::tts::{TTSResult, WavDuration};

fn status_of(a: &TurnAction) -> (String, Option<String>, u64) {
    match a {
        TurnAction::Send(WSMessage::Status { status, message, timestamp }) => (status.clone(), message.clone(), *timestamp),
        _ => panic!("expected a status message"),
    }
}

#[test]
fn successful_turn_sends_thinking_speaking_sync_ready() {
    let mut history: Vec<(String, String)> = Vec::new();
    let (mut turn, a) = Turn::start("おはよう".to_string(), 1);
    assert_eq!(status_of(&a), ("thinking".to_string(), None, 1));

    let a = turn.on_sent(true, &mut history, 2);
    assert!(matches!(a, TurnAction::CallLlm));
    assert!(history.is_empty());

    let a = turn.on_reply(Ok("[motion:idle2][exp:maid] はい。".to_string()), &mut history, 3);
    assert_eq!(status_of(&a), ("speaking".to_string(), None, 3));
    assert_eq!(history[0], ("user".to_string(), "おはよう".to_string()));
    assert_eq!(history[1], ("assistant".to_string(), " はい。".to_string()));

    let a = turn.on_sent(true, &mut history, 4);
    let parsed = match a {
        TurnAction::Synthesize(p) => p,
        _ => panic!("expected synthesis"),
    };
    assert_eq!(parsed.motion_id, "idle2");
    assert_eq!(parsed.expression_id, "maid");

    let audio = TTSResult {
        audio_data: "UklGRg==".into(),
        sample_rate: 32_000,
        duration: WavDuration { numerator: 5, denominator: 2 },
        motion_id: "idle2".into(),
        expression_id: "maid".into(),
        text: " はい。".into(),
    };
    match turn.on_audio(Some(audio), 5) {
        TurnAction::Send(WSMessage::MultimodalSync { motion_id, expression_id, text, has_audio, audio_data, sample_rate, duration, timestamp }) => {
            assert_eq!(motion_id, "idle2");
            assert_eq!(expression_id, "maid");
            assert_eq!(text, " はい。");
            assert!(has_audio);
            assert_eq!(audio_data.as_deref(), Some("UklGRg=="));
            assert_eq!(sample_rate, 32_000);
            assert_eq!(duration, WavDuration { numerator: 5, denominator: 2 });
            assert_eq!(timestamp, 5);
        }
        _ => panic!("expected multimodal_sync"),
    }
    let a = turn.on_sent(true, &mut history, 6);
    assert_eq!(status_of(&a), ("ready".to_string(), None, 6));
    assert!(matches!(turn.on_sent(true, &mut history, 7), TurnAction::Stop));
}

#[test]
fn failed_llm_call_reports_error_pauses_then_ready() {
    let mut history: Vec<(String, String)> = Vec::new();
    let (mut turn, _) = Turn::start("hi".to_string(), 1);
    let _ = turn.on_sent(true, &mut history, 2);
    let a = turn.on_reply(Err(LLMError::ApiError("HTTP 401 Unauthorized: no".into())), &mut history, 3);
    assert_eq!(
        status_of(&a),
        ("error".to_string(), Some("API error: HTTP 401 Unauthorized: no".to_string()), 3)
    );
    assert_eq!(history.len(), 1);
    // The pause follows whether or not the error reached the client.
    assert!(matches!(turn.on_sent(false, &mut history, 4), TurnAction::Pause(1)));
    let a = turn.on_paused(5);
    assert_eq!(status_of(&a), ("ready".to_string(), None, 5));
    assert!(matches!(turn.on_sent(false, &mut history, 6), TurnAction::Stop));
}

#[test]
fn undelivered_thinking_ends_turn_without_history() {
    let mut history: Vec<(String, String)> = Vec::new();
    let (mut turn, _) = Turn::start("hi".to_string(), 1);
    assert!(matches!(turn.on_sent(false, &mut history, 2), TurnAction::Stop));
    assert!(history.is_empty());
}

#[test]
fn history_is_trimmed_to_newest_entries() {
    assert_eq!(HISTORY_LIMIT, 2 * MAX_HISTORY);
    let mut history: Vec<(String, String)> =
        (0..HISTORY_LIMIT).map(|i| ("user".to_string(), format!("m{i}"))).collect();
    let (mut turn, _) = Turn::start("new".to_string(), 1);
    let _ = turn.on_sent(true, &mut history, 2);
    assert_eq!(history.len(), HISTORY_LIMIT);
    let _ = turn.on_reply(Ok("[exp:shy]…".to_string()), &mut history, 3);
    assert_eq!(history.len(), HISTORY_LIMIT);
    assert_eq!(history[HISTORY_LIMIT - 2], ("user".to_string(), "new".to_string()));
    assert_eq!(history[HISTORY_LIMIT - 1], ("assistant".to_string(), "…".to_string()));
    assert_eq!(history[0].1, "m2");
}

#[test]
fn history_keeps_twenty_pairs() {
    let mut history: Vec<(String, String)> = (0..MAX_HISTORY)
        .map(|i| ("user".to_string(), format!("m{i}")))
        .collect();
    let (mut turn, _) = Turn::start("new".to_string(), 1);
    let _ = turn.on_sent(true, &mut history, 2);
    let _ = turn.on_reply(Ok("[exp:shy]…".to_string()), &mut history, 3);
    assert_eq!(history.len(), MAX_HISTORY + 2);
    assert_eq!(history[0].1, "m0");
}

#[test]
fn failed_turns_keep_history_bounded() {
    let mut history: Vec<(String, String)> = Vec::new();
    for k in 0..(HISTORY_LIMIT + 5) {
        let (mut turn, _) = Turn::start(format!("q{k}"), 1);
        let _ = turn.on_sent(true, &mut history, 2);
        let _ = turn.on_reply(Err(LLMError::ApiError("HTTP 500".into())), &mut history, 3);
        assert!(history.len() <= HISTORY_LIMIT);
    }
    assert_eq!(history.len(), HISTORY_LIMIT);
    assert_eq!(history[HISTORY_LIMIT - 1], ("user".to_string(), format!("q{}", HISTORY_LIMIT + 4)));
}

#[test]
fn sync_without_audio() {
    let parsed = parse_llm_response("[motion:alert][exp:surprised] えっ");
    match sync_message(&parsed, None, 9) {
        WSMessage::MultimodalSync { has_audio, audio_data, sample_rate, duration, motion_id, .. } => {
            assert!(!has_audio);
            assert!(audio_data.is_none());
            assert_eq!(sample_rate, 32_000);
            assert_eq!(duration, WavDuration { numerator: 0, denominator: 1 });
            assert_eq!(motion_id, "alert");
        }
        _ => panic!("expected multimodal_sync"),
    }
}

#[test]
fn text_frames() {
    let msg = ClientMessage { msg_type: "message".into(), content: "hello".into(), timestamp: Some(1) };
    assert!(matches!(judge_text_frame(Ok(msg), 0), FrameVerdict::Process(c) if c == "hello"));
    let other = ClientMessage { msg_type: "ping".into(), content: "".into(), timestamp: None };
    assert!(matches!(judge_text_frame(Ok(other), 0), FrameVerdict::Ignore));
    match judge_text_frame(Err("expected value at line 1".into()), 7) {
        FrameVerdict::Reply(WSMessage::Status { status, message, timestamp }) => {
            assert_eq!(status, "error");
            assert_eq!(message.as_deref(), Some("invalid JSON: expected value at line 1"));
            assert_eq!(timestamp, 7);
        }
        _ => panic!("expected an error reply"),
    }
}

#[test]
fn heartbeat_closes_silent_connections() {
    let mut hb = Heartbeat::new();
    assert_eq!(hb.on_tick(), HeartbeatAction::Ping);
    hb.on_frame();
    assert_eq!(hb.on_tick(), HeartbeatAction::Ping);
    assert_eq!(hb.on_tick(), HeartbeatAction::Close);
}

#[test]
fn registry_adds_and_removes() {
    let mut reg: ClientRegistry<&str> = ClientRegistry::new();
    assert!(reg.can_add());
    let a = reg.add("a");
    let b = reg.add("b");
    let c = reg.add("c");
    assert!(a != b && b != c && a != c);
    assert_eq!(reg.len(), 3);
    assert!(reg.remove(b));
    assert!(!reg.remove(b));
    assert_eq!(reg.len(), 2);
    assert_eq!(*reg.client(0), "a");
    assert_eq!(*reg.client(1), "c");
    let d = reg.add("d");
    assert!(d != b);
}
