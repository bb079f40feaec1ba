use freeq::call::{
    bot_step, BotAction, BotEvent, BotState,
    active_session_id, chat_gate, end_of_call, no_key_text, post_chunks, reuse_instance, sessions_url,
    start_channel_listed, summary_failed_text, transcript_line, transport_for, voice_dispatch, ChatGate, EndOfCall,
    VoiceDispatch, SESSION_ENDED,
};
use freeq::json::JsonValue;

fn obj(ms: Vec<(&str, JsonValue)>) -> JsonValue {
    JsonValue::Object(ms.into_iter().map(|(k, v)| (k.to_string(), v)).collect())
}

#[test]
fn web_addresses_use_websockets() {
    assert_eq!(transport_for("wss://irc.example/irc"), (Some("wss://irc.example/irc".to_string()), true));
    assert_eq!(transport_for("http://localhost:8080"), (Some("http://localhost:8080".to_string()), true));
    assert_eq!(transport_for("irc.example:6667"), (None, false));
}

#[test]
fn voice_questions_debounce_and_barge_in() {
    assert_eq!(voice_dispatch(false, false, false, None), VoiceDispatch::NoCall);
    assert_eq!(voice_dispatch(true, true, true, None), VoiceDispatch::StartupGrace);
    assert_eq!(voice_dispatch(true, false, true, Some(1)), VoiceDispatch::BargeIn);
    assert_eq!(voice_dispatch(true, false, false, None), VoiceDispatch::Answer);
    assert_eq!(voice_dispatch(true, false, false, Some(8)), VoiceDispatch::Answer);
    assert_eq!(voice_dispatch(true, false, false, Some(7)), VoiceDispatch::Duplicate);
}

#[test]
fn chat_questions_are_gated() {
    assert_eq!(chat_gate("bob", "al", "eliza", true, false, true), ChatGate::NotForMe);
    assert_eq!(chat_gate("#c", "ELIZA", "eliza", true, false, true), ChatGate::NotForMe);
    assert_eq!(chat_gate("#c", "al", "eliza", false, false, true), ChatGate::NotForMe);
    assert_eq!(chat_gate("#c", "al", "eliza", true, true, true), ChatGate::StartupGrace);
    assert_eq!(chat_gate("&c", "al", "eliza", true, false, false), ChatGate::NoKey);
    assert_eq!(chat_gate("#c", "al", "eliza", true, false, true), ChatGate::Answer);
    assert_eq!(no_key_text("al"), "al: Q&A needs a Groq key — not configured.");
}

#[test]
fn calls_start_once_per_channel() {
    let chans = vec!["#Room".to_string(), "#other".to_string()];
    assert!(start_channel_listed(&chans, "#room"));
    assert!(!start_channel_listed(&chans, "#nope"));
    assert_eq!(reuse_instance(Some(("#room", "inst1")), "#ROOM").as_deref(), Some("inst1"));
    assert_eq!(reuse_instance(Some(("#room", "inst1")), "#other"), None);
    assert_eq!(reuse_instance(None, "#room"), None);
}

#[test]
fn ended_calls() {
    assert_eq!(end_of_call("s1", "s2", true, false), EndOfCall::OtherSession);
    assert_eq!(end_of_call("s1", "s1", false, false), EndOfCall::Notice);
    assert_eq!(end_of_call("s1", "s1", true, true), EndOfCall::Notice);
    assert_eq!(end_of_call("s1", "s1", true, false), EndOfCall::Summarise);
    assert_eq!(SESSION_ENDED, "[transcript] session ended.");
    assert_eq!(summary_failed_text("boom"), "[transcript] session ended; summary failed: boom");
    assert_eq!(transcript_line("al", "hello"), "al: hello");
}

#[test]
fn session_discovery() {
    assert_eq!(
        sessions_url("https://irc.example", "#freeq"),
        "https://irc.example/api/v1/channels/%23freeq/sessions"
    );
    let live = obj(vec![(
        "active",
        obj(vec![("state", JsonValue::Str("Active".into())), ("id", JsonValue::Str("sess-1".into()))]),
    )]);
    assert_eq!(active_session_id(&live).as_deref(), Some("sess-1"));
    let ended = obj(vec![("active", obj(vec![("state", JsonValue::Str("Ended".into())), ("id", JsonValue::Str("x".into()))]))]);
    assert_eq!(active_session_id(&ended), None);
    assert_eq!(active_session_id(&obj(vec![("active", JsonValue::Null)])), None);
    assert_eq!(active_session_id(&JsonValue::Null), None);
}

#[test]
fn long_texts_post_line_by_line() {
    assert_eq!(
        post_chunks("Summary:\n\n- one\r\n- two\n"),
        vec!["Summary:".to_string(), "- one".to_string(), "- two".to_string()]
    );
    assert!(post_chunks("").is_empty());
}

#[test]
fn the_call_loop_keeps_one_call_and_ends_only_its_own() {
    let st = BotState { active: None, self_start: Some(("#room".to_string(), "inst-1".to_string())) };
    let (st, a) = bot_step(st, &BotEvent::Started { channel: "#Room".to_string(), session_id: "s1".to_string() });
    match a {
        BotAction::Start { channel, session_id, existing_instance } => {
            assert_eq!((channel.as_str(), session_id.as_str()), ("#Room", "s1"));
            assert_eq!(existing_instance.as_deref(), Some("inst-1"));
        }
        _ => panic!("expected a start"),
    }
    let st = BotState { active: Some(("#room".to_string(), "s1".to_string())), self_start: st.self_start };
    let (st, a) = bot_step(st, &BotEvent::Started { channel: "#other".to_string(), session_id: "s2".to_string() });
    assert!(matches!(a, BotAction::AlreadyInCall));
    assert_eq!(st.active.as_ref().map(|p| p.1.as_str()), Some("s1"));
    let ended = |s: &str, key: bool, empty: bool| BotEvent::Ended {
        channel: "#room".to_string(),
        session_id: s.to_string(),
        has_summary_key: key,
        transcript_empty: empty,
    };
    let (st, a) = bot_step(st, &ended("s9", true, false));
    assert!(matches!(a, BotAction::Ignore));
    assert!(st.active.is_some());
    let (st2, a) = bot_step(st, &ended("s1", true, false));
    assert!(matches!(a, BotAction::Summarise { .. }));
    assert!(st2.active.is_none());
    let st3 = BotState { active: Some(("#room".to_string(), "s1".to_string())), self_start: None };
    let (_, a) = bot_step(st3, &ended("s1", false, false));
    assert!(matches!(a, BotAction::Notice { .. }));
}
