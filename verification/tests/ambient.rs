use freeq::ambient::{
    ambient_escalation, tick_acts, TICK_SECS,
    ambient_plan, ambient_prompt, chat_content, enough_new_words, escalation, recent_tail, remember_concept,
    AmbientPlan, Escalation,
};
use freeq::json::JsonValue;

fn to_json(v: &serde_json::Value) -> JsonValue {
    match v {
        serde_json::Value::Null => JsonValue::Null,
        serde_json::Value::Bool(b) => JsonValue::Bool(*b),
        serde_json::Value::Number(n) => JsonValue::Number(n.to_string()),
        serde_json::Value::String(s) => JsonValue::Str(s.clone()),
        serde_json::Value::Array(a) => JsonValue::Array(a.iter().map(to_json).collect()),
        serde_json::Value::Object(o) => JsonValue::Object(o.iter().map(|(k, v)| (k.clone(), to_json(v))).collect()),
    }
}

fn parse(text: &str) -> JsonValue {
    to_json(&serde_json::from_str::<serde_json::Value>(text).unwrap())
}

fn reply(content: &str) -> JsonValue {
    JsonValue::Object(vec![(
        "choices".to_string(),
        JsonValue::Array(vec![JsonValue::Object(vec![(
            "message".to_string(),
            JsonValue::Object(vec![("content".to_string(), JsonValue::Str(content.to_string()))]),
        )])]),
    )])
}

#[test]
fn ambient_plan_truncates_long_concepts() {
    let v = reply("{\"concept\":\"this is a really really really really long concept that should be truncated\",\"accent\":\"#1a8fff\",\"image_query\":\"\"}");
    let content = chat_content(&v).unwrap();
    let plan = ambient_plan(&parse(&content)).unwrap();
    assert!(plan.concept.chars().count() <= 28);
    assert_eq!(plan.concept, "this is a really really real");
    assert_eq!(plan.accent, "#1a8fff");
    assert_eq!(plan.image_query, "");
}

#[test]
fn ambient_plan_rejects_empty_concept() {
    let v = reply("{\"concept\":\"  \",\"accent\":\"#000000\",\"image_query\":\"\"}");
    let content = chat_content(&v).unwrap();
    assert_eq!(ambient_plan(&parse(&content)), None);
}

#[test]
fn plans_are_trimmed_and_capped() {
    let long_query = "x".repeat(200);
    let plan = ambient_plan(&parse(&format!(
        "{{\"concept\":\"  Deep Ocean \",\"accent\":\" #0044aa \",\"image_query\":\"{long_query}\"}}"
    )))
    .unwrap();
    assert_eq!(
        plan,
        AmbientPlan { concept: "Deep Ocean".into(), accent: "#0044aa".into(), image_query: "x".repeat(120) }
    );
    let plan = ambient_plan(&parse("{\"concept\":\"Moss\"}")).unwrap();
    assert_eq!(plan.accent, "");
    assert_eq!(ambient_plan(&parse("{\"concept\": 3}")), None);
    assert_eq!(ambient_plan(&parse("[1,2]")), None);
}

#[test]
fn chat_content_needs_the_whole_path() {
    assert_eq!(chat_content(&JsonValue::Null), None);
    assert_eq!(chat_content(&parse("{\"choices\":[]}")), None);
    assert_eq!(chat_content(&parse("{\"choices\":[{\"message\":{\"content\":7}}]}")), None);
    assert_eq!(chat_content(&parse("{\"choices\":[{\"message\":{\"content\":\"hi\"}}]}")).as_deref(), Some("hi"));
}

#[test]
fn new_words_are_counted_past_the_watermark() {
    let t: Vec<String> = vec![
        "one two three four five".into(),
        "six seven".into(),
        "eight nine ten eleven twelve".into(),
    ];
    assert!(enough_new_words(&t, 0));
    assert!(!enough_new_words(&t, 1));
    assert!(!enough_new_words(&t, 3));
    assert!(!enough_new_words(&t, 10));
    let t2: Vec<String> = vec!["a b c d e".into()];
    assert!(!enough_new_words(&t2, 0));
    let t3: Vec<String> = vec!["a b c d e f g h i j k".into(), "l".into()];
    assert!(enough_new_words(&t3, 0));
}

#[test]
fn the_first_tick_is_skipped() {
    assert!(!tick_acts(0));
    assert!(tick_acts(1));
    assert_eq!(TICK_SECS, 20);
}

#[test]
fn scenes_wait_a_minute_and_twelve_seconds_after_an_answer() {
    assert_eq!(ambient_escalation(true, None, None), Escalation::Scene);
    assert_eq!(ambient_escalation(true, None, Some(59_999)), Escalation::CoolingDown);
    assert_eq!(ambient_escalation(true, None, Some(60_000)), Escalation::Scene);
    assert_eq!(ambient_escalation(true, Some(11_999), None), Escalation::JustAnswered);
    assert_eq!(ambient_escalation(true, Some(12_000), Some(90_000)), Escalation::Scene);
    assert_eq!(ambient_escalation(false, None, None), Escalation::Abstract);
}

#[test]
fn the_model_reads_the_last_lines() {
    let t: Vec<String> = (0..30).map(|i| format!("l{i}")).collect();
    let tail = recent_tail(&t);
    assert!(tail.starts_with("l5\nl6\n"));
    assert!(tail.ends_with("\nl29"));
    assert_eq!(tail.lines().count(), 25);
    assert_eq!(recent_tail(&["a".to_string(), "b".to_string()]), "a\nb");
    assert_eq!(recent_tail(&[]), "");
}

#[test]
fn prompts_list_recent_concepts() {
    assert_eq!(
        ambient_prompt("hi", &[]),
        "Recent transcript:\nhi\n\nConcepts you've already shown (avoid repeating): (none yet)\n\nOutput the JSON object."
    );
    assert!(ambient_prompt("hi", &["A".to_string(), "B".to_string()]).contains("(avoid repeating): A, B\n\n"));
}

#[test]
fn recent_concepts_keep_the_newest_four() {
    let mut r: Vec<String> = Vec::new();
    for c in ["a", "b", "c", "d", "e", "f"] {
        remember_concept(&mut r, c.to_string());
    }
    assert_eq!(r, vec!["c".to_string(), "d".to_string(), "e".to_string(), "f".to_string()]);
}

#[test]
fn escalation_needs_a_concrete_settled_subject() {
    assert_eq!(escalation(false, false, true), Escalation::Abstract);
    assert_eq!(escalation(true, true, true), Escalation::JustAnswered);
    assert_eq!(escalation(true, false, false), Escalation::CoolingDown);
    assert_eq!(escalation(true, false, true), Escalation::Scene);
}
