use freeq::bots::{
    architect, build_system_prompt, builder, chat_prompt, clean_project_name, clean_project_name_now, clean_response, project_name_checked, deployer,
    build_summary, code_lines, commentary, deploy_line, error_line, extract_deploy_url, file_tree_lines, say_lines,
    status_line, is_skipped_dir, log_message, outgoing_text, should_log, tool_status,
    reply_text, wrap_lines, OwnedPersona, CHAT_LOG_MAX, MAX_ITERATIONS,
};
use freeq::json::JsonValue;

#[test]
fn agent_roles() {
    assert_eq!(architect().role, "architect");
    assert_eq!(builder().role, "builder");
    assert_eq!(deployer().role, "deploy");
    assert!(deployer().color.is_none());
}

#[test]
fn deploy_url_is_first_https_line() {
    let out = "Building...\nYour app is available at:\n  https://app.example.com  \nhttps://other";
    assert_eq!(extract_deploy_url(out), Some("https://app.example.com".to_string()));
    assert_eq!(extract_deploy_url("http://insecure\nno url"), None);
    assert_eq!(extract_deploy_url(""), None);
}

#[test]
fn wrap_lines_packs_words_by_bytes() {
    assert_eq!(wrap_lines("short\nlines", 10), vec!["short", "lines"]);
    assert_eq!(wrap_lines("aaa bbb ccc ddd", 8), vec!["aaa bbb", "ccc ddd"]);
    assert_eq!(wrap_lines("toolongword x", 5), vec!["toolongword", "x"]);
    assert_eq!(wrap_lines("a\r\nb\n", 10), vec!["a", "b"]);
    assert!(wrap_lines("", 10).is_empty());
}

#[test]
fn system_prompt_mentions_persona_and_topic() {
    let p = OwnedPersona { nick: "zed".into(), realname: "Zed".into(), personality: "grumpy".into() };
    let s = build_system_prompt(&p, "rust");
    assert!(s.starts_with("You are zed in an IRC chat channel."));
    assert!(s.contains("grumpy"));
    assert!(s.contains("The channel's general vibe: rust"));
    assert!(s.ends_with("start a new topic naturally."));
}

#[test]
fn clean_response_strips_self_prefix_and_quotes() {
    assert_eq!(clean_response("  <eliza> hello there ", "eliza"), "hello there");
    assert_eq!(clean_response("eliza: hi", "eliza"), "hi");
    assert_eq!(clean_response("[eliza] yo", "eliza"), "yo");
    assert_eq!(clean_response("\"quoted line\"", "bot"), "quoted line");
    assert_eq!(clean_response("'single'", "bot"), "single");
    // Two bytes or fewer: quotes stay.
    assert_eq!(clean_response("\"\"", "bot"), "\"\"");
    // Prefixes are stripped in order, each at most once.
    assert_eq!(clean_response("<b> b: [b] x", "b"), "x");
    assert_eq!(clean_response("b: <b> x", "b"), "<b> x");
}

#[test]
fn clean_response_caps_long_lines_at_a_word() {
    let long = "word ".repeat(100); // 500 bytes
    let out = clean_response(&long, "bot");
    assert!(out.len() <= 400);
    // Cut at 400 bytes ("word " x 80), then back to the last space.
    assert_eq!(out, "word ".repeat(79) + "word");
    let nospace = "x".repeat(450);
    assert_eq!(clean_response(&nospace, "bot"), "x".repeat(400));
}

#[test]
fn project_names_are_cleaned() {
    assert_eq!(clean_project_name("  My Cool_App!  ", 0), "mycoolapp");
    assert_eq!(clean_project_name("todo-list", 0), "todo-list");
    assert_eq!(clean_project_name("a-very-long-project-name-indeed", 0), "a-very-long-project-");
    assert_eq!(clean_project_name("!!!", 1_700_000_123), "proto-123");
    assert_eq!(clean_project_name("", 98765), "proto-8765");
}

#[test]
fn skipped_directories() {
    assert!(is_skipped_dir(".git"));
    assert!(is_skipped_dir("node_modules"));
    assert!(is_skipped_dir("target"));
    assert!(is_skipped_dir("__pycache__"));
    assert!(!is_skipped_dir("src"));
    assert!(!is_skipped_dir("targets"));
}

#[test]
fn chat_prompts_mark_the_bots_own_lines() {
    assert_eq!(chat_prompt(&[], "bot"), "The channel has been quiet. Say something to get things going.");
    let log = vec![("alice".to_string(), "hi".to_string()), ("bot".to_string(), "hey".to_string())];
    assert_eq!(
        chat_prompt(&log, "bot"),
        "Recent chat:\n<alice> hi\n<bot> hey  [you]\n\nWrite your next message as bot:"
    );
}

#[test]
fn only_others_channel_messages_are_logged() {
    assert!(should_log("alice", "#chat", "bot"));
    assert!(!should_log("bot", "#chat", "bot"));
    assert!(!should_log("alice", "bot", "bot"));
    let mut log = std::collections::VecDeque::new();
    for i in 0..65 {
        log_message(&mut log, format!("n{i}"), "m".to_string());
    }
    assert_eq!(log.len(), CHAT_LOG_MAX);
    assert_eq!(log.front().unwrap().0, "n5");
    assert_eq!(log.back().unwrap().0, "n64");
}

#[test]
fn slash_me_becomes_an_action() {
    assert_eq!(outgoing_text("/me sighs"), (true, "\x01ACTION sighs\x01".to_string()));
    assert_eq!(outgoing_text("hello"), (false, "hello".to_string()));
    assert_eq!(outgoing_text("/me"), (false, "/me".to_string()));
}

#[test]
fn builder_commentary_is_trimmed_and_cut() {
    assert_eq!(commentary(&[]), None);
    assert_eq!(commentary(&["  ".to_string(), "\n".to_string()]), None);
    assert_eq!(commentary(&[" Writing ".to_string(), "files.".to_string()]).as_deref(), Some("Writing files."));
    let long = "a".repeat(400);
    assert_eq!(commentary(&[long]), Some(format!("{}...", "a".repeat(297))));
    let exact = "b".repeat(300);
    assert_eq!(commentary(&[exact.clone()]), Some(exact));
}

fn tool_input(k: &str, v: &str) -> JsonValue {
    JsonValue::Object(vec![(k.to_string(), JsonValue::Str(v.to_string()))])
}

#[test]
fn tool_activity_is_shown_in_the_channel() {
    let st = tool_status("write_file", &tool_input("path", "app.py")).unwrap();
    assert_eq!((st.agent.role.as_str(), st.icon.as_str(), st.text.as_str()), ("builder", "✏️", "Writing app.py"));
    let st = tool_status("write_file", &JsonValue::Null).unwrap();
    assert_eq!(st.text, "Writing ?");
    let cmd = "x".repeat(100);
    let st = tool_status("shell", &tool_input("command", &cmd)).unwrap();
    assert_eq!(st.text, format!("Running: {}...", "x".repeat(77)));
    assert_eq!(st.icon, "⚙️");
    let st = tool_status("deploy", &JsonValue::Null).unwrap();
    assert_eq!((st.agent.role.as_str(), st.text.as_str()), ("deploy", "Deploying to miren..."));
    let st = tool_status("list_files", &JsonValue::Null).unwrap();
    assert_eq!((st.icon.as_str(), st.text.as_str()), ("📁", "Listing files"));
    assert!(tool_status("read_file", &JsonValue::Null).is_none());
}

#[test]
fn builds_end_with_a_summary() {
    let s = build_summary(Some("https://app.example"));
    assert_eq!((s.agent.role.as_str(), s.icon.as_str(), s.text.as_str()), ("deploy", "✅", "Prototype ready: https://app.example"));
    let s = build_summary(None);
    assert_eq!((s.agent.role.as_str(), s.text.as_str()), ("builder", "Build complete but no deploy URL found"));
    assert_eq!(MAX_ITERATIONS, 20);
}

#[test]
fn channel_output_lines() {
    let b = builder();
    assert_eq!(status_line(&b, "🔍", "Analyzing"), "[builder] 🔍 Analyzing");
    assert_eq!(deploy_line(&deployer(), "https://x"), "[deploy] 🚀 Deployed → https://x");
    assert_eq!(error_line(&b, "boom"), "[builder] ❌ boom");
    assert_eq!(say_lines(&b, "one\ntwo"), vec!["[builder] one".to_string(), "[builder] two".to_string()]);
    let long = vec!["word"; 150].join(" ");
    let said = say_lines(&b, &long);
    assert!(said.len() > 1);
    assert!(said.iter().all(|l| l.len() <= "[builder] ".len() + 400));
}

#[test]
fn file_trees_show_twenty_files() {
    let files: Vec<String> = (0..23).map(|i| format!("f{i}.py")).collect();
    let out = file_tree_lines(&builder(), &files);
    assert_eq!(out.len(), 22);
    assert_eq!(out[0], "[builder] 📁 Project files (23)");
    assert_eq!(out[1], "  f0.py");
    assert_eq!(out[20], "  f19.py");
    assert_eq!(out[21], "  ... and 3 more");
    let few = file_tree_lines(&builder(), &["a".to_string()]);
    assert_eq!(few, vec!["[builder] 📁 Project files (1)".to_string(), "  a".to_string()]);
}

#[test]
fn code_blocks_are_capped() {
    let out = code_lines(&builder(), "app.py", "a\nb\nc\n", 2);
    assert_eq!(
        out,
        vec![
            "[builder] 📄 app.py (3 lines)".to_string(),
            "  a".to_string(),
            "  b".to_string(),
            "  ... (1 more lines)".to_string(),
        ]
    );
    assert_eq!(code_lines(&builder(), "x", "", 5), vec!["[builder] 📄 x (0 lines)".to_string()]);
}

fn block(ty: &str, text: Option<&str>) -> JsonValue {
    let mut ms = vec![("type".to_string(), JsonValue::Str(ty.to_string()))];
    if let Some(t) = text {
        ms.push(("text".to_string(), JsonValue::Str(t.to_string())));
    }
    JsonValue::Object(ms)
}

#[test]
fn model_replies_concatenate_their_text_blocks() {
    let reply = JsonValue::Object(vec![(
        "content".to_string(),
        JsonValue::Array(vec![block("text", Some("Hello, ")), block("tool_use", None), block("text", Some("world"))]),
    )]);
    assert_eq!(reply_text(&reply).as_deref(), Some("Hello, world"));
    let bad = JsonValue::Object(vec![("content".to_string(), JsonValue::Array(vec![block("text", None)]))]);
    assert_eq!(reply_text(&bad), None);
    assert_eq!(reply_text(&JsonValue::Object(vec![])), None);
    let empty = JsonValue::Object(vec![("content".to_string(), JsonValue::Array(vec![]))]);
    assert_eq!(reply_text(&empty).as_deref(), Some(""));
}

#[test]
fn blank_project_names_get_a_timestamped_default() {
    let n = clean_project_name_now("!!!");
    assert!(n.starts_with("proto-"));
    assert!(n["proto-".len()..].parse::<u32>().unwrap() < 10000);
    assert_eq!(clean_project_name_now("Todo App"), "todoapp");
}

#[test]
fn checked_project_names_refuse_a_cut_inside_a_character() {
    assert_eq!(project_name_checked("  My App ", 7).as_deref(), Some("myapp"));
    assert_eq!(project_name_checked("!!!", 12345).as_deref(), Some("proto-2345"));
    assert_eq!(project_name_checked("aaaaaaaaaaaaaaaaaaaaaaaaa", 1).as_deref(), Some("aaaaaaaaaaaaaaaaaaaa"));
    assert_eq!(project_name_checked("aaaaaaaaaaaaaaaaaaaé", 1), None);
}

#[test]
fn the_build_loop_stops_after_twenty_turns_and_records_deploys() {
    use_build_loop();
}

fn use_build_loop() {
    let mut st = freeq::bots::BuildState { iteration: 0, deployed_url: None, finished: false };
    for _ in 0..20 {
        let (next, a) = freeq::bots::build_step(st, &freeq::bots::BuildEvent::BeginTurn);
        assert!(matches!(a, freeq::bots::BuildAction::CallModel));
        st = next;
    }
    let (st, a) = freeq::bots::build_step(st, &freeq::bots::BuildEvent::BeginTurn);
    assert!(matches!(a, freeq::bots::BuildAction::StopMaxIterations));
    assert!(st.finished);
    let st = freeq::bots::BuildState { iteration: 3, deployed_url: None, finished: false };
    let (st, a) = freeq::bots::build_step(st, &freeq::bots::BuildEvent::ToolOutput {
        name: "deploy".to_string(),
        output: Ok("Deploying...\nhttps://app.example.com\n".to_string()),
    });
    match a {
        freeq::bots::BuildAction::Deployed(u) => assert_eq!(u, "https://app.example.com"),
        _ => panic!("expected a deploy"),
    }
    assert_eq!(st.deployed_url.as_deref(), Some("https://app.example.com"));
    let (st, a) = freeq::bots::build_step(st, &freeq::bots::BuildEvent::ToolOutput {
        name: "shell".to_string(),
        output: Err("boom".to_string()),
    });
    match a {
        freeq::bots::BuildAction::ToolFailed(t) => assert_eq!(t, "Tool shell failed: boom"),
        _ => panic!("expected a failure"),
    }
    let (st, a) = freeq::bots::build_step(st, &freeq::bots::BuildEvent::Response { tool_calls: 0 });
    assert!(matches!(a, freeq::bots::BuildAction::Done));
    assert!(st.finished);
}
