use freeq::policy::{
    api_channel_id, attestation_current, is_channel_op, join_status, policy_info_lines, policy_notice, PolicyNotice, new_attestation, parse_policy_command, policy_set_notice,
    random_hex_id, JoinResult, PolicyCommand,
};

fn params(ps: &[&str]) -> Vec<String> {
    ps.iter().map(|s| s.to_string()).collect()
}

#[test]
fn policy_command_forms() {
    assert!(matches!(parse_policy_command(&params(&["#c"])), PolicyCommand::Usage));
    assert!(matches!(parse_policy_command(&params(&["c", "info"])), PolicyCommand::NotAChannel));
    match parse_policy_command(&params(&["#c", "set", "Be", "nice."])) {
        PolicyCommand::SetRules { channel, rules_text } => {
            assert_eq!(channel, "#c");
            assert_eq!(rules_text.as_deref(), Some("Be nice."));
        }
        other => panic!("unexpected {other:?}"),
    }
    match parse_policy_command(&params(&["#c", "SET"])) {
        PolicyCommand::SetRules { rules_text, .. } => assert!(rules_text.is_none()),
        other => panic!("unexpected {other:?}"),
    }
    assert!(matches!(parse_policy_command(&params(&["#c", "Info"])), PolicyCommand::Info { .. }));
    assert!(matches!(parse_policy_command(&params(&["#c", "accept"])), PolicyCommand::Accept { .. }));
    assert!(matches!(parse_policy_command(&params(&["#c", "CLEAR"])), PolicyCommand::Clear { .. }));
    assert!(matches!(parse_policy_command(&params(&["#c", "frob"])), PolicyCommand::Usage));
}

#[test]
fn set_notice_text() {
    let hash = "0123456789abcdef0123";
    assert_eq!(
        policy_set_notice("#c", 3, hash, Some("fedcba9876543210")),
        "Policy set for #c (version 3, rules_hash=0123456789ab, policy_id=fedcba987654)"
    );
    assert_eq!(
        policy_set_notice("#c", 1, hash, None),
        "Policy set for #c (version 1, rules_hash=0123456789ab, policy_id=?)"
    );
    assert_eq!(
        policy_set_notice("#c", 1, hash, Some("abc")),
        "Policy set for #c (version 1, rules_hash=0123456789ab, policy_id=abc)"
    );
}

#[test]
fn random_ids_are_hex() {
    let a = random_hex_id();
    let b = random_hex_id();
    assert_eq!(a.len(), 32);
    assert!(a.chars().all(|c| c.is_ascii_hexdigit() && !c.is_ascii_uppercase()));
    assert_ne!(a, b);
}

#[test]
fn attestations_and_their_validity() {
    let a = new_attestation("#c", "p1", "h", "did:plc:u", "member", Some("j1"), false, "did:plc:srv");
    assert_eq!(a.channel_id, "#c");
    assert_eq!(a.role, "member");
    assert_eq!(a.join_id.as_deref(), Some("j1"));
    assert!(a.expires_at.is_none());
    assert_eq!(a.attestation_id.len(), 32);
    assert!(attestation_current(&a, "p1", (i64::MAX, 0)));
    assert!(!attestation_current(&a, "p2", (0, 0)));

    let c = new_attestation("#c", "p1", "h", "did:plc:u", "op", None, true, "did:plc:srv");
    assert!(c.expires_at.is_some());
    assert!(c.join_id.is_none());
    assert!(attestation_current(&c, "p1", (0, 0)));
    assert!(!attestation_current(&c, "p1", (i64::MAX, 0)));

    let mut d = new_attestation("#c", "p1", "h", "s", "r", None, false, "i");
    d.expires_at = Some("2020-01-02T00:00:00Z".into());
    assert!(attestation_current(&d, "p1", (1577923199, 0)));
    assert!(!attestation_current(&d, "p1", (1577923200, 0)));
    d.expires_at = Some("garbage".into());
    assert!(!attestation_current(&d, "p1", (0, 0)));
}

#[test]
fn api_channel_ids_get_a_hash_and_lowercase() {
    assert_eq!(api_channel_id("Rust"), "#rust");
    assert_eq!(api_channel_id("#Rust"), "#rust");
    assert_eq!(api_channel_id(""), "#");
}

#[test]
fn join_results_map_to_http_answers() {
    assert_eq!(join_status(&JoinResult::NoPolicy), (200, "open"));
    assert_eq!(join_status(&JoinResult::Pending { join_id: "j".into(), missing: vec![] }), (202, "pending"));
    assert_eq!(join_status(&JoinResult::Failed("no".into())), (403, "failed"));
}

#[test]
fn channel_ops_for_policy_commands() {
    let ops = vec!["did:plc:op".to_string()];
    assert!(is_channel_op(true, &None, None, &[]));
    assert!(is_channel_op(false, &Some("did:plc:op".into()), None, &ops));
    assert!(is_channel_op(false, &Some("did:plc:f".into()), Some("did:plc:f"), &[]));
    assert!(!is_channel_op(false, &Some("did:plc:x".into()), Some("did:plc:f"), &ops));
    assert!(!is_channel_op(false, &None, Some("did:plc:f"), &ops));
}

#[test]
fn policy_notices() {
    assert_eq!(policy_notice(&PolicyNotice::Usage), "Usage: POLICY <channel> SET|INFO|ACCEPT|CLEAR");
    assert_eq!(policy_notice(&PolicyNotice::NoPolicy { channel: "#c".into() }), "#c has no policy (open join)");
    assert_eq!(
        policy_notice(&PolicyNotice::Accepted { channel: "#c".into(), role: "member".into() }),
        "Policy accepted for #c — role: member. You may now JOIN."
    );
    assert_eq!(policy_notice(&PolicyNotice::Error("db down".into())), "Policy error: db down");
    assert_eq!(
        policy_notice(&PolicyNotice::Removed { channel: "#c".into() }),
        "Policy removed from #c — channel is now open join"
    );
}

#[test]
fn policy_info() {
    let roles = vec![("op".to_string(), "ACCEPT(abc)".to_string())];
    assert_eq!(
        policy_info_lines("#c", 2, None, "2024-01-01T00:00:00Z", "JoinTime", "ACCEPT(abc)", &roles),
        vec![
            "Policy for #c:".to_string(),
            "  Version: 2".to_string(),
            "  Policy ID: unknown".to_string(),
            "  Effective: 2024-01-01T00:00:00Z".to_string(),
            "  Validity: JoinTime".to_string(),
            "  Requirement: ACCEPT(abc)".to_string(),
            "  Role 'op': ACCEPT(abc)".to_string(),
        ]
    );
}

#[test]
fn policy_commands_need_the_framework_and_operators() {
    use_policy_step();
}

fn use_policy_step() {
    let p = |xs: &[&str]| xs.iter().map(|s| s.to_string()).collect::<Vec<String>>();
    assert!(matches!(
        freeq::policy::policy_step(&p(&["#c", "SET", "be", "nice"]), false, true),
        freeq::policy::PolicyStep::Notice(freeq::policy::PolicyNotice::NotEnabled)
    ));
    assert!(matches!(
        freeq::policy::policy_step(&p(&["#c", "SET", "be", "nice"]), true, false),
        freeq::policy::PolicyStep::NotOperator { .. }
    ));
    match freeq::policy::policy_step(&p(&["#c", "set", "be", "nice"]), true, true) {
        freeq::policy::PolicyStep::StoreRules { channel, rules_hash } => {
            assert_eq!(channel, "#c");
            assert_eq!(rules_hash, freeq::canonical::sha256_hex(b"be nice"));
        }
        _ => panic!("expected rules to store"),
    }
    assert!(matches!(
        freeq::policy::policy_step(&p(&["#c", "SET"]), true, true),
        freeq::policy::PolicyStep::Notice(freeq::policy::PolicyNotice::SetUsage)
    ));
    assert!(matches!(
        freeq::policy::policy_step(&p(&["#c", "CLEAR"]), true, false),
        freeq::policy::PolicyStep::NotOperator { .. }
    ));
    assert!(matches!(freeq::policy::policy_step(&p(&["#c", "INFO"]), true, false), freeq::policy::PolicyStep::Info { .. }));
    assert!(matches!(freeq::policy::policy_step(&p(&["c", "INFO"]), true, true), freeq::policy::PolicyStep::Notice(freeq::policy::PolicyNotice::NotAChannel)));
}

fn att(policy: &str, expires: Option<&str>) -> freeq::policy::MembershipAttestation {
    freeq::policy::MembershipAttestation {
        attestation_id: "a".into(),
        channel_id: "#c".into(),
        policy_id: policy.into(),
        authority_set_hash: "h".into(),
        subject_did: "did:plc:u".into(),
        role: "member".into(),
        issued_at: "2020-01-01T00:00:00Z".into(),
        expires_at: expires.map(|e| e.to_string()),
        join_id: None,
        signature: String::new(),
        issuer_did: "did:web:x".into(),
    }
}

#[test]
fn roles_pick_the_highest_met_requirement() {
    let roles = vec![("admin".to_string(), false), ("moderator".to_string(), true), ("op".to_string(), false)];
    assert_eq!(freeq::policy::evaluate_role(&roles), "moderator");
    assert_eq!(freeq::policy::evaluate_role(&[]), "member");
    assert_eq!(freeq::policy::evaluate_role(&[("op".to_string(), false)]), "member");
}

#[test]
fn joins_reuse_current_attestations_and_otherwise_follow_the_evaluator() {
    let now = (1_700_000_000i64, 0u32);
    let sat = freeq::policy::EvalOutcome::Satisfied;
    let no_roles: Vec<(String, bool)> = vec![];
    assert!(matches!(freeq::policy::join_plan(false, None, "p1", now, &sat, &no_roles), freeq::policy::JoinPlan::NoPolicy));
    let a = att("p1", None);
    assert!(matches!(freeq::policy::join_plan(true, Some(&a), "p1", now, &sat, &no_roles), freeq::policy::JoinPlan::Reuse));
    let a = att("p0", None);
    match freeq::policy::join_plan(true, Some(&a), "p1", now, &sat, &no_roles) {
        freeq::policy::JoinPlan::Issue { role } => assert_eq!(role, "member"),
        _ => panic!("expected an issue"),
    }
    let a = att("p1", Some("2020-01-01T00:00:00Z"));
    let failed = freeq::policy::EvalOutcome::Error("boom".into());
    match freeq::policy::join_plan(true, Some(&a), "p1", now, &failed, &no_roles) {
        freeq::policy::JoinPlan::Fail(m) => assert_eq!(m, "Evaluation error: boom"),
        _ => panic!("expected a failure"),
    }
}
