use freeq::channel::BanEntry;
use freeq::join::{join_step, JoinChannel, JoinRequest, PolicyAnswer};

fn req(session: &str, nick: &str, did: Option<&str>, key: Option<&str>) -> JoinRequest {
    JoinRequest {
        channel: "#c".to_string(),
        session_id: session.to_string(),
        nick: nick.to_string(),
        did: did.map(|d| d.to_string()),
        hostmask: format!("{nick}!u@h"),
        key: key.map(|k| k.to_string()),
    }
}

fn existing() -> JoinChannel {
    JoinChannel {
        members: vec!["s1".to_string()],
        ops: vec!["s1".to_string()],
        voiced: vec![],
        founder_did: Some("did:plc:f".to_string()),
        did_ops: vec!["did:plc:f".to_string()],
        invites: vec![],
        bans: vec![],
        key: None,
        invite_only: false,
        no_ext_msg: true,
        topic_locked: true,
        created_at: 5,
        has_topic: false,
        has_remote_members: false,
        has_remote_op: false,
    }
}

#[test]
fn a_new_channel_makes_the_founder_an_operator() {
    let r = join_step(None, &req("s9", "alice", Some("did:plc:a"), None), &PolicyAnswer::NoPolicy, 1000);
    assert!(r.refusal.is_none());
    assert!(r.is_new && r.is_op);
    let c = r.channel.unwrap();
    assert_eq!(c.members, vec!["s9".to_string()]);
    assert_eq!(c.ops, vec!["s9".to_string()]);
    assert_eq!(c.founder_did.as_deref(), Some("did:plc:a"));
    assert_eq!(c.did_ops, vec!["did:plc:a".to_string()]);
    assert!(c.no_ext_msg && c.topic_locked);
    assert_eq!(c.created_at, 1000);
}

#[test]
fn a_wrong_key_is_refused_with_475() {
    let mut c = existing();
    c.key = Some("k".to_string());
    let r = join_step(Some(c), &req("s2", "bob", None, Some("x")), &PolicyAnswer::NoPolicy, 1);
    let rep = r.refusal.unwrap();
    assert_eq!(rep.command, "475");
    assert_eq!(rep.params, vec!["bob".to_string(), "#c".to_string(), "Cannot join channel (+k)".to_string()]);
    assert_eq!(r.channel.unwrap().members, vec!["s1".to_string()]);
    let mut c = existing();
    c.key = Some("k".to_string());
    let r = join_step(Some(c), &req("s2", "bob", None, Some("k")), &PolicyAnswer::NoPolicy, 1);
    assert!(r.refusal.is_none());
    assert!(!r.is_op);
}

#[test]
fn a_banned_user_is_refused_with_474() {
    let mut c = existing();
    c.bans.push(BanEntry::new_at("bob!*@*".to_string(), "alice".to_string(), 3));
    let r = join_step(Some(c), &req("s2", "bob", None, None), &PolicyAnswer::NoPolicy, 1);
    assert_eq!(r.refusal.unwrap().command, "474");
}

#[test]
fn invite_only_needs_and_uses_up_an_invite() {
    let mut c = existing();
    c.invite_only = true;
    let r = join_step(Some(c), &req("s2", "bob", None, None), &PolicyAnswer::NoPolicy, 1);
    assert_eq!(r.refusal.unwrap().command, "473");
    let mut c = existing();
    c.invite_only = true;
    c.invites = vec!["nick:bob".to_string(), "other".to_string()];
    let r = join_step(Some(c), &req("s2", "bob", None, None), &PolicyAnswer::NoPolicy, 1);
    assert!(r.refusal.is_none());
    let c = r.channel.unwrap();
    assert_eq!(c.invites, vec!["other".to_string()]);
    assert_eq!(c.members, vec!["s1".to_string(), "s2".to_string()]);
}

#[test]
fn a_policy_refuses_guests_and_unattested_users() {
    let r = join_step(Some(existing()), &req("s2", "bob", None, None), &PolicyAnswer::NotMember, 1);
    let rep = r.refusal.unwrap();
    assert_eq!(rep.command, "477");
    assert!(rep.params[2].contains("authentication"));
    let r = join_step(Some(existing()), &req("s2", "bob", Some("did:plc:b"), None), &PolicyAnswer::NotMember, 1);
    assert!(r.refusal.unwrap().params[2].contains("policy acceptance"));
    let r = join_step(Some(existing()), &req("s2", "bob", Some("did:plc:b"), None), &PolicyAnswer::EngineFailed, 1);
    assert!(r.refusal.is_none());
}

#[test]
fn policy_roles_and_did_standing_bring_modes() {
    let r = join_step(Some(existing()), &req("s2", "bob", Some("did:plc:b"), None), &PolicyAnswer::Member("moderator".to_string()), 1);
    assert!(r.is_op);
    let c = r.channel.unwrap();
    assert!(c.did_ops.contains(&"did:plc:b".to_string()));
    let r = join_step(Some(existing()), &req("s2", "bob", Some("did:plc:b"), None), &PolicyAnswer::Member("speaker".to_string()), 1);
    assert!(!r.is_op);
    assert_eq!(r.channel.unwrap().voiced, vec!["s2".to_string()]);
    let r = join_step(Some(existing()), &req("s3", "fred", Some("did:plc:f"), None), &PolicyAnswer::NoPolicy, 1);
    assert!(r.is_op);
}

#[test]
fn the_first_user_of_an_orphaned_channel_is_opped() {
    let mut c = existing();
    c.members = vec![];
    c.ops = vec![];
    c.has_topic = true;
    let r = join_step(Some(c), &req("s2", "bob", None, None), &PolicyAnswer::NoPolicy, 1);
    assert!(!r.is_new && r.is_op);
}
