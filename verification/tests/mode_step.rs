use freeq::channel::BanEntry;
use freeq::mode_step::{mode_step, MemberTarget, ModeChannel, ModeRequest};

fn chan() -> ModeChannel {
    ModeChannel {
        members: vec!["op".to_string(), "u".to_string()],
        ops: vec!["op".to_string()],
        voiced: vec![],
        founder_did: Some("did:plc:f".to_string()),
        did_ops: vec!["did:plc:f".to_string()],
        invites: vec!["x".to_string()],
        bans: vec![],
        key: None,
        invite_only: true,
        topic_locked: false,
        no_ext_msg: false,
        moderated: false,
    }
}

fn req(session: &str, modes: Option<&str>, arg: Option<&str>) -> ModeRequest {
    ModeRequest {
        channel: "#c".to_string(),
        session_id: session.to_string(),
        nick: "nick".to_string(),
        hostmask: "nick!u@h".to_string(),
        modes: modes.map(|m| m.to_string()),
        arg: arg.map(|a| a.to_string()),
    }
}

#[test]
fn outsiders_and_non_operators_change_nothing() {
    let r = mode_step(chan(), &req("zz", Some("+t"), None), &MemberTarget::NotPresent, 1);
    assert_eq!(r.replies[0].command, "442");
    assert!(!r.channel.topic_locked);
    let r = mode_step(chan(), &req("u", Some("+t"), None), &MemberTarget::NotPresent, 1);
    assert_eq!(r.replies[0].command, "482");
    assert!(r.lines.is_empty() && !r.channel.topic_locked);
    let r = mode_step(chan(), &req("u", None, None), &MemberTarget::NotPresent, 1);
    assert_eq!(r.replies[0].command, "324");
    assert_eq!(r.replies[0].params[2], "+i");
}

#[test]
fn flags_keys_and_bans_apply_in_order() {
    let r = mode_step(chan(), &req("op", Some("+tn-i"), None), &MemberTarget::NotPresent, 1);
    assert!(r.channel.topic_locked && r.channel.no_ext_msg && !r.channel.invite_only);
    assert!(r.channel.invites.is_empty());
    assert_eq!(r.lines, vec![
        "nick!u@h MODE #c +t\r\n".replace("nick", ":nick"),
        ":nick!u@h MODE #c +n\r\n".to_string(),
        ":nick!u@h MODE #c -i\r\n".to_string(),
    ]);
    let r = mode_step(chan(), &req("op", Some("+k"), Some("pw")), &MemberTarget::NotPresent, 1);
    assert_eq!(r.channel.key.as_deref(), Some("pw"));
    let r = mode_step(chan(), &req("op", Some("+b"), Some("bad!*@*")), &MemberTarget::NotPresent, 77);
    assert_eq!(r.channel.bans.len(), 1);
    assert_eq!((r.channel.bans[0].mask.as_str(), r.channel.bans[0].set_by.as_str(), r.channel.bans[0].set_at), ("bad!*@*", "nick!u@h", 77));
    let mut c = chan();
    c.bans.push(BanEntry::new_at("a".into(), "s".into(), 5));
    let r = mode_step(c, &req("op", Some("+b"), None), &MemberTarget::NotPresent, 1);
    let cmds: Vec<&str> = r.replies.iter().map(|x| x.command.as_str()).collect();
    assert_eq!(cmds, vec!["367", "368"]);
    assert_eq!(r.replies[0].params[4], "5");
    let r = mode_step(chan(), &req("op", Some("+kx"), None), &MemberTarget::NotPresent, 1);
    assert_eq!(r.replies[0].command, "461");
    let r = mode_step(chan(), &req("op", Some("+z"), None), &MemberTarget::NotPresent, 1);
    assert_eq!(r.replies[0].command, "472");
    assert_eq!(r.replies[0].params[1], "z");
}

#[test]
fn operator_changes_follow_the_target() {
    let t = MemberTarget::Local { session: "u".to_string(), did: Some("did:plc:u".to_string()) };
    let r = mode_step(chan(), &req("op", Some("+o"), Some("unick")), &t, 1);
    assert_eq!(r.channel.ops, vec!["op".to_string(), "u".to_string()]);
    assert!(r.channel.did_ops.contains(&"did:plc:u".to_string()));
    assert_eq!(r.lines, vec![":nick!u@h MODE #c +o unick\r\n".to_string()]);
    let t = MemberTarget::Local { session: "op".to_string(), did: Some("did:plc:f".to_string()) };
    let r = mode_step(chan(), &req("op", Some("-o"), Some("me")), &t, 1);
    assert_eq!(r.channel.ops, vec!["op".to_string()]);
    assert_eq!(r.channel.did_ops, vec!["did:plc:f".to_string()]);
    let mut c = chan();
    c.ops.push("u".to_string());
    let t = MemberTarget::Local { session: "u".to_string(), did: Some("did:plc:u".to_string()) };
    let r = mode_step(c, &req("op", Some("-o"), Some("unick")), &t, 1);
    assert_eq!(r.channel.ops, vec!["op".to_string()]);
    let r = mode_step(chan(), &req("op", Some("-o"), Some("far")), &MemberTarget::Remote { did: Some("did:plc:f".to_string()) }, 1);
    assert_eq!(r.remote_op, None);
    let r = mode_step(chan(), &req("op", Some("+o"), Some("far")), &MemberTarget::Remote { did: None }, 1);
    assert_eq!(r.remote_op, Some(true));
    let r = mode_step(chan(), &req("op", Some("+ot"), Some("ghost")), &MemberTarget::NotPresent, 1);
    assert_eq!(r.replies[0].command, "441");
    assert!(!r.channel.topic_locked);
}
