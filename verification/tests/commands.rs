use freeq::commands::{
    decide_invite, decide_kick, decide_topic, invite_line, kick_line, part_line, topic_line, InviteAction, InviteTarget,
    KickAction, KickTarget, OpRefusal, TopicAction,
};

#[test]
fn only_operators_on_the_channel_kick() {
    assert_eq!(decide_kick(false, true, KickTarget::Local), KickAction::Refuse(OpRefusal::NotOnChannel));
    assert_eq!(decide_kick(true, false, KickTarget::Local), KickAction::Refuse(OpRefusal::NotOperator));
    assert_eq!(decide_kick(true, true, KickTarget::Local), KickAction::RemoveLocal);
    assert_eq!(decide_kick(true, true, KickTarget::Remote), KickAction::RemoveRemote);
    assert_eq!(decide_kick(true, true, KickTarget::NotPresent), KickAction::TargetNotOnChannel);
}

#[test]
fn invites_record_the_right_keys() {
    let local = InviteTarget::Local { session_id: "s9".into(), did: Some("did:plc:bob".into()) };
    match decide_invite(true, false, false, &local, "bob") {
        InviteAction::Record { keys, notify_target } => {
            assert_eq!(keys, vec!["s9".to_string(), "did:plc:bob".to_string()]);
            assert!(notify_target);
        }
        other => panic!("unexpected {other:?}"),
    }
    let remote = InviteTarget::Remote { did: None };
    match decide_invite(true, true, true, &remote, "guest") {
        InviteAction::Record { keys, notify_target } => {
            assert_eq!(keys, vec!["nick:guest".to_string()]);
            assert!(!notify_target);
        }
        other => panic!("unexpected {other:?}"),
    }
    let remote = InviteTarget::Remote { did: Some("did:plc:x".into()) };
    match decide_invite(true, true, false, &remote, "x") {
        InviteAction::Record { keys, .. } => assert_eq!(keys, vec!["did:plc:x".to_string(), "nick:x".to_string()]),
        other => panic!("unexpected {other:?}"),
    }
}

#[test]
fn invite_refusals() {
    let t = InviteTarget::Unknown;
    assert!(matches!(decide_invite(false, true, false, &t, "n"), InviteAction::Refuse(OpRefusal::NotOnChannel)));
    assert!(matches!(decide_invite(true, false, true, &t, "n"), InviteAction::Refuse(OpRefusal::NotOperator)));
    assert!(matches!(decide_invite(true, false, false, &t, "n"), InviteAction::NoSuchNick));
}

#[test]
fn locked_topics_need_an_operator() {
    assert_eq!(decide_topic(false, true, false, true), TopicAction::Refuse(OpRefusal::NotOnChannel));
    assert_eq!(decide_topic(true, false, true, true), TopicAction::Refuse(OpRefusal::NotOperator));
    assert_eq!(decide_topic(true, false, true, false), TopicAction::Query);
    assert_eq!(decide_topic(true, false, false, true), TopicAction::Change);
    assert_eq!(decide_topic(true, true, true, true), TopicAction::Change);
}

#[test]
fn broadcast_lines() {
    assert_eq!(kick_line("a!u@h", "#c", "bob", "bye"), ":a!u@h KICK #c bob :bye\r\n");
    assert_eq!(invite_line("a!u@h", "bob", "#c"), ":a!u@h INVITE bob #c\r\n");
    assert_eq!(topic_line("a!u@h", "#c", "hello world"), ":a!u@h TOPIC #c :hello world\r\n");
    assert_eq!(part_line("a!u@h", "#c"), ":a!u@h PART #c\r\n");
}

#[test]
fn topic_steps_store_a_change_and_keep_the_topic_otherwise() {
    let (t, a) = freeq::commands::topic_step(None, true, false, false, Some("hello"), "al", 42);
    assert_eq!(a, freeq::commands::TopicAction::Change);
    let t = t.unwrap();
    assert_eq!((t.text.as_str(), t.set_by.as_str(), t.set_at), ("hello", "al", 42));
    let old = freeq::channel::TopicInfo::new_at("old".into(), "bo".into(), 1);
    let (t, a) = freeq::commands::topic_step(Some(old), true, false, true, Some("new"), "al", 42);
    assert!(matches!(a, freeq::commands::TopicAction::Refuse(_)));
    assert_eq!(t.unwrap().text, "old");
}
