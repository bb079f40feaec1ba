use freeq::s2s::{s2s_step, FedChannel, PeerEvent, RemoteEntry};

fn chan(locked: bool) -> FedChannel {
    FedChannel {
        remote: vec![RemoteEntry { nick: "op".into(), did: None, is_op: true }],
        founder_did: Some("did:plc:f".into()),
        did_ops: vec!["did:plc:o".into()],
        topic: None,
        topic_locked: locked,
    }
}

#[test]
fn own_and_repeated_events_change_nothing() {
    let ev = PeerEvent::Part { nick: "op".into() };
    let r = s2s_step(Some(chan(false)), "me", "me", "e1", false, &ev, false).unwrap();
    assert_eq!(r.remote.len(), 1);
    let r = s2s_step(Some(chan(false)), "peer", "me", "e1", true, &ev, false).unwrap();
    assert_eq!(r.remote.len(), 1);
    let r = s2s_step(Some(chan(false)), "peer", "me", "e1", false, &ev, false).unwrap();
    assert!(r.remote.is_empty());
}

#[test]
fn joins_replace_the_member_of_that_nick() {
    let ev = PeerEvent::Join { nick: "op".into(), did: Some("did:plc:x".into()), is_op: false };
    let r = s2s_step(Some(chan(false)), "peer", "me", "e2", false, &ev, false).unwrap();
    assert_eq!(r.remote.len(), 1);
    assert_eq!(r.remote[0].did.as_deref(), Some("did:plc:x"));
    assert!(!r.remote[0].is_op);
    let r = s2s_step(None, "peer", "me", "e3", false, &PeerEvent::Join { nick: "z".into(), did: None, is_op: false }, false).unwrap();
    assert_eq!(r.remote.len(), 1);
    assert!(s2s_step(None, "peer", "me", "e4", false, &PeerEvent::Part { nick: "z".into() }, false).is_none());
}

#[test]
fn locked_topics_need_a_remote_operator_or_standing() {
    let t = |by: &str| PeerEvent::Topic { topic: "hello".into(), set_by: by.into() };
    let r = s2s_step(Some(chan(true)), "peer", "me", "", false, &t("op"), false).unwrap();
    assert_eq!(r.topic.as_ref().map(|p| p.0.as_str()), Some("hello"));
    let r = s2s_step(Some(chan(true)), "peer", "me", "", false, &t("stranger"), false).unwrap();
    assert!(r.topic.is_none());
    let r = s2s_step(Some(chan(false)), "peer", "me", "", false, &t("stranger"), false).unwrap();
    assert_eq!(r.topic.as_ref().map(|p| p.1.as_str()), Some("stranger"));
    let mut c = chan(true);
    c.remote.push(RemoteEntry { nick: "dido".into(), did: Some("did:plc:o".into()), is_op: false });
    let r = s2s_step(Some(c), "peer", "me", "", false, &t("dido"), false).unwrap();
    assert!(r.topic.is_some());
}

#[test]
fn creation_keeps_an_existing_founder() {
    let ev = PeerEvent::Created { founder_did: Some("did:plc:other".into()), did_ops: vec![] };
    let r = s2s_step(Some(chan(false)), "peer", "me", "e5", false, &ev, false).unwrap();
    assert_eq!(r.founder_did.as_deref(), Some("did:plc:f"));
    let r = s2s_step(None, "peer", "me", "e6", false, &ev, false).unwrap();
    assert_eq!(r.founder_did.as_deref(), Some("did:plc:other"));
    let r = s2s_step(None, "peer", "me", "e7", false, &PeerEvent::Created { founder_did: Some("nope".into()), did_ops: vec![] }, false).unwrap();
    assert!(r.founder_did.is_none());
}

#[test]
fn creation_grants_reported_did_operators_with_authority() {
    let ev = PeerEvent::Created {
        founder_did: Some("did:plc:f2".into()),
        did_ops: vec!["did:plc:a".into(), "bogus".into()],
    };
    let r = s2s_step(None, "peer", "me", "e8", false, &ev, true).unwrap();
    assert_eq!(r.did_ops, vec!["did:plc:a".to_string()]);
    let ev = PeerEvent::Created { founder_did: None, did_ops: vec!["did:plc:a".into()] };
    let r = s2s_step(None, "peer", "me", "e9", false, &ev, true).unwrap();
    assert!(r.did_ops.is_empty());
    let r = s2s_step(None, "peer", "me", "e10", false, &ev, false).unwrap();
    assert_eq!(r.did_ops, vec!["did:plc:a".to_string()]);
}
