use freeq::sdk::{
    message_event, names_event, names_member, now_millis, split_action, tag_message_event, FreeqError,
    FreeqEvent,
};
use freeq::tags::TagMap;

#[test]
fn names_prefixes_set_flags() {
    let m = names_member("@alice");
    assert_eq!((m.nick.as_str(), m.is_op, m.is_halfop, m.is_voiced), ("alice", true, false, false));
    let m = names_member("%bob");
    assert_eq!((m.nick.as_str(), m.is_op, m.is_halfop, m.is_voiced), ("bob", false, true, false));
    let m = names_member("+carol");
    assert_eq!((m.nick.as_str(), m.is_op, m.is_halfop, m.is_voiced), ("carol", false, false, true));
    let m = names_member("dave");
    assert_eq!((m.nick.as_str(), m.is_op, m.is_halfop, m.is_voiced), ("dave", false, false, false));
    let m = names_member("");
    assert_eq!(m.nick, "");
    assert!(m.away_msg.is_none());
}

#[test]
fn names_event_keeps_order() {
    let nicks = vec!["@a".to_string(), "b".to_string()];
    match names_event("#c", &nicks) {
        FreeqEvent::Names { channel, members } => {
            assert_eq!(channel, "#c");
            assert_eq!(members.len(), 2);
            assert_eq!(members[0].nick, "a");
            assert!(members[0].is_op);
            assert_eq!(members[1].nick, "b");
            assert!(members.iter().all(|m| m.away_msg.is_none()));
        }
        other => panic!("unexpected {other:?}"),
    }
}

#[test]
fn action_framing_is_stripped() {
    assert_eq!(split_action("\x01ACTION waves\x01"), (true, "waves".to_string()));
    assert_eq!(split_action("hello"), (false, "hello".to_string()));
    // Not closed: not an action, text unchanged.
    assert_eq!(split_action("\x01ACTION waves"), (false, "\x01ACTION waves".to_string()));
    // Repeated openers and closers all go.
    assert_eq!(
        split_action("\x01ACTION \x01ACTION x\x01\x01"),
        (true, "x".to_string())
    );
    assert_eq!(split_action("\x01ACTION \x01"), (true, String::new()));
}

#[test]
fn message_event_reads_tags_and_time() {
    let tags = TagMap::from_pairs(&[
        ("msgid", "m1"),
        ("+reply", "m0"),
        ("+draft/edit", "m-1"),
        ("batch", "b7"),
        ("time", "2020-01-02T00:00:00.250Z"),
    ]);
    match message_event("alice", "#room", "\x01ACTION hi\x01", &tags, 42) {
        FreeqEvent::Message { msg } => {
            assert_eq!(msg.from_nick, "alice");
            assert_eq!(msg.target, "#room");
            assert_eq!(msg.text, "hi");
            assert!(msg.is_action);
            assert_eq!(msg.msgid.as_deref(), Some("m1"));
            assert_eq!(msg.reply_to.as_deref(), Some("m0"));
            assert_eq!(msg.replaces_msgid.as_deref(), Some("m-1"));
            assert_eq!(msg.edit_of.as_deref(), Some("m-1"));
            assert_eq!(msg.batch_id.as_deref(), Some("b7"));
            assert_eq!(msg.timestamp_ms, 1_577_923_200_250);
        }
        other => panic!("unexpected {other:?}"),
    }
}

#[test]
fn message_event_falls_back_to_now() {
    let tags = TagMap::from_pairs(&[("time", "yesterday")]);
    match message_event("a", "b", "plain", &tags, 42) {
        FreeqEvent::Message { msg } => {
            assert_eq!(msg.timestamp_ms, 42);
            assert!(!msg.is_action);
            assert!(msg.msgid.is_none());
        }
        other => panic!("unexpected {other:?}"),
    }
}

#[test]
fn tag_message_lists_every_tag() {
    let tags = TagMap::from_pairs(&[("+typing", "active"), ("+react", "x")]);
    match tag_message_event("a", "#c", &tags) {
        FreeqEvent::TagMsg { msg } => {
            assert_eq!(msg.from, "a");
            assert_eq!(msg.target, "#c");
            let mut got: Vec<(String, String)> =
                msg.tags.iter().map(|t| (t.key.clone(), t.value.clone())).collect();
            got.sort();
            assert_eq!(
                got,
                vec![
                    ("+react".to_string(), "x".to_string()),
                    ("+typing".to_string(), "active".to_string())
                ]
            );
        }
        other => panic!("unexpected {other:?}"),
    }
}

#[test]
fn error_messages() {
    assert_eq!(FreeqError::ConnectionFailed.message(), "Connection failed");
    assert_eq!(FreeqError::NotConnected.message(), "Not connected");
    assert_eq!(FreeqError::SendFailed.message(), "Send failed");
    assert_eq!(FreeqError::InvalidArgument.message(), "Invalid argument");
}

#[test]
fn the_clock_reads_after_2020() {
    assert!(now_millis() > 1_577_836_800_000);
}
