use freeq::channel::ChannelState;
use freeq::federation::{
    accepted_ops, apply_remote_mode, is_own_event, merge_founder, names_refresh, op_changes, prefix_nick,
    remote_command_line, remote_mode_text, remote_presence_line, remote_quit_line, remote_topic_allowed,
    replica_diverges,
};

fn strs(v: &[&str]) -> Vec<String> {
    v.iter().map(|s| s.to_string()).collect()
}

#[test]
fn own_events_are_skipped() {
    assert!(is_own_event("abc", "abc"));
    assert!(!is_own_event("", ""));
    assert!(!is_own_event("abc", "abd"));
}

#[test]
fn prefix_nicks() {
    assert_eq!(prefix_nick("bob!u@h"), "bob");
    assert_eq!(prefix_nick("bob"), "bob");
    assert_eq!(prefix_nick("!x"), "");
}

#[test]
fn local_founders_win() {
    assert_eq!(merge_founder(Some("did:plc:a"), Some("did:plc:b")).as_deref(), Some("did:plc:a"));
    assert_eq!(merge_founder(None, Some("did:plc:b")).as_deref(), Some("did:plc:b"));
    assert_eq!(merge_founder(None, Some("mallory")), None);
    assert_eq!(merge_founder(None, None), None);
}

#[test]
fn reported_ops_need_dids_and_authority() {
    let reported = strs(&["did:plc:a", "nope", "did:web:b"]);
    assert_eq!(accepted_ops(&reported, false, false, false, false), strs(&["did:plc:a", "did:web:b"]));
    assert_eq!(accepted_ops(&reported, false, false, false, true), Vec::<String>::new());
    assert_eq!(accepted_ops(&reported, true, false, false, true), strs(&["did:plc:a", "did:web:b"]));
    assert_eq!(accepted_ops(&reported, false, false, true, true), strs(&["did:plc:a", "did:web:b"]));
}

#[test]
fn ops_follow_did_standing_without_orphaning() {
    let members = vec![
        ("s1".to_string(), Some("did:plc:founder".to_string())),
        ("s2".to_string(), None),
        ("s3".to_string(), Some("did:plc:op".to_string())),
        ("s4".to_string(), Some("did:plc:other".to_string())),
    ];
    let ops = strs(&["did:plc:op"]);
    let (grant, revoke) = op_changes(&members, Some("did:plc:founder"), &ops, false);
    assert_eq!(grant, strs(&["s1", "s3"]));
    assert_eq!(revoke, strs(&["s2", "s4"]));
    let guests = vec![("g1".to_string(), None), ("g2".to_string(), Some("did:plc:x".to_string()))];
    let (grant, revoke) = op_changes(&guests, None, &[], false);
    assert!(grant.is_empty());
    assert!(revoke.is_empty());
    let (_, revoke) = op_changes(&guests, None, &[], true);
    assert_eq!(revoke, strs(&["g1", "g2"]));
}

#[test]
fn remote_topics_on_locked_channels() {
    assert!(remote_topic_allowed(false, false, false, false));
    assert!(!remote_topic_allowed(true, false, true, true));
    assert!(remote_topic_allowed(true, true, true, false));
    assert!(remote_topic_allowed(true, true, false, true));
    assert!(!remote_topic_allowed(true, true, false, false));
}

#[test]
fn remote_modes_apply_to_the_channel() {
    let mut ch = ChannelState::default();
    apply_remote_mode(&mut ch, "+t", None);
    assert!(ch.topic_locked);
    apply_remote_mode(&mut ch, "+m", None);
    apply_remote_mode(&mut ch, "+n", None);
    apply_remote_mode(&mut ch, "+i", None);
    assert!(ch.moderated && ch.no_ext_msg && ch.invite_only);
    apply_remote_mode(&mut ch, "-i", None);
    assert!(!ch.invite_only);
    apply_remote_mode(&mut ch, "+k", Some("secret"));
    assert_eq!(ch.key.as_deref(), Some("secret"));
    apply_remote_mode(&mut ch, "-k", Some("secret"));
    assert_eq!(ch.key, None);
    apply_remote_mode(&mut ch, "+x", None);
    apply_remote_mode(&mut ch, "", None);
    assert!(ch.topic_locked && ch.moderated);
}

#[test]
fn remote_lines() {
    assert_eq!(remote_presence_line("bob", "JOIN", "#c"), ":bob!bob@s2s JOIN #c\r\n");
    assert_eq!(remote_quit_line("bob", "bye"), ":bob!bob@s2s QUIT :bye\r\n");
    assert_eq!(remote_command_line("al", "TOPIC #c :new"), ":al!remote@s2s TOPIC #c :new\r\n");
    assert_eq!(remote_mode_text("#c", "+k", Some("pw")), "MODE #c +k pw");
    assert_eq!(remote_mode_text("#c", "-t", None), "MODE #c -t");
    assert_eq!(
        names_refresh("irc.x", "me", "#c", "@a b"),
        ":irc.x 353 me = #c :@a b\r\n:irc.x 366 me #c :End of /NAMES list\r\n"
    );
}

#[test]
fn reconciliation_adopts_divergent_values() {
    assert!(replica_diverges(None, "topic"));
    assert!(replica_diverges(Some("old"), "new"));
    assert!(!replica_diverges(Some("same"), "same"));
}

#[test]
fn own_and_repeated_peer_events_are_dropped() {
    assert!(!freeq::federation::s2s_admit("me", "me", "e1", false));
    assert!(!freeq::federation::s2s_admit("peer", "me", "e1", true));
    assert!(freeq::federation::s2s_admit("peer", "me", "", true));
    assert!(freeq::federation::s2s_admit("peer", "me", "e2", false));
    assert!(freeq::federation::s2s_admit("", "me", "e2", false));
}
