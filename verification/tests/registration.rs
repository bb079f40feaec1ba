use freeq::registration::{
    ghost_quit_line, nick_taken, sessions_to_ghost, GHOST_CLOSE, account_line, guest_nick_for, lines_of, motd_lines, nick_claim_refused, random_guest_nick, reclaim_nick, registration_ready,
    welcome_text, yourhost_text,
};

#[test]
fn registration_waits_for_negotiation_and_both_commands() {
    assert!(registration_ready(false, false, false, true, true));
    assert!(!registration_ready(true, false, false, true, true));
    assert!(!registration_ready(false, true, false, true, true));
    assert!(!registration_ready(false, false, true, true, true));
    assert!(!registration_ready(false, false, false, false, true));
    assert!(!registration_ready(false, false, false, true, false));
}

#[test]
fn registered_nicks_stay_with_their_owner() {
    assert!(!nick_claim_refused(None, None));
    assert!(!nick_claim_refused(Some("did:plc:a"), Some("did:plc:a")));
    assert!(nick_claim_refused(Some("did:plc:a"), Some("did:plc:b")));
    assert!(nick_claim_refused(Some("did:plc:a"), None));
}

#[test]
fn guest_nicks() {
    assert_eq!(guest_nick_for(42), "Guest42");
    assert_eq!(guest_nick_for(123456), "Guest23456");
    assert_eq!(guest_nick_for(u32::MAX), "Guest67295");
    let g = random_guest_nick();
    assert!(g.starts_with("Guest"));
    let n: u32 = g["Guest".len()..].parse().unwrap();
    assert!(n < 100000);
}

#[test]
fn fallback_nicks_are_reclaimed() {
    assert_eq!(reclaim_nick("alice_").as_deref(), Some("alice"));
    assert_eq!(reclaim_nick("alice__").as_deref(), Some("alice"));
    assert_eq!(reclaim_nick("a_b_").as_deref(), Some("a_b"));
    assert_eq!(reclaim_nick("alice"), None);
    assert_eq!(reclaim_nick(""), None);
}

#[test]
fn welcome_texts() {
    assert_eq!(welcome_text("irc.x", "bob", None), "Welcome to irc.x, bob (guest)");
    assert_eq!(
        welcome_text("irc.x", "bob", Some("did:plc:b")),
        "Welcome to irc.x, bob (authenticated as did:plc:b)"
    );
    assert_eq!(yourhost_text("irc.x"), "Your host is irc.x, running freeq 0.1");
}

#[test]
fn lines_split_like_std() {
    for s in ["", "a", "a\n", "a\nb", "a\r\nb\r\n", "\n", "a\n\nb", "x\r\n\r\n", "a\rb\n", "a\r", "x\ny\r", "\r"] {
        let expect: Vec<String> = s.lines().map(|l| l.to_string()).collect();
        assert_eq!(lines_of(s), expect, "input {s:?}");
    }
}

#[test]
fn motd_is_framed() {
    assert_eq!(
        motd_lines("irc.x", "hello\r\nworld\n"),
        vec!["- irc.x Message of the day -".to_string(), "- hello".to_string(), "- world".to_string()]
    );
    assert_eq!(motd_lines("irc.x", ""), vec!["- irc.x Message of the day -".to_string()]);
}

#[test]
fn account_notify_line() {
    assert_eq!(account_line("bob", "did:plc:b"), ":bob!~u@host ACCOUNT did:plc:b\r\n");
}

#[test]
fn reconnecting_identities_ghost_their_old_sessions() {
    let sessions = vec![
        ("s1".to_string(), "did:plc:a".to_string()),
        ("s2".to_string(), "did:plc:b".to_string()),
        ("s3".to_string(), "did:plc:a".to_string()),
    ];
    assert_eq!(sessions_to_ghost(&sessions, "did:plc:a", "s3"), vec!["s1".to_string()]);
    assert_eq!(sessions_to_ghost(&sessions, "did:plc:c", "s9"), Vec::<String>::new());
    assert_eq!(
        ghost_quit_line("bob", "did.host"),
        ":bob!~u@did.host QUIT :Ghosted (same identity reconnected)\r\n"
    );
    assert_eq!(GHOST_CLOSE, "ERROR :Closing link (same identity reconnected)\r\n");
}

#[test]
fn nicks_are_taken_regardless_of_case() {
    let regs = vec!["Alice".to_string(), "bob".to_string()];
    assert!(nick_taken(&regs, "alice"));
    assert!(nick_taken(&regs, "BOB"));
    assert!(!nick_taken(&regs, "carol"));
}
