use freeq::channel::{wildcard_match, BanEntry, ChannelState, TopicInfo, MAX_HISTORY};

fn ban(mask: &str) -> BanEntry {
    BanEntry::new(mask.to_string(), "op".to_string())
}

#[test]
fn did_ban_matches_exact_did_only() {
    let b = ban("did:plc:evil");
    assert!(b.matches("nick!u@h", Some("did:plc:evil")));
    assert!(!b.matches("nick!u@h", Some("did:plc:evil2")));
    assert!(!b.matches("did:plc:evil", None));
}

#[test]
fn hostmask_ban_uses_wildcards_case_insensitively() {
    let b = ban("Evil!*@*");
    assert!(b.matches("evil!user@host.example", None));
    assert!(b.matches("EVIL!x@y", Some("did:plc:a")));
    assert!(!b.matches("good!user@host", None));
    assert!(ban("*").matches("anything!at@all", None));
    assert!(ban("a?c!*@*").matches("abc!u@h", None));
    assert!(!ban("a?c!*@*").matches("ac!u@h", None));
}

#[test]
fn wildcard_match_examples() {
    assert!(wildcard_match("", ""));
    assert!(!wildcard_match("", "a"));
    assert!(wildcard_match("*", ""));
    assert!(wildcard_match("a*b*c", "aXXbYYc"));
    assert!(!wildcard_match("a*b*c", "aXXbYY"));
    assert!(wildcard_match("ABC", "abc"));
}

#[test]
fn channel_is_banned_if_any_ban_matches() {
    let mut ch = ChannelState::default();
    assert!(!ch.is_banned("x!y@z", None));
    ch.bans.push(ban("bad!*@*"));
    ch.bans.push(ban("did:plc:troll"));
    assert!(ch.is_banned("bad!u@h", None));
    assert!(ch.is_banned("nice!u@h", Some("did:plc:troll")));
    assert!(!ch.is_banned("nice!u@h", Some("did:plc:friend")));
}

#[test]
fn constructors_keep_their_fields() {
    let b = BanEntry::new("m".into(), "alice".into());
    assert_eq!(b.mask, "m");
    assert_eq!(b.set_by, "alice");
    assert!(b.set_at > 0);
    let t = TopicInfo::new("hello".into(), "bob".into());
    assert_eq!(t.text, "hello");
    assert_eq!(t.set_by, "bob");
    assert_eq!(MAX_HISTORY, 100);
}

#[test]
fn constructors_keep_the_time_given() {
    let b = BanEntry::new_at("m".to_string(), "op".to_string(), 42);
    assert_eq!((b.mask.as_str(), b.set_by.as_str(), b.set_at), ("m", "op", 42));
    let t = TopicInfo::new_at("hi".to_string(), "al".to_string(), 7);
    assert_eq!((t.text.as_str(), t.set_by.as_str(), t.set_at), ("hi", "al", 7));
}
