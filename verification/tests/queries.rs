use freeq::queries::{
    away_message, away_reply, end_of_list, end_of_who, list_reply, lusers_replies, names_replies, who_flags, who_reply, whois_replies, Reply,
    WhoisSubject,
};

fn r(cmd: &str, ps: &[&str]) -> Reply {
    Reply { command: cmd.to_string(), params: ps.iter().map(|p| p.to_string()).collect() }
}

#[test]
fn whois_of_a_local_user() {
    let subject = WhoisSubject::Local {
        did: Some("did:plc:bob".into()),
        handle: Some("bob.bsky.social".into()),
        iroh_id: Some("abc".into()),
    };
    assert_eq!(
        whois_replies("me", "bob", "irc.x", &subject),
        vec![
            r("311", &["me", "bob", "~u", "host", "*", "IRC User"]),
            r("312", &["me", "bob", "irc.x", "freeq"]),
            r("330", &["me", "bob", "did:plc:bob", "is authenticated as"]),
            r("671", &["me", "bob", "AT Protocol handle: bob.bsky.social"]),
            r("672", &["me", "bob", "iroh endpoint: abc"]),
            r("318", &["me", "bob", "End of /WHOIS list"]),
        ]
    );
}

#[test]
fn whois_of_a_guest_shows_no_handle() {
    let subject = WhoisSubject::Local { did: None, handle: Some("h".into()), iroh_id: None };
    let out = whois_replies("me", "g", "irc.x", &subject);
    assert_eq!(out.len(), 3);
    assert_eq!(out[2], r("318", &["me", "g", "End of /WHOIS list"]));
}

#[test]
fn whois_of_a_remote_user() {
    let subject = WhoisSubject::Remote {
        origin: "0123456789abcdef0123".into(),
        did: Some("did:plc:r".into()),
        handle: None,
        channels: vec![("#a".into(), true), ("#b".into(), false)],
    };
    assert_eq!(
        whois_replies("me", "rem", "irc.x", &subject),
        vec![
            r("311", &["me", "rem", "rem", "s2s", "*", "did:plc:r (via S2S federation)"]),
            r("312", &["me", "rem", "s2s", "Connected via S2S (0123456789abcdef…)"]),
            r("330", &["me", "rem", "did:plc:r", "is authenticated as"]),
            r("319", &["me", "rem", "@#a #b"]),
            r("318", &["me", "rem", "End of /WHOIS list"]),
        ]
    );
    let bare = WhoisSubject::Remote { origin: "short".into(), did: None, handle: None, channels: vec![] };
    assert_eq!(
        whois_replies("me", "x", "irc.x", &bare),
        vec![
            r("311", &["me", "x", "x", "s2s", "*", "Remote user (via S2S federation)"]),
            r("312", &["me", "x", "s2s", "Connected via S2S (short…)"]),
            r("318", &["me", "x", "End of /WHOIS list"]),
        ]
    );
}

#[test]
fn whois_of_nobody() {
    assert_eq!(
        whois_replies("me", "ghost", "irc.x", &WhoisSubject::Unknown),
        vec![r("401", &["me", "ghost", "No such nick"]), r("318", &["me", "ghost", "End of /WHOIS list"])]
    );
}

#[test]
fn who_replies() {
    assert_eq!(who_flags(false, true, true), "H@");
    assert_eq!(who_flags(true, false, true), "G+");
    assert_eq!(who_flags(false, false, false), "H");
    assert_eq!(
        who_reply("me", "#c", "irc.x", "bob", "H@"),
        r("352", &["me", "#c", "~u", "host", "irc.x", "bob", "H@", "0 IRC User"])
    );
    assert_eq!(end_of_who("me", "#c"), r("315", &["me", "#c", "End of /WHO list"]));
}

#[test]
fn lusers_counts() {
    assert_eq!(
        lusers_replies("me", 3, 2, 7),
        vec![
            r("251", &["me", "There are 5 users on 1 server (2 remote)"]),
            r("252", &["me", "0", "operator(s) online"]),
            r("254", &["me", "7", "channels formed"]),
            r("255", &["me", "I have 3 clients and 0 servers"]),
        ]
    );
}

#[test]
fn away_sets_and_clears() {
    assert_eq!(away_message(Some("lunch")).as_deref(), Some("lunch"));
    assert_eq!(away_message(Some("")), None);
    assert_eq!(away_message(None), None);
    assert_eq!(away_reply("me", true), r("306", &["me", "You have been marked as being away"]));
    assert_eq!(away_reply("me", false), r("305", &["me", "You are no longer marked as being away"]));
}

#[test]
fn names_show_prefixes() {
    let members = vec![("op".to_string(), true, true), ("v".to_string(), false, true), ("plain".to_string(), false, false)];
    let remotes = vec![("rop".to_string(), true), ("r".to_string(), false)];
    assert_eq!(
        names_replies("me", "#c", &members, &remotes, false),
        vec![r("353", &["me", "=", "#c", "@op +v plain @rop r"]), r("366", &["me", "#c", "End of /NAMES list"])]
    );
    assert_eq!(names_replies("me", "#c", &members, &[], true)[0], r("353", &["me", "=", "#c", "@+op +v plain"]));
    assert_eq!(names_replies("me", "#c", &[], &remotes, true)[0], r("353", &["me", "=", "#c", "@rop r"]));
    assert_eq!(names_replies("me", "#c", &[], &[], true)[0], r("353", &["me", "=", "#c", ""]));
}

#[test]
fn list_entries() {
    assert_eq!(list_reply("me", "#c", 12, Some("hi there")), r("322", &["me", "#c", "12", "hi there"]));
    assert_eq!(list_reply("me", "#d", 0, None), r("322", &["me", "#d", "0", ""]));
    assert_eq!(end_of_list("me"), r("323", &["me", "End of /LIST"]));
}
