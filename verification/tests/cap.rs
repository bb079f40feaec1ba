use freeq::cap::{cap_ack_text, cap_ls_text, cap_named, cap_request, Cap};

#[test]
fn ls_lists_the_capabilities() {
    assert_eq!(
        cap_ls_text(None),
        "sasl message-tags multi-prefix echo-message server-time batch draft/chathistory account-notify extended-join away-notify"
    );
    assert!(cap_ls_text(Some("abc123")).ends_with(" away-notify iroh=abc123"));
}

#[test]
fn names_match_without_case() {
    let w: Vec<char> = "Message-TAGS".chars().collect();
    assert_eq!(cap_named(&w), Some(Cap::MessageTags));
    let w: Vec<char> = "DRAFT/ChatHistory".chars().collect();
    assert_eq!(cap_named(&w), Some(Cap::ChatHistory));
    let w: Vec<char> = "unknown-cap".chars().collect();
    assert_eq!(cap_named(&w), None);
}

#[test]
fn request_of_known_caps_is_acked() {
    let (caps, ack) = cap_request("  sasl  SERVER-TIME\tbatch ");
    assert!(ack);
    assert_eq!(caps, vec![Cap::Sasl, Cap::ServerTime, Cap::Batch]);
    assert_eq!(cap_ack_text(&caps), "sasl server-time batch");
}

#[test]
fn request_with_an_unknown_cap_is_refused_but_enables_the_rest() {
    let (caps, ack) = cap_request("away-notify nope extended-join");
    assert!(!ack);
    assert_eq!(caps, vec![Cap::AwayNotify, Cap::ExtendedJoin]);
}

#[test]
fn empty_request_is_refused() {
    let (caps, ack) = cap_request("   ");
    assert!(!ack);
    assert!(caps.is_empty());
    assert_eq!(cap_ack_text(&[]), "");
}

#[test]
fn each_cap_has_its_name() {
    assert_eq!(Cap::Sasl.name(), "sasl");
    assert_eq!(Cap::MultiPrefix.name(), "multi-prefix");
    assert_eq!(Cap::EchoMessage.name(), "echo-message");
    assert_eq!(Cap::AccountNotify.name(), "account-notify");
}

#[test]
fn every_offered_name_is_accepted() {
    let all = [
        Cap::Sasl,
        Cap::MessageTags,
        Cap::MultiPrefix,
        Cap::EchoMessage,
        Cap::ServerTime,
        Cap::Batch,
        Cap::ChatHistory,
        Cap::AccountNotify,
        Cap::ExtendedJoin,
        Cap::AwayNotify,
    ];
    for c in all {
        let w: Vec<char> = c.name().to_ascii_uppercase().chars().collect();
        assert_eq!(cap_named(&w), Some(c));
    }
}
