use freeq::delivery::{
    is_channel_target, message_delivery, plain_line, tagmsg_delivery, tagmsg_fallback, unrouted_private, Delivery,
    Unrouted,
};
use freeq::tags::TagMap;

#[test]
fn channel_targets() {
    assert!(is_channel_target("#c"));
    assert!(is_channel_target("&local"));
    assert!(!is_channel_target("bob"));
    assert!(!is_channel_target(""));
}

#[test]
fn messages_reach_members_by_capability() {
    assert_eq!(message_delivery(true, false, true, true), Delivery::Skip);
    assert_eq!(message_delivery(true, true, true, true), Delivery::Tagged);
    assert_eq!(message_delivery(false, false, true, true), Delivery::Tagged);
    assert_eq!(message_delivery(false, false, false, true), Delivery::Plain);
    assert_eq!(message_delivery(false, false, true, false), Delivery::Plain);
}

#[test]
fn tagmsgs_fall_back_for_plain_clients() {
    assert_eq!(tagmsg_delivery(true, true, true), Delivery::Skip);
    assert_eq!(tagmsg_delivery(false, true, false), Delivery::Tagged);
    assert_eq!(tagmsg_delivery(false, false, true), Delivery::Fallback);
    assert_eq!(tagmsg_delivery(false, false, false), Delivery::Skip);
}

#[test]
fn reactions_have_a_plain_fallback() {
    let mut tags = TagMap::new();
    assert_eq!(tagmsg_fallback("a!u@h", "#c", &tags), None);
    tags.insert("+typing", "active");
    assert_eq!(tagmsg_fallback("a!u@h", "#c", &tags), None);
    tags.insert("+react", "👍");
    assert_eq!(
        tagmsg_fallback("a!u@h", "#c", &tags).as_deref(),
        Some(":a!u@h PRIVMSG #c :\x01ACTION reacted with 👍\x01\r\n")
    );
}

#[test]
fn plain_lines() {
    assert_eq!(plain_line("a!u@h", "PRIVMSG", "#c", "hi all"), ":a!u@h PRIVMSG #c :hi all\r\n");
    assert_eq!(plain_line("a!u@h", "NOTICE", "bob", ""), ":a!u@h NOTICE bob :\r\n");
}

#[test]
fn unrouted_private_messages() {
    assert_eq!(unrouted_private("PRIVMSG", true), Unrouted::Relay);
    assert_eq!(unrouted_private("NOTICE", false), Unrouted::NoSuchNick);
    assert_eq!(unrouted_private("TAGMSG", true), Unrouted::Drop);
}
