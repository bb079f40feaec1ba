use freeq::channel::HistoryMessage;
use freeq::delivery::Delivery;
use freeq::privmsg::{channel_message_step, ChannelMessage, PluginVerdict, SendChannel, Sender};
use freeq::tags::TagMap;

fn chan(members: &[&str], no_ext: bool, moderated: bool) -> SendChannel {
    SendChannel {
        members: members.iter().map(|s| s.to_string()).collect(),
        ops: vec!["op".to_string()],
        voiced: vec![],
        no_ext_msg: no_ext,
        moderated,
        history: vec![],
    }
}

fn sender(s: &str) -> Sender {
    Sender { session_id: s.to_string(), nick: format!("n{s}"), hostmask: format!("n{s}!u@h") }
}

fn msg(cmd: &str, tags: TagMap) -> ChannelMessage {
    ChannelMessage { command: cmd.to_string(), target: "#c".to_string(), text: "hi".to_string(), tags }
}

#[test]
fn outsiders_get_404_and_nothing_is_kept() {
    let r = channel_message_step(Some(chan(&["a"], true, false)), &sender("x"), msg("PRIVMSG", TagMap::new()), &vec![], &vec![], &PluginVerdict::Pass, 9);
    let rep = r.refusal.unwrap();
    assert_eq!(rep.command, "404");
    assert_eq!(rep.params, vec!["nx".to_string(), "#c".to_string(), "Cannot send to channel (+n)".to_string()]);
    assert!(r.channel.unwrap().history.is_empty());
    assert!(r.deliveries.is_empty());
    assert!(!r.relay);
    let r = channel_message_step(Some(chan(&["a"], true, true)), &sender("a"), msg("PRIVMSG", TagMap::new()), &vec![], &vec![], &PluginVerdict::Pass, 9);
    assert_eq!(r.refusal.unwrap().params[2], "Cannot send to channel (+m)");
}

#[test]
fn members_get_their_line_and_privmsg_is_kept() {
    let tags = TagMap::from_pairs(&[("msgid", "m1")]);
    let r = channel_message_step(
        Some(chan(&["a", "b", "c"], true, false)),
        &sender("a"),
        msg("PRIVMSG", tags),
        &vec![],
        &vec!["c".to_string()],
        &PluginVerdict::Pass,
        9,
    );
    assert!(r.refusal.is_none());
    assert!(r.relay);
    assert_eq!(
        r.deliveries,
        vec![("a".to_string(), Delivery::Skip), ("b".to_string(), Delivery::Plain), ("c".to_string(), Delivery::Tagged)]
    );
    let c = r.channel.unwrap();
    assert_eq!(c.history.len(), 1);
    assert_eq!((c.history[0].from.as_str(), c.history[0].text.as_str(), c.history[0].timestamp), ("na!u@h", "hi", 9));
    let r = channel_message_step(Some(chan(&["a"], true, false)), &sender("a"), msg("NOTICE", TagMap::new()), &vec!["a".to_string()], &vec![], &PluginVerdict::Pass, 9);
    assert!(!r.relay);
    assert_eq!(r.deliveries, vec![("a".to_string(), Delivery::Plain)]);
    assert!(r.channel.unwrap().history.is_empty());
}

#[test]
fn history_keeps_the_newest_hundred() {
    let mut c = chan(&["a"], false, false);
    for i in 0..100 {
        c.history.push(HistoryMessage { from: "x".into(), text: format!("{i}"), timestamp: i, tags: TagMap::new() });
    }
    let r = channel_message_step(Some(c), &sender("a"), msg("PRIVMSG", TagMap::new()), &vec![], &vec![], &PluginVerdict::Pass, 500);
    let c = r.channel.unwrap();
    assert_eq!(c.history.len(), 100);
    assert_eq!(c.history[0].text, "1");
    assert_eq!(c.history[99].timestamp, 500);
}

#[test]
fn a_channel_that_does_not_exist_is_only_relayed() {
    let r = channel_message_step(None, &sender("a"), msg("PRIVMSG", TagMap::new()), &vec![], &vec![], &PluginVerdict::Pass, 1);
    assert!(r.channel.is_none() && r.refusal.is_none() && r.deliveries.is_empty() && r.relay);
}

#[test]
fn plugins_may_drop_or_rewrite_a_message() {
    let r = channel_message_step(Some(chan(&["a"], true, false)), &sender("a"), msg("PRIVMSG", TagMap::new()), &vec![], &vec![], &PluginVerdict::Suppress, 9);
    assert!(r.refusal.is_none() && r.deliveries.is_empty() && !r.relay);
    assert!(r.channel.unwrap().history.is_empty());
    let r = channel_message_step(Some(chan(&["a"], true, false)), &sender("a"), msg("PRIVMSG", TagMap::new()), &vec![], &vec![], &PluginVerdict::Rewrite("bye".to_string()), 9);
    assert_eq!(r.channel.unwrap().history[0].text, "bye");
    let r = channel_message_step(None, &sender("a"), msg("PRIVMSG", TagMap::new()), &vec![], &vec![], &PluginVerdict::Suppress, 9);
    assert!(!r.relay);
}
