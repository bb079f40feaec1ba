use freeq::replay::{batch_end, batch_id, batch_start, replay_tagged, replay_tags};
use freeq::tags::TagMap;

#[test]
fn replayed_tags_follow_the_clients_capabilities() {
    let stored = TagMap::from_pairs(&[("+draft/react", "x"), ("msgid", "m1")]);
    let all = replay_tags(&stored, true, Some(1704067200), Some("hist3"));
    assert_eq!(all.get("msgid").as_deref(), Some("m1"));
    assert_eq!(all.get("time").as_deref(), Some("2024-01-01T00:00:00.000Z"));
    assert_eq!(all.get("batch").as_deref(), Some("hist3"));
    assert_eq!(all.len(), 4);
    assert!(replay_tagged(&all, true));

    let plain = replay_tags(&stored, false, None, None);
    assert_eq!(plain.len(), 0);
    assert!(!replay_tagged(&plain, true));

    let timed = replay_tags(&stored, false, Some(0), None);
    assert_eq!(timed.get("time").as_deref(), Some("1970-01-01T00:00:00.000Z"));
    assert!(!replay_tagged(&timed, false));
}

#[test]
fn batches_frame_the_replay() {
    assert_eq!(batch_id("hist", "sess-42"), "hist7");
    assert_eq!(batch_id("ch", "é"), "ch2");
    assert_eq!(batch_start("irc.x", "hist7", "#c"), ":irc.x BATCH +hist7 chathistory #c\r\n");
    assert_eq!(batch_end("irc.x", "hist7"), ":irc.x BATCH -hist7\r\n");
}
