use freeq::crdt::{origin_peer, sync_message_of, sync_payload, ClusterDoc};

fn sync(doc1: &mut ClusterDoc, doc2: &mut ClusterDoc, rounds: usize) {
    for _ in 0..rounds {
        if let Some(msg) = doc1.generate_sync_message("server-2") {
            doc2.receive_sync_message("server-1", &msg).unwrap();
        }
        if let Some(msg) = doc2.generate_sync_message("server-1") {
            doc1.receive_sync_message("server-2", &msg).unwrap();
        }
    }
}

fn field(json: &str, key: &str) -> serde_json::Value {
    let v: serde_json::Value = serde_json::from_str(json).unwrap();
    v[key].clone()
}

#[test]
fn topic_set_and_read() {
    let mut doc = ClusterDoc::new("server-1");
    doc.set_topic("#test", "Hello world", "alice", Some("did:plc:alice"), "peer-1");
    let topic = doc.channel_topic("#test");
    assert_eq!(topic, Some(("Hello world".to_string(), "alice".to_string())));
}

#[test]
fn topic_provenance() {
    let mut doc = ClusterDoc::new("server-1");
    doc.set_topic("#test", "Hello", "alice", Some("did:plc:alice"), "peer-abc");
    let prov = doc.channel_topic_provenance("#test").unwrap();
    assert_eq!(field(&prov, "origin_peer"), "peer-abc");
    assert_eq!(field(&prov, "set_by_did"), "did:plc:alice");
}

#[test]
fn nick_ownership() {
    let mut doc = ClusterDoc::new("server-1");
    doc.set_nick_owner("alice", "did:plc:abc123");
    assert_eq!(doc.nick_owner("alice"), Some("did:plc:abc123".to_string()));
    assert_eq!(doc.nick_owner("bob"), None);
}

#[test]
fn sync_between_two_servers() {
    let mut doc1 = ClusterDoc::new("server-1");
    let mut doc2 = ClusterDoc::new("server-2");
    doc1.set_topic("#test", "Hello from server 1", "alice", None, "peer-1");
    doc1.set_nick_owner("alice", "did:plc:abc");
    sync(&mut doc1, &mut doc2, 10);
    let topic = doc2.channel_topic("#test");
    assert_eq!(topic, Some(("Hello from server 1".to_string(), "alice".to_string())));
    assert_eq!(doc2.nick_owner("alice"), Some("did:plc:abc".to_string()));
}

#[test]
fn save_and_load() {
    let mut doc = ClusterDoc::new("server-1");
    doc.set_topic("#test", "Persistent topic", "alice", None, "peer-1");
    doc.set_nick_owner("alice", "did:plc:abc");
    let bytes = doc.save();
    let doc2 = ClusterDoc::load(&bytes, "server-1").unwrap();
    assert_eq!(doc2.channel_topic("#test").unwrap().0, "Persistent topic");
    assert_eq!(doc2.nick_owner("alice").unwrap(), "did:plc:abc");
}

#[test]
fn bans_with_provenance() {
    let mut doc = ClusterDoc::new("server-1");
    doc.add_ban("#test", "evil!*@*", "alice", Some("did:plc:alice"), "peer-1");
    doc.add_ban("#test", "bad!*@*", "bob", None, "peer-2");
    doc.remove_ban("#test", "evil!*@*");
    let bans = doc.channel_bans("#test");
    assert_eq!(bans.len(), 1);
    assert_eq!(bans[0].0, "bad!*@*");
    assert_eq!(field(&bans[0].1, "set_by"), "bob");
    assert_eq!(field(&bans[0].1, "set_by_did"), serde_json::Value::Null);
}

#[test]
fn founder_deterministic_min_actor() {
    let mut doc1 = ClusterDoc::new("server-1");
    let mut doc2 = ClusterDoc::new("server-2");
    doc1.set_founder("#test", "did:plc:alice");
    doc2.set_founder("#test", "did:plc:bob");
    sync(&mut doc1, &mut doc2, 10);
    let f1 = doc1.founder("#test");
    let f2 = doc2.founder("#test");
    assert_eq!(f1, f2, "Founders must converge: {f1:?} vs {f2:?}");
    assert!(f1.is_some(), "Founder must not be lost");
}

#[test]
fn founder_not_overwritten_after_sync() {
    let mut doc1 = ClusterDoc::new("server-1");
    let mut doc2 = ClusterDoc::new("server-2");
    doc1.set_founder("#test", "did:plc:alice");
    sync(&mut doc1, &mut doc2, 10);
    assert_eq!(doc2.founder("#test"), Some("did:plc:alice".to_string()));
    // Server-2 tries to overwrite — rejected (server-2 > server-1).
    doc2.set_founder("#test", "did:plc:evil");
    assert_eq!(doc2.founder("#test"), Some("did:plc:alice".to_string()));
}

#[test]
fn smaller_actor_takes_the_founder_record() {
    let mut doc = ClusterDoc::new("server-2");
    doc.set_founder("#test", "did:plc:first");
    doc.rekey_actor("server-0");
    doc.set_founder("#test", "did:plc:second");
    assert_eq!(doc.founder("#test"), Some("did:plc:second".to_string()));
}

#[test]
fn did_ops_sync() {
    let mut doc1 = ClusterDoc::new("server-1");
    let mut doc2 = ClusterDoc::new("server-2");
    doc1.set_founder("#test", "did:plc:alice");
    doc1.grant_op("#test", "did:plc:bob", Some("did:plc:alice"), "peer-1");
    doc2.grant_op("#test", "did:plc:charlie", None, "peer-2");
    sync(&mut doc1, &mut doc2, 10);
    let ops1 = doc1.channel_did_ops("#test");
    let ops2 = doc2.channel_did_ops("#test");
    assert_eq!(ops1.len(), 2, "doc1 ops: {ops1:?}");
    assert_eq!(ops2.len(), 2, "doc2 ops: {ops2:?}");
    doc1.revoke_op("#test", "did:plc:bob");
    sync(&mut doc1, &mut doc2, 10);
    let ops1 = doc1.channel_did_ops("#test");
    let ops2 = doc2.channel_did_ops("#test");
    assert_eq!(ops1.len(), 1, "After revoke, doc1 ops: {ops1:?}");
    assert_eq!(ops2.len(), 1, "After revoke, doc2 ops: {ops2:?}");
    assert_eq!(ops1[0], "did:plc:charlie");
}

#[test]
fn compaction_preserves_state() {
    let mut doc = ClusterDoc::new("server-1");
    doc.set_topic("#test", "Hello", "alice", None, "peer-1");
    doc.set_founder("#test", "did:plc:alice");
    doc.set_nick_owner("alice", "did:plc:alice");
    let key_count_before = doc.key_count();
    doc.compact().unwrap();
    let key_count_after = doc.key_count();
    assert_eq!(key_count_before, key_count_after);
    assert_eq!(doc.founder("#test"), Some("did:plc:alice".to_string()));
    assert_eq!(doc.nick_owner("alice"), Some("did:plc:alice".to_string()));
    assert_eq!(doc.get_metrics().compaction_count, 1);
}

#[test]
fn metrics_track_sync() {
    let mut doc1 = ClusterDoc::new("server-1");
    let mut doc2 = ClusterDoc::new("server-2");
    doc1.set_topic("#test", "Hello", "alice", None, "peer-1");
    sync(&mut doc1, &mut doc2, 5);
    let m1 = doc1.get_metrics();
    assert!(m1.sync_messages_sent > 0);
    assert!(m1.sync_bytes_sent > 0);
    assert!(m1.change_count > 0);
    assert_eq!(doc1.sync_peers(), vec!["server-2".to_string()]);
    doc1.remove_peer_sync_state("server-2");
    assert!(doc1.sync_peers().is_empty());
}

#[test]
fn authority_validation() {
    let mut doc = ClusterDoc::new("server-1");
    doc.set_founder("#test", "did:plc:alice");
    doc.grant_op("#test", "did:plc:bob", Some("did:plc:alice"), "peer-1");
    assert!(doc.validate_topic_authority("#test", Some("did:plc:alice"), false));
    assert!(doc.validate_topic_authority("#test", Some("did:plc:bob"), false));
    assert!(!doc.validate_topic_authority("#test", Some("did:plc:evil"), false));
    assert!(doc.validate_topic_authority("#test", None, false));
    assert!(!doc.validate_topic_authority("#test", None, true));
    assert!(doc.validate_op_grant_authority("#test", Some("did:plc:alice"), false));
    assert!(doc.validate_op_grant_authority("#test", Some("did:plc:bob"), false));
    assert!(!doc.validate_op_grant_authority("#test", Some("did:plc:nobody"), false));
    assert!(!doc.validate_op_grant_authority("#test", None, true));
}

#[test]
fn bad_sync_message_is_an_error() {
    let mut doc = ClusterDoc::new("server-1");
    let err = doc.receive_sync_message("peer", b"not a sync message").unwrap_err();
    assert!(err.starts_with("Invalid sync message: "));
    assert_eq!(doc.get_metrics().sync_messages_received, 1);
}

#[test]
fn provenance_is_canonical_json() {
    let mut doc = ClusterDoc::new("server-1");
    doc.grant_op("#c", "did:plc:x", None, "peer-9");
    let p = doc.did_op_provenance("#c", "did:plc:x").unwrap();
    assert_eq!(p, r#"{"granted_by_did":null,"origin_peer":"peer-9"}"#);
    assert_eq!(doc.did_op_provenance("#c", "did:plc:y"), None);
}

#[test]
fn sync_payloads_round_trip_through_base64() {
    let msg = vec![0u8, 1, 2, 250, 251, 252];
    let text = sync_payload(&msg);
    assert_eq!(text, "AAEC+vv8");
    assert_eq!(sync_message_of(&text), Some(msg));
    assert_eq!(sync_message_of("not base64!"), None);
    assert_eq!(origin_peer(Some("endpoint"), "irc.x"), "endpoint");
    assert_eq!(origin_peer(None, "irc.x"), "irc.x");
}

#[test]
fn actor_ids_follow_rekeying() {
    let mut doc = ClusterDoc::new("server-1");
    assert_eq!(doc.get_actor_id(), "server-1");
    doc.rekey_actor("endpoint-abc");
    assert_eq!(doc.get_actor_id(), "endpoint-abc");
}
