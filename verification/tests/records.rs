use freeq::records::{persona_fork_edge, persona_type, AtUri, PersonaRecord, PERSONA_NSID};

#[test]
fn at_uri_round_trips() {
    let uri = "at://did:plc:abc123/at.freeq.persona/3kxyz";
    let parsed = AtUri::parse(uri).unwrap();
    assert_eq!(parsed.authority, "did:plc:abc123");
    assert_eq!(parsed.collection, "at.freeq.persona");
    assert_eq!(parsed.rkey, "3kxyz");
    assert_eq!(parsed.to_string(), uri);
    // Malformed URIs are rejected.
    assert!(AtUri::parse("https://example.com/x").is_none());
    assert!(AtUri::parse("at://did:plc:abc/onlytwo").is_none());
}

#[test]
fn fork_edge_derives_from_forked_from() {
    let mut rec = PersonaRecord {
        record_type: persona_type(),
        name: "c".into(),
        system_prompt: "p".into(),
        greeting: None,
        voice: None,
        face: None,
        forked_from: Some("at://did:plc:orig/at.freeq.persona/parent1".into()),
        created_at: "2026-06-06T00:00:00Z".into(),
    };
    let child = "at://did:plc:me/at.freeq.persona/child1";
    let (parent, c, by) = persona_fork_edge(child, &rec).unwrap();
    assert_eq!(parent, "at://did:plc:orig/at.freeq.persona/parent1");
    assert_eq!(c, child);
    assert_eq!(by.as_deref(), Some("did:plc:me")); // the signer, from the child URI

    // An original (no forkedFrom) implies no edge.
    rec.forked_from = None;
    assert!(persona_fork_edge(child, &rec).is_none());
}

#[test]
fn at_uri_edge_cases() {
    // The record key keeps any further slashes.
    let u = AtUri::parse("at://a/b/c/d").unwrap();
    assert_eq!(u.rkey, "c/d");
    // Empty components are rejected.
    assert!(AtUri::parse("at:///b/c").is_none());
    assert!(AtUri::parse("at://a//c").is_none());
    assert!(AtUri::parse("at://a/b/").is_none());
    assert!(AtUri::parse("").is_none());
    assert_eq!(persona_type(), PERSONA_NSID);
}

#[test]
fn fork_edge_with_unparsable_uri_has_no_signer() {
    let rec = PersonaRecord {
        record_type: persona_type(),
        name: "c".into(),
        system_prompt: "p".into(),
        greeting: None,
        voice: None,
        face: None,
        forked_from: Some("at://x/y/z".into()),
        created_at: "t".into(),
    };
    let (_, c, by) = persona_fork_edge("not-a-uri", &rec).unwrap();
    assert_eq!(c, "not-a-uri");
    assert!(by.is_none());
}
