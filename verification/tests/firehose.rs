use freeq::firehose::persona_commit;
use freeq::json::JsonValue;
use freeq::records::{persona_fork_edge, persona_type, PersonaRecord};

fn s(t: &str) -> JsonValue {
    JsonValue::Str(t.to_string())
}

fn obj(members: Vec<(&str, JsonValue)>) -> JsonValue {
    JsonValue::Object(members.into_iter().map(|(k, v)| (k.to_string(), v)).collect())
}

fn commit_event(operation: &str, collection: &str, record: JsonValue) -> JsonValue {
    obj(vec![
        ("did", s("did:plc:me")),
        ("kind", s("commit")),
        (
            "commit",
            obj(vec![
                ("operation", s(operation)),
                ("collection", s(collection)),
                ("rkey", s("child1")),
                ("record", record),
            ]),
        ),
    ])
}

fn persona(forked_from: Option<&str>) -> JsonValue {
    let mut m = vec![
        ("$type", s("at.freeq.persona")),
        ("name", s("Cassandra")),
        ("systemPrompt", s("warn")),
        ("createdAt", s("2026-06-06T00:00:00Z")),
    ];
    if let Some(p) = forked_from {
        m.push(("forkedFrom", s(p)));
    }
    obj(m)
}

/// The record as the server's JSON layer reads it (the fields the fork
/// edge needs).
fn record_from(v: &JsonValue) -> Option<PersonaRecord> {
    let name = v.get("name")?.as_str()?.to_string();
    let system_prompt = v.get("systemPrompt")?.as_str()?.to_string();
    let created_at = v.get("createdAt")?.as_str()?.to_string();
    let forked_from = v.get("forkedFrom").and_then(|f| f.as_str()).map(|f| f.to_string());
    Some(PersonaRecord {
        record_type: persona_type(),
        name,
        system_prompt,
        greeting: None,
        voice: None,
        face: None,
        forked_from,
        created_at,
    })
}

fn edge(ev: &JsonValue) -> Option<(String, String, Option<String>)> {
    let (uri, rec) = persona_commit(ev)?;
    let rec = record_from(rec)?;
    persona_fork_edge(&uri, &rec)
}

#[test]
fn derives_edge_from_a_forked_persona_commit() {
    let ev = commit_event("create", "at.freeq.persona", persona(Some("at://did:plc:orig/at.freeq.persona/p1")));
    let (parent, child, by) = edge(&ev).unwrap();
    assert_eq!(parent, "at://did:plc:orig/at.freeq.persona/p1");
    assert_eq!(child, "at://did:plc:me/at.freeq.persona/child1");
    assert_eq!(by.as_deref(), Some("did:plc:me"));
}

#[test]
fn ignores_non_fork_and_irrelevant_events() {
    assert!(edge(&commit_event("create", "at.freeq.persona", persona(None))).is_none());
    assert!(edge(&commit_event("delete", "at.freeq.persona", persona(Some("at://x/y/z")))).is_none());
    assert!(edge(&commit_event("create", "app.bsky.feed.post", persona(Some("at://x/y/z")))).is_none());
    assert!(edge(&obj(vec![("did", s("did:plc:me")), ("kind", s("identity"))])).is_none());
}

#[test]
fn persona_commit_reads_updates_too() {
    let ev = commit_event("update", "at.freeq.persona", persona(None));
    let (uri, rec) = persona_commit(&ev).unwrap();
    assert_eq!(uri, "at://did:plc:me/at.freeq.persona/child1");
    assert_eq!(rec.get("name").and_then(|n| n.as_str()), Some("Cassandra"));
    // A commit without a record is skipped.
    let bare = obj(vec![
        ("did", s("did:plc:me")),
        ("kind", s("commit")),
        ("commit", obj(vec![("operation", s("create")), ("collection", s("at.freeq.persona")), ("rkey", s("r"))])),
    ]);
    assert!(persona_commit(&bare).is_none());
}
