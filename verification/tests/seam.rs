use freeq::scene::SceneKind;
use freeq::seam::{inbound_action, inbound_payload, ready_message, Inbound, Outbound, SeamAction};

#[test]
fn ready_names_the_first_channel() {
    assert!(ready_message(&[]).is_none());
    match ready_message(&["#a".to_string(), "#b".to_string()]) {
        Some(Outbound::Ready { channel }) => assert_eq!(channel, "#a"),
        other => panic!("unexpected {other:?}"),
    }
}

#[test]
fn inbound_lines_are_trimmed() {
    assert_eq!(inbound_payload("  {\"type\":\"say\"}\n").as_deref(), Some("{\"type\":\"say\"}"));
    assert!(inbound_payload(" \t\r\n").is_none());
    assert!(inbound_payload("").is_none());
}

#[test]
fn inbound_lines_map_to_actions() {
    match inbound_action(Inbound::Say { text: " It's sunny. ".into() }) {
        SeamAction::Speak(t) => assert_eq!(t, " It's sunny. "),
        other => panic!("unexpected {other:?}"),
    }
    assert!(matches!(inbound_action(Inbound::Say { text: "  ".into() }), SeamAction::Ignore));
    match inbound_action(Inbound::Show { topic: "  planet Earth ".into() }) {
        SeamAction::Show(s) => {
            assert!(matches!(s.kind, SceneKind::Hero));
            assert_eq!(s.title, "planet Earth");
            assert_eq!(s.image_query, "planet Earth");
            assert_eq!(s.subtitle, "");
            assert!(s.points.is_empty());
            assert_eq!(s.accent, "#3effd6");
        }
        other => panic!("unexpected {other:?}"),
    }
    assert!(matches!(inbound_action(Inbound::Show { topic: "".into() }), SeamAction::Ignore));
    assert!(matches!(inbound_action(Inbound::State { thinking: true }), SeamAction::Thinking(true)));
    assert!(matches!(inbound_action(Inbound::Other), SeamAction::Ignore));
}
