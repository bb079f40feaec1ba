use freeq::av::{classify_av_event, AvAction};
use freeq::tags::TagMap;

fn tags(items: &[(&str, &str)]) -> TagMap {
    TagMap::from_pairs(items)
}

#[test]
fn classify_skips_non_channel_target() {
    // av-state on a direct message — never trust it; we don't
    // 1:1-transcribe.
    let t = tags(&[("+freeq.at/av-state", "started"), ("+freeq.at/av-id", "x")]);
    assert_eq!(
        classify_av_event("alice", &t, &["#room".into()], "tbot"),
        AvAction::Skip
    );
}

#[test]
fn classify_skips_missing_av_id() {
    let t = tags(&[("+freeq.at/av-state", "started")]);
    assert_eq!(
        classify_av_event("#room", &t, &["#room".into()], "tbot"),
        AvAction::Skip
    );
}

#[test]
fn classify_skips_missing_av_state() {
    let t = tags(&[("+freeq.at/av-id", "x")]);
    assert_eq!(
        classify_av_event("#room", &t, &["#room".into()], "tbot"),
        AvAction::Skip
    );
}

#[test]
fn classify_acts_on_self_started_session() {
    // The bot must act on a session IT started (--start-session-in):
    // the server attributes that `av-state=started` to the bot's
    // own nick. Self-recursion is not a risk — the subsequent
    // av-join surfaces as `av-state=joined`, which is Noop.
    let t = tags(&[
        ("+freeq.at/av-state", "started"),
        ("+freeq.at/av-id", "s1"),
        ("+freeq.at/av-actor", "TBot"),
    ]);
    assert_eq!(
        classify_av_event("#room", &t, &["#room".into()], "tbot"),
        AvAction::Start {
            channel: "#room".into(),
            session_id: "s1".into(),
        },
        "bot-initiated session start must be acted on, not self-skipped"
    );
}

#[test]
fn classify_self_actor_joined_is_noop() {
    // The bot's own av-join → server broadcasts av-state=joined
    // attributed to the bot. Must be Noop, never a re-trigger.
    let t = tags(&[
        ("+freeq.at/av-state", "joined"),
        ("+freeq.at/av-id", "s1"),
        ("+freeq.at/av-actor", "tbot"),
    ]);
    assert_eq!(
        classify_av_event("#room", &t, &["#room".into()], "tbot"),
        AvAction::Noop,
    );
}

#[test]
fn classify_does_not_skip_other_actor() {
    let t = tags(&[
        ("+freeq.at/av-state", "started"),
        ("+freeq.at/av-id", "s1"),
        ("+freeq.at/av-actor", "alice"),
    ]);
    assert_eq!(
        classify_av_event("#room", &t, &["#room".into()], "tbot"),
        AvAction::Start {
            channel: "#room".into(),
            session_id: "s1".into()
        }
    );
}

#[test]
fn classify_skips_started_in_unknown_channel() {
    // We must NOT av-join into channels we aren't a member of —
    // that would let any random user with a +freeq.at/av-state
    // tag drag the bot anywhere.
    let t = tags(&[
        ("+freeq.at/av-state", "started"),
        ("+freeq.at/av-id", "s1"),
    ]);
    assert_eq!(
        classify_av_event("#elsewhere", &t, &["#room".into()], "tbot"),
        AvAction::Skip
    );
}

#[test]
fn classify_channel_match_is_case_insensitive() {
    let t = tags(&[
        ("+freeq.at/av-state", "started"),
        ("+freeq.at/av-id", "s1"),
    ]);
    assert_eq!(
        classify_av_event("#RoOm", &t, &["#room".into()], "tbot"),
        AvAction::Start {
            channel: "#RoOm".into(),
            session_id: "s1".into()
        }
    );
}

#[test]
fn classify_emits_end_for_ended_state() {
    let t = tags(&[
        ("+freeq.at/av-state", "ended"),
        ("+freeq.at/av-id", "s9"),
    ]);
    assert_eq!(
        classify_av_event("#room", &t, &["#room".into()], "tbot"),
        AvAction::End {
            channel: "#room".into(),
            session_id: "s9".into()
        }
    );
}

#[test]
fn classify_emits_noop_for_unknown_state() {
    // `joined`, `left`, or anything else — we log but don't act.
    // Pin so a careless `_ => AvAction::Start` regression is caught.
    for state in ["joined", "left", "weird"] {
        let t = tags(&[
            ("+freeq.at/av-state", state),
            ("+freeq.at/av-id", "s"),
        ]);
        assert_eq!(
            classify_av_event("#room", &t, &["#room".into()], "tbot"),
            AvAction::Noop,
            "state {state:?}"
        );
    }
}

#[test]
fn classify_ampersand_channel_target_accepted() {
    // `&local` is an IRC local channel prefix; the orchestrator
    // accepts both `#` and `&`.
    let t = tags(&[
        ("+freeq.at/av-state", "ended"),
        ("+freeq.at/av-id", "x"),
    ]);
    assert_eq!(
        classify_av_event("&local", &t, &["#room".into()], "tbot"),
        AvAction::End {
            channel: "&local".into(),
            session_id: "x".into()
        }
    );
}
