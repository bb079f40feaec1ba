//! The line protocol between the voice bot and its external brain: what
//! the bot sends up, and which inbound lines it reads at all.
use vstd::prelude::*;
use crate::scene::{SceneKind, SceneSpec};
use crate::text::{chars_of, string_from, string_of, trim, trim_chars};

verus! {

/// A line the bot sends up to the brain.
#[derive(Debug)]
pub enum Outbound {
    /// The bot is connected, announcing its first channel.
    Ready { channel: String },
    /// Someone said something.
    Utterance { nick: String, text: String },
    /// A request classified as an agentic task, handed to the brain.
    Delegate { nick: String, text: String },
    /// The bot left the call.
    Left,
    /// The call ended.
    Ended,
}

/// The announcement sent on connecting: `Ready` with the first configured
/// channel, if there is one.
pub fn ready_message(channels: &[String]) -> (r: Option<Outbound>)
    ensures
        channels@.len() == 0 <==> r is None,
        r matches Some(Outbound::Ready { channel }) ==> channel@ == channels@[0]@,
        r is Some ==> r->0 is Ready,
{
    if channels.len() == 0 {
        None
    } else {
        Some(Outbound::Ready { channel: string_from(channels[0].as_str()) })
    }
}

/// An inbound line trimmed, or `None` when nothing is left to read.
pub fn inbound_payload(line: &str) -> (r: Option<String>)
    ensures
        match r {
            Some(t) => t@ == trim(line@) && t@.len() > 0,
            None => trim(line@).len() == 0,
        },
{
    let c = chars_of(line);
    let t = trim_chars(c.as_slice());
    if t.len() == 0 {
        None
    } else {
        Some(string_of(t.as_slice()))
    }
}

/// A line the brain sends down to the bot.
#[derive(Debug)]
pub enum Inbound {
    /// Speak this line.
    Say { text: String },
    /// The brain is (or stops) composing a reply.
    State { thinking: bool },
    /// Put a picture of `topic` on the call's video tile.
    Show { topic: String },
    /// Anything else (ignored).
    Other,
}

/// The accent of a picture the brain asks to show.
pub const SHOW_ACCENT: &'static str = "#3effd6";

/// What the bot does with an inbound line.
#[derive(Debug)]
pub enum SeamAction {
    /// Speak the text against the live call.
    Speak(String),
    /// Put up a hero scene titled `topic`, illustrated by an image of it.
    Show(SceneSpec),
    /// Show (or stop showing) the thinking mood.
    Thinking(bool),
    /// Nothing.
    Ignore,
}

/// The scene a `show` puts up: a hero card titled with the topic, no
/// subtitle or points, the show accent, and the topic as image subject.
pub open spec fn show_scene_of(s: SceneSpec, topic: Seq<char>) -> bool {
    &&& s.kind == SceneKind::Hero
    &&& s.title@ == topic
    &&& s.subtitle@.len() == 0
    &&& s.points@.len() == 0
    &&& s.accent@ == SHOW_ACCENT@
    &&& s.image_query@ == topic
}

/// What the bot does with an inbound line: a `say` with some non-blank
/// text is spoken as sent; a `show` with a non-blank topic puts up the
/// trimmed topic; a `state` sets the thinking mood; the rest is ignored.
pub fn inbound_action(msg: Inbound) -> (r: SeamAction)
    ensures
        match msg {
            Inbound::Say { text } => if trim(text@).len() > 0 {
                r matches SeamAction::Speak(t) && t@ == text@
            } else {
                r is Ignore
            },
            Inbound::Show { topic } => if trim(topic@).len() > 0 {
                r matches SeamAction::Show(s) && show_scene_of(s, trim(topic@))
            } else {
                r is Ignore
            },
            Inbound::State { thinking } => r == SeamAction::Thinking(thinking),
            Inbound::Other => r is Ignore,
        },
{
    match msg {
        Inbound::Say { text } => {
            let t = trim_chars(chars_of(text.as_str()).as_slice());
            if t.len() > 0 {
                SeamAction::Speak(text)
            } else {
                SeamAction::Ignore
            }
        },
        Inbound::Show { topic } => {
            let t = trim_chars(chars_of(topic.as_str()).as_slice());
            if t.len() > 0 {
                proof {
                    reveal_strlit("");
                }
                let title = string_of(t.as_slice());
                let query = string_of(t.as_slice());
                SeamAction::Show(
                    SceneSpec {
                        kind: SceneKind::Hero,
                        title,
                        subtitle: string_from(""),
                        points: Vec::new(),
                        accent: string_from(SHOW_ACCENT),
                        image_query: query,
                    },
                )
            } else {
                SeamAction::Ignore
            }
        },
        Inbound::State { thinking } => SeamAction::Thinking(thinking),
        Inbound::Other => SeamAction::Ignore,
    }
}

} // verus!
