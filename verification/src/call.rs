//! The voice bot's call loop decisions: which transport it connects
//! with, when an addressed question is answered, and what it posts when
//! a call ends.
use vstd::prelude::*;
use crate::json::{member, str_of, JsonValue};
use crate::text::{
    chars_of, eq_ascii_nocase, eq_chars, push_str, same_ignoring_ascii_case, same_text,
    split_lines, starts_with, starts_with_chars, string_from, string_of, string_views, text_lines,
    views,
};

verus! {

/// How long after start-up addressed questions are ignored (the server
/// replays history and the media server can replay audio), in seconds.
pub const STARTUP_GRACE_SECS: u64 = 15;

/// The shortest gap between two spoken answers, in seconds: the same
/// question reaches the bot once per device a speaker joined from.
pub const ANSWER_DEBOUNCE_SECS: u64 = 8;

/// Whether a server address is a web URL (`ws://`, `wss://`, `http://` or
/// `https://`), which the client reaches over a WebSocket.
pub open spec fn is_web_address(server: Seq<char>) -> bool {
    starts_with(server, "ws://"@) || starts_with(server, "wss://"@) || starts_with(server, "http://"@) || starts_with(
        server,
        "https://"@,
    )
}

fn has_prefix(s: &[char], p: &str) -> (r: bool)
    ensures
        r == starts_with(s@, p@),
{
    let pc = chars_of(p);
    starts_with_chars(s, pc.as_slice())
}

/// The WebSocket URL to connect to (the server address itself, when it
/// is a web URL) and whether the connection uses TLS (every WebSocket
/// connection does).
pub fn transport_for(server: &str) -> (r: (Option<String>, bool))
    ensures
        match r.0 {
            Some(u) => is_web_address(server@) && u@ == server@,
            None => !is_web_address(server@),
        },
        r.1 == is_web_address(server@),
{
    let c = chars_of(server);
    let web = has_prefix(c.as_slice(), "ws://") || has_prefix(c.as_slice(), "wss://") || has_prefix(
        c.as_slice(),
        "http://",
    ) || has_prefix(c.as_slice(), "https://");
    if web {
        (Some(string_from(server)), true)
    } else {
        (None, false)
    }
}

/// What happens to a question addressed to the bot by voice.
#[derive(Debug, Clone, Copy, PartialEq, Eq, Structural)]
pub enum VoiceDispatch {
    /// No call is live.
    NoCall,
    /// Too soon after start-up: replayed audio.
    StartupGrace,
    /// She is speaking and was addressed again: stop her and answer the
    /// new question.
    BargeIn,
    /// Answer it.
    Answer,
    /// A duplicate of a question just answered.
    Duplicate,
}

/// The voice dispatch rule, given whether a call is live, whether start-up
/// grace is still running, whether the bot is speaking, and the seconds
/// since its last answer (if any).
pub open spec fn voice_rule(in_call: bool, in_grace: bool, speaking: bool, since_answer: Option<u64>) -> VoiceDispatch {
    if !in_call {
        VoiceDispatch::NoCall
    } else if in_grace {
        VoiceDispatch::StartupGrace
    } else if speaking {
        VoiceDispatch::BargeIn
    } else if match since_answer {
        Some(s) => s >= ANSWER_DEBOUNCE_SECS,
        None => true,
    } {
        VoiceDispatch::Answer
    } else {
        VoiceDispatch::Duplicate
    }
}

/// Decide what happens to a question addressed to the bot by voice.
pub fn voice_dispatch(in_call: bool, in_grace: bool, speaking: bool, since_answer: Option<u64>) -> (r: VoiceDispatch)
    ensures
        r == voice_rule(in_call, in_grace, speaking, since_answer),
{
    if !in_call {
        VoiceDispatch::NoCall
    } else if in_grace {
        VoiceDispatch::StartupGrace
    } else if speaking {
        VoiceDispatch::BargeIn
    } else if match since_answer {
        Some(s) => s >= ANSWER_DEBOUNCE_SECS,
        None => true,
    } {
        VoiceDispatch::Answer
    } else {
        VoiceDispatch::Duplicate
    }
}

/// What happens to a chat message.
#[derive(Debug, Clone, Copy, PartialEq, Eq, Structural)]
pub enum ChatGate {
    /// Not a question for the bot: not in a channel, its own message, or
    /// not addressed to it.
    NotForMe,
    /// Too soon after start-up: replayed history.
    StartupGrace,
    /// The bot has no model key; it says so.
    NoKey,
    /// Answer it in text.
    Answer,
}

/// The chat rule: only channel messages (`#` or `&`) from someone else
/// (nicks compared ignoring ASCII case) that address the bot, after
/// start-up grace, and only with a model key.
pub open spec fn chat_rule(target: Seq<char>, from: Seq<char>, my_nick: Seq<char>, addressed: bool, in_grace: bool, has_key: bool) -> ChatGate {
    if !(target.len() > 0 && (target[0] == '#' || target[0] == '&')) || eq_ascii_nocase(from, my_nick) || !addressed {
        ChatGate::NotForMe
    } else if in_grace {
        ChatGate::StartupGrace
    } else if !has_key {
        ChatGate::NoKey
    } else {
        ChatGate::Answer
    }
}

/// Decide what happens to a chat message; `addressed` is whether it
/// addresses the bot.
pub fn chat_gate(target: &str, from: &str, my_nick: &str, addressed: bool, in_grace: bool, has_key: bool) -> (r: ChatGate)
    ensures
        r == chat_rule(target@, from@, my_nick@, addressed, in_grace, has_key),
{
    let t = chars_of(target);
    if !(t.len() > 0 && (t[0] == '#' || t[0] == '&')) || same_ignoring_ascii_case(from, my_nick) || !addressed {
        ChatGate::NotForMe
    } else if in_grace {
        ChatGate::StartupGrace
    } else if !has_key {
        ChatGate::NoKey
    } else {
        ChatGate::Answer
    }
}

/// The reply when a question comes in and no model key is configured.
pub fn no_key_text(from: &str) -> (r: String)
    ensures
        r@ == from@ + ": Q&A needs a Groq key — not configured."@,
{
    let mut s = string_from(from);
    push_str(&mut s, ": Q&A needs a Groq key — not configured.");
    s
}

/// A transcript line: `<nick>: <text>`.
pub fn transcript_line(nick: &str, text: &str) -> (r: String)
    ensures
        r@ == nick@ + ": "@ + text@,
{
    let mut s = string_from(nick);
    push_str(&mut s, ": ");
    push_str(&mut s, text);
    s
}

/// Whether the channel a call should be started in is one the bot
/// joins (compared ignoring ASCII case).
pub fn start_channel_listed(channels: &[String], start: &str) -> (r: bool)
    ensures
        r == exists|i: int| 0 <= i < channels@.len() && eq_ascii_nocase(#[trigger] string_views(channels@)[i], start@),
{
    let ghost cs = string_views(channels@);
    let mut i: usize = 0;
    while i < channels.len()
        invariant
            cs == string_views(channels@),
            i <= channels@.len(),
            forall|j: int| 0 <= j < i ==> !eq_ascii_nocase(#[trigger] cs[j], start@),
        decreases channels@.len() - i,
    {
        proof {
            assert(cs[i as int] == channels@[i as int]@);
        }
        if same_ignoring_ascii_case(channels[i].as_str(), start) {
            return true;
        }
        i = i + 1;
    }
    false
}

/// The participant instance a new call can reuse: the one the bot
/// announced itself when it started a call in that channel (channels
/// compared ignoring ASCII case), so it does not join twice.
pub fn reuse_instance(self_start: Option<(&str, &str)>, channel: &str) -> (r: Option<String>)
    ensures
        match self_start {
            Some((ch, inst)) => if eq_ascii_nocase(ch@, channel@) {
                r matches Some(s) && s@ == inst@
            } else {
                r is None
            },
            None => r is None,
        },
{
    match self_start {
        Some((ch, inst)) => if same_ignoring_ascii_case(ch, channel) {
            Some(string_from(inst))
        } else {
            None
        },
        None => None,
    }
}

/// What the bot posts when a call ends.
#[derive(Debug, Clone, Copy, PartialEq, Eq, Structural)]
pub enum EndOfCall {
    /// Another session ended: nothing.
    OtherSession,
    /// Say the session ended (no summary model, or nothing was said).
    Notice,
    /// Summarise the transcript, then post the notice and the summary.
    Summarise,
}

/// What the bot posts when the session `ended` ends while it is in
/// `active`.
pub fn end_of_call(active: &str, ended: &str, has_summary_key: bool, transcript_empty: bool) -> (r: EndOfCall)
    ensures
        r == if active@ != ended@ {
            EndOfCall::OtherSession
        } else if !has_summary_key || transcript_empty {
            EndOfCall::Notice
        } else {
            EndOfCall::Summarise
        },
{
    let a = chars_of(active);
    let e = chars_of(ended);
    if !eq_chars(a.as_slice(), e.as_slice()) {
        EndOfCall::OtherSession
    } else if !has_summary_key || transcript_empty {
        EndOfCall::Notice
    } else {
        EndOfCall::Summarise
    }
}

/// The notice posted when a call ends.
pub const SESSION_ENDED: &'static str = "[transcript] session ended.";

/// The notice posted when summarising a call failed.
pub fn summary_failed_text(error: &str) -> (r: String)
    ensures
        r@ == "[transcript] session ended; summary failed: "@ + error@,
{
    let mut s = string_from("[transcript] session ended; summary failed: ");
    push_str(&mut s, error);
    s
}

/// A channel name as the sessions endpoint path takes it: byte by byte,
/// `#` as `%23` and every other byte as the character of that code.
pub open spec fn channel_path(bs: Seq<u8>) -> Seq<char>
    decreases bs.len(),
{
    if bs.len() == 0 {
        Seq::empty()
    } else {
        channel_path(bs.drop_last()) + if bs.last() == 35 {
            "%23"@
        } else {
            seq![bs.last() as char]
        }
    }
}

/// The URL that lists a channel's call sessions.
pub fn sessions_url(api_base: &str, channel: &str) -> (r: String)
    ensures
        r@ == api_base@ + "/api/v1/channels/"@ + channel_path(vstd::utf8::encode_utf8(channel@)) + "/sessions"@,
{
    let mut s = string_from(api_base);
    push_str(&mut s, "/api/v1/channels/");
    let ghost pre = s@;
    let bs = channel.as_bytes();
    let n = bs.len();
    let mut i: usize = 0;
    while i < n
        invariant
            n == bs@.len(),
            bs@ == vstd::utf8::encode_utf8(channel@),
            i <= n,
            s@ == pre + channel_path(bs@.take(i as int)),
        decreases n - i,
    {
        proof {
            reveal_strlit("%23");
            assert(bs@.take(i + 1).drop_last() =~= bs@.take(i as int));
        }
        let b = bs[i];
        let ghost before = s@;
        if b == 35 {
            push_str(&mut s, "%23");
        } else {
            crate::text::push_char(&mut s, b as char);
        }
        proof {
            assert(s@ =~= pre + channel_path(bs@.take(i + 1)));
        }
        i = i + 1;
    }
    assert(bs@.take(n as int) =~= bs@);
    push_str(&mut s, "/sessions");
    s
}

/// The id of the channel's live session in the sessions listing: its
/// `active` member, when that is an object in state `Active` with a
/// string `id`.
pub open spec fn active_session_spec(v: JsonValue) -> Option<Seq<char>> {
    match member(v, "active"@) {
        Some(a) => if str_of(member(a, "state"@)) == Some("Active"@) {
            str_of(member(a, "id"@))
        } else {
            None
        },
        None => None,
    }
}

/// The id of the channel's live session in the sessions listing.
pub fn active_session_id(listing: &JsonValue) -> (r: Option<String>)
    ensures
        match r {
            Some(id) => active_session_spec(*listing) == Some(id@),
            None => active_session_spec(*listing) is None,
        },
{
    match listing.get("active") {
        Some(a) => {
            let live = match a.get("state") {
                Some(st) => match st.as_str() {
                    Some(t) => {
                        proof {
                            reveal_strlit("Active");
                        }
                        same_text(chars_of(t).as_slice(), "Active")
                    },
                    None => false,
                },
                None => false,
            };
            if !live {
                return None;
            }
            match a.get("id") {
                Some(i) => match i.as_str() {
                    Some(t) => Some(string_from(t)),
                    None => None,
                },
                None => None,
            }
        },
        None => None,
    }
}

/// The non-empty lines of `lines`, in order.
pub open spec fn nonempty(lines: Seq<Seq<char>>) -> Seq<Seq<char>>
    decreases lines.len(),
{
    if lines.len() == 0 {
        Seq::empty()
    } else if lines.last().len() == 0 {
        nonempty(lines.drop_last())
    } else {
        nonempty(lines.drop_last()).push(lines.last())
    }
}

/// The messages a long text (a call summary) is posted as: its non-empty
/// lines, one message each.
pub fn post_chunks(text: &str) -> (r: Vec<String>)
    ensures
        string_views(r@) == nonempty(text_lines(text@)),
{
    let ls = split_lines(chars_of(text).as_slice());
    let ghost lv = views(ls@);
    let n = ls.len();
    let mut out: Vec<String> = Vec::new();
    let mut i: usize = 0;
    while i < n
        invariant
            n == ls@.len(),
            lv == views(ls@),
            lv == text_lines(text@),
            i <= n,
            string_views(out@) == nonempty(lv.take(i as int)),
        decreases n - i,
    {
        proof {
            assert(lv.take(i + 1).drop_last() =~= lv.take(i as int));
            assert(lv[i as int] == ls@[i as int]@);
        }
        if ls[i].len() > 0 {
            let ghost before = out@;
            let line = string_of(ls[i].as_slice());
            out.push(line);
            proof {
                assert(string_views(out@) =~= string_views(before).push(line@));
            }
        }
        i = i + 1;
    }
    assert(lv.take(n as int) =~= lv);
    out
}

/// The bot's call state: the call it is in (channel, session), and the
/// call it started itself (channel, its instance), if any.
pub struct BotState {
    pub active: Option<(String, String)>,
    pub self_start: Option<(String, String)>,
}

/// An audio/video event the bot reacts to.
pub enum BotEvent {
    /// A session started in a watched channel.
    Started { channel: String, session_id: String },
    /// A session ended; whether a summary model is configured and
    /// whether the call's transcript is empty.
    Ended { channel: String, session_id: String, has_summary_key: bool, transcript_empty: bool },
}

/// What the bot does.
pub enum BotAction {
    /// Join the session and transcribe it, reusing the instance of a call
    /// it started itself in that channel.
    Start { channel: String, session_id: String, existing_instance: Option<String> },
    /// Already in a call: nothing.
    AlreadyInCall,
    /// Not in a call, or in another session: nothing.
    Ignore,
    /// The call ended: post the notice.
    Notice { channel: String },
    /// The call ended: summarise the transcript.
    Summarise { channel: String },
}

/// The view of the active call.
pub open spec fn active_view(a: Option<(String, String)>) -> Option<(Seq<char>, Seq<char>)> {
    match a {
        Some((c, s)) => Some((c@, s@)),
        None => None,
    }
}

/// One event of the call loop: a start while in a call changes nothing;
/// a start otherwise asks to join (the caller records the call once it
/// is joined); an end of the active session leaves the call and posts the
/// notice or the summary; any other end changes nothing.
pub fn bot_step(st: BotState, ev: &BotEvent) -> (r: (BotState, BotAction))
    ensures
        active_view(r.0.self_start) == active_view(st.self_start),
        match ev {
            BotEvent::Started { channel, session_id } => if st.active is Some {
                active_view(r.0.active) == active_view(st.active) && r.1 is AlreadyInCall
            } else {
                active_view(r.0.active) == active_view(st.active) && (r.1 matches BotAction::Start { channel: c, session_id: s, existing_instance: e }
                    && c@ == channel@ && s@ == session_id@ && match st.self_start {
                    Some((ch, inst)) => if eq_ascii_nocase(ch@, channel@) {
                        e matches Some(x) && x@ == inst@
                    } else {
                        e is None
                    },
                    None => e is None,
                })
            },
            BotEvent::Ended { channel, session_id, has_summary_key, transcript_empty } => match st.active {
                Some((_, s)) => if s@ == session_id@ {
                    r.0.active is None && if !*has_summary_key || *transcript_empty {
                        r.1 matches BotAction::Notice { channel: c } && c@ == channel@
                    } else {
                        r.1 matches BotAction::Summarise { channel: c } && c@ == channel@
                    }
                } else {
                    active_view(r.0.active) == active_view(st.active) && r.1 is Ignore
                },
                None => r.0.active is None && r.1 is Ignore,
            },
        },
{
    let BotState { active, self_start } = st;
    match ev {
        BotEvent::Started { channel, session_id } => {
            if active.is_some() {
                return (BotState { active, self_start }, BotAction::AlreadyInCall);
            }
            let existing = match &self_start {
                Some((ch, inst)) => reuse_instance(Some((ch.as_str(), inst.as_str())), channel.as_str()),
                None => None,
            };
            let action = BotAction::Start {
                channel: string_from(channel.as_str()),
                session_id: string_from(session_id.as_str()),
                existing_instance: existing,
            };
            (BotState { active, self_start }, action)
        },
        BotEvent::Ended { channel, session_id, has_summary_key, transcript_empty } => {
            match active {
                None => (BotState { active: None, self_start }, BotAction::Ignore),
                Some((ac, asess)) => {
                    match end_of_call(asess.as_str(), session_id.as_str(), *has_summary_key, *transcript_empty) {
                        EndOfCall::OtherSession => (
                            BotState { active: Some((ac, asess)), self_start },
                            BotAction::Ignore,
                        ),
                        EndOfCall::Notice => (
                            BotState { active: None, self_start },
                            BotAction::Notice { channel: string_from(channel.as_str()) },
                        ),
                        EndOfCall::Summarise => (
                            BotState { active: None, self_start },
                            BotAction::Summarise { channel: string_from(channel.as_str()) },
                        ),
                    }
                },
            }
        },
    }
}

} // verus!
