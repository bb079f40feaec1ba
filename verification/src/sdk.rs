//! The client-facing event model: messages, tag messages, NAMES members,
//! topics and the events a client hands to its handler, and the
//! conversions from raw IRC pieces into them.
use vstd::prelude::*;
use crate::clock::{clock_instant, rfc3339_instant, parse_rfc3339, utc_now};
use crate::tags::{key_at, lemma_entries_dom, lemma_entry_value, TagMap};
use crate::text::{chars_of, starts_at, starts_with, string_of, sub_chars};

verus! {

/// A chat message as a client sees it.
#[derive(Debug)]
pub struct IrcMessage {
    pub from_nick: String,
    pub target: String,
    pub text: String,
    pub msgid: Option<String>,
    pub reply_to: Option<String>,
    pub replaces_msgid: Option<String>,
    pub edit_of: Option<String>,
    pub batch_id: Option<String>,
    pub is_action: bool,
    pub timestamp_ms: i64,
}

/// One message tag.
#[derive(Debug)]
pub struct TagEntry {
    pub key: String,
    pub value: String,
}

/// A TAGMSG: tags with no text.
#[derive(Debug)]
pub struct TagMessage {
    pub from: String,
    pub target: String,
    pub tags: Vec<TagEntry>,
}

/// A channel member from a NAMES reply.
#[derive(Debug)]
pub struct IrcMember {
    pub nick: String,
    pub is_op: bool,
    pub is_halfop: bool,
    pub is_voiced: bool,
    pub away_msg: Option<String>,
}

/// A channel topic.
#[derive(Debug)]
pub struct ChannelTopic {
    pub text: String,
    pub set_by: Option<String>,
}

/// What a client reports to its handler.
#[derive(Debug)]
pub enum FreeqEvent {
    Connected,
    Registered { nick: String },
    Authenticated { did: String },
    AuthFailed { reason: String },
    Joined { channel: String, nick: String },
    Parted { channel: String, nick: String },
    NickChanged { old_nick: String, new_nick: String },
    AwayChanged { nick: String, away_msg: Option<String> },
    Message { msg: IrcMessage },
    TagMsg { msg: TagMessage },
    Names { channel: String, members: Vec<IrcMember> },
    TopicChanged { channel: String, topic: ChannelTopic },
    ModeChanged { channel: String, mode: String, arg: Option<String>, set_by: String },
    Kicked { channel: String, nick: String, by: String, reason: String },
    UserQuit { nick: String, reason: String },
    BatchStart { id: String, batch_type: String, target: String },
    BatchEnd { id: String },
    Notice { text: String },
    Disconnected { reason: String },
}

/// Why a client call failed.
#[derive(Debug, Clone, Copy, PartialEq, Eq)]
pub enum FreeqError {
    ConnectionFailed,
    NotConnected,
    SendFailed,
    InvalidArgument,
}

/// The text each error displays.
pub open spec fn error_text(e: FreeqError) -> Seq<char> {
    match e {
        FreeqError::ConnectionFailed => "Connection failed"@,
        FreeqError::NotConnected => "Not connected"@,
        FreeqError::SendFailed => "Send failed"@,
        FreeqError::InvalidArgument => "Invalid argument"@,
    }
}

impl FreeqError {
    /// The error's message.
    pub fn message(&self) -> (r: &'static str)
        ensures
            r@ == error_text(*self),
    {
        match self {
            FreeqError::ConnectionFailed => "Connection failed",
            FreeqError::NotConnected => "Not connected",
            FreeqError::SendFailed => "Send failed",
            FreeqError::InvalidArgument => "Invalid argument",
        }
    }
}

/// What a client's user implements to receive events.
pub trait EventHandler {
    fn on_event(&self, event: FreeqEvent);
}

/// The mode prefix a NAMES entry starts with, if any: `@` op, `%`
/// half-op, `+` voice.
pub open spec fn member_flags(n: Seq<char>) -> (bool, bool, bool) {
    if n.len() > 0 && n[0] == '@' {
        (true, false, false)
    } else if n.len() > 0 && n[0] == '%' {
        (false, true, false)
    } else if n.len() > 0 && n[0] == '+' {
        (false, false, true)
    } else {
        (false, false, false)
    }
}

/// The nick of a NAMES entry: without its mode prefix, if it has one.
pub open spec fn member_nick(n: Seq<char>) -> Seq<char> {
    if n.len() > 0 && (n[0] == '@' || n[0] == '%' || n[0] == '+') {
        n.drop_first()
    } else {
        n
    }
}

/// A member from a NAMES entry such as `@alice`, `%bob`, `+carol` or
/// `dave`.
pub fn names_member(n: &str) -> (r: IrcMember)
    ensures
        (r.is_op, r.is_halfop, r.is_voiced) == member_flags(n@),
        r.nick@ == member_nick(n@),
        r.away_msg is None,
{
    let c = chars_of(n);
    let len = c.len();
    if len > 0 && (c[0] == '@' || c[0] == '%' || c[0] == '+') {
        let rest = sub_chars(c.as_slice(), 1, len);
        assert(rest@ =~= n@.drop_first());
        let nick = string_of(rest.as_slice());
        IrcMember { nick, is_op: c[0] == '@', is_halfop: c[0] == '%', is_voiced: c[0] == '+', away_msg: None }
    } else {
        IrcMember { nick: string_of(c.as_slice()), is_op: false, is_halfop: false, is_voiced: false, away_msg: None }
    }
}

/// The members of a NAMES reply, in order.
pub fn names_event(channel: &str, nicks: &[String]) -> (r: FreeqEvent)
    ensures
        r matches FreeqEvent::Names { channel: c, members } && c@ == channel@ && members@.len()
            == nicks@.len() && forall|i: int|
            0 <= i < nicks@.len() ==> ((#[trigger] members@[i]).nick@ == member_nick(nicks@[i]@)
                && (members@[i].is_op, members@[i].is_halfop, members@[i].is_voiced)
                == member_flags(nicks@[i]@) && members@[i].away_msg is None),
{
    let n = nicks.len();
    let mut members: Vec<IrcMember> = Vec::new();
    let mut i: usize = 0;
    while i < n
        invariant
            n == nicks@.len(),
            i <= n,
            members@.len() == i,
            forall|j: int|
                0 <= j < i ==> ((#[trigger] members@[j]).nick@ == member_nick(nicks@[j]@) && (
                members@[j].is_op,
                members@[j].is_halfop,
                members@[j].is_voiced,
            ) == member_flags(nicks@[j]@) && members@[j].away_msg is None),
        decreases n - i,
    {
        members.push(names_member(nicks[i].as_str()));
        i = i + 1;
    }
    FreeqEvent::Names { channel: string_of(chars_of(channel).as_slice()), members }
}

/// The CTCP ACTION opener.
pub open spec fn action_prefix() -> Seq<char> {
    seq!['\x01', 'A', 'C', 'T', 'I', 'O', 'N', ' ']
}

/// Whether `t` is a CTCP ACTION: it starts with the opener and ends with
/// `\x01`.
pub open spec fn is_action_text(t: Seq<char>) -> bool {
    starts_with(t, action_prefix()) && t[t.len() - 1] == '\x01'
}

/// `t` with every leading copy of the opener removed
/// (`trim_start_matches`).
pub open spec fn strip_openers(t: Seq<char>) -> Seq<char>
    decreases t.len(),
{
    if starts_with(t, action_prefix()) {
        strip_openers(t.skip(8))
    } else {
        t
    }
}

/// `t` with every trailing `\x01` removed (`trim_end_matches`).
pub open spec fn strip_closers(t: Seq<char>) -> Seq<char>
    decreases t.len(),
{
    if t.len() > 0 && t[t.len() - 1] == '\x01' {
        strip_closers(t.drop_last())
    } else {
        t
    }
}

/// Whether `t` is an ACTION, and its text without the CTCP framing
/// when it is (else `t` itself).
pub fn split_action(t: &str) -> (r: (bool, String))
    ensures
        r.0 == is_action_text(t@),
        r.1@ == if r.0 {
            strip_closers(strip_openers(t@))
        } else {
            t@
        },
{
    let c = chars_of(t);
    let n = c.len();
    let p = ['\x01', 'A', 'C', 'T', 'I', 'O', 'N', ' '];
    let ps = p.as_slice();
    assert(ps@ =~= action_prefix());
    assert(c@.skip(0) =~= c@);
    let opens = starts_at(c.as_slice(), 0, ps);
    let is_action = opens && c[n - 1] == '\x01';
    if !is_action {
        return (false, string_of(c.as_slice()));
    }
    let mut lo: usize = 0;
    while starts_at(c.as_slice(), lo, ps)
        invariant
            n == c@.len(),
            c@ == t@,
            ps@ == action_prefix(),
            lo <= n,
            strip_openers(t@) == strip_openers(c@.skip(lo as int)),
        decreases n - lo,
    {
        assert(c@.skip(lo as int).skip(8) =~= c@.skip(lo + 8));
        lo = lo + 8;
    }
    let mut hi: usize = n;
    while hi > lo && c[hi - 1] == '\x01'
        invariant
            n == c@.len(),
            lo <= hi <= n,
            strip_closers(c@.skip(lo as int)) == strip_closers(c@.subrange(lo as int, hi as int)),
        decreases hi,
    {
        assert(c@.subrange(lo as int, hi as int).drop_last() =~= c@.subrange(lo as int, hi - 1));
        hi = hi - 1;
    }
    assert(c@.skip(lo as int) =~= c@.subrange(lo as int, n as int));
    let body = sub_chars(c.as_slice(), lo, hi);
    (true, string_of(body.as_slice()))
}

/// The milliseconds since the Unix epoch of an instant, when they fit.
pub open spec fn instant_millis(t: (i64, u32)) -> Option<i64> {
    let ms = t.0 * 1000 + t.1 / 1_000_000;
    if i64::MIN <= t.0 * 1000 <= i64::MAX && i64::MIN <= ms <= i64::MAX {
        Some(ms as i64)
    } else {
        None
    }
}

/// The time a message carries in its `time` tag, in Unix milliseconds,
/// if the tag is there and parses as RFC 3339.
pub open spec fn tagged_millis(tags: Map<Seq<char>, Seq<char>>) -> Option<i64> {
    if tags.contains_key("time"@) {
        match rfc3339_instant(tags["time"@]) {
            Some(t) => instant_millis(t),
            None => None,
        }
    } else {
        None
    }
}

/// Unix milliseconds of an instant, when they fit.
fn millis_of(t: (i64, u32)) -> (r: Option<i64>)
    ensures
        r == instant_millis(t),
{
    let ms = (t.1 / 1_000_000) as i64;
    match t.0.checked_mul(1000) {
        Some(s) => s.checked_add(ms),
        None => None,
    }
}

/// The current time in Unix milliseconds: the milliseconds of an instant
/// that the clock can give.
pub fn now_millis() -> (r: i64)
    ensures
        exists|t: (i64, u32)| clock_instant(t) && instant_millis(t) == Some(r),
{
    let t = utc_now();
    match millis_of(t) {
        Some(ms) => ms,
        None => 0,
    }
}

/// The message event for a PRIVMSG from `from` to `target` with `text`
/// and `tags`, stamped with its `time` tag or else `now_ms`.
pub fn message_event(from: &str, target: &str, text: &str, tags: &TagMap, now_ms: i64) -> (r: FreeqEvent)
    ensures
        r matches FreeqEvent::Message { msg } && msg.from_nick@ == from@ && msg.target@ == target@
            && msg.is_action == is_action_text(text@) && msg.text@ == (if msg.is_action {
            strip_closers(strip_openers(text@))
        } else {
            text@
        }) && opt_view(msg.msgid) == tag_of(tags@, "msgid"@) && opt_view(msg.reply_to) == tag_of(
            tags@,
            "+reply"@,
        ) && opt_view(msg.replaces_msgid) == tag_of(tags@, "+draft/edit"@) && opt_view(
            msg.edit_of,
        ) == tag_of(tags@, "+draft/edit"@) && opt_view(msg.batch_id) == tag_of(tags@, "batch"@)
            && msg.timestamp_ms == match tagged_millis(tags@) {
            Some(ms) => ms,
            None => now_ms,
        },
{
    let msgid = tags.get("msgid");
    let reply_to = tags.get("+reply");
    let replaces_msgid = tags.get("+draft/edit");
    let edit_of = tags.get("+draft/edit");
    let batch_id = tags.get("batch");
    let (is_action, clean) = split_action(text);
    let ts = match tags.get("time") {
        Some(t) => match parse_rfc3339(t.as_str()) {
            Some(i) => match millis_of(i) {
                Some(ms) => ms,
                None => now_ms,
            },
            None => now_ms,
        },
        None => now_ms,
    };
    FreeqEvent::Message {
        msg: IrcMessage {
            from_nick: string_of(chars_of(from).as_slice()),
            target: string_of(chars_of(target).as_slice()),
            text: clean,
            msgid,
            reply_to,
            replaces_msgid,
            edit_of,
            batch_id,
            is_action,
            timestamp_ms: ts,
        },
    }
}

/// The view of an optional string.
pub open spec fn opt_view(o: Option<String>) -> Option<Seq<char>> {
    match o {
        Some(s) => Some(s@),
        None => None,
    }
}

/// The value of tag `k`, if present.
pub open spec fn tag_of(tags: Map<Seq<char>, Seq<char>>, k: Seq<char>) -> Option<Seq<char>> {
    if tags.contains_key(k) {
        Some(tags[k])
    } else {
        None
    }
}

/// The tag-message event for a TAGMSG from `from` to `target`: one entry
/// per tag, each with the value the tag has.
pub fn tag_message_event(from: &str, target: &str, tags: &TagMap) -> (r: FreeqEvent)
    ensures
        r matches FreeqEvent::TagMsg { msg } && msg.from@ == from@ && msg.target@ == target@
            && msg.tags@.len() == tags@.dom().len() && (forall|i: int|
            0 <= i < msg.tags@.len() ==> tags@.contains_key((#[trigger] msg.tags@[i]).key@)
                && tags@[msg.tags@[i].key@] == msg.tags@[i].value@) && (forall|i: int, j: int|
            0 <= i < j < msg.tags@.len() ==> (#[trigger] msg.tags@[i]).key@ != (#[trigger] msg.tags@[j]).key@),
{
    let es = tags.entries();
    let n = es.len();
    let mut out: Vec<TagEntry> = Vec::new();
    let mut i: usize = 0;
    while i < n
        invariant
            n == es@.len(),
            i <= n,
            out@.len() == i,
            forall|j: int| 0 <= j < i ==> (#[trigger] out@[j]).key@ == es@[j].0@ && out@[j].value@ == es@[j].1@,
        decreases n - i,
    {
        let k = es[i].0.clone();
        let v = es[i].1.clone();
        out.push(TagEntry { key: k, value: v });
        i = i + 1;
    }
    proof {
        lemma_entries_dom(es@);
        assert forall|j: int| 0 <= j < out@.len() implies tags@.contains_key((#[trigger] out@[j]).key@)
            && tags@[out@[j].key@] == out@[j].value@ by {
            lemma_entry_value(es@, j);
        }
        assert forall|a: int, b: int| 0 <= a < b < out@.len() implies (#[trigger] out@[a]).key@ != (#[trigger] out@[b]).key@ by {
            assert(key_at(es@, a) != key_at(es@, b));
        }
    }
    FreeqEvent::TagMsg {
        msg: TagMessage { from: string_of(chars_of(from).as_slice()), target: string_of(chars_of(target).as_slice()), tags: out },
    }
}

} // verus!
