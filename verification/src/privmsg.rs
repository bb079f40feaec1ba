//! A PRIVMSG or NOTICE to a channel as one step: the `+n`/`+m` checks,
//! the channel history a PRIVMSG is kept in, which line each member
//! gets, and whether the message is relayed to peer servers.
use vstd::prelude::*;
use crate::channel::{HistoryMessage, MAX_HISTORY};
use crate::delivery::{message_delivery, message_rule, Delivery};
use crate::join::list_has;
use crate::modes::{check_send, send_rule, SendRefusal};
use crate::queries::Reply;
use crate::tags::TagMap;
use crate::text::{chars_of, same_text, string_from, string_views};

verus! {

/// What sending to a channel reads and changes of it.
pub struct SendChannel {
    /// Local member sessions, in the order they are served.
    pub members: Vec<String>,
    /// Operator sessions.
    pub ops: Vec<String>,
    /// Voiced sessions.
    pub voiced: Vec<String>,
    /// `+n`.
    pub no_ext_msg: bool,
    /// `+m`.
    pub moderated: bool,
    /// Recent messages, oldest first.
    pub history: Vec<HistoryMessage>,
}

/// Who sends.
pub struct Sender {
    pub session_id: String,
    /// The nick, or `*` before one is set.
    pub nick: String,
    pub hostmask: String,
}

/// The message: `PRIVMSG` or `NOTICE`, its channel, text and tags.
pub struct ChannelMessage {
    pub command: String,
    pub target: String,
    pub text: String,
    pub tags: TagMap,
}

/// What the step leaves: the channel (when it exists), the refusal sent
/// to the sender, the line each member gets, and whether the message is
/// relayed to peer servers.
pub struct SendOutcome {
    pub channel: Option<SendChannel>,
    pub refusal: Option<Reply>,
    pub deliveries: Vec<(String, Delivery)>,
    pub relay: bool,
}

/// The history after `m` is kept: appended, then the oldest dropped
/// beyond [`MAX_HISTORY`].
pub open spec fn kept(h: Seq<HistoryMessage>, m: HistoryMessage) -> Seq<HistoryMessage> {
    let p = h.push(m);
    if p.len() > 100 {
        p.skip(p.len() - 100)
    } else {
        p
    }
}

/// What the server's message plugins answered for the message.
pub enum PluginVerdict {
    /// Deliver it as it is.
    Pass,
    /// Drop it: nothing is kept, delivered or relayed.
    Suppress,
    /// Deliver this text in its place.
    Rewrite(String),
}

/// The text delivered and kept: the plugins' rewrite, if any.
pub open spec fn effective_text(text: Seq<char>, plugin: PluginVerdict) -> Seq<char> {
    match plugin {
        PluginVerdict::Rewrite(t) => t@,
        _ => text,
    }
}

/// The refusal text of each reason.
pub open spec fn refusal_text(why: SendRefusal) -> Seq<char> {
    match why {
        SendRefusal::NoExternal => "Cannot send to channel (+n)"@,
        SendRefusal::Moderated => "Cannot send to channel (+m)"@,
    }
}

/// The delivery to each member, in order.
pub open spec fn deliveries_for(members: Seq<Seq<char>>, sender: Seq<char>, echo: Seq<Seq<char>>, tagged: Seq<Seq<char>>, has_tags: bool) -> Seq<(Seq<char>, Delivery)> {
    Seq::new(
        members.len(),
        |i: int| (members[i], message_rule(members[i] == sender, echo.contains(members[i]), tagged.contains(members[i]), has_tags)),
    )
}

/// The view of deliveries.
pub open spec fn delivery_views(d: Seq<(String, Delivery)>) -> Seq<(Seq<char>, Delivery)> {
    d.map_values(|p: (String, Delivery)| (p.0@, p.1))
}

/// The refusal of a message by a channel's modes, if any.
pub open spec fn channel_send_refusal(c: SendChannel, sender: Seq<char>) -> Option<SendRefusal> {
    send_rule(
        c.no_ext_msg,
        c.moderated,
        string_views(c.members@).contains(sender),
        string_views(c.ops@).contains(sender),
        string_views(c.voiced@).contains(sender),
    )
}

/// Send `msg` from `from` to its channel `ch` (when it exists): refused by
/// `+n` or `+m` with a 404 to the sender and nothing else; otherwise a
/// PRIVMSG is kept in the history stamped `now`, each member gets the
/// line [`message_rule`] picks (`echo` and `tagged` are the sessions with
/// `echo-message` and `message-tags`), and a PRIVMSG is relayed.
pub fn channel_message_step(
    ch: Option<SendChannel>,
    from: &Sender,
    msg: ChannelMessage,
    echo: &Vec<String>,
    tagged: &Vec<String>,
    plugin: &PluginVerdict,
    now: u64,
) -> (r: SendOutcome)
    ensures
        ch is None <==> r.channel is None,
        match ch {
            Some(c) => match channel_send_refusal(c, from.session_id@) {
                Some(why) => {
                    &&& r.refusal matches Some(rep) && rep@ == ("404"@, seq![from.nick@, msg.target@, refusal_text(why)])
                    &&& r.channel matches Some(c2) && c2.history@ == c.history@ && c2.members@ == c.members@
                    &&& r.deliveries@.len() == 0
                    &&& !r.relay
                },
                None => if *plugin is Suppress {
                    &&& r.refusal is None
                    &&& r.channel matches Some(c2) && c2.history@ == c.history@ && c2.members@ == c.members@
                    &&& r.deliveries@.len() == 0
                    &&& !r.relay
                } else {
                    &&& r.refusal is None
                    &&& r.channel matches Some(c2) && c2.members@ == c.members@ && c2.ops@ == c.ops@
                        && c2.voiced@ == c.voiced@ && c2.no_ext_msg == c.no_ext_msg && c2.moderated == c.moderated
                        && (if msg.command@ == "PRIVMSG"@ {
                        c2.history@.len() == kept(c.history@, c2.history@.last()).len()
                            && c2.history@ == kept(c.history@, c2.history@.last())
                            && c2.history@.last().from@ == from.hostmask@ && c2.history@.last().text@ == effective_text(msg.text@, *plugin)
                            && c2.history@.last().timestamp == now && c2.history@.last().tags@ == msg.tags@
                    } else {
                        c2.history@ == c.history@
                    })
                    &&& delivery_views(r.deliveries@) == deliveries_for(
                        string_views(c.members@),
                        from.session_id@,
                        string_views(echo@),
                        string_views(tagged@),
                        msg.tags@.len() > 0,
                    )
                    &&& r.relay == (msg.command@ == "PRIVMSG"@)
                },
            },
            None => r.refusal is None && r.deliveries@.len() == 0 && r.relay == (msg.command@ == "PRIVMSG"@
                && !(*plugin is Suppress)),
        },
{
    let is_privmsg = same_text(chars_of(msg.command.as_str()).as_slice(), "PRIVMSG");
    let mut c = match ch {
        None => {
            let suppressed = match plugin {
                PluginVerdict::Suppress => true,
                _ => false,
            };
            return SendOutcome { channel: None, refusal: None, deliveries: Vec::new(), relay: is_privmsg && !suppressed };
        },
        Some(c) => c,
    };
    let sid = from.session_id.as_str();
    let is_member = list_has(&c.members, sid);
    let is_op = list_has(&c.ops, sid);
    let is_voiced = list_has(&c.voiced, sid);
    match check_send(c.no_ext_msg, c.moderated, is_member, is_op, is_voiced) {
        Some(why) => {
            let text = match why {
                SendRefusal::NoExternal => string_from("Cannot send to channel (+n)"),
                SendRefusal::Moderated => string_from("Cannot send to channel (+m)"),
            };
            let mut params: Vec<String> = Vec::new();
            params.push(string_from(from.nick.as_str()));
            params.push(string_from(msg.target.as_str()));
            params.push(text);
            let rep = Reply { command: string_from("404"), params };
            assert(rep@.1 =~= seq![from.nick@, msg.target@, refusal_text(why)]);
            return SendOutcome { channel: Some(c), refusal: Some(rep), deliveries: Vec::new(), relay: false };
        },
        None => {},
    }
    match plugin {
        PluginVerdict::Suppress => {
            return SendOutcome { channel: Some(c), refusal: None, deliveries: Vec::new(), relay: false };
        },
        _ => {},
    }
    let has_tags = msg.tags.len() > 0;
    let mut out: Vec<(String, Delivery)> = Vec::new();
    let ghost ms = string_views(c.members@);
    let ghost want = deliveries_for(ms, sid@, string_views(echo@), string_views(tagged@), has_tags);
    let mut i: usize = 0;
    while i < c.members.len()
        invariant
            i <= c.members@.len(),
            ms == string_views(c.members@),
            want == deliveries_for(ms, sid@, string_views(echo@), string_views(tagged@), has_tags),
            sid@ == from.session_id@,
            delivery_views(out@) == want.take(i as int),
        decreases c.members@.len() - i,
    {
        let m = c.members[i].as_str();
        let mc = chars_of(m);
        let sc = chars_of(sid);
        let is_sender = crate::text::eq_chars(mc.as_slice(), sc.as_slice());
        let d = message_delivery(is_sender, list_has(echo, m), list_has(tagged, m), has_tags);
        let ghost before = out@;
        out.push((string_from(m), d));
        proof {
            assert(ms[i as int] == m@);
            assert(want[i as int] == (m@, d));
            assert(delivery_views(out@) =~= delivery_views(before).push((m@, d)));
            assert(want.take(i + 1) =~= want.take(i as int).push(want[i as int]));
        }
        i = i + 1;
    }
    assert(want.take(c.members@.len() as int) =~= want);
    if is_privmsg {
        let entry = HistoryMessage {
            from: string_from(from.hostmask.as_str()),
            text: match plugin {
                PluginVerdict::Rewrite(t) => string_from(t.as_str()),
                _ => string_from(msg.text.as_str()),
            },
            timestamp: now,
            tags: msg.tags,
        };
        let ghost h0 = c.history@;
        c.history.push(entry);
        if c.history.len() > MAX_HISTORY {
            let extra = c.history.len() - MAX_HISTORY;
            let mut kept_part: Vec<HistoryMessage> = Vec::new();
            let mut old_h = Vec::new();
            std::mem::swap(&mut old_h, &mut c.history);
            let ghost p = old_h@;
            let total = old_h.len();
            let mut idx: usize = 0;
            while old_h.len() > 0
                invariant
                    idx + old_h@.len() == p.len(),
                    total == p.len(),
                    old_h@ == p.skip(idx as int),
                    kept_part@ == (if idx <= extra { Seq::empty() } else { p.subrange(extra as int, idx as int) }),
                    extra == p.len() - 100,
                    p.len() > 100,
                decreases old_h@.len(),
            {
                let item = old_h.remove(0);
                if idx >= extra {
                    kept_part.push(item);
                }
                proof {
                    assert(p.skip(idx + 1) =~= p.skip(idx as int).skip(1));
                    if idx >= extra {
                        assert(p.subrange(extra as int, idx + 1) =~= (if idx <= extra { Seq::<HistoryMessage>::empty() } else { p.subrange(extra as int, idx as int) }).push(p[idx as int]));
                    }
                }
                idx = idx + 1;
            }
            assert(p.skip(extra as int) =~= p.subrange(extra as int, p.len() as int));
            c.history = kept_part;
        }
    }
    SendOutcome { channel: Some(c), refusal: None, deliveries: out, relay: is_privmsg }
}

} // verus!
