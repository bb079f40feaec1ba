//! Channel commands that need standing in the channel: KICK, INVITE and
//! TOPIC, and the lines they broadcast.
use vstd::prelude::*;
use crate::channel::TopicInfo;
use crate::text::{push_str, string_from};

verus! {

/// Why a command on a channel is refused.
#[derive(Debug, Clone, Copy, PartialEq, Eq, Structural)]
pub enum OpRefusal {
    /// `ERR_NOTONCHANNEL`: the sender is not a member.
    NotOnChannel,
    /// `ERR_CHANOPRIVSNEEDED`: the sender is not an operator.
    NotOperator,
}

/// Where the nick a KICK names was found on the channel's roster.
#[derive(Debug, Clone, Copy, PartialEq, Eq, Structural)]
pub enum KickTarget {
    /// A member connected to this server.
    Local,
    /// A member connected through a peer server.
    Remote,
    /// Nobody of that nick is on the channel.
    NotPresent,
}

/// What the server does with a KICK.
#[derive(Debug, Clone, Copy, PartialEq, Eq, Structural)]
pub enum KickAction {
    Refuse(OpRefusal),
    /// Broadcast the KICK and take the member (and its op and voice) off
    /// the channel.
    RemoveLocal,
    /// Broadcast the KICK, drop the remote member and relay the KICK to
    /// the peers.
    RemoveRemote,
    /// `ERR_USERNOTINCHANNEL`.
    TargetNotOnChannel,
}

/// The KICK rule: only a member who is an operator may kick, and only
/// someone on the channel.
pub open spec fn kick_rule(in_channel: bool, is_op: bool, target: KickTarget) -> KickAction {
    if !in_channel {
        KickAction::Refuse(OpRefusal::NotOnChannel)
    } else if !is_op {
        KickAction::Refuse(OpRefusal::NotOperator)
    } else {
        match target {
            KickTarget::Local => KickAction::RemoveLocal,
            KickTarget::Remote => KickAction::RemoveRemote,
            KickTarget::NotPresent => KickAction::TargetNotOnChannel,
        }
    }
}

/// Decide a KICK.
pub fn decide_kick(in_channel: bool, is_op: bool, target: KickTarget) -> (r: KickAction)
    ensures
        r == kick_rule(in_channel, is_op, target),
        (r is RemoveLocal || r is RemoveRemote) ==> in_channel && is_op,
{
    if !in_channel {
        KickAction::Refuse(OpRefusal::NotOnChannel)
    } else if !is_op {
        KickAction::Refuse(OpRefusal::NotOperator)
    } else {
        match target {
            KickTarget::Local => KickAction::RemoveLocal,
            KickTarget::Remote => KickAction::RemoveRemote,
            KickTarget::NotPresent => KickAction::TargetNotOnChannel,
        }
    }
}

/// Where the nick an INVITE names was found on the network.
#[derive(Debug, Clone)]
pub enum InviteTarget {
    /// Connected here, with its session and the DID it signed in with.
    Local { session_id: String, did: Option<String> },
    /// Connected through a peer server, with its DID if known.
    Remote { did: Option<String> },
    /// No such nick anywhere.
    Unknown,
}

/// What the server does with an INVITE.
#[derive(Debug, Clone)]
pub enum InviteAction {
    Refuse(OpRefusal),
    /// Record the invitation under `keys`, answer `341` to the inviter,
    /// and send the INVITE to the target when `notify_target` (a local
    /// target).
    Record { keys: Vec<String>, notify_target: bool },
    /// `ERR_NOSUCHNICK`.
    NoSuchNick,
}

/// The keys an invitation is recorded under: a local target's session
/// and DID; a remote target's DID and `nick:<nick>`, which lets a guest
/// without a DID in.
pub open spec fn invite_keys(target: InviteTarget, nick: Seq<char>) -> Seq<Seq<char>> {
    match target {
        InviteTarget::Local { session_id, did } => match did {
            Some(d) => seq![session_id@, d@],
            None => seq![session_id@],
        },
        InviteTarget::Remote { did } => match did {
            Some(d) => seq![d@, "nick:"@ + nick],
            None => seq!["nick:"@ + nick],
        },
        InviteTarget::Unknown => Seq::empty(),
    }
}

/// The INVITE rule: the sender must be a member, and on an invite-only
/// channel an operator.
pub open spec fn invite_refusal(in_channel: bool, is_op: bool, invite_only: bool) -> Option<OpRefusal> {
    if !in_channel {
        Some(OpRefusal::NotOnChannel)
    } else if invite_only && !is_op {
        Some(OpRefusal::NotOperator)
    } else {
        None
    }
}

/// Decide an INVITE of `nick`.
pub fn decide_invite(in_channel: bool, is_op: bool, invite_only: bool, target: &InviteTarget, nick: &str) -> (r: InviteAction)
    ensures
        match invite_refusal(in_channel, is_op, invite_only) {
            Some(e) => r == InviteAction::Refuse(e),
            None => match *target {
                InviteTarget::Unknown => r is NoSuchNick,
                _ => r matches InviteAction::Record { keys, notify_target } && keys@.map_values(
                    |k: String| k@,
                ) == invite_keys(*target, nick@) && notify_target == (*target is Local),
            },
        },
{
    if !in_channel {
        return InviteAction::Refuse(OpRefusal::NotOnChannel);
    }
    if invite_only && !is_op {
        return InviteAction::Refuse(OpRefusal::NotOperator);
    }
    match target {
        InviteTarget::Local { session_id, did } => {
            let mut keys: Vec<String> = Vec::new();
            keys.push(string_from(session_id.as_str()));
            match did {
                Some(d) => keys.push(string_from(d.as_str())),
                None => {},
            }
            proof {
                assert(keys@.map_values(|k: String| k@) =~= invite_keys(*target, nick@));
            }
            InviteAction::Record { keys, notify_target: true }
        },
        InviteTarget::Remote { did } => {
            let mut keys: Vec<String> = Vec::new();
            match did {
                Some(d) => keys.push(string_from(d.as_str())),
                None => {},
            }
            let mut k = string_from("nick:");
            push_str(&mut k, nick);
            keys.push(k);
            proof {
                assert(keys@.map_values(|k: String| k@) =~= invite_keys(*target, nick@));
            }
            InviteAction::Record { keys, notify_target: false }
        },
        InviteTarget::Unknown => InviteAction::NoSuchNick,
    }
}

/// What the server does with a TOPIC.
#[derive(Debug, Clone, Copy, PartialEq, Eq, Structural)]
pub enum TopicAction {
    Refuse(OpRefusal),
    /// Store the new topic and broadcast it.
    Change,
    /// Answer with the current topic (`332`/`333`, or `331` when none).
    Query,
}

/// The TOPIC rule: the sender must be a member; on a `+t` channel only
/// an operator may change the topic, while anyone on it may read it.
pub open spec fn topic_rule(in_channel: bool, is_op: bool, topic_locked: bool, setting: bool) -> TopicAction {
    if !in_channel {
        TopicAction::Refuse(OpRefusal::NotOnChannel)
    } else if !setting {
        TopicAction::Query
    } else if topic_locked && !is_op {
        TopicAction::Refuse(OpRefusal::NotOperator)
    } else {
        TopicAction::Change
    }
}

/// Decide a TOPIC; `setting` is whether it carries a new topic.
pub fn decide_topic(in_channel: bool, is_op: bool, topic_locked: bool, setting: bool) -> (r: TopicAction)
    ensures
        r == topic_rule(in_channel, is_op, topic_locked, setting),
        r is Change ==> in_channel && setting && (topic_locked ==> is_op),
{
    if !in_channel {
        TopicAction::Refuse(OpRefusal::NotOnChannel)
    } else if !setting {
        TopicAction::Query
    } else if topic_locked && !is_op {
        TopicAction::Refuse(OpRefusal::NotOperator)
    } else {
        TopicAction::Change
    }
}

/// `:<hostmask> KICK <channel> <nick> :<reason>`.
pub fn kick_line(hostmask: &str, channel: &str, nick: &str, reason: &str) -> (r: String)
    ensures
        r@ == ":"@ + hostmask@ + " KICK "@ + channel@ + " "@ + nick@ + " :"@ + reason@ + "\r\n"@,
{
    let mut s = string_from(":");
    push_str(&mut s, hostmask);
    push_str(&mut s, " KICK ");
    push_str(&mut s, channel);
    push_str(&mut s, " ");
    push_str(&mut s, nick);
    push_str(&mut s, " :");
    push_str(&mut s, reason);
    push_str(&mut s, "\r\n");
    s
}

/// `:<hostmask> INVITE <nick> <channel>`.
pub fn invite_line(hostmask: &str, nick: &str, channel: &str) -> (r: String)
    ensures
        r@ == ":"@ + hostmask@ + " INVITE "@ + nick@ + " "@ + channel@ + "\r\n"@,
{
    let mut s = string_from(":");
    push_str(&mut s, hostmask);
    push_str(&mut s, " INVITE ");
    push_str(&mut s, nick);
    push_str(&mut s, " ");
    push_str(&mut s, channel);
    push_str(&mut s, "\r\n");
    s
}

/// `:<hostmask> TOPIC <channel> :<text>`.
pub fn topic_line(hostmask: &str, channel: &str, text: &str) -> (r: String)
    ensures
        r@ == ":"@ + hostmask@ + " TOPIC "@ + channel@ + " :"@ + text@ + "\r\n"@,
{
    let mut s = string_from(":");
    push_str(&mut s, hostmask);
    push_str(&mut s, " TOPIC ");
    push_str(&mut s, channel);
    push_str(&mut s, " :");
    push_str(&mut s, text);
    push_str(&mut s, "\r\n");
    s
}

/// `:<hostmask> PART <channel>`.
pub fn part_line(hostmask: &str, channel: &str) -> (r: String)
    ensures
        r@ == ":"@ + hostmask@ + " PART "@ + channel@ + "\r\n"@,
{
    let mut s = string_from(":");
    push_str(&mut s, hostmask);
    push_str(&mut s, " PART ");
    push_str(&mut s, channel);
    push_str(&mut s, "\r\n");
    s
}

/// The TOPIC step: the decision, and the channel's topic afterwards —
/// on a change, `new_topic` set by `setter` at Unix second `now`;
/// otherwise the topic as it was.
pub fn topic_step(
    current: Option<TopicInfo>,
    in_channel: bool,
    is_op: bool,
    topic_locked: bool,
    new_topic: Option<&str>,
    setter: &str,
    now: u64,
) -> (r: (Option<TopicInfo>, TopicAction))
    ensures
        r.1 == topic_rule(in_channel, is_op, topic_locked, new_topic is Some),
        r.1 is Change ==> (new_topic matches Some(t) && r.0 matches Some(ti) && ti.text@ == t@ && ti.set_by@ == setter@
            && ti.set_at == now),
        !(r.1 is Change) ==> r.0 == current,
{
    let action = decide_topic(in_channel, is_op, topic_locked, new_topic.is_some());
    match action {
        TopicAction::Change => match new_topic {
            Some(t) => (Some(TopicInfo::new_at(string_from(t), string_from(setter), now)), action),
            None => (current, action),
        },
        _ => (current, action),
    }
}

} // verus!
