//! A MODE command on a channel as one step: who may ask and who may
//! change, then each step of the mode string in turn, with the channel
//! afterwards, the replies to the sender and the MODE lines broadcast.
use vstd::prelude::*;
use crate::channel::BanEntry;
use crate::join::{ins, lemma_ins_contains, lemma_without_contains, list_has, list_insert, list_remove, without};
use crate::modes::{
    ban_masks, bans_without, did_op_change, did_op_rule, has_ban_mask, mode_plan, mode_text,
    opt_seq, plan_mode, remove_ban_mask, DidOpChange, ModeStep,
};
use crate::queries::Reply;
use crate::text::{chars_of, dec, eq_chars, push_char, push_str, string_from, string_views, u64_decimal};

verus! {

/// What a MODE command reads and changes of a channel.
pub struct ModeChannel {
    pub members: Vec<String>,
    pub ops: Vec<String>,
    pub voiced: Vec<String>,
    pub founder_did: Option<String>,
    pub did_ops: Vec<String>,
    pub invites: Vec<String>,
    pub bans: Vec<BanEntry>,
    pub key: Option<String>,
    pub invite_only: bool,
    pub topic_locked: bool,
    pub no_ext_msg: bool,
    pub moderated: bool,
}

/// The channel as plain values.
pub struct ModeView {
    pub members: Seq<Seq<char>>,
    pub ops: Seq<Seq<char>>,
    pub voiced: Seq<Seq<char>>,
    pub founder_did: Option<Seq<char>>,
    pub did_ops: Seq<Seq<char>>,
    pub invites: Seq<Seq<char>>,
    pub bans: Seq<(Seq<char>, Seq<char>, u64)>,
    pub key: Option<Seq<char>>,
    pub invite_only: bool,
    pub topic_locked: bool,
    pub no_ext_msg: bool,
    pub moderated: bool,
}

impl View for ModeChannel {
    type V = ModeView;

    open spec fn view(&self) -> ModeView {
        ModeView {
            members: string_views(self.members@),
            ops: string_views(self.ops@),
            voiced: string_views(self.voiced@),
            founder_did: opt_seq(self.founder_did),
            did_ops: string_views(self.did_ops@),
            invites: string_views(self.invites@),
            bans: ban_views(self.bans@),
            key: opt_seq(self.key),
            invite_only: self.invite_only,
            topic_locked: self.topic_locked,
            no_ext_msg: self.no_ext_msg,
            moderated: self.moderated,
        }
    }
}

/// Who a `+o`/`-o`/`+v`/`-v` names, as the channel's roster resolves the
/// argument's nick.
pub enum MemberTarget {
    /// A local member: its session and signed-in DID.
    Local { session: String, did: Option<String> },
    /// A member on a peer server, with its DID.
    Remote { did: Option<String> },
    /// Nobody in the channel.
    NotPresent,
}

/// The MODE command.
pub struct ModeRequest {
    pub channel: String,
    /// The sender's session.
    pub session_id: String,
    /// The sender's nick, or `*`.
    pub nick: String,
    pub hostmask: String,
    /// The mode string, when one is given.
    pub modes: Option<String>,
    /// The argument, when one is given.
    pub arg: Option<String>,
}

/// What the command leaves: the channel, the replies to the sender, the
/// MODE lines broadcast, and the operator flag to set on the remote
/// member named, when `+o`/`-o` named one.
pub struct ModeOutcome {
    pub channel: ModeChannel,
    pub replies: Vec<Reply>,
    pub lines: Vec<String>,
    pub remote_op: Option<bool>,
}

/// Each ban as its mask, setter and time.
pub open spec fn ban_views(b: Seq<BanEntry>) -> Seq<(Seq<char>, Seq<char>, u64)> {
    b.map_values(|e: BanEntry| (e.mask@, e.set_by@, e.set_at))
}

/// The bans whose mask is not `m`, in order.
pub open spec fn views_without(s: Seq<(Seq<char>, Seq<char>, u64)>, m: Seq<char>) -> Seq<(Seq<char>, Seq<char>, u64)>
    decreases s.len(),
{
    if s.len() == 0 {
        s
    } else if s.last().0 == m {
        views_without(s.drop_last(), m)
    } else {
        views_without(s.drop_last(), m).push(s.last())
    }
}

/// Whether a ban with mask `m` is there.
pub open spec fn has_mask(s: Seq<(Seq<char>, Seq<char>, u64)>, m: Seq<char>) -> bool {
    exists|i: int| 0 <= i < s.len() && (#[trigger] s[i]).0 == m
}

/// The view of the bans without `m` is the bans' view without it.
proof fn lemma_ban_views_without(b: Seq<BanEntry>, m: Seq<char>)
    ensures
        ban_views(bans_without(b, m)) == views_without(ban_views(b), m),
    decreases b.len(),
{
    if b.len() > 0 {
        lemma_ban_views_without(b.drop_last(), m);
        assert(ban_views(b).drop_last() =~= ban_views(b.drop_last()));
        if b.last().mask@ != m {
            assert(ban_views(bans_without(b.drop_last(), m).push(b.last())) =~= ban_views(bans_without(b.drop_last(), m)).push(ban_views(b).last()));
        }
    } else {
        assert(ban_views(b) =~= Seq::<(Seq<char>, Seq<char>, u64)>::empty());
        assert(ban_views(bans_without(b, m)) =~= Seq::<(Seq<char>, Seq<char>, u64)>::empty());
    }
}

/// The masks of the bans are those of their view.
proof fn lemma_ban_masks(b: Seq<BanEntry>, m: Seq<char>)
    ensures
        ban_masks(b).contains(m) == has_mask(ban_views(b), m),
{
    if ban_masks(b).contains(m) {
        let i = choose|i: int| 0 <= i < ban_masks(b).len() && ban_masks(b)[i] == m;
        assert(ban_views(b)[i].0 == m);
    }
    if has_mask(ban_views(b), m) {
        let i = choose|i: int| 0 <= i < ban_views(b).len() && (#[trigger] ban_views(b)[i]).0 == m;
        assert(ban_masks(b)[i] == m);
    }
}

/// The text of an optional argument (empty when there is none).
pub open spec fn arg_text(a: Option<Seq<char>>) -> Seq<char> {
    match a {
        Some(t) => t,
        None => Seq::empty(),
    }
}

/// A reply's view.
pub open spec fn reply_of(command: Seq<char>, params: Seq<Seq<char>>) -> (Seq<char>, Seq<Seq<char>>) {
    (command, params)
}

/// `:<hostmask> MODE <channel> <change>[ <arg>]`.
pub open spec fn line_of(hostmask: Seq<char>, channel: Seq<char>, change: Seq<char>, arg: Option<Seq<char>>) -> Seq<char> {
    ":"@ + hostmask + " MODE "@ + channel + " "@ + change + match arg {
        Some(a) => " "@ + a,
        None => Seq::empty(),
    } + "\r\n"@
}

/// `+` or `-` then the mode letter.
pub open spec fn change_of(adding: bool, c: char) -> Seq<char> {
    seq![if adding { '+' } else { '-' }, c]
}

/// The state a MODE command builds: the channel, the replies, the lines,
/// the remote operator flag, and whether a step stopped it.
pub struct ModeRun {
    pub ch: ModeView,
    pub replies: Seq<(Seq<char>, Seq<Seq<char>>)>,
    pub lines: Seq<Seq<char>>,
    pub remote_op: Option<bool>,
    pub stopped: bool,
}

/// Whether a user signed in as `did` is the channel's founder, who
/// always has operator status and cannot be de-opped.
pub open spec fn is_founder(v: ModeView, did: Option<Seq<char>>) -> bool {
    did is Some && did == v.founder_did
}

/// The operator DIDs after a `+o`/`-o` on a user signed in as `did`.
pub open spec fn did_ops_after(v: ModeView, adding: bool, did: Option<Seq<char>>) -> Seq<Seq<char>> {
    match did_op_rule(adding, did, v.founder_did) {
        DidOpChange::Grant => ins(v.did_ops, did->0),
        DidOpChange::Revoke => without(v.did_ops, did->0),
        DidOpChange::Unchanged => v.did_ops,
    }
}

/// The replies listing the bans, then the end of the list.
pub open spec fn ban_list(nick: Seq<char>, channel: Seq<char>, bans: Seq<(Seq<char>, Seq<char>, u64)>) -> Seq<(Seq<char>, Seq<Seq<char>>)> {
    Seq::new(
        bans.len(),
        |i: int| ("367"@, seq![nick, channel, bans[i].0, bans[i].1, dec(bans[i].2 as nat)]),
    ).push(("368"@, seq![nick, channel, "End of channel ban list"@]))
}

/// The view of a member target's DID.
pub open spec fn target_did(t: MemberTarget) -> Option<Seq<char>> {
    match t {
        MemberTarget::Local { did, .. } => opt_seq(did),
        MemberTarget::Remote { did } => opt_seq(did),
        MemberTarget::NotPresent => None,
    }
}

/// One step of the command.
pub open spec fn run_step(s: ModeRun, st: ModeStep, req: ModeRequest, target: MemberTarget, now: u64) -> ModeRun {
    if s.stopped {
        s
    } else {
        let v = s.ch;
        let arg = opt_seq(req.arg);
        let nick = req.nick@;
        let chan = req.channel@;
        let hm = req.hostmask@;
        match st {
            ModeStep::Member { adding, voice } => match target {
                MemberTarget::NotPresent => ModeRun {
                    replies: s.replies.push(
                        ("441"@, seq![nick, arg_text(arg), chan, "They aren't on that channel"@]),
                    ),
                    stopped: true,
                    ..s
                },
                MemberTarget::Local { session, did } => {
                    let v1 = if voice {
                        ModeView {
                            voiced: if adding { ins(v.voiced, session@) } else { without(v.voiced, session@) },
                            ..v
                        }
                    } else {
                        ModeView {
                            ops: if adding {
                                ins(v.ops, session@)
                            } else if is_founder(v, opt_seq(did)) {
                                v.ops
                            } else {
                                without(v.ops, session@)
                            },
                            did_ops: did_ops_after(v, adding, opt_seq(did)),
                            ..v
                        }
                    };
                    ModeRun {
                        ch: v1,
                        lines: s.lines.push(line_of(hm, chan, change_of(adding, if voice { 'v' } else { 'o' }), arg)),
                        ..s
                    }
                },
                MemberTarget::Remote { did } => ModeRun {
                    ch: if voice {
                        v
                    } else {
                        ModeView { did_ops: did_ops_after(v, adding, opt_seq(did)), ..v }
                    },
                    remote_op: if voice || (!adding && is_founder(v, opt_seq(did))) {
                        s.remote_op
                    } else {
                        Some(adding)
                    },
                    lines: s.lines.push(line_of(hm, chan, change_of(adding, if voice { 'v' } else { 'o' }), arg)),
                    ..s
                },
            },
            ModeStep::ListBans => ModeRun { replies: s.replies + ban_list(nick, chan, v.bans), ..s },
            ModeStep::AddBan => ModeRun {
                ch: if has_mask(v.bans, arg_text(arg)) {
                    v
                } else {
                    ModeView { bans: v.bans.push((arg_text(arg), hm, now)), ..v }
                },
                lines: s.lines.push(line_of(hm, chan, "+b"@, arg)),
                ..s
            },
            ModeStep::RemoveBan => ModeRun {
                ch: ModeView { bans: views_without(v.bans, arg_text(arg)), ..v },
                lines: s.lines.push(line_of(hm, chan, "-b"@, arg)),
                ..s
            },
            ModeStep::InviteOnly(on) => ModeRun {
                ch: ModeView { invite_only: on, invites: if on { v.invites } else { Seq::empty() }, ..v },
                lines: s.lines.push(line_of(hm, chan, change_of(on, 'i'), None)),
                ..s
            },
            ModeStep::TopicLock(on) => ModeRun {
                ch: ModeView { topic_locked: on, ..v },
                lines: s.lines.push(line_of(hm, chan, change_of(on, 't'), None)),
                ..s
            },
            ModeStep::NoExternal(on) => ModeRun {
                ch: ModeView { no_ext_msg: on, ..v },
                lines: s.lines.push(line_of(hm, chan, change_of(on, 'n'), None)),
                ..s
            },
            ModeStep::Moderated(on) => ModeRun {
                ch: ModeView { moderated: on, ..v },
                lines: s.lines.push(line_of(hm, chan, change_of(on, 'm'), None)),
                ..s
            },
            ModeStep::SetKey => ModeRun {
                ch: ModeView { key: Some(arg_text(arg)), ..v },
                lines: s.lines.push(line_of(hm, chan, "+k"@, arg)),
                ..s
            },
            ModeStep::ClearKey => ModeRun {
                ch: ModeView { key: None, ..v },
                lines: match v.key {
                    Some(k) => s.lines.push(line_of(hm, chan, "-k"@, Some(k))),
                    None => s.lines,
                },
                ..s
            },
            ModeStep::NeedMoreParams => ModeRun {
                replies: s.replies.push(("461"@, seq![nick, "MODE"@, "Not enough parameters"@])),
                ..s
            },
            ModeStep::Unknown(c) => ModeRun {
                replies: s.replies.push(("472"@, seq![nick, seq![c], "is unknown mode char to me"@])),
                ..s
            },
        }
    }
}

/// A `+v`/`-v`/`+o`/`-o` on a member here sets that member's status and
/// no one else's: `+v` gives it voice and `-v` takes voice away; `+o`
/// makes it an operator and `-o` takes operator status from anyone but a
/// user signed in as the channel's founder. Voice steps leave operators
/// alone, and operator steps leave voice alone.
pub proof fn law_member_step_sets_status(
    s: ModeRun,
    adding: bool,
    voice: bool,
    req: ModeRequest,
    target: MemberTarget,
    now: u64,
    t: Seq<char>,
    d: Option<Seq<char>>,
    other: Seq<char>,
)
    requires
        !s.stopped,
        target matches MemberTarget::Local { session, did } && session@ == t && opt_seq(did) == d,
    ensures
        ({
            let after = run_step(s, ModeStep::Member { adding, voice }, req, target, now).ch;
            &&& voice ==> after.voiced.contains(t) == adding
            &&& voice && other != t ==> after.voiced.contains(other) == s.ch.voiced.contains(other)
            &&& voice ==> after.ops == s.ch.ops
            &&& !voice && adding ==> after.ops.contains(t)
            &&& !voice && !adding && !is_founder(s.ch, d) ==> !after.ops.contains(t)
            &&& !voice && other != t ==> after.ops.contains(other) == s.ch.ops.contains(other)
            &&& !voice ==> after.voiced == s.ch.voiced
        }),
{
    let v = s.ch;
    lemma_ins_contains(v.voiced, t, t);
    lemma_ins_contains(v.ops, t, t);
    lemma_without_contains(v.voiced, t, t);
    lemma_without_contains(v.voiced, t, other);
    lemma_without_contains(v.ops, t, t);
    lemma_without_contains(v.ops, t, other);
    vstd::seq_lib::lemma_seq_contains_after_push(v.voiced, t, other);
    vstd::seq_lib::lemma_seq_contains_after_push(v.ops, t, other);
}

/// The steps `steps` run in order from `s`.
pub open spec fn run_steps(s: ModeRun, steps: Seq<ModeStep>, req: ModeRequest, target: MemberTarget, now: u64) -> ModeRun
    decreases steps.len(),
{
    if steps.len() == 0 {
        s
    } else {
        run_step(run_steps(s, steps.drop_last(), req, target, now), steps.last(), req, target, now)
    }
}

/// No step changes the founder, and no step takes operator status from a
/// founder's session named by the command.
proof fn lemma_run_keeps_founder(s: ModeRun, steps: Seq<ModeStep>, req: ModeRequest, target: MemberTarget, now: u64, session: Seq<char>)
    requires
        target matches MemberTarget::Local { session: t, did } && t@ == session && is_founder(s.ch, opt_seq(did)),
        s.ch.ops.contains(session),
    ensures
        run_steps(s, steps, req, target, now).ch.founder_did == s.ch.founder_did,
        run_steps(s, steps, req, target, now).ch.ops.contains(session),
    decreases steps.len(),
{
    if steps.len() > 0 {
        lemma_run_keeps_founder(s, steps.drop_last(), req, target, now, session);
        let p = run_steps(s, steps.drop_last(), req, target, now);
        lemma_ins_contains(p.ch.ops, session, session);
    }
}

/// A channel's founder always has operator status: a MODE command whose
/// `+o`/`-o` names the founder's own session (signed in as the founder's
/// DID) never takes that status away, whatever the mode string.
pub proof fn law_founder_keeps_ops(v: ModeView, req: ModeRequest, target: MemberTarget, now: u64, session: Seq<char>)
    requires
        target matches MemberTarget::Local { session: t, did } && t@ == session && is_founder(v, opt_seq(did)),
        v.ops.contains(session),
    ensures
        mode_command(v, req, target, now).ch.ops.contains(session),
        mode_command(v, req, target, now).ch.founder_did == v.founder_did,
{
    let start = ModeRun { ch: v, replies: Seq::empty(), lines: Seq::empty(), remote_op: None, stopped: false };
    if v.members.contains(req.session_id@) && req.modes is Some && v.ops.contains(req.session_id@) {
        lemma_run_keeps_founder(start, mode_plan(req.modes->0@, true, req.arg is Some), req, target, now, session);
    }
}

/// The whole command: not a member gets 442; no mode string gets the
/// channel's modes (324); not an operator gets 482 and changes nothing;
/// an operator's mode string runs step by step.
pub open spec fn mode_command(v: ModeView, req: ModeRequest, target: MemberTarget, now: u64) -> ModeRun {
    let start = ModeRun { ch: v, replies: Seq::empty(), lines: Seq::empty(), remote_op: None, stopped: false };
    if !v.members.contains(req.session_id@) {
        ModeRun { replies: seq![("442"@, seq![req.nick@, req.channel@, "You're not on that channel"@])], ..start }
    } else if req.modes is None {
        ModeRun {
            replies: seq![("324"@, seq![req.nick@, req.channel@, mode_text(v.no_ext_msg, v.topic_locked, v.invite_only, v.moderated, v.key is Some)])],
            ..start
        }
    } else if !v.ops.contains(req.session_id@) {
        ModeRun { replies: seq![("482"@, seq![req.nick@, req.channel@, "You're not channel operator"@])], ..start }
    } else {
        run_steps(start, mode_plan(req.modes->0@, true, req.arg is Some), req, target, now)
    }
}

/// The views of replies.
pub open spec fn reply_views(r: Seq<Reply>) -> Seq<(Seq<char>, Seq<Seq<char>>)> {
    r.map_values(|x: Reply| x@)
}

/// Append a reply.
fn push_reply(v: &mut Vec<Reply>, r: Reply)
    ensures
        reply_views(final(v)@) == reply_views(old(v)@).push(r@),
{
    let ghost r0 = r@;
    v.push(r);
    assert(reply_views(v@) =~= reply_views(old(v)@).push(r0));
}

/// Append a line.
fn push_line(v: &mut Vec<String>, l: String)
    ensures
        string_views(final(v)@) == string_views(old(v)@).push(l@),
{
    let ghost l0 = l@;
    v.push(l);
    assert(string_views(v@) =~= string_views(old(v)@).push(l0));
}

/// A reply from its parts.
fn reply(command: &str, params: Vec<String>) -> (r: Reply)
    ensures
        r@ == (command@, string_views(params@)),
{
    let r = Reply { command: string_from(command), params };
    assert(r@.1 =~= string_views(params@));
    r
}

/// The MODE line for a change.
fn line(req: &ModeRequest, change: &str, arg: Option<&str>) -> (r: String)
    ensures
        r@ == line_of(req.hostmask@, req.channel@, change@, match arg {
            Some(a) => Some(a@),
            None => None,
        }),
{
    let mut s = string_from(":");
    push_str(&mut s, req.hostmask.as_str());
    push_str(&mut s, " MODE ");
    push_str(&mut s, req.channel.as_str());
    push_str(&mut s, " ");
    push_str(&mut s, change);
    match arg {
        Some(a) => {
            push_str(&mut s, " ");
            push_str(&mut s, a);
        },
        None => {
            proof {
                assert(s@ + Seq::<char>::empty() =~= s@);
            }
        },
    }
    push_str(&mut s, "\r\n");
    s
}

/// `+c` or `-c`.
fn change(adding: bool, c: char) -> (r: String)
    ensures
        r@ == change_of(adding, c),
{
    let mut s = String::new();
    push_char(&mut s, if adding { '+' } else { '-' });
    push_char(&mut s, c);
    assert(s@ =~= change_of(adding, c));
    s
}

/// The params of a reply as strings.
fn params3(a: &str, b: &str, c: &str) -> (r: Vec<String>)
    ensures
        string_views(r@) == seq![a@, b@, c@],
{
    let mut v: Vec<String> = Vec::new();
    v.push(string_from(a));
    v.push(string_from(b));
    v.push(string_from(c));
    assert(string_views(v@) =~= seq![a@, b@, c@]);
    v
}

/// The modes set, as a query reports them.
fn modes_text(c: &ModeChannel) -> (r: String)
    ensures
        r@ == mode_text(c.no_ext_msg, c.topic_locked, c.invite_only, c.moderated, c.key is Some),
{
    let mut m = String::new();
    push_char(&mut m, '+');
    let ghost s0 = m@;
    if c.no_ext_msg {
        push_char(&mut m, 'n');
    }
    let ghost s1 = m@;
    if c.topic_locked {
        push_char(&mut m, 't');
    }
    let ghost s2 = m@;
    if c.invite_only {
        push_char(&mut m, 'i');
    }
    let ghost s3 = m@;
    if c.moderated {
        push_char(&mut m, 'm');
    }
    let ghost s4 = m@;
    if c.key.is_some() {
        push_char(&mut m, 'k');
    }
    assert(m@ =~= mode_text(c.no_ext_msg, c.topic_locked, c.invite_only, c.moderated, c.key is Some));
    m
}

/// The state a command builds, from its parts.
pub open spec fn run_of(c: ModeView, replies: Seq<Reply>, lines: Seq<String>, remote_op: Option<bool>, stopped: bool) -> ModeRun {
    ModeRun { ch: c, replies: reply_views(replies), lines: string_views(lines), remote_op, stopped }
}

/// One step of the command, run on the state it builds.
fn run_one(
    c: &mut ModeChannel,
    replies: &mut Vec<Reply>,
    lines: &mut Vec<String>,
    remote_op: &mut Option<bool>,
    stopped: &mut bool,
    st: ModeStep,
    req: &ModeRequest,
    target: &MemberTarget,
    now: u64,
)
    ensures
        final(c)@ == run_step(run_of(old(c)@, old(replies)@, old(lines)@, *old(remote_op), *old(stopped)), st, *req, *target, now).ch,
        reply_views(final(replies)@) == run_step(run_of(old(c)@, old(replies)@, old(lines)@, *old(remote_op), *old(stopped)), st, *req, *target, now).replies,
        string_views(final(lines)@) == run_step(run_of(old(c)@, old(replies)@, old(lines)@, *old(remote_op), *old(stopped)), st, *req, *target, now).lines,
        *final(remote_op) == run_step(run_of(old(c)@, old(replies)@, old(lines)@, *old(remote_op), *old(stopped)), st, *req, *target, now).remote_op,
        *final(stopped) == run_step(run_of(old(c)@, old(replies)@, old(lines)@, *old(remote_op), *old(stopped)), st, *req, *target, now).stopped,
{
    proof {
        reveal_strlit("");
        assert(""@ =~= Seq::<char>::empty());
    }
    if *stopped {
        return;
    }
    let nick = req.nick.as_str();
    let chan = req.channel.as_str();
        let arg: Option<&str> = match &req.arg {
            Some(a) => Some(a.as_str()),
            None => None,
        };
        match st {
            ModeStep::Member { adding, voice } => {
                let letter = if voice {
                    'v'
                } else {
                    'o'
                };
                match target {
                    MemberTarget::NotPresent => {
                        let a = match arg {
                            Some(a) => a,
                            None => "",
                        };
                        let mut p: Vec<String> = Vec::new();
                        p.push(string_from(nick));
                        p.push(string_from(a));
                        p.push(string_from(chan));
                        p.push(string_from("They aren't on that channel"));
                        proof {
                            assert(string_views(p@) =~= seq![nick@, a@, chan@, "They aren't on that channel"@]);
                        }
                        push_reply(replies, reply("441", p));
                        *stopped = true;
                    },
                    MemberTarget::Local { session, did } => {
                        if voice {
                            if adding {
                                list_insert(&mut c.voiced, session.as_str());
                            } else {
                                list_remove(&mut c.voiced, session.as_str());
                            }
                        } else {
                            if adding {
                                list_insert(&mut c.ops, session.as_str());
                            } else if !founder_of(c, did) {
                                list_remove(&mut c.ops, session.as_str());
                            }
                            apply_did_op(c, adding, did);
                        }
                        let ch_text = change(adding, letter);
                        push_line(lines, line(req, ch_text.as_str(), arg));
                    },
                    MemberTarget::Remote { did } => {
                        if !voice {
                            let keep = !adding && founder_of(c, did);
                            apply_did_op(c, adding, did);
                            if !keep {
                                *remote_op = Some(adding);
                            }
                        }
                        let ch_text = change(adding, letter);
                        push_line(lines, line(req, ch_text.as_str(), arg));
                    },
                }
            },
            ModeStep::ListBans => {
                let ghost before = reply_views(replies@);
                let mut j: usize = 0;
                while j < c.bans.len()
                    invariant
                        j <= c.bans@.len(),
                        reply_views(replies@) == before + ban_list(req.nick@, req.channel@, ban_views(c.bans@)).take(j as int),
                        nick@ == req.nick@,
                        chan@ == req.channel@,
                    decreases c.bans@.len() - j,
                {
                    let b = &c.bans[j];
                    let mut p: Vec<String> = Vec::new();
                    p.push(string_from(nick));
                    p.push(string_from(chan));
                    p.push(string_from(b.mask.as_str()));
                    p.push(string_from(b.set_by.as_str()));
                    p.push(u64_decimal(b.set_at));
                    proof {
                        assert(string_views(p@) =~= seq![req.nick@, req.channel@, b.mask@, b.set_by@, dec(b.set_at as nat)]);
                    }
                    let ghost rb = reply_views(replies@);
                    push_reply(replies, reply("367", p));
                    proof {
                        assert(reply_views(replies@) =~= rb.push(ban_list(req.nick@, req.channel@, ban_views(c.bans@))[j as int]));
                        assert(ban_list(req.nick@, req.channel@, ban_views(c.bans@)).take(j + 1) =~= ban_list(req.nick@, req.channel@, ban_views(c.bans@)).take(j as int).push(ban_list(req.nick@, req.channel@, ban_views(c.bans@))[j as int]));
                    }
                    j = j + 1;
                }
                let ghost rb = reply_views(replies@);
                push_reply(replies, reply("368", params3(nick, chan, "End of channel ban list")));
                proof {
                    let bl = ban_list(req.nick@, req.channel@, ban_views(c.bans@));
                    assert(reply_views(replies@) =~= rb.push(bl[c.bans@.len() as int]));
                    assert(bl =~= bl.take(c.bans@.len() as int).push(bl[c.bans@.len() as int]));
                }
            },
            ModeStep::AddBan => {
                let a = match arg {
                    Some(a) => a,
                    None => "",
                };
                proof {
                    lemma_ban_masks(c.bans@, a@);
                }
                if !has_ban_mask(&c.bans, a) {
                    let ghost b0 = c.bans@;
                    c.bans.push(BanEntry::new_at(string_from(a), string_from(req.hostmask.as_str()), now));
                    assert(ban_views(c.bans@) =~= ban_views(b0).push((a@, req.hostmask@, now)));
                }
                push_line(lines, line(req, "+b", arg));
            },
            ModeStep::RemoveBan => {
                let a = match arg {
                    Some(a) => a,
                    None => "",
                };
                let ghost b0 = c.bans@;
                remove_ban_mask(&mut c.bans, a);
                proof {
                    lemma_ban_views_without(b0, a@);
                }
                push_line(lines, line(req, "-b", arg));
            },
            ModeStep::InviteOnly(on) => {
                c.invite_only = on;
                if !on {
                    c.invites = Vec::new();
                assert(string_views(c.invites@) =~= Seq::<Seq<char>>::empty());
                }
                let t = change(on, 'i');
                push_line(lines, line(req, t.as_str(), None));
            },
            ModeStep::TopicLock(on) => {
                c.topic_locked = on;
                let t = change(on, 't');
                push_line(lines, line(req, t.as_str(), None));
            },
            ModeStep::NoExternal(on) => {
                c.no_ext_msg = on;
                let t = change(on, 'n');
                push_line(lines, line(req, t.as_str(), None));
            },
            ModeStep::Moderated(on) => {
                c.moderated = on;
                let t = change(on, 'm');
                push_line(lines, line(req, t.as_str(), None));
            },
            ModeStep::SetKey => {
                let a = match arg {
                    Some(a) => a,
                    None => "",
                };
                c.key = Some(string_from(a));
                push_line(lines, line(req, "+k", arg));
            },
            ModeStep::ClearKey => {
                match c.key.take() {
                    Some(k) => {
                        push_line(lines, line(req, "-k", Some(k.as_str())));
                    },
                    None => {},
                }
            },
            ModeStep::NeedMoreParams => {
                push_reply(replies, reply("461", params3(nick, "MODE", "Not enough parameters")));
            },
            ModeStep::Unknown(ch) => {
                let mut t = String::new();
                push_char(&mut t, ch);
                push_reply(replies, reply("472", params3(nick, t.as_str(), "is unknown mode char to me")));
            },
        }
}

/// The whole MODE step.
pub fn mode_step(ch: ModeChannel, req: &ModeRequest, target: &MemberTarget, now: u64) -> (r: ModeOutcome)
    ensures
        ({
            let want = mode_command(ch@, *req, *target, now);
            &&& r.channel@ == want.ch
            &&& reply_views(r.replies@) == want.replies
            &&& string_views(r.lines@) == want.lines
            &&& r.remote_op == want.remote_op
        }),
        !(ch@.members.contains(req.session_id@) && ch@.ops.contains(req.session_id@)) ==> r.channel@ == ch@
            && r.lines@.len() == 0,
        (*target matches MemberTarget::Local { session, did } && is_founder(ch@, opt_seq(did))
            && ch@.ops.contains(session@)) ==> (*target matches MemberTarget::Local { session, did }
            && r.channel@.ops.contains(session@)),
{
    proof {
        match target {
            MemberTarget::Local { session, did } => {
                if is_founder(ch@, opt_seq(*did)) && ch@.ops.contains(session@) {
                    law_founder_keeps_ops(ch@, *req, *target, now, session@);
                }
            },
            _ => {},
        }
    }
    let mut c = ch;
    let sid = req.session_id.as_str();
    let nick = req.nick.as_str();
    let chan = req.channel.as_str();
    let mut replies: Vec<Reply> = Vec::new();
    let mut lines: Vec<String> = Vec::new();
    if !list_has(&c.members, sid) {
        push_reply(&mut replies, reply("442", params3(nick, chan, "You're not on that channel")));
        assert(reply_views(replies@) =~= seq![("442"@, seq![req.nick@, req.channel@, "You're not on that channel"@])]);
        return ModeOutcome { channel: c, replies, lines, remote_op: None };
    }
    let modes = match &req.modes {
        None => {
            let m = modes_text(&c);
            push_reply(&mut replies, reply("324", params3(nick, chan, m.as_str())));
            assert(reply_views(replies@) =~= seq![("324"@, seq![req.nick@, req.channel@, m@])]);
            return ModeOutcome { channel: c, replies, lines, remote_op: None };
        },
        Some(m) => m.as_str(),
    };
    if !list_has(&c.ops, sid) {
        push_reply(&mut replies, reply("482", params3(nick, chan, "You're not channel operator")));
        assert(reply_views(replies@) =~= seq![("482"@, seq![req.nick@, req.channel@, "You're not channel operator"@])]);
        return ModeOutcome { channel: c, replies, lines, remote_op: None };
    }
    let steps = plan_mode(modes, req.arg.is_some());
    let ghost start = ModeRun { ch: c@, replies: Seq::empty(), lines: Seq::empty(), remote_op: None, stopped: false };
    let mut remote_op: Option<bool> = None;
    let mut stopped = false;
    let mut i: usize = 0;
    assert(steps@.take(0) =~= Seq::<ModeStep>::empty());
    assert(reply_views(replies@) =~= Seq::<(Seq<char>, Seq<Seq<char>>)>::empty());
    assert(string_views(lines@) =~= Seq::<Seq<char>>::empty());
    while i < steps.len()
        invariant
            i <= steps@.len(),
            ({
                let s = run_steps(start, steps@.take(i as int), *req, *target, now);
                &&& c@ == s.ch
                &&& reply_views(replies@) == s.replies
                &&& string_views(lines@) == s.lines
                &&& remote_op == s.remote_op
                &&& stopped == s.stopped
            }),
            sid@ == req.session_id@,
            nick@ == req.nick@,
            chan@ == req.channel@,
        decreases steps@.len() - i,
    {
        assert(steps@.take(i + 1).drop_last() =~= steps@.take(i as int));
        assert(steps@.take(i + 1).last() == steps@[i as int]);
        let st = steps[i];
        let ghost prev = run_steps(start, steps@.take(i as int), *req, *target, now);
        run_one(&mut c, &mut replies, &mut lines, &mut remote_op, &mut stopped, st, req, target, now);
        proof {
            assert(run_steps(start, steps@.take(i + 1), *req, *target, now) == run_step(prev, st, *req, *target, now));
        }
        i = i + 1;
    }
    assert(steps@.take(steps@.len() as int) =~= steps@);
    ModeOutcome { channel: c, replies, lines, remote_op }
}

/// Whether a user signed in as `did` is the channel's founder.
fn founder_of(c: &ModeChannel, did: &Option<String>) -> (r: bool)
    ensures
        r == is_founder(c@, opt_seq(*did)),
{
    match (did, &c.founder_did) {
        (Some(d), Some(f)) => {
            let dc = chars_of(d.as_str());
            let fc = chars_of(f.as_str());
            eq_chars(dc.as_slice(), fc.as_slice())
        },
        _ => false,
    }
}

/// Apply what a `+o`/`-o` on a user signed in as `did` does to the
/// operator DIDs.
fn apply_did_op(c: &mut ModeChannel, adding: bool, did: &Option<String>)
    ensures
        final(c)@ == (ModeView { did_ops: did_ops_after(old(c)@, adding, opt_seq(*did)), ..old(c)@ }),
{
    let d: Option<&str> = match did {
        Some(x) => Some(x.as_str()),
        None => None,
    };
    let f: Option<&str> = match &c.founder_did {
        Some(x) => Some(x.as_str()),
        None => None,
    };
    match did_op_change(adding, d, f) {
        DidOpChange::Grant => list_insert(&mut c.did_ops, d.unwrap()),
        DidOpChange::Revoke => list_remove(&mut c.did_ops, d.unwrap()),
        DidOpChange::Unchanged => {},
    }
}

} // verus!
