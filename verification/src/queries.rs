//! Query commands: the replies to WHOIS, WHO, LUSERS and AWAY, built from
//! what the server knows of the users asked about.
use vstd::prelude::*;
use crate::modes::opt_seq;
use crate::text::{
    at_boundary, byte_len, byte_prefix, chars_of, chars_within_bytes, dec, join, push_str,
    string_from, string_of, u64_decimal,
};

verus! {

/// A reply to send: its command or numeric and its parameters.
#[derive(Debug, Clone, PartialEq, Eq)]
pub struct Reply {
    pub command: String,
    pub params: Vec<String>,
}

/// The view of a list of strings.
pub open spec fn strs(v: Seq<String>) -> Seq<Seq<char>> {
    v.map_values(|s: String| s@)
}

impl View for Reply {
    type V = (Seq<char>, Seq<Seq<char>>);

    open spec fn view(&self) -> (Seq<char>, Seq<Seq<char>>) {
        (self.command@, strs(self.params@))
    }
}

/// The views of a list of replies.
pub open spec fn replies(v: Seq<Reply>) -> Seq<(Seq<char>, Seq<Seq<char>>)> {
    v.map_values(|r: Reply| r@)
}

fn reply2(command: &str, a: &str, b: &str) -> (r: Reply)
    ensures
        r@ == (command@, seq![a@, b@]),
{
    let mut params: Vec<String> = Vec::new();
    params.push(string_from(a));
    params.push(string_from(b));
    assert(strs(params@) =~= seq![a@, b@]);
    Reply { command: string_from(command), params }
}

fn reply3(command: &str, a: &str, b: &str, c: &str) -> (r: Reply)
    ensures
        r@ == (command@, seq![a@, b@, c@]),
{
    let mut params: Vec<String> = Vec::new();
    params.push(string_from(a));
    params.push(string_from(b));
    params.push(string_from(c));
    assert(strs(params@) =~= seq![a@, b@, c@]);
    Reply { command: string_from(command), params }
}

fn reply4(command: &str, a: &str, b: &str, c: &str, d: &str) -> (r: Reply)
    ensures
        r@ == (command@, seq![a@, b@, c@, d@]),
{
    let mut params: Vec<String> = Vec::new();
    params.push(string_from(a));
    params.push(string_from(b));
    params.push(string_from(c));
    params.push(string_from(d));
    assert(strs(params@) =~= seq![a@, b@, c@, d@]);
    Reply { command: string_from(command), params }
}

fn reply6(command: &str, a: &str, b: &str, c: &str, d: &str, e: &str, f: &str) -> (r: Reply)
    ensures
        r@ == (command@, seq![a@, b@, c@, d@, e@, f@]),
{
    let mut params: Vec<String> = Vec::new();
    params.push(string_from(a));
    params.push(string_from(b));
    params.push(string_from(c));
    params.push(string_from(d));
    params.push(string_from(e));
    params.push(string_from(f));
    assert(strs(params@) =~= seq![a@, b@, c@, d@, e@, f@]);
    Reply { command: string_from(command), params }
}

fn concat(a: &str, b: &str) -> (r: String)
    ensures
        r@ == a@ + b@,
{
    let mut s = string_from(a);
    push_str(&mut s, b);
    s
}

// ── WHOIS ───────────────────────────────────────────────────────────

/// What the server knows of the nick a WHOIS asks about.
#[derive(Debug, Clone)]
pub enum WhoisSubject {
    /// Connected here: the DID it signed in with, its resolved AT Protocol
    /// handle, and its iroh endpoint id.
    Local { did: Option<String>, handle: Option<String>, iroh_id: Option<String> },
    /// Seen through a peer server: the peer's id, the DID and handle the
    /// peer reported, and the channels it is on, each with whether its DID
    /// holds operator standing there.
    Remote { origin: String, did: Option<String>, handle: Option<String>, channels: Vec<(String, bool)> },
    /// Nobody of that nick.
    Unknown,
}

/// A channel in a WHOIS channel list: with `@` in front where the user is
/// an operator.
pub open spec fn channel_entry(c: (String, bool)) -> Seq<char> {
    if c.1 {
        seq!['@'] + c.0@
    } else {
        c.0@
    }
}

/// The real name shown for a remote user.
pub open spec fn remote_realname(did: Option<Seq<char>>, handle: Option<Seq<char>>) -> Seq<char> {
    match handle {
        Some(h) => h + " (via S2S federation)"@,
        None => match did {
            Some(d) => d + " (via S2S federation)"@,
            None => "Remote user (via S2S federation)"@,
        },
    }
}

/// `one` as a list when `b` holds, else nothing.
pub open spec fn when(b: bool, one: (Seq<char>, Seq<Seq<char>>)) -> Seq<(Seq<char>, Seq<Seq<char>>)> {
    if b {
        seq![one]
    } else {
        Seq::empty()
    }
}

/// The replies to `WHOIS <target>` asked by `me`: `311`, `312`, then what
/// is known (`330` account, `671` handle, `672` iroh endpoint for a local
/// user; `671`, `330`, `319` channels for a remote one), then `318`; for
/// an unknown nick `401` and `318`.
pub open spec fn whois_spec(me: Seq<char>, target: Seq<char>, server: Seq<char>, subject: WhoisSubject) -> Seq<
    (Seq<char>, Seq<Seq<char>>),
> {
    let end = ("318"@, seq![me, target, "End of /WHOIS list"@]);
    match subject {
        WhoisSubject::Local { did, handle, iroh_id } => seq![
            ("311"@, seq![me, target, "~u"@, "host"@, "*"@, "IRC User"@]),
            ("312"@, seq![me, target, server, "freeq"@]),
        ] + when(did is Some, ("330"@, seq![me, target, opt_seq(did)->0, "is authenticated as"@])) + when(
            did is Some && handle is Some,
            ("671"@, seq![me, target, "AT Protocol handle: "@ + opt_seq(handle)->0]),
        ) + when(iroh_id is Some, ("672"@, seq![me, target, "iroh endpoint: "@ + opt_seq(iroh_id)->0])) + seq![end],
        WhoisSubject::Remote { origin, did, handle, channels } => seq![
            ("311"@, seq![me, target, target, "s2s"@, "*"@, remote_realname(opt_seq(did), opt_seq(handle))]),
            ("312"@, seq![me, target, "s2s"@, "Connected via S2S ("@ + byte_prefix(origin@, 16) + "…)"@]),
        ] + when(handle is Some, ("671"@, seq![me, target, "AT Protocol handle: "@ + opt_seq(handle)->0]))
            + when(did is Some, ("330"@, seq![me, target, opt_seq(did)->0, "is authenticated as"@])) + when(
            channels@.len() > 0,
            ("319"@, seq![me, target, join(channels@.map_values(|c: (String, bool)| channel_entry(c)), seq![' '])]),
        ) + seq![end],
        WhoisSubject::Unknown => seq![("401"@, seq![me, target, "No such nick"@]), end],
    }
}

/// Whether the replies for `subject` can be built: a remote peer id is
/// cut at 16 bytes, which must fall between characters.
pub open spec fn whois_ok(subject: WhoisSubject) -> bool {
    match subject {
        WhoisSubject::Remote { origin, .. } => byte_len(origin@) <= 16 || at_boundary(origin@, 16),
        _ => true,
    }
}

/// The channel list of a remote user's `319`.
fn channel_list(channels: &[(String, bool)]) -> (r: String)
    ensures
        r@ == join(channels@.map_values(|c: (String, bool)| channel_entry(c)), seq![' ']),
{
    let n = channels.len();
    let mut s = String::new();
    let mut i: usize = 0;
    let ghost es = channels@.map_values(|c: (String, bool)| channel_entry(c));
    while i < n
        invariant
            n == channels@.len(),
            es == channels@.map_values(|c: (String, bool)| channel_entry(c)),
            i <= n,
            s@ == join(es.take(i as int), seq![' ']),
        decreases n - i,
    {
        proof {
            reveal_strlit(" ");
            reveal_strlit("@");
            assert(es.take(i + 1).drop_last() =~= es.take(i as int));
            if i == 0 {
                assert(es.take(0) =~= Seq::<Seq<char>>::empty());
            }
        }
        if i > 0 {
            push_str(&mut s, " ");
        }
        if channels[i].1 {
            push_str(&mut s, "@");
        }
        push_str(&mut s, channels[i].0.as_str());
        i = i + 1;
    }
    assert(es.take(n as int) =~= es);
    s
}

/// The replies to `WHOIS <target>` asked by `me`.
pub fn whois_replies(me: &str, target: &str, server_name: &str, subject: &WhoisSubject) -> (r: Vec<Reply>)
    requires
        whois_ok(*subject),
    ensures
        replies(r@) == whois_spec(me@, target@, server_name@, *subject),
{
    let mut out: Vec<Reply> = Vec::new();
    let ghost mut want: Seq<(Seq<char>, Seq<Seq<char>>)> = Seq::empty();
    match subject {
        WhoisSubject::Local { did, handle, iroh_id } => {
            out.push(reply6("311", me, target, "~u", "host", "*", "IRC User"));
            out.push(reply4("312", me, target, server_name, "freeq"));
            match did {
                Some(d) => out.push(reply4("330", me, target, d.as_str(), "is authenticated as")),
                None => {},
            }
            match (did, handle) {
                (Some(_), Some(h)) => {
                    let t = concat("AT Protocol handle: ", h.as_str());
                    out.push(reply3("671", me, target, t.as_str()));
                },
                _ => {},
            }
            match iroh_id {
                Some(i) => {
                    let t = concat("iroh endpoint: ", i.as_str());
                    out.push(reply3("672", me, target, t.as_str()));
                },
                None => {},
            }
        },
        WhoisSubject::Remote { origin, did, handle, channels } => {
            let realname = match handle {
                Some(h) => concat(h.as_str(), " (via S2S federation)"),
                None => match did {
                    Some(d) => concat(d.as_str(), " (via S2S federation)"),
                    None => string_from("Remote user (via S2S federation)"),
                },
            };
            out.push(reply6("311", me, target, target, "s2s", "*", realname.as_str()));
            let oc = chars_of(origin.as_str());
            let cut = chars_within_bytes(oc.as_slice(), 16);
            let cs = string_of(cut.as_slice());
            let mut t = string_from("Connected via S2S (");
            push_str(&mut t, cs.as_str());
            push_str(&mut t, "…)");
            out.push(reply4("312", me, target, "s2s", t.as_str()));
            match handle {
                Some(h) => {
                    let t = concat("AT Protocol handle: ", h.as_str());
                    out.push(reply3("671", me, target, t.as_str()));
                },
                None => {},
            }
            match did {
                Some(d) => out.push(reply4("330", me, target, d.as_str(), "is authenticated as")),
                None => {},
            }
            if channels.len() > 0 {
                let list = channel_list(channels.as_slice());
                out.push(reply3("319", me, target, list.as_str()));
            }
        },
        WhoisSubject::Unknown => {
            out.push(reply3("401", me, target, "No such nick"));
        },
    }
    out.push(reply3("318", me, target, "End of /WHOIS list"));
    assert(replies(out@) =~= whois_spec(me@, target@, server_name@, *subject));
    out
}

// ── WHO ─────────────────────────────────────────────────────────────

/// The flags of a WHO reply: `G`one (away) or `H`ere, then `@` for an
/// operator or `+` for a voiced member.
pub open spec fn who_flags_spec(away: bool, is_op: bool, is_voiced: bool) -> Seq<char> {
    (if away {
        "G"@
    } else {
        "H"@
    }) + (if is_op {
        "@"@
    } else if is_voiced {
        "+"@
    } else {
        ""@
    })
}

/// The flags of a WHO reply.
pub fn who_flags(away: bool, is_op: bool, is_voiced: bool) -> (r: String)
    ensures
        r@ == who_flags_spec(away, is_op, is_voiced),
{
    let mut s = string_from(
        if away {
            "G"
        } else {
            "H"
        },
    );
    push_str(
        &mut s,
        if is_op {
            "@"
        } else if is_voiced {
            "+"
        } else {
            ""
        },
    );
    s
}

/// A `352` WHO reply about `nick`, seen in `channel` (`*` for a WHO of a
/// nick).
pub fn who_reply(me: &str, channel: &str, server_name: &str, nick: &str, flags: &str) -> (r: Reply)
    ensures
        r@ == ("352"@, seq![me@, channel@, "~u"@, "host"@, server_name@, nick@, flags@, "0 IRC User"@]),
{
    let mut params: Vec<String> = Vec::new();
    params.push(string_from(me));
    params.push(string_from(channel));
    params.push(string_from("~u"));
    params.push(string_from("host"));
    params.push(string_from(server_name));
    params.push(string_from(nick));
    params.push(string_from(flags));
    params.push(string_from("0 IRC User"));
    assert(strs(params@) =~= seq![me@, channel@, "~u"@, "host"@, server_name@, nick@, flags@, "0 IRC User"@]);
    Reply { command: string_from("352"), params }
}

/// The `315` that ends a WHO list.
pub fn end_of_who(me: &str, target: &str) -> (r: Reply)
    ensures
        r@ == ("315"@, seq![me@, target@, "End of /WHO list"@]),
{
    reply3("315", me, target, "End of /WHO list")
}

// ── NAMES and LIST ──────────────────────────────────────────────────

/// A local member as NAMES shows it: with multi-prefix every prefix that
/// applies (`@` then `+`), else only the highest.
pub open spec fn member_entry(nick: Seq<char>, is_op: bool, is_voiced: bool, multi_prefix: bool) -> Seq<char> {
    let prefix = if multi_prefix {
        (if is_op {
            seq!['@']
        } else {
            Seq::empty()
        }) + (if is_voiced {
            seq!['+']
        } else {
            Seq::empty()
        })
    } else if is_op {
        seq!['@']
    } else if is_voiced {
        seq!['+']
    } else {
        Seq::empty()
    };
    prefix + nick
}

/// A remote member as NAMES shows it: `@` in front of an operator.
pub open spec fn remote_entry(nick: Seq<char>, is_op: bool) -> Seq<char> {
    if is_op {
        seq!['@'] + nick
    } else {
        nick
    }
}

/// The entries of a NAMES list: local members (nick, operator, voiced),
/// then remote members (nick, operator).
pub open spec fn names_entries(members: Seq<(String, bool, bool)>, remotes: Seq<(String, bool)>, multi_prefix: bool) -> Seq<
    Seq<char>,
> {
    members.map_values(|m: (String, bool, bool)| member_entry(m.0@, m.1, m.2, multi_prefix)) + remotes.map_values(
        |m: (String, bool)| remote_entry(m.0@, m.1),
    )
}

fn member_text(nick: &str, is_op: bool, is_voiced: bool, multi_prefix: bool) -> (r: String)
    ensures
        r@ == member_entry(nick@, is_op, is_voiced, multi_prefix),
{
    proof {
        reveal_strlit("@");
        reveal_strlit("+");
    }
    let mut s = String::new();
    if multi_prefix {
        if is_op {
            push_str(&mut s, "@");
        }
        if is_voiced {
            push_str(&mut s, "+");
        }
    } else if is_op {
        push_str(&mut s, "@");
    } else if is_voiced {
        push_str(&mut s, "+");
    }
    push_str(&mut s, nick);
    proof {
        if multi_prefix && !is_op && is_voiced {
            assert(Seq::<char>::empty() + seq!['+'] =~= seq!['+']);
        }
        if multi_prefix && is_op && !is_voiced {
            assert(seq!['@'] + Seq::<char>::empty() =~= seq!['@']);
        }
        if multi_prefix && is_op && is_voiced {
            assert(seq!['@'] + seq!['+'] =~= seq!['@', '+']);
        }
        assert(s@ =~= member_entry(nick@, is_op, is_voiced, multi_prefix));
    }
    s
}

/// The `353` and `366` replies to `NAMES <channel>`.
pub fn names_replies(me: &str, channel: &str, members: &[(String, bool, bool)], remotes: &[(String, bool)], multi_prefix: bool) -> (r: Vec<Reply>)
    ensures
        replies(r@) == seq![
            ("353"@, seq![me@, "="@, channel@, join(names_entries(members@, remotes@, multi_prefix), seq![' '])]),
            ("366"@, seq![me@, channel@, "End of /NAMES list"@]),
        ],
{
    let ghost es = names_entries(members@, remotes@, multi_prefix);
    let nm = members.len();
    let nr = remotes.len();
    let mut s = String::new();
    proof {
        reveal_strlit(" ");
        reveal_strlit("@");
        assert(es.take(0) =~= Seq::<Seq<char>>::empty());
    }
    let mut i: usize = 0;
    while i < nm
        invariant
            nm == members@.len(),
            nr == remotes@.len(),
            es == names_entries(members@, remotes@, multi_prefix),
            es.len() == nm + nr,
            i <= nm,
            s@ == join(es.take(i as int), seq![' ']),
        decreases nm - i,
    {
        proof {
            reveal_strlit(" ");
            assert(es.take(i + 1).drop_last() =~= es.take(i as int));
            assert(es[i as int] == member_entry(members@[i as int].0@, members@[i as int].1, members@[i as int].2, multi_prefix));
        }
        if i > 0 {
            push_str(&mut s, " ");
        }
        let t = member_text(members[i].0.as_str(), members[i].1, members[i].2, multi_prefix);
        push_str(&mut s, t.as_str());
        i = i + 1;
    }
    let mut j: usize = 0;
    while j < nr
        invariant
            nm == members@.len(),
            nr == remotes@.len(),
            es == names_entries(members@, remotes@, multi_prefix),
            es.len() == nm + nr,
            j <= nr,
            s@ == join(es.take(nm + j), seq![' ']),
        decreases nr - j,
    {
        proof {
            reveal_strlit(" ");
            reveal_strlit("@");
            assert(es.take(nm + j + 1).drop_last() =~= es.take(nm + j));
            assert(es[nm + j] == remote_entry(remotes@[j as int].0@, remotes@[j as int].1));
        }
        if nm > 0 || j > 0 {
            push_str(&mut s, " ");
        }
        if remotes[j].1 {
            push_str(&mut s, "@");
        }
        push_str(&mut s, remotes[j].0.as_str());
        j = j + 1;
    }
    assert(es.take(nm + nr) =~= es);
    let mut out: Vec<Reply> = Vec::new();
    out.push(reply4("353", me, "=", channel, s.as_str()));
    out.push(reply3("366", me, channel, "End of /NAMES list"));
    assert(replies(out@) =~= seq![
        ("353"@, seq![me@, "="@, channel@, join(es, seq![' '])]),
        ("366"@, seq![me@, channel@, "End of /NAMES list"@]),
    ]);
    out
}

/// A `322` LIST entry: the channel, its number of members (local and
/// remote), and its topic (empty when none is set).
pub fn list_reply(me: &str, channel: &str, members: u64, topic: Option<&str>) -> (r: Reply)
    ensures
        r@ == ("322"@, seq![me@, channel@, dec(members as nat), match topic {
            Some(t) => t@,
            None => ""@,
        }]),
{
    let count = u64_decimal(members);
    let t = match topic {
        Some(t) => t,
        None => "",
    };
    reply4("322", me, channel, count.as_str(), t)
}

/// The `323` that ends a LIST.
pub fn end_of_list(me: &str) -> (r: Reply)
    ensures
        r@ == ("323"@, seq![me@, "End of /LIST"@]),
{
    reply2("323", me, "End of /LIST")
}

// ── LUSERS ──────────────────────────────────────────────────────────

/// The replies to LUSERS: `251` users (local and remote), `252`
/// operators, `254` channels, `255` local clients.
pub open spec fn lusers_spec(me: Seq<char>, users: nat, remote: nat, channels: nat) -> Seq<(Seq<char>, Seq<Seq<char>>)> {
    seq![
        ("251"@, seq![me, "There are "@ + dec(users + remote) + " users on 1 server ("@ + dec(remote) + " remote)"@]),
        ("252"@, seq![me, "0"@, "operator(s) online"@]),
        ("254"@, seq![me, dec(channels), "channels formed"@]),
        ("255"@, seq![me, "I have "@ + dec(users) + " clients and 0 servers"@]),
    ]
}

/// The replies to LUSERS, for `users` local connections, `remote`
/// distinct remote nicks and `channels` channels.
pub fn lusers_replies(me: &str, users: u64, remote: u64, channels: u64) -> (r: Vec<Reply>)
    requires
        users + remote <= u64::MAX,
    ensures
        replies(r@) == lusers_spec(me@, users as nat, remote as nat, channels as nat),
{
    let total = u64_decimal(users + remote);
    let rem = u64_decimal(remote);
    let mut t1 = string_from("There are ");
    push_str(&mut t1, total.as_str());
    push_str(&mut t1, " users on 1 server (");
    push_str(&mut t1, rem.as_str());
    push_str(&mut t1, " remote)");
    let chs = u64_decimal(channels);
    let us = u64_decimal(users);
    let mut t4 = string_from("I have ");
    push_str(&mut t4, us.as_str());
    push_str(&mut t4, " clients and 0 servers");
    let mut out: Vec<Reply> = Vec::new();
    out.push(reply2("251", me, t1.as_str()));
    out.push(reply3("252", me, "0", "operator(s) online"));
    out.push(reply3("254", me, chs.as_str(), "channels formed"));
    out.push(reply2("255", me, t4.as_str()));
    assert(replies(out@) =~= lusers_spec(me@, users as nat, remote as nat, channels as nat));
    out
}

// ── AWAY ────────────────────────────────────────────────────────────

/// The away message an AWAY sets: its text when there is one and it is
/// not empty; otherwise the user is back.
pub fn away_message(msg: Option<&str>) -> (r: Option<String>)
    ensures
        match r {
            Some(s) => msg matches Some(m) && m@.len() > 0 && s@ == m@,
            None => msg matches None || msg->0@.len() == 0,
        },
{
    match msg {
        Some(m) => {
            if chars_of(m).len() > 0 {
                Some(string_from(m))
            } else {
                None
            }
        },
        None => None,
    }
}

/// The answer to AWAY: `306` when now away, `305` when back.
pub fn away_reply(me: &str, away: bool) -> (r: Reply)
    ensures
        r@ == if away {
            ("306"@, seq![me@, "You have been marked as being away"@])
        } else {
            ("305"@, seq![me@, "You are no longer marked as being away"@])
        },
{
    if away {
        reply2("306", me, "You have been marked as being away")
    } else {
        reply2("305", me, "You are no longer marked as being away")
    }
}

} // verus!
