//! Events from peer servers: which of them to apply, how channel
//! authority (founder and DID operators) merges, and the lines local
//! members see.
use vstd::prelude::*;
use crate::channel::ChannelState;
use crate::modes::opt_seq;
use crate::text::{
    chars_of, eq_chars, push_str, starts_with, starts_with_chars, string_from, string_of,
    sub_chars,
};

verus! {

/// Whether an event came back from this very server: its origin is set
/// and is this server's id.
pub fn is_own_event(origin: &str, server_id: &str) -> (r: bool)
    ensures
        r == (origin@.len() > 0 && origin@ == server_id@),
{
    let o = chars_of(origin);
    let s = chars_of(server_id);
    o.len() > 0 && eq_chars(o.as_slice(), s.as_slice())
}

/// Whether a peer's event is processed at all: not one that came back
/// from this server, and not a repeat of an event id already seen from
/// its origin (`already_seen` is what the de-duplication set said when
/// the id was offered to it; events without an id are never repeats).
pub fn s2s_admit(origin: &str, server_id: &str, event_id: &str, already_seen: bool) -> (r: bool)
    ensures
        r == (!(origin@.len() > 0 && origin@ == server_id@) && !(event_id@.len() > 0 && already_seen)),
        origin@.len() > 0 && origin@ == server_id@ ==> !r,
{
    if is_own_event(origin, server_id) {
        return false;
    }
    let e = chars_of(event_id);
    !(e.len() > 0 && already_seen)
}

/// The nick of a `nick!user@host` prefix: what comes before the first
/// `!` (the whole prefix when there is none).
pub fn prefix_nick(from: &str) -> (r: String)
    ensures
        r@.len() <= from@.len(),
        r@ == from@.take(r@.len() as int),
        forall|j: int| 0 <= j < r@.len() ==> r@[j] != '!',
        r@.len() == from@.len() || from@[r@.len() as int] == '!',
{
    let c = chars_of(from);
    let n = c.len();
    let mut i: usize = 0;
    while i < n && c[i] != '!'
        invariant
            n == c@.len(),
            i <= n,
            forall|j: int| 0 <= j < i ==> c@[j] != '!',
        decreases n - i,
    {
        i = i + 1;
    }
    let t = sub_chars(c.as_slice(), 0, i);
    assert(t@ =~= from@.take(i as int));
    string_of(t.as_slice())
}

/// Whether `s` reads as a DID (starts with `did:`).
pub open spec fn is_did(s: Seq<char>) -> bool {
    starts_with(s, "did:"@)
}

fn looks_like_did(s: &str) -> (r: bool)
    ensures
        r == is_did(s@),
{
    let c = chars_of(s);
    let p = chars_of("did:");
    starts_with_chars(c.as_slice(), p.as_slice())
}

/// The founder a channel keeps when a peer reports one: a founder already
/// known here stays; otherwise the reported one is adopted if it is a
/// DID.
pub open spec fn merged_founder(local: Option<Seq<char>>, remote: Option<Seq<char>>) -> Option<Seq<char>> {
    match local {
        Some(l) => Some(l),
        None => match remote {
            Some(r) => if is_did(r) {
                Some(r)
            } else {
                None
            },
            None => None,
        },
    }
}

/// The founder a channel keeps when a peer reports one.
pub fn merge_founder(local: Option<&str>, remote: Option<&str>) -> (r: Option<String>)
    ensures
        opt_seq(r) == merged_founder(
            match local {
                Some(l) => Some(l@),
                None => None,
            },
            match remote {
                Some(x) => Some(x@),
                None => None,
            },
        ),
{
    match local {
        Some(l) => Some(string_from(l)),
        None => match remote {
            Some(x) => if looks_like_did(x) {
                Some(string_from(x))
            } else {
                None
            },
            None => None,
        },
    }
}

/// The DIDs among `s`, in order.
pub open spec fn dids_among(s: Seq<Seq<char>>) -> Seq<Seq<char>>
    decreases s.len(),
{
    if s.len() == 0 {
        Seq::empty()
    } else if is_did(s.last()) {
        dids_among(s.drop_last()).push(s.last())
    } else {
        dids_among(s.drop_last())
    }
}

/// The operator DIDs a channel takes from a peer's report. Entries that
/// are not DIDs are refused. With `require_did` an operator is taken only
/// when someone holds authority over the channel (a founder, reported or
/// known here, or an operator DID known here); without it every DID is
/// taken.
pub open spec fn granted_ops(reported: Seq<Seq<char>>, authority: bool, require_did: bool) -> Seq<Seq<char>> {
    if authority || !require_did {
        dids_among(reported)
    } else {
        Seq::empty()
    }
}

/// Only DIDs are ever taken as operators from a peer's report, and each
/// was in the report.
pub proof fn law_granted_ops_are_reported_dids(reported: Seq<Seq<char>>, authority: bool, require_did: bool)
    ensures
        forall|i: int|
            0 <= i < granted_ops(reported, authority, require_did).len() ==> is_did(
                #[trigger] granted_ops(reported, authority, require_did)[i],
            ) && reported.contains(granted_ops(reported, authority, require_did)[i]),
    decreases reported.len(),
{
    if reported.len() > 0 {
        law_granted_ops_are_reported_dids(reported.drop_last(), authority, require_did);
        let g = granted_ops(reported, authority, require_did);
        let h = granted_ops(reported.drop_last(), authority, require_did);
        assert forall|i: int| 0 <= i < g.len() implies is_did(#[trigger] g[i]) && reported.contains(g[i]) by {
            if i < h.len() {
                assert(g[i] == h[i]);
                assert(reported.drop_last().contains(h[i]));
                let k = choose|k: int| 0 <= k < reported.drop_last().len() && reported.drop_last()[k] == h[i];
                assert(reported[k] == h[i]);
            } else {
                assert(g[i] == reported.last());
                assert(reported[reported.len() - 1] == reported.last());
            }
        }
    }
}

/// The operator DIDs a channel takes from a peer's report, checked one by
/// one: each accepted DID is authority for the next.
pub fn accepted_ops(
    reported: &[String],
    remote_founder: bool,
    local_founder: bool,
    local_has_ops: bool,
    require_did: bool,
) -> (r: Vec<String>)
    ensures
        r@.map_values(|s: String| s@) == granted_ops(
            reported@.map_values(|s: String| s@),
            remote_founder || local_founder || local_has_ops,
            require_did,
        ),
{
    let n = reported.len();
    let ghost rs = reported@.map_values(|s: String| s@);
    let ghost authority = remote_founder || local_founder || local_has_ops;
    let mut out: Vec<String> = Vec::new();
    let mut have_ops = local_has_ops;
    let mut i: usize = 0;
    while i < n
        invariant
            n == reported@.len(),
            rs == reported@.map_values(|s: String| s@),
            authority == (remote_founder || local_founder || local_has_ops),
            i <= n,
            have_ops ==> authority || !require_did,
            authority ==> have_ops || remote_founder || local_founder,
            out@.map_values(|s: String| s@) == granted_ops(rs.take(i as int), authority, require_did),
        decreases n - i,
    {
        proof {
            assert(rs.take(i + 1).drop_last() =~= rs.take(i as int));
            assert(rs[i as int] == reported@[i as int]@);
        }
        if looks_like_did(reported[i].as_str()) {
            let has_authority = remote_founder || local_founder || have_ops;
            if has_authority || !require_did {
                let ghost before = out@;
                out.push(string_from(reported[i].as_str()));
                proof {
                    assert(out@.map_values(|s: String| s@) =~= before.map_values(|s: String| s@).push(
                        rs[i as int],
                    ));
                }
                have_ops = true;
            }
        }
        i = i + 1;
    }
    assert(rs.take(n as int) =~= rs);
    out
}

/// Whether a DID holds operator standing on a channel: it founded it or
/// is one of its operator DIDs.
pub open spec fn did_authority(did: Option<Seq<char>>, founder: Option<Seq<char>>, did_ops: Seq<Seq<char>>) -> bool {
    match did {
        Some(d) => founder == Some(d) || did_ops.contains(d),
        None => false,
    }
}

pub(crate) fn holds_authority(did: &Option<String>, founder: Option<&str>, did_ops: &[String]) -> (r: bool)
    ensures
        r == did_authority(
            opt_seq(*did),
            match founder {
                Some(f) => Some(f@),
                None => None,
            },
            did_ops@.map_values(|s: String| s@),
        ),
{
    let ghost ops = did_ops@.map_values(|s: String| s@);
    match did {
        Some(d) => {
            let dc = chars_of(d.as_str());
            match founder {
                Some(f) => {
                    let fc = chars_of(f);
                    if eq_chars(dc.as_slice(), fc.as_slice()) {
                        return true;
                    }
                },
                None => {},
            }
            let mut i: usize = 0;
            while i < did_ops.len()
                invariant
                    i <= did_ops@.len(),
                    ops == did_ops@.map_values(|s: String| s@),
                    dc@ == d@,
                    opt_seq(*did) == Some(d@),
                    forall|j: int| 0 <= j < i ==> ops[j] != d@,
                decreases did_ops@.len() - i,
            {
                let oc = chars_of(did_ops[i].as_str());
                if eq_chars(oc.as_slice(), dc.as_slice()) {
                    assert(ops[i as int] == d@);
                    assert(ops.contains(d@));
                    return true;
                }
                i = i + 1;
            }
            false
        },
        None => false,
    }
}

/// The members (session, signed-in DID) whose DID holds operator
/// standing, in order: they are given operator status.
pub open spec fn authority_sessions(members: Seq<(String, Option<String>)>, founder: Option<Seq<char>>, did_ops: Seq<Seq<char>>) -> Seq<
    Seq<char>,
>
    decreases members.len(),
{
    if members.len() == 0 {
        Seq::empty()
    } else {
        let m = members.last();
        let rest = authority_sessions(members.drop_last(), founder, did_ops);
        if did_authority(opt_seq(m.1), founder, did_ops) {
            rest.push(m.0@)
        } else {
            rest
        }
    }
}

/// The members without such standing, in order.
pub open spec fn other_sessions(members: Seq<(String, Option<String>)>, founder: Option<Seq<char>>, did_ops: Seq<Seq<char>>) -> Seq<
    Seq<char>,
>
    decreases members.len(),
{
    if members.len() == 0 {
        Seq::empty()
    } else {
        let m = members.last();
        let rest = other_sessions(members.drop_last(), founder, did_ops);
        if did_authority(opt_seq(m.1), founder, did_ops) {
            rest
        } else {
            rest.push(m.0@)
        }
    }
}

/// How operator status changes after authority merges: members whose DID
/// holds standing get it; when someone with standing now holds it (one
/// of those members, or a remote operator) the others lose theirs — a
/// channel is never left without operators.
pub fn op_changes(
    members: &[(String, Option<String>)],
    founder: Option<&str>,
    did_ops: &[String],
    remote_op_present: bool,
) -> (r: (Vec<String>, Vec<String>))
    ensures
        ({
            let f = match founder {
                Some(x) => Some(x@),
                None => None,
            };
            let ops = did_ops@.map_values(|s: String| s@);
            let grant = authority_sessions(members@, f, ops);
            &&& r.0@.map_values(|s: String| s@) == grant
            &&& r.1@.map_values(|s: String| s@) == if grant.len() > 0 || remote_op_present {
                other_sessions(members@, f, ops)
            } else {
                Seq::empty()
            }
        }),
        r.1@.len() > 0 ==> r.0@.len() > 0 || remote_op_present,
{
    let ghost f = match founder {
        Some(x) => Some(x@),
        None => None,
    };
    let ghost ops = did_ops@.map_values(|s: String| s@);
    let n = members.len();
    let mut grant: Vec<String> = Vec::new();
    let mut others: Vec<String> = Vec::new();
    let mut i: usize = 0;
    while i < n
        invariant
            n == members@.len(),
            f == match founder {
                Some(x) => Some(x@),
                None => None::<Seq<char>>,
            },
            ops == did_ops@.map_values(|s: String| s@),
            i <= n,
            grant@.map_values(|s: String| s@) == authority_sessions(members@.take(i as int), f, ops),
            others@.map_values(|s: String| s@) == other_sessions(members@.take(i as int), f, ops),
        decreases n - i,
    {
        proof {
            assert(members@.take(i + 1).drop_last() =~= members@.take(i as int));
        }
        let (sid, did) = (&members[i].0, &members[i].1);
        let ghost g0 = grant@;
        let ghost o0 = others@;
        if holds_authority(did, founder, did_ops) {
            grant.push(string_from(sid.as_str()));
            proof {
                assert(grant@.map_values(|s: String| s@) =~= g0.map_values(|s: String| s@).push(sid@));
            }
        } else {
            others.push(string_from(sid.as_str()));
            proof {
                assert(others@.map_values(|s: String| s@) =~= o0.map_values(|s: String| s@).push(sid@));
            }
        }
        i = i + 1;
    }
    assert(members@.take(n as int) =~= members@);
    if grant.len() > 0 || remote_op_present {
        (grant, others)
    } else {
        let none: Vec<String> = Vec::new();
        assert(none@.map_values(|s: String| s@) =~= Seq::<Seq<char>>::empty());
        (grant, none)
    }
}

/// Whether a value of the replicated document (a channel's topic or
/// founder) must replace the local one in reconciliation: there is none
/// here, or it differs.
pub fn replica_diverges(local: Option<&str>, replicated: &str) -> (r: bool)
    ensures
        r == match local {
            Some(t) => t@ != replicated@,
            None => true,
        },
{
    match local {
        Some(t) => {
            let a = chars_of(t);
            let b = chars_of(replicated);
            !eq_chars(a.as_slice(), b.as_slice())
        },
        None => true,
    }
}

/// Whether a peer may change a channel's topic: on a `+t` channel the
/// setter must be a known remote member that is an operator there or
/// whose DID holds standing.
pub open spec fn remote_topic_rule(topic_locked: bool, setter_known: bool, setter_is_op: bool, setter_did_authority: bool) -> bool {
    !topic_locked || (setter_known && (setter_is_op || setter_did_authority))
}

/// Whether a peer may change a channel's topic.
pub fn remote_topic_allowed(topic_locked: bool, setter_known: bool, setter_is_op: bool, setter_did_authority: bool) -> (r: bool)
    ensures
        r == remote_topic_rule(topic_locked, setter_known, setter_is_op, setter_did_authority),
{
    !topic_locked || (setter_known && (setter_is_op || setter_did_authority))
}

/// The flag a peer's mode change names: its last character.
pub open spec fn mode_letter(mode: Seq<char>) -> char {
    if mode.len() > 0 {
        mode.last()
    } else {
        ' '
    }
}

/// Whether a peer's mode change sets its flag (starts with `+`).
pub open spec fn mode_adds(mode: Seq<char>) -> bool {
    mode.len() > 0 && mode[0] == '+'
}

/// Apply a peer's channel mode change (`+t`, `-i`, `+k`, ...): the flag
/// named by its last character is set or cleared; `+k` takes the key
/// given (none if none is), `-k` drops it; other letters change nothing.
pub fn apply_remote_mode(ch: &mut ChannelState, mode: &str, arg: Option<&str>)
    ensures
        final(ch).topic_locked == if mode_letter(mode@) == 't' {
            mode_adds(mode@)
        } else {
            old(ch).topic_locked
        },
        final(ch).invite_only == if mode_letter(mode@) == 'i' {
            mode_adds(mode@)
        } else {
            old(ch).invite_only
        },
        final(ch).no_ext_msg == if mode_letter(mode@) == 'n' {
            mode_adds(mode@)
        } else {
            old(ch).no_ext_msg
        },
        final(ch).moderated == if mode_letter(mode@) == 'm' {
            mode_adds(mode@)
        } else {
            old(ch).moderated
        },
        opt_seq(final(ch).key) == if mode_letter(mode@) == 'k' {
            if mode_adds(mode@) {
                match arg {
                    Some(a) => Some(a@),
                    None => None,
                }
            } else {
                None
            }
        } else {
            opt_seq(old(ch).key)
        },
        final(ch).members == old(ch).members,
        final(ch).remote_members == old(ch).remote_members,
        final(ch).ops == old(ch).ops,
        final(ch).voiced == old(ch).voiced,
        final(ch).invites == old(ch).invites,
        final(ch).bans == old(ch).bans,
        final(ch).did_ops == old(ch).did_ops,
        final(ch).founder_did == old(ch).founder_did,
        final(ch).topic == old(ch).topic,
{
    let c = chars_of(mode);
    let n = c.len();
    let adding = n > 0 && c[0] == '+';
    let letter = if n > 0 {
        c[n - 1]
    } else {
        ' '
    };
    if letter == 't' {
        ch.topic_locked = adding;
    } else if letter == 'i' {
        ch.invite_only = adding;
    } else if letter == 'n' {
        ch.no_ext_msg = adding;
    } else if letter == 'm' {
        ch.moderated = adding;
    } else if letter == 'k' {
        if adding {
            ch.key = match arg {
                Some(a) => Some(string_from(a)),
                None => None,
            };
        } else {
            ch.key = None;
        }
    }
}

/// `:<nick>!<nick>@s2s <verb> <channel>`: a remote member joining or
/// leaving, as local members see it.
pub fn remote_presence_line(nick: &str, verb: &str, channel: &str) -> (r: String)
    ensures
        r@ == ":"@ + nick@ + "!"@ + nick@ + "@s2s "@ + verb@ + " "@ + channel@ + "\r\n"@,
{
    let mut s = string_from(":");
    push_str(&mut s, nick);
    push_str(&mut s, "!");
    push_str(&mut s, nick);
    push_str(&mut s, "@s2s ");
    push_str(&mut s, verb);
    push_str(&mut s, " ");
    push_str(&mut s, channel);
    push_str(&mut s, "\r\n");
    s
}

/// `:<nick>!<nick>@s2s QUIT :<reason>`.
pub fn remote_quit_line(nick: &str, reason: &str) -> (r: String)
    ensures
        r@ == ":"@ + nick@ + "!"@ + nick@ + "@s2s QUIT :"@ + reason@ + "\r\n"@,
{
    let mut s = string_from(":");
    push_str(&mut s, nick);
    push_str(&mut s, "!");
    push_str(&mut s, nick);
    push_str(&mut s, "@s2s QUIT :");
    push_str(&mut s, reason);
    push_str(&mut s, "\r\n");
    s
}

/// `:<by>!remote@s2s <rest>`: a remote user's command, as local members
/// see it.
pub fn remote_command_line(by: &str, rest: &str) -> (r: String)
    ensures
        r@ == ":"@ + by@ + "!remote@s2s "@ + rest@ + "\r\n"@,
{
    let mut s = string_from(":");
    push_str(&mut s, by);
    push_str(&mut s, "!remote@s2s ");
    push_str(&mut s, rest);
    push_str(&mut s, "\r\n");
    s
}

/// The text after the prefix of a remote MODE: `MODE <channel> <mode>`
/// and its argument, if any.
pub fn remote_mode_text(channel: &str, mode: &str, arg: Option<&str>) -> (r: String)
    ensures
        r@ == "MODE "@ + channel@ + " "@ + mode@ + match arg {
            Some(a) => " "@ + a@,
            None => ""@,
        },
{
    let mut s = string_from("MODE ");
    push_str(&mut s, channel);
    push_str(&mut s, " ");
    push_str(&mut s, mode);
    match arg {
        Some(a) => {
            push_str(&mut s, " ");
            push_str(&mut s, a);
        },
        None => {
            proof {
                reveal_strlit("");
            }
            assert(s@ + ""@ =~= s@);
        },
    }
    s
}

/// The NAMES refresh sent to a local member after a remote join, part or
/// quit: `353` with the list, then `366`.
pub fn names_refresh(server_name: &str, nick: &str, channel: &str, list: &str) -> (r: String)
    ensures
        r@ == ":"@ + server_name@ + " 353 "@ + nick@ + " = "@ + channel@ + " :"@ + list@ + "\r\n:"@ + server_name@
            + " 366 "@ + nick@ + " "@ + channel@ + " :End of /NAMES list\r\n"@,
{
    let mut s = string_from(":");
    push_str(&mut s, server_name);
    push_str(&mut s, " 353 ");
    push_str(&mut s, nick);
    push_str(&mut s, " = ");
    push_str(&mut s, channel);
    push_str(&mut s, " :");
    push_str(&mut s, list);
    push_str(&mut s, "\r\n:");
    push_str(&mut s, server_name);
    push_str(&mut s, " 366 ");
    push_str(&mut s, nick);
    push_str(&mut s, " ");
    push_str(&mut s, channel);
    push_str(&mut s, " :End of /NAMES list\r\n");
    s
}

} // verus!
