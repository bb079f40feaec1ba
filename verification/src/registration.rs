//! Completing an IRC registration (NICK/USER): when it can complete, who
//! may keep a registered nick, and the welcome and MOTD text.
use vstd::prelude::*;
use crate::text::{
    chars_of, dec, eq_chars, lowercase, push_str, split_lines, string_from, string_of, sub_chars,
    text_lines, to_lowercase_chars, u64_decimal, views,
};

verus! {

/// Whether a connection can complete its registration now: not yet
/// registered, not negotiating capabilities, no SASL exchange running,
/// and both NICK and USER given.
pub open spec fn ready_rule(registered: bool, cap_negotiating: bool, sasl_in_progress: bool, has_nick: bool, has_user: bool) -> bool {
    !registered && !cap_negotiating && !sasl_in_progress && has_nick && has_user
}

/// Whether a connection can complete its registration now.
pub fn registration_ready(registered: bool, cap_negotiating: bool, sasl_in_progress: bool, has_nick: bool, has_user: bool) -> (r: bool)
    ensures
        r == ready_rule(registered, cap_negotiating, sasl_in_progress, has_nick, has_user),
{
    !(registered || cap_negotiating || sasl_in_progress) && has_nick && has_user
}

/// A nick registered to a DID is kept only by a connection signed in as
/// that DID.
pub open spec fn must_give_up(owner_did: Option<Seq<char>>, authenticated_did: Option<Seq<char>>) -> bool {
    match owner_did {
        Some(o) => authenticated_did != Some(o),
        None => false,
    }
}

/// Whether a connection must give up the nick it claimed: the nick has an
/// owner and the connection is not signed in as the owner.
pub fn nick_claim_refused(owner_did: Option<&str>, authenticated_did: Option<&str>) -> (r: bool)
    ensures
        r == must_give_up(
            match owner_did {
                Some(o) => Some(o@),
                None => None,
            },
            match authenticated_did {
                Some(a) => Some(a@),
                None => None,
            },
        ),
{
    match owner_did {
        Some(o) => match authenticated_did {
            Some(a) => {
                let oc: Vec<char> = chars_of(o);
                let ac: Vec<char> = chars_of(a);
                !eq_chars(oc.as_slice(), ac.as_slice())
            },
            None => true,
        },
        None => false,
    }
}

/// The guest nick drawn from a random number: `Guest` and the number
/// modulo 100000.
pub open spec fn guest_nick_text(r: u32) -> Seq<char> {
    "Guest"@ + dec((r % 100000) as nat)
}

/// The guest nick for the random number `r`.
pub fn guest_nick_for(r: u32) -> (s: String)
    ensures
        s@ == guest_nick_text(r),
{
    let mut s = string_from("Guest");
    let d = u64_decimal((r % 100000) as u64);
    push_str(&mut s, d.as_str());
    s
}

/// Calls `rand::random::<u32>`. Nothing is claimed of the value: it is
/// random.
#[verifier::external_body]
fn random_u32() -> u32 {
    rand::random::<u32>()
}

/// A fresh guest nick for a connection that may not keep the nick it
/// claimed: `Guest` and a random number below 100000.
pub fn random_guest_nick() -> (s: String)
    ensures
        exists|r: u32| s@ == guest_nick_text(r),
{
    let r = random_u32();
    guest_nick_for(r)
}

/// `s` without its trailing underscores.
pub open spec fn trim_underscores(s: Seq<char>) -> Seq<char>
    decreases s.len(),
{
    if s.len() > 0 && s.last() == '_' {
        trim_underscores(s.drop_last())
    } else {
        s
    }
}

/// The nick a connection asks to have back after its older session with
/// the same DID is gone: a fallback nick (one ending in `_`) without its
/// trailing underscores.
pub open spec fn reclaim_spec(nick: Seq<char>) -> Option<Seq<char>> {
    if nick.len() > 0 && nick.last() == '_' {
        Some(trim_underscores(nick))
    } else {
        None
    }
}

/// The nick to reclaim, if `nick` is a fallback nick.
pub fn reclaim_nick(nick: &str) -> (r: Option<String>)
    ensures
        match r {
            Some(s) => reclaim_spec(nick@) == Some(s@),
            None => reclaim_spec(nick@) is None,
        },
{
    let c = chars_of(nick);
    let n = c.len();
    if n == 0 || c[n - 1] != '_' {
        return None;
    }
    let mut k: usize = n;
    assert(c@.take(n as int) =~= c@);
    while k > 0 && c[k - 1] == '_'
        invariant
            k <= n,
            n == c@.len(),
            trim_underscores(c@.take(k as int)) == trim_underscores(c@),
        decreases k,
    {
        proof {
            assert(c@.take(k as int).drop_last() =~= c@.take(k - 1));
        }
        k = k - 1;
    }
    let t = sub_chars(c.as_slice(), 0, k);
    assert(t@ =~= c@.take(k as int));
    Some(string_of(t.as_slice()))
}

/// What the welcome says of the account: the DID signed in with, or
/// that the user is a guest.
pub open spec fn auth_info(did: Option<Seq<char>>) -> Seq<char> {
    match did {
        Some(d) => " (authenticated as "@ + d + ")"@,
        None => " (guest)"@,
    }
}

/// The text of `RPL_WELCOME`.
pub fn welcome_text(server_name: &str, nick: &str, did: Option<&str>) -> (r: String)
    ensures
        r@ == "Welcome to "@ + server_name@ + ", "@ + nick@ + auth_info(
            match did {
                Some(d) => Some(d@),
                None => None,
            },
        ),
{
    let mut s = string_from("Welcome to ");
    push_str(&mut s, server_name);
    push_str(&mut s, ", ");
    push_str(&mut s, nick);
    match did {
        Some(d) => {
            push_str(&mut s, " (authenticated as ");
            push_str(&mut s, d);
            push_str(&mut s, ")");
        },
        None => {
            push_str(&mut s, " (guest)");
        },
    }
    s
}

/// The text of `RPL_YOURHOST`.
pub fn yourhost_text(server_name: &str) -> (r: String)
    ensures
        r@ == "Your host is "@ + server_name@ + ", running freeq 0.1"@,
{
    let mut s = string_from("Your host is ");
    push_str(&mut s, server_name);
    push_str(&mut s, ", running freeq 0.1");
    s
}

/// The lines of `s`, as strings.
pub fn lines_of(s: &str) -> (r: Vec<String>)
    ensures
        r@.map_values(|l: String| l@) == text_lines(s@),
{
    let ls = split_lines(chars_of(s).as_slice());
    let n = ls.len();
    let mut out: Vec<String> = Vec::new();
    let mut i: usize = 0;
    while i < n
        invariant
            n == ls@.len(),
            views(ls@) == text_lines(s@),
            i <= n,
            out@.map_values(|l: String| l@) == views(ls@).take(i as int),
        decreases n - i,
    {
        let ghost before = out@;
        let line = string_of(ls[i].as_slice());
        out.push(line);
        proof {
            assert(views(ls@)[i as int] == ls@[i as int]@);
            assert(out@.map_values(|l: String| l@) =~= before.map_values(|l: String| l@).push(line@));
            assert(views(ls@).take(i + 1) =~= views(ls@).take(i as int).push(line@));
        }
        i = i + 1;
    }
    assert(views(ls@).take(n as int) =~= views(ls@));
    out
}

/// The MOTD as sent: a `- <server> Message of the day -` header, then
/// each of its lines after `- `.
pub open spec fn motd_texts(server_name: Seq<char>, motd: Seq<char>) -> Seq<Seq<char>> {
    seq!["- "@ + server_name + " Message of the day -"@] + text_lines(motd).map_values(
        |l: Seq<char>| "- "@ + l,
    )
}

/// The texts of the MOTD replies (`375`, then a `372` per line).
pub fn motd_lines(server_name: &str, motd: &str) -> (r: Vec<String>)
    ensures
        r@.map_values(|l: String| l@) == motd_texts(server_name@, motd@),
{
    let lines = lines_of(motd);
    let mut out: Vec<String> = Vec::new();
    let mut head = string_from("- ");
    push_str(&mut head, server_name);
    push_str(&mut head, " Message of the day -");
    out.push(head);
    let n = lines.len();
    let mut i: usize = 0;
    let ghost ls = text_lines(motd@);
    while i < n
        invariant
            n == lines@.len(),
            lines@.map_values(|l: String| l@) == ls,
            ls == text_lines(motd@),
            i <= n,
            out@.map_values(|l: String| l@) == seq!["- "@ + server_name@ + " Message of the day -"@]
                + ls.take(i as int).map_values(|l: Seq<char>| "- "@ + l),
        decreases n - i,
    {
        let mut t = string_from("- ");
        push_str(&mut t, lines[i].as_str());
        let ghost before = out@;
        out.push(t);
        proof {
            assert(ls[i as int] == lines@[i as int]@);
            assert(ls.take(i + 1).map_values(|l: Seq<char>| "- "@ + l) =~= ls.take(i as int).map_values(
                |l: Seq<char>| "- "@ + l,
            ).push("- "@ + ls[i as int]));
            assert(out@.map_values(|l: String| l@) =~= before.map_values(|l: String| l@).push(t@));
        }
        i = i + 1;
    }
    assert(ls.take(n as int) =~= ls);
    out
}

/// `:<nick>!~u@host ACCOUNT <did>`: the account-notify line members of a
/// user's channels get when it signs in.
pub fn account_line(nick: &str, did: &str) -> (r: String)
    ensures
        r@ == ":"@ + nick@ + "!~u@host ACCOUNT "@ + did@ + "\r\n"@,
{
    let mut s = string_from(":");
    push_str(&mut s, nick);
    push_str(&mut s, "!~u@host ACCOUNT ");
    push_str(&mut s, did);
    push_str(&mut s, "\r\n");
    s
}

/// The other sessions signed in as `did`: each `(session, did)` pair
/// whose DID is `did` and whose session is not `me`, in order. They are
/// closed when the same identity connects again.
pub open spec fn same_identity(sessions: Seq<(String, String)>, did: Seq<char>, me: Seq<char>) -> Seq<Seq<char>>
    decreases sessions.len(),
{
    if sessions.len() == 0 {
        Seq::empty()
    } else {
        let (sid, d) = sessions.last();
        let rest = same_identity(sessions.drop_last(), did, me);
        if d@ == did && sid@ != me {
            rest.push(sid@)
        } else {
            rest
        }
    }
}

/// The other sessions signed in as `did`.
pub fn sessions_to_ghost(sessions: &[(String, String)], did: &str, me: &str) -> (r: Vec<String>)
    ensures
        r@.map_values(|s: String| s@) == same_identity(sessions@, did@, me@),
{
    let dc = chars_of(did);
    let mc = chars_of(me);
    let n = sessions.len();
    let mut out: Vec<String> = Vec::new();
    let mut i: usize = 0;
    while i < n
        invariant
            n == sessions@.len(),
            dc@ == did@,
            mc@ == me@,
            i <= n,
            out@.map_values(|s: String| s@) == same_identity(sessions@.take(i as int), did@, me@),
        decreases n - i,
    {
        proof {
            assert(sessions@.take(i + 1).drop_last() =~= sessions@.take(i as int));
        }
        let sc = chars_of(sessions[i].0.as_str());
        let d = chars_of(sessions[i].1.as_str());
        if eq_chars(d.as_slice(), dc.as_slice()) && !eq_chars(sc.as_slice(), mc.as_slice()) {
            let ghost before = out@;
            let sid = string_from(sessions[i].0.as_str());
            out.push(sid);
            proof {
                assert(out@.map_values(|s: String| s@) =~= before.map_values(|s: String| s@).push(sid@));
            }
        }
        i = i + 1;
    }
    assert(sessions@.take(n as int) =~= sessions@);
    out
}

/// The QUIT channel members see for a session closed because its
/// identity reconnected.
pub fn ghost_quit_line(old_nick: &str, host: &str) -> (r: String)
    ensures
        r@ == ":"@ + old_nick@ + "!~u@"@ + host@ + " QUIT :Ghosted (same identity reconnected)\r\n"@,
{
    let mut s = string_from(":");
    push_str(&mut s, old_nick);
    push_str(&mut s, "!~u@");
    push_str(&mut s, host);
    push_str(&mut s, " QUIT :Ghosted (same identity reconnected)\r\n");
    s
}

/// What a closed duplicate session is told before it is dropped.
pub const GHOST_CLOSE: &'static str = "ERROR :Closing link (same identity reconnected)\r\n";

/// Whether a nick is already taken: some registered nick equals it after
/// lowercasing both (`str::to_lowercase`).
pub fn nick_taken(registered: &[String], nick: &str) -> (r: bool)
    ensures
        r == exists|i: int| 0 <= i < registered@.len() && lowercase(#[trigger] registered@[i]@) == lowercase(nick@),
{
    let target = to_lowercase_chars(chars_of(nick).as_slice());
    let mut i: usize = 0;
    while i < registered.len()
        invariant
            i <= registered@.len(),
            target@ == lowercase(nick@),
            forall|j: int| 0 <= j < i ==> lowercase(#[trigger] registered@[j]@) != lowercase(nick@),
        decreases registered@.len() - i,
    {
        let k = to_lowercase_chars(chars_of(registered[i].as_str()).as_slice());
        if eq_chars(k.as_slice(), target.as_slice()) {
            return true;
        }
        i = i + 1;
    }
    false
}

} // verus!
