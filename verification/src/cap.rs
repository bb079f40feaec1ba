//! IRCv3 capability negotiation: the capabilities the server offers and
//! its answer to a `CAP REQ`.
use vstd::prelude::*;
use crate::text::{
    ascii_lower, chars_of, join, lower_ascii, push_str, same_text, split_words, string_from, views,
    words,
};

verus! {

/// A capability the server supports.
#[derive(Debug, Clone, Copy, PartialEq, Eq, Structural)]
pub enum Cap {
    Sasl,
    MessageTags,
    MultiPrefix,
    EchoMessage,
    ServerTime,
    Batch,
    ChatHistory,
    AccountNotify,
    ExtendedJoin,
    AwayNotify,
}

/// The capabilities offered in a `CAP LS` reply, in order.
pub const CAP_LIST: &'static str = "sasl message-tags multi-prefix echo-message server-time batch draft/chathistory account-notify extended-join away-notify";

/// The name a capability is negotiated under.
pub open spec fn cap_name_spec(c: Cap) -> Seq<char> {
    match c {
        Cap::Sasl => "sasl"@,
        Cap::MessageTags => "message-tags"@,
        Cap::MultiPrefix => "multi-prefix"@,
        Cap::EchoMessage => "echo-message"@,
        Cap::ServerTime => "server-time"@,
        Cap::Batch => "batch"@,
        Cap::ChatHistory => "draft/chathistory"@,
        Cap::AccountNotify => "account-notify"@,
        Cap::ExtendedJoin => "extended-join"@,
        Cap::AwayNotify => "away-notify"@,
    }
}

impl Cap {
    /// The name this capability is negotiated under.
    pub fn name(&self) -> (r: &'static str)
        ensures
            r@ == cap_name_spec(*self),
    {
        match self {
            Cap::Sasl => "sasl",
            Cap::MessageTags => "message-tags",
            Cap::MultiPrefix => "multi-prefix",
            Cap::EchoMessage => "echo-message",
            Cap::ServerTime => "server-time",
            Cap::Batch => "batch",
            Cap::ChatHistory => "draft/chathistory",
            Cap::AccountNotify => "account-notify",
            Cap::ExtendedJoin => "extended-join",
            Cap::AwayNotify => "away-notify",
        }
    }
}

/// The capability a requested name denotes, matched without regard to
/// ASCII case.
pub open spec fn cap_of(w: Seq<char>) -> Option<Cap> {
    let l = ascii_lower(w);
    if l == "sasl"@ {
        Some(Cap::Sasl)
    } else if l == "message-tags"@ {
        Some(Cap::MessageTags)
    } else if l == "multi-prefix"@ {
        Some(Cap::MultiPrefix)
    } else if l == "echo-message"@ {
        Some(Cap::EchoMessage)
    } else if l == "server-time"@ {
        Some(Cap::ServerTime)
    } else if l == "batch"@ {
        Some(Cap::Batch)
    } else if l == "draft/chathistory"@ {
        Some(Cap::ChatHistory)
    } else if l == "account-notify"@ {
        Some(Cap::AccountNotify)
    } else if l == "extended-join"@ {
        Some(Cap::ExtendedJoin)
    } else if l == "away-notify"@ {
        Some(Cap::AwayNotify)
    } else {
        None
    }
}

/// A capability's own name, requested in any ASCII case, denotes that
/// capability: the names the server offers are the names it accepts.
pub proof fn law_cap_name_round_trip(c: Cap)
    ensures
        cap_of(cap_name_spec(c)) == Some(c),
{
    reveal_strlit("sasl");
    reveal_strlit("message-tags");
    reveal_strlit("multi-prefix");
    reveal_strlit("echo-message");
    reveal_strlit("server-time");
    reveal_strlit("batch");
    reveal_strlit("draft/chathistory");
    reveal_strlit("account-notify");
    reveal_strlit("extended-join");
    reveal_strlit("away-notify");
    let n = cap_name_spec(c);
    assert(ascii_lower(n) =~= n);
    assert(n.len() > 0 && n[0] != 'x');
    match c {
        Cap::Sasl => {},
        Cap::MessageTags => { assert(n[0] != "sasl"@[0]); },
        Cap::MultiPrefix => { assert(n[1] != "message-tags"@[1]); assert(n[0] != "sasl"@[0]); },
        Cap::EchoMessage => { assert(n[0] != 's' && n[0] != 'm'); },
        Cap::ServerTime => { assert(n.len() != "sasl"@.len() && n[0] != 'm' && n[0] != 'e'); },
        Cap::Batch => { assert(n[0] == 'b'); },
        Cap::ChatHistory => { assert(n[0] == 'd'); },
        Cap::AccountNotify => { assert(n[0] == 'a' && n[1] == 'c'); },
        Cap::ExtendedJoin => { assert(n[0] == 'e' && n[1] == 'x' && n.len() != "echo-message"@.len()); },
        Cap::AwayNotify => { assert(n[0] == 'a' && n[1] == 'w'); },
    }
}

/// The known capabilities among requested names, in order.
pub open spec fn known_caps(ws: Seq<Seq<char>>) -> Seq<Cap>
    decreases ws.len(),
{
    if ws.len() == 0 {
        Seq::empty()
    } else {
        match cap_of(ws.last()) {
            Some(c) => known_caps(ws.drop_last()).push(c),
            None => known_caps(ws.drop_last()),
        }
    }
}

/// Whether every requested name is a known capability.
pub open spec fn all_known(ws: Seq<Seq<char>>) -> bool {
    forall|i: int| 0 <= i < ws.len() ==> (#[trigger] cap_of(ws[i])) is Some
}

/// The `CAP LS` list: the supported capabilities, plus `iroh=<id>` when
/// the server has an endpoint id.
pub open spec fn cap_ls_spec(iroh_id: Option<Seq<char>>) -> Seq<char> {
    match iroh_id {
        Some(id) => CAP_LIST@ + " iroh="@ + id,
        None => CAP_LIST@,
    }
}

/// The `CAP LS` list.
pub fn cap_ls_text(iroh_id: Option<&str>) -> (r: String)
    ensures
        r@ == cap_ls_spec(match iroh_id {
            Some(i) => Some(i@),
            None => None,
        }),
{
    let mut s = string_from(CAP_LIST);
    match iroh_id {
        Some(id) => {
            push_str(&mut s, " iroh=");
            push_str(&mut s, id);
        },
        None => {},
    }
    s
}

/// The capability a requested name denotes.
pub fn cap_named(w: &[char]) -> (r: Option<Cap>)
    ensures
        r == cap_of(w@),
{
    let l = lower_ascii(w);
    let ls = l.as_slice();
    if same_text(ls, "sasl") {
        Some(Cap::Sasl)
    } else if same_text(ls, "message-tags") {
        Some(Cap::MessageTags)
    } else if same_text(ls, "multi-prefix") {
        Some(Cap::MultiPrefix)
    } else if same_text(ls, "echo-message") {
        Some(Cap::EchoMessage)
    } else if same_text(ls, "server-time") {
        Some(Cap::ServerTime)
    } else if same_text(ls, "batch") {
        Some(Cap::Batch)
    } else if same_text(ls, "draft/chathistory") {
        Some(Cap::ChatHistory)
    } else if same_text(ls, "account-notify") {
        Some(Cap::AccountNotify)
    } else if same_text(ls, "extended-join") {
        Some(Cap::ExtendedJoin)
    } else if same_text(ls, "away-notify") {
        Some(Cap::AwayNotify)
    } else {
        None
    }
}

/// The answer to `CAP REQ <caps>`: the known capabilities requested (each
/// is enabled), and whether the request is acknowledged — every name was
/// known and at least one was given.
pub fn cap_request(caps: &str) -> (r: (Vec<Cap>, bool))
    ensures
        r.0@ == known_caps(words(caps@)),
        r.1 == (all_known(words(caps@)) && words(caps@).len() > 0),
{
    let c = chars_of(caps);
    let ws = split_words(c.as_slice());
    let n = ws.len();
    let mut acked: Vec<Cap> = Vec::new();
    let mut all_ok = true;
    let mut i: usize = 0;
    while i < n
        invariant
            n == ws@.len(),
            views(ws@) == words(caps@),
            i <= n,
            acked@ == known_caps(views(ws@).take(i as int)),
            all_ok == all_known(views(ws@).take(i as int)),
        decreases n - i,
    {
        let k = cap_named(ws[i].as_slice());
        proof {
            let t = views(ws@).take(i + 1);
            assert(t.drop_last() =~= views(ws@).take(i as int));
            assert(t.last() == ws@[i as int]@);
        }
        match k {
            Some(cap) => acked.push(cap),
            None => {
                all_ok = false;
            },
        }
        proof {
            let t = views(ws@).take(i + 1);
            let p = views(ws@).take(i as int);
            if all_known(t) {
                assert forall|j: int| 0 <= j < p.len() implies (#[trigger] cap_of(p[j])) is Some by {
                    assert(p[j] == t[j]);
                }
            }
            if all_known(p) && cap_of(t.last()) is Some {
                assert forall|j: int| 0 <= j < t.len() implies (#[trigger] cap_of(t[j])) is Some by {
                    if j < p.len() {
                        assert(t[j] == p[j]);
                    }
                }
            }
        }
        i = i + 1;
    }
    assert(views(ws@).take(n as int) =~= views(ws@));
    (acked, all_ok && n > 0)
}

/// The ACK text: the acknowledged capability names, space-separated.
pub open spec fn cap_names(cs: Seq<Cap>) -> Seq<Seq<char>> {
    cs.map_values(|c: Cap| cap_name_spec(c))
}

/// The text of a `CAP ACK` for `caps`.
pub fn cap_ack_text(caps: &[Cap]) -> (r: String)
    ensures
        r@ == join(cap_names(caps@), seq![' ']),
{
    let n = caps.len();
    let mut s = String::new();
    let mut i: usize = 0;
    while i < n
        invariant
            n == caps@.len(),
            i <= n,
            s@ == join(cap_names(caps@).take(i as int), seq![' ']),
        decreases n - i,
    {
        proof {
            let t = cap_names(caps@).take(i + 1);
            assert(t.drop_last() =~= cap_names(caps@).take(i as int));
            assert(t.last() == cap_name_spec(caps@[i as int]));
            reveal_strlit(" ");
        }
        if i > 0 {
            push_str(&mut s, " ");
        }
        push_str(&mut s, caps[i].name());
        proof {
            if i == 0 {
                assert(cap_names(caps@).take(0) =~= Seq::<Seq<char>>::empty());
            }
        }
        i = i + 1;
    }
    assert(cap_names(caps@).take(n as int) =~= cap_names(caps@));
    s
}

} // verus!
