//! A peer server's channel event as one step: whether it is processed at
//! all (not our own, not a repeat), and what a remote JOIN, PART, TOPIC
//! or channel creation does to the channel's federated state.
use vstd::prelude::*;
use crate::federation::{
    accepted_ops, did_authority, granted_ops, holds_authority, merge_founder, merged_founder, remote_topic_allowed,
    remote_topic_rule, s2s_admit,
};
use crate::join::{ins, list_insert};
use crate::modes::opt_seq;
use crate::text::{chars_of, eq_chars, string_from, string_views};

verus! {

/// A member on a peer server: nick, DID, whether it is an operator.
pub struct RemoteEntry {
    pub nick: String,
    pub did: Option<String>,
    pub is_op: bool,
}

/// What peers' events change of a channel.
pub struct FedChannel {
    /// Members on peer servers, at most one per nick.
    pub remote: Vec<RemoteEntry>,
    pub founder_did: Option<String>,
    pub did_ops: Vec<String>,
    /// The topic text and who set it.
    pub topic: Option<(String, String)>,
    pub topic_locked: bool,
}

/// A remote member as plain values.
pub open spec fn entry_view(e: RemoteEntry) -> (Seq<char>, Option<Seq<char>>, bool) {
    (e.nick@, opt_seq(e.did), e.is_op)
}

/// The remote members as plain values.
pub open spec fn entries(s: Seq<RemoteEntry>) -> Seq<(Seq<char>, Option<Seq<char>>, bool)> {
    s.map_values(|e: RemoteEntry| entry_view(e))
}

/// The members without `nick`, in order.
pub open spec fn drop_nick(s: Seq<(Seq<char>, Option<Seq<char>>, bool)>, nick: Seq<char>) -> Seq<(Seq<char>, Option<Seq<char>>, bool)>
    decreases s.len(),
{
    if s.len() == 0 {
        s
    } else if s.last().0 == nick {
        drop_nick(s.drop_last(), nick)
    } else {
        drop_nick(s.drop_last(), nick).push(s.last())
    }
}

/// The last member named `nick`, if any.
pub open spec fn find_nick(s: Seq<(Seq<char>, Option<Seq<char>>, bool)>, nick: Seq<char>) -> Option<(Seq<char>, Option<Seq<char>>, bool)>
    decreases s.len(),
{
    if s.len() == 0 {
        None
    } else if s.last().0 == nick {
        Some(s.last())
    } else {
        find_nick(s.drop_last(), nick)
    }
}

/// A peer's channel event.
pub enum PeerEvent {
    Join { nick: String, did: Option<String>, is_op: bool },
    Part { nick: String },
    Topic { topic: String, set_by: String },
    Created { founder_did: Option<String>, did_ops: Vec<String> },
}

/// The channel's federated state as plain values.
pub struct FedView {
    pub remote: Seq<(Seq<char>, Option<Seq<char>>, bool)>,
    pub founder_did: Option<Seq<char>>,
    pub did_ops: Seq<Seq<char>>,
    pub topic: Option<(Seq<char>, Seq<char>)>,
    pub topic_locked: bool,
}

impl View for FedChannel {
    type V = FedView;

    open spec fn view(&self) -> FedView {
        FedView {
            remote: entries(self.remote@),
            founder_did: opt_seq(self.founder_did),
            did_ops: self.did_ops@.map_values(|s: String| s@),
            topic: match self.topic {
                Some((t, b)) => Some((t@, b@)),
                None => None,
            },
            topic_locked: self.topic_locked,
        }
    }
}

/// An empty channel entry.
pub open spec fn empty_fed() -> FedView {
    FedView { remote: Seq::empty(), founder_did: None, did_ops: Seq::empty(), topic: None, topic_locked: false }
}

/// `s` with each of `xs` added in turn (unless already there).
pub open spec fn ins_all(s: Seq<Seq<char>>, xs: Seq<Seq<char>>) -> Seq<Seq<char>>
    decreases xs.len(),
{
    if xs.len() == 0 {
        s
    } else {
        ins(ins_all(s, xs.drop_last()), xs.last())
    }
}

/// What an admitted event does to the channel (an absent one is created
/// as empty first, except by a PART). A creation keeps an existing
/// founder and grants the reported operator DIDs that [`granted_ops`]
/// accepts, with authority when a founder was reported or is known, or
/// the channel already has operator DIDs; `require_did` is the server's
/// setting that refuses grants without such authority.
pub open spec fn peer_event(v: Option<FedView>, ev: PeerEvent, require_did: bool) -> Option<FedView> {
    let c = match v {
        Some(x) => x,
        None => empty_fed(),
    };
    match ev {
        PeerEvent::Join { nick, did, is_op } => Some(
            FedView { remote: drop_nick(c.remote, nick@).push((nick@, opt_seq(did), is_op)), ..c },
        ),
        PeerEvent::Part { nick } => match v {
            Some(x) => Some(FedView { remote: drop_nick(x.remote, nick@), ..x }),
            None => None,
        },
        PeerEvent::Topic { topic, set_by } => {
            let setter = find_nick(c.remote, set_by@);
            let allowed = remote_topic_rule(
                c.topic_locked,
                setter is Some,
                setter matches Some(e) && e.2,
                setter matches Some(e) && did_authority(e.1, c.founder_did, c.did_ops),
            );
            if allowed {
                Some(FedView { topic: Some((topic@, set_by@)), ..c })
            } else {
                v
            }
        },
        PeerEvent::Created { founder_did, did_ops } => {
            let f = merged_founder(c.founder_did, opt_seq(founder_did));
            let authority = founder_did is Some || f is Some || c.did_ops.len() > 0;
            Some(
                FedView {
                    founder_did: f,
                    did_ops: ins_all(c.did_ops, granted_ops(did_ops@.map_values(|x: String| x@), authority, require_did)),
                    ..c
                },
            )
        },
    }
}

/// Remove every member named `nick`.
fn remove_nick(v: &mut Vec<RemoteEntry>, nick: &str)
    ensures
        entries(final(v)@) == drop_nick(entries(old(v)@), nick@),
{
    let nc = chars_of(nick);
    let mut old_v: Vec<RemoteEntry> = Vec::new();
    std::mem::swap(&mut old_v, v);
    let ghost s = entries(old_v@);
    let mut out: Vec<RemoteEntry> = Vec::new();
    while old_v.len() > 0
        invariant
            nc@ == nick@,
            s == entries(old(v)@),
            s.len() == old(v)@.len(),
            old_v@.len() <= s.len(),
            entries(old_v@) == s.skip(s.len() - old_v@.len()),
            entries(out@) == drop_nick(s.take(s.len() - old_v@.len()), nick@),
        decreases old_v@.len(),
    {
        let ghost k = s.len() - old_v@.len();
        let ghost before = out@;
        let ghost prevv = old_v@;
        let e = old_v.remove(0);
        proof {
            assert(old_v@ =~= prevv.subrange(1, prevv.len() as int));
            assert forall|j: int| 0 <= j < old_v@.len() implies #[trigger] entries(old_v@)[j] == s.skip(k + 1)[j] by {
                assert(entries(old_v@)[j] == entry_view(prevv[j + 1]));
                assert(entries(prevv)[j + 1] == s.skip(k)[j + 1]);
            }
            assert(s.skip(k)[0] == entry_view(e));
            assert(s[k] == entry_view(e));
            assert(s.take(k + 1).drop_last() =~= s.take(k));
            assert(s.take(k + 1).last() == s[k]);
            assert(entries(old_v@) =~= s.skip(k + 1));
        }
        let ec = chars_of(e.nick.as_str());
        if !eq_chars(ec.as_slice(), nc.as_slice()) {
            out.push(e);
            assert(entries(out@) =~= entries(before).push(s[k]));
        }
    }
    assert(s.take(s.len() as int) =~= s);
    *v = out;
}

/// The last member named `nick`, if any.
fn lookup_nick(v: &Vec<RemoteEntry>, nick: &str) -> (r: Option<usize>)
    ensures
        match r {
            Some(i) => i < v@.len() && find_nick(entries(v@), nick@) == Some(entries(v@)[i as int]),
            None => find_nick(entries(v@), nick@) is None,
        },
{
    let nc = chars_of(nick);
    let mut i: usize = v.len();
    let ghost s = entries(v@);
    assert(s.take(i as int) =~= s);
    while i > 0
        invariant
            i <= v@.len(),
            nc@ == nick@,
            s == entries(v@),
            find_nick(s, nick@) == find_nick(s.take(i as int), nick@),
        decreases i,
    {
        let ec = chars_of(v[i - 1].nick.as_str());
        proof {
            assert(s.take(i as int).drop_last() =~= s.take(i - 1));
            assert(s.take(i as int).last() == s[i - 1]);
        }
        if eq_chars(ec.as_slice(), nc.as_slice()) {
            return Some(i - 1);
        }
        i = i - 1;
    }
    assert(s.take(0) =~= Seq::<(Seq<char>, Option<Seq<char>>, bool)>::empty());
    None
}

/// Add each of `xs` in turn, unless already there.
fn add_all(v: &mut Vec<String>, xs: &Vec<String>)
    ensures
        final(v)@.map_values(|s: String| s@) == ins_all(
            old(v)@.map_values(|s: String| s@),
            xs@.map_values(|s: String| s@),
        ),
{
    let ghost s0 = old(v)@.map_values(|s: String| s@);
    let ghost xv = xs@.map_values(|s: String| s@);
    let mut i: usize = 0;
    assert(xv.take(0) =~= Seq::<Seq<char>>::empty());
    assert(string_views(v@) =~= s0);
    while i < xs.len()
        invariant
            i <= xs@.len(),
            xv == xs@.map_values(|s: String| s@),
            string_views(v@) == ins_all(s0, xv.take(i as int)),
        decreases xs@.len() - i,
    {
        assert(xv.take(i + 1).drop_last() =~= xv.take(i as int));
        assert(xv.take(i + 1).last() == xs@[i as int]@);
        list_insert(v, xs[i].as_str());
        i = i + 1;
    }
    assert(xv.take(xs@.len() as int) =~= xv);
    assert(v@.map_values(|s: String| s@) =~= string_views(v@));
}

/// An empty channel entry.
fn new_fed() -> (r: FedChannel)
    ensures
        r@ == empty_fed(),
{
    let r = FedChannel { remote: Vec::new(), founder_did: None, did_ops: Vec::new(), topic: None, topic_locked: false };
    assert(r@.remote =~= Seq::<(Seq<char>, Option<Seq<char>>, bool)>::empty());
    assert(r@.did_ops =~= Seq::<Seq<char>>::empty());
    r
}

/// The view of an optional channel.
pub open spec fn opt_fed(o: Option<FedChannel>) -> Option<FedView> {
    match o {
        Some(c) => Some(c@),
        None => None,
    }
}

/// One peer event on a channel: dropped (the channel unchanged) when it
/// came back from this server or repeats an event id already seen
/// (`already_seen`); otherwise a JOIN adds or replaces the member, a PART
/// removes it, a TOPIC is applied only when the channel is not `+t` or
/// the setter is a known operator or holds DID standing, and a creation
/// keeps an existing founder (adopting the reported one only when it is
/// a DID and there is none).
pub fn s2s_step(
    ch: Option<FedChannel>,
    origin: &str,
    server_id: &str,
    event_id: &str,
    already_seen: bool,
    ev: &PeerEvent,
    require_did: bool,
) -> (r: Option<FedChannel>)
    ensures
        (!(origin@.len() > 0 && origin@ == server_id@) && !(event_id@.len() > 0 && already_seen)) ==> opt_fed(r)
            == peer_event(opt_fed(ch), *ev, require_did),
        !(!(origin@.len() > 0 && origin@ == server_id@) && !(event_id@.len() > 0 && already_seen)) ==> opt_fed(r)
            == opt_fed(ch),
        (ch matches Some(c) && c.founder_did is Some) ==> (opt_fed(r) matches Some(v2) && v2.founder_did == opt_fed(ch)->0.founder_did),
{
    if !s2s_admit(origin, server_id, event_id, already_seen) {
        return ch;
    }
    match ev {
        PeerEvent::Part { nick } => match ch {
            Some(c) => {
                let mut c = c;
                remove_nick(&mut c.remote, nick.as_str());
                Some(c)
            },
            None => None,
        },
        _ => {
            let existed = ch.is_some();
            let mut c = match ch {
                Some(c) => c,
                None => new_fed(),
            };
            match ev {
                PeerEvent::Join { nick, did, is_op } => {
                    remove_nick(&mut c.remote, nick.as_str());
                    let ghost r0 = c.remote@;
                    let d = match did {
                        Some(x) => Some(string_from(x.as_str())),
                        None => None,
                    };
                    c.remote.push(RemoteEntry { nick: string_from(nick.as_str()), did: d, is_op: *is_op });
                    assert(entries(c.remote@) =~= entries(r0).push((nick@, opt_seq(*did), *is_op)));
                    Some(c)
                },
                PeerEvent::Topic { topic, set_by } => {
                    let (known, is_op, authority) = match lookup_nick(&c.remote, set_by.as_str()) {
                        Some(i) => {
                            let founder = match &c.founder_did {
                                Some(f) => Some(f.as_str()),
                                None => None,
                            };
                            let auth = holds_authority(&c.remote[i].did, founder, c.did_ops.as_slice());
                            (true, c.remote[i].is_op, auth)
                        },
                        None => (false, false, false),
                    };
                    if remote_topic_allowed(c.topic_locked, known, is_op, authority) {
                        c.topic = Some((string_from(topic.as_str()), string_from(set_by.as_str())));
                        Some(c)
                    } else {
                        if existed {
                            Some(c)
                        } else {
                            None
                        }
                    }
                },
                PeerEvent::Created { founder_did, did_ops } => {
                    let local = match &c.founder_did {
                        Some(f) => Some(f.as_str()),
                        None => None,
                    };
                    let remote = match founder_did {
                        Some(f) => Some(f.as_str()),
                        None => None,
                    };
                    let merged = merge_founder(local, remote);
                    let local_founder = merged.is_some();
                    c.founder_did = merged;
                    let granted = accepted_ops(
                        did_ops.as_slice(),
                        founder_did.is_some(),
                        local_founder,
                        c.did_ops.len() > 0,
                        require_did,
                    );
                    add_all(&mut c.did_ops, &granted);
                    Some(c)
                },
                PeerEvent::Part { .. } => Some(c),
            }
        },
    }
}

} // verus!
