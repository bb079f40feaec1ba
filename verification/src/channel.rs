//! Per-channel server state: members, DID authority, bans, topic, and
//! the ban matching rules (DID bans and `*`/`?` hostmask wildcards).
use vstd::prelude::*;
use std::collections::{HashMap, HashSet, VecDeque};
use crate::clock::unix_now_secs;
use crate::tags::TagMap;
use crate::text::{
    chars_of, eq_chars, lowercase, starts_with, starts_with_chars, string_of, to_lowercase_chars,
};

verus! {

/// Info about a remote user connected via S2S federation.
#[derive(Debug, Clone, Default)]
pub struct RemoteMember {
    /// Iroh endpoint ID of the origin server.
    pub origin: String,
    /// Authenticated DID (if any).
    pub did: Option<String>,
    /// Resolved AT Protocol handle.
    pub handle: Option<String>,
    /// Whether this user is op on their home server.
    pub is_op: bool,
}

/// A stored message for channel history replay.
#[derive(Debug)]
pub struct HistoryMessage {
    pub from: String,
    pub text: String,
    pub timestamp: u64,
    /// IRCv3 tags from the original message (for rich media replay).
    pub tags: TagMap,
}

/// Maximum number of history messages to keep per channel.
pub const MAX_HISTORY: usize = 100;

/// Pending OAuth authorization: stored between login and callback.
#[derive(Debug, Clone)]
pub struct OAuthPending {
    pub handle: String,
    pub did: String,
    pub pds_url: String,
    pub code_verifier: String,
    pub redirect_uri: String,
    pub client_id: String,
    pub token_endpoint: String,
    pub dpop_key_b64: String,
    pub created_at: u64,
}

/// Completed OAuth: stored after the callback, consumed by the web client.
#[derive(Debug, Clone)]
pub struct OAuthResult {
    pub did: String,
    pub handle: String,
    pub access_jwt: String,
    pub pds_url: String,
}

/// A ban entry — a traditional hostmask or a DID.
#[derive(Debug, Clone)]
pub struct BanEntry {
    pub mask: String,
    pub set_by: String,
    pub set_at: u64,
}

/// `*` matches any run of bytes (including none), `?` any one byte, and
/// any other byte itself.
pub open spec fn wildcard_bytes(p: Seq<u8>, t: Seq<u8>) -> bool
    decreases p.len() + t.len(),
{
    if p.len() == 0 {
        t.len() == 0
    } else if p[0] == 42u8 {
        wildcard_bytes(p.drop_first(), t) || (t.len() > 0 && wildcard_bytes(p, t.drop_first()))
    } else if t.len() == 0 {
        false
    } else if p[0] == 63u8 || p[0] == t[0] {
        wildcard_bytes(p.drop_first(), t.drop_first())
    } else {
        false
    }
}

/// Whether `text` matches `pattern` once both are lowercased: the bytes
/// of their UTF-8 encodings match under [`wildcard_bytes`].
pub open spec fn wildcard_matches(pattern: Seq<char>, text: Seq<char>) -> bool {
    wildcard_bytes(
        vstd::utf8::encode_utf8(lowercase(pattern)),
        vstd::utf8::encode_utf8(lowercase(text)),
    )
}

fn wildcard_match_inner(p: &[u8], pi: usize, t: &[u8], ti: usize) -> (r: bool)
    requires
        pi <= p@.len(),
        ti <= t@.len(),
    ensures
        r == wildcard_bytes(p@.skip(pi as int), t@.skip(ti as int)),
    decreases p@.len() - pi + t@.len() - ti,
{
    let pn = p.len();
    let tn = t.len();
    let ghost ps = p@.skip(pi as int);
    let ghost ts = t@.skip(ti as int);
    proof {
        if pi < pn {
            assert(ps.drop_first() =~= p@.skip(pi + 1));
            assert(ps[0] == p@[pi as int]);
        }
        if ti < tn {
            assert(ts.drop_first() =~= t@.skip(ti + 1));
            assert(ts[0] == t@[ti as int]);
        }
    }
    if pi == pn {
        return ti == tn;
    }
    if p[pi] == 42u8 {
        if wildcard_match_inner(p, pi + 1, t, ti) {
            return true;
        }
        return ti < tn && wildcard_match_inner(p, pi, t, ti + 1);
    }
    if ti == tn {
        return false;
    }
    if p[pi] == 63u8 || p[pi] == t[ti] {
        return wildcard_match_inner(p, pi + 1, t, ti + 1);
    }
    false
}

/// The UTF-8 bytes of the characters `v`.
fn utf8_bytes(v: &[char]) -> (r: Vec<u8>)
    ensures
        r@ == vstd::utf8::encode_utf8(v@),
{
    let s = string_of(v);
    let b = s.as_str().as_bytes();
    let mut out: Vec<u8> = Vec::new();
    let n = b.len();
    let mut i: usize = 0;
    while i < n
        invariant
            n == b@.len(),
            i <= n,
            out@ == b@.take(i as int),
        decreases n - i,
    {
        out.push(b[i]);
        assert(b@.take(i + 1) =~= b@.take(i as int).push(b@[i as int]));
        i = i + 1;
    }
    assert(b@.take(n as int) =~= b@);
    out
}

/// Simple wildcard matching (`*` and `?`), case-insensitive.
pub fn wildcard_match(pattern: &str, text: &str) -> (r: bool)
    ensures
        r == wildcard_matches(pattern@, text@),
{
    let p = to_lowercase_chars(chars_of(pattern).as_slice());
    let t = to_lowercase_chars(chars_of(text).as_slice());
    let pb = utf8_bytes(p.as_slice());
    let tb = utf8_bytes(t.as_slice());
    assert(pb@.skip(0) =~= pb@);
    assert(tb@.skip(0) =~= tb@);
    wildcard_match_inner(pb.as_slice(), 0, tb.as_slice(), 0)
}

/// The view of an optional string slice.
pub open spec fn opt_str_view(o: Option<&str>) -> Option<Seq<char>> {
    match o {
        Some(d) => Some(d@),
        None => None,
    }
}

/// The `did:` prefix of a DID ban.
pub open spec fn did_prefix() -> Seq<char> {
    seq!['d', 'i', 'd', ':']
}

/// Whether a ban with `mask` matches a user with `hostmask` and `did`:
/// a DID ban matches exactly the authenticated DID; a hostmask ban
/// matches by case-insensitive wildcard.
pub open spec fn ban_matches(mask: Seq<char>, hostmask: Seq<char>, did: Option<Seq<char>>) -> bool {
    if starts_with(mask, did_prefix()) {
        did == Some(mask)
    } else {
        wildcard_matches(mask, hostmask)
    }
}

impl BanEntry {
    /// A ban on `mask` set by `set_by` at Unix second `now`.
    pub fn new_at(mask: String, set_by: String, now: u64) -> (r: BanEntry)
        ensures
            r.mask == mask,
            r.set_by == set_by,
            r.set_at == now,
    {
        BanEntry { mask, set_by, set_at: now }
    }

    /// A ban on `mask` set by `set_by`, stamped with the current time (a
    /// reading of the system clock in Unix seconds).
    pub fn new(mask: String, set_by: String) -> (r: BanEntry)
        ensures
            r.mask == mask,
            r.set_by == set_by,
            r.set_at <= u64::MAX / 1000,
    {
        let now = unix_now_secs();
        BanEntry::new_at(mask, set_by, now)
    }

    /// Check if this ban matches a user.
    ///
    /// DID bans (mask starts with `did:`) match the authenticated DID
    /// exactly; hostmask bans match `nick!user@host` by wildcard.
    pub fn matches(&self, hostmask: &str, did: Option<&str>) -> (r: bool)
        ensures
            r == ban_matches(self.mask@, hostmask@, opt_str_view(did)),
    {
        let m = chars_of(self.mask.as_str());
        let pre = vec!['d', 'i', 'd', ':'];
        assert(pre@ =~= did_prefix());
        if starts_with_chars(m.as_slice(), pre.as_slice()) {
            match did {
                Some(d) => {
                    let dc = chars_of(d);
                    eq_chars(dc.as_slice(), m.as_slice())
                },
                None => false,
            }
        } else {
            wildcard_match(self.mask.as_str(), hostmask)
        }
    }
}

/// Channel topic with metadata.
#[derive(Debug, Clone)]
pub struct TopicInfo {
    pub text: String,
    pub set_by: String,
    pub set_at: u64,
}

impl TopicInfo {
    /// A topic `text` set by `set_by` at Unix second `now`.
    pub fn new_at(text: String, set_by: String, now: u64) -> (r: TopicInfo)
        ensures
            r.text == text,
            r.set_by == set_by,
            r.set_at == now,
    {
        TopicInfo { text, set_by, set_at: now }
    }

    /// A topic `text` set by `set_by`, stamped with the current time (a
    /// reading of the system clock in Unix seconds).
    pub fn new(text: String, set_by: String) -> (r: TopicInfo)
        ensures
            r.text == text,
            r.set_by == set_by,
            r.set_at <= u64::MAX / 1000,
    {
        let now = unix_now_secs();
        TopicInfo::new_at(text, set_by, now)
    }
}

/// State for a single channel.
#[derive(Debug, Default)]
pub struct ChannelState {
    /// Session IDs of local members currently in the channel.
    pub members: HashSet<String>,
    /// Remote members from S2S peers: nick → remote member info.
    pub remote_members: HashMap<String, RemoteMember>,
    /// Session IDs of channel operators (ephemeral, per-session).
    pub ops: HashSet<String>,
    /// Session IDs of voiced users.
    pub voiced: HashSet<String>,
    /// Channel founder's DID.
    pub founder_did: Option<String>,
    /// DIDs with persistent operator status.
    pub did_ops: HashSet<String>,
    /// Timestamp (unix secs) when the channel was created.
    pub created_at: u64,
    /// Ban list: hostmasks and/or DIDs.
    pub bans: Vec<BanEntry>,
    /// Invite-only mode (+i).
    pub invite_only: bool,
    /// Invite list (session IDs or DIDs that have been invited).
    pub invites: HashSet<String>,
    /// Recent message history for replay on join.
    pub history: VecDeque<HistoryMessage>,
    /// Channel topic, if set.
    pub topic: Option<TopicInfo>,
    /// +t: only ops can set the topic.
    pub topic_locked: bool,
    /// +n: only members can send.
    pub no_ext_msg: bool,
    /// +m: only voiced users and ops can send.
    pub moderated: bool,
    /// Channel key (+k).
    pub key: Option<String>,
}

impl ChannelState {
    /// Check if a user is banned from this channel: some ban matches.
    pub fn is_banned(&self, hostmask: &str, did: Option<&str>) -> (r: bool)
        ensures
            r == exists|i: int|
                0 <= i < self.bans@.len() && ban_matches(
                    #[trigger] self.bans@[i].mask@,
                    hostmask@,
                    opt_str_view(did),
                ),
    {
        let n = self.bans.len();
        let mut i: usize = 0;
        while i < n
            invariant
                n == self.bans@.len(),
                i <= n,
                forall|j: int|
                    0 <= j < i ==> !ban_matches(
                        #[trigger] self.bans@[j].mask@,
                        hostmask@,
                        opt_str_view(did),
                    ),
            decreases n - i,
        {
            if self.bans[i].matches(hostmask, did) {
                return true;
            }
            i = i + 1;
        }
        false
    }
}

/// A lone `*` pattern matches every text.
pub proof fn law_star_matches_everything(t: Seq<u8>)
    ensures
        wildcard_bytes(seq![42u8], t),
    decreases t.len(),
{
    let star = seq![42u8];
    assert(star.len() == 1 && star[0] == 42u8);
    assert(star.drop_first() =~= Seq::<u8>::empty());
    if t.len() > 0 {
        law_star_matches_everything(t.drop_first());
        assert(wildcard_bytes(star, t.drop_first()));
    } else {
        assert(wildcard_bytes(star.drop_first(), t));
    }
    reveal_with_fuel(wildcard_bytes, 2);
}

/// A pattern without `*` or `?` matches exactly the text equal to it.
pub proof fn law_plain_pattern_matches_only_itself(p: Seq<u8>, t: Seq<u8>)
    requires
        forall|i: int| 0 <= i < p.len() ==> p[i] != 42u8 && p[i] != 63u8,
    ensures
        wildcard_bytes(p, t) <==> p == t,
    decreases p.len() + t.len(),
{
    if p.len() > 0 && t.len() > 0 {
        let p1 = p.drop_first();
        assert forall|i: int| 0 <= i < p1.len() implies p1[i] != 42u8 && p1[i] != 63u8 by {
            assert(p1[i] == p[i + 1]);
        }
        law_plain_pattern_matches_only_itself(p1, t.drop_first());
        if p == t {
            assert(p1 =~= t.drop_first());
        }
        if p[0] == t[0] && p1 == t.drop_first() {
            assert forall|i: int| 0 <= i < p.len() implies p[i] == t[i] by {
                if i > 0 {
                    assert(p[i] == p1[i - 1]);
                    assert(t[i] == t.drop_first()[i - 1]);
                }
            }
            assert(p =~= t);
        }
    } else if p.len() == 0 && t.len() > 0 {
        assert(p != t);
    } else if p.len() > 0 && t.len() == 0 {
        assert(p[0] != 42u8);
        assert(p != t);
    } else {
        assert(p =~= t);
    }
}

} // verus!
