//! A JOIN as one step from the channel's state and the request to the
//! channel's next state and the joiner's refusal, if any: the key, ban
//! and invite checks of an existing channel, the channel's policy, the
//! founder and default modes of a new channel, and who is made operator
//! or voiced.
use vstd::prelude::*;
use crate::channel::{ban_matches, opt_str_view, BanEntry};
use crate::federation::{did_authority, holds_authority};
use crate::modes::{invite_forms, join_invite_forms, opt_seq, role_mode, role_rule, RoleMode};
use crate::queries::Reply;
use crate::text::{chars_of, eq_chars, string_from, string_views};

verus! {

/// `s` with `x` added at the end, unless it is already there.
pub open spec fn ins(s: Seq<Seq<char>>, x: Seq<char>) -> Seq<Seq<char>> {
    if s.contains(x) {
        s
    } else {
        s.push(x)
    }
}

/// After adding `x`, `s` holds it.
pub proof fn lemma_ins_contains(s: Seq<Seq<char>>, x: Seq<char>, y: Seq<char>)
    ensures
        ins(s, x).contains(x),
        s.contains(y) ==> ins(s, x).contains(y),
{
    if !s.contains(x) {
        assert(s.push(x)[s.len() as int] == x);
    }
    if s.contains(y) && !s.contains(x) {
        let i = choose|i: int| 0 <= i < s.len() && s[i] == y;
        assert(s.push(x)[i] == y);
    }
}

/// Adding to a list with no repeats leaves none: the member, operator,
/// voice and DID lists stay sets.
pub proof fn law_ins_keeps_distinct(s: Seq<Seq<char>>, x: Seq<char>)
    requires
        s.no_duplicates(),
    ensures
        ins(s, x).no_duplicates(),
{
    if !s.contains(x) {
        assert forall|a: int, b: int| 0 <= a < b < s.push(x).len() implies s.push(x)[a] != s.push(x)[b] by {
            if b == s.len() {
                assert(s[a] != x);
            }
        }
    }
}

/// Removing keeps a list without repeats without repeats, and leaves
/// no occurrence of what was removed.
pub proof fn law_without_keeps_distinct(s: Seq<Seq<char>>, x: Seq<char>)
    requires
        s.no_duplicates(),
    ensures
        without(s, x).no_duplicates(),
        !without(s, x).contains(x),
        forall|y: Seq<char>| #[trigger] without(s, x).contains(y) ==> s.contains(y),
    decreases s.len(),
{
    if s.len() > 0 {
        let d = s.drop_last();
        assert(d.no_duplicates()) by {
            assert forall|a: int, b: int| 0 <= a < b < d.len() implies d[a] != d[b] by {
                assert(d[a] == s[a] && d[b] == s[b]);
            }
        }
        law_without_keeps_distinct(d, x);
        assert forall|y: Seq<char>| #[trigger] d.contains(y) implies s.contains(y) by {
            let i = choose|i: int| 0 <= i < d.len() && d[i] == y;
            assert(s[i] == y);
        }
        if s.last() != x {
            let w = without(d, x);
            assert(!w.contains(s.last())) by {
                if w.contains(s.last()) {
                    assert(d.contains(s.last()));
                    let i = choose|i: int| 0 <= i < d.len() && d[i] == s.last();
                    assert(s[i] == s[s.len() - 1]);
                }
            }
            assert forall|a: int, b: int| 0 <= a < b < w.push(s.last()).len() implies w.push(s.last())[a] != w.push(s.last())[b] by {
                if b == w.len() {
                    assert(w[a] != s.last()) by {
                        assert(w.contains(w[a]));
                    }
                }
            }
            assert forall|y: Seq<char>| #[trigger] w.push(s.last()).contains(y) implies s.contains(y) by {
                let i = choose|i: int| 0 <= i < w.push(s.last()).len() && w.push(s.last())[i] == y;
                if i < w.len() {
                    assert(w.contains(y));
                } else {
                    assert(s[s.len() - 1] == y);
                }
            }
            assert(!w.push(s.last()).contains(x)) by {
                if w.push(s.last()).contains(x) {
                    let i = choose|i: int| 0 <= i < w.push(s.last()).len() && w.push(s.last())[i] == x;
                    if i < w.len() {
                        assert(w.contains(x));
                    }
                }
            }
        }
    }
}

/// Removing `x` from any list keeps exactly the other elements.
pub proof fn lemma_without_contains(s: Seq<Seq<char>>, x: Seq<char>, y: Seq<char>)
    ensures
        without(s, x).contains(y) <==> (s.contains(y) && y != x),
    decreases s.len(),
{
    if s.len() > 0 {
        let d = s.drop_last();
        lemma_without_contains(d, x, y);
        assert(s =~= d.push(s.last()));
        vstd::seq_lib::lemma_seq_contains_after_push(d, s.last(), y);
        vstd::seq_lib::lemma_seq_contains_after_push(without(d, x), s.last(), y);
    }
}

/// Removing each of `xs` leaves none of them, and nothing that was not
/// there before.
pub proof fn lemma_without_all_contains(s: Seq<Seq<char>>, xs: Seq<Seq<char>>, y: Seq<char>)
    ensures
        without_all(s, xs).contains(y) <==> (s.contains(y) && !xs.contains(y)),
    decreases xs.len(),
{
    if xs.len() > 0 {
        let d = xs.drop_last();
        lemma_without_all_contains(s, d, y);
        lemma_without_contains(without_all(s, d), xs.last(), y);
        assert(xs =~= d.push(xs.last()));
        vstd::seq_lib::lemma_seq_contains_after_push(d, xs.last(), y);
    }
}

/// `s` without any occurrence of `x`, in order.
pub open spec fn without(s: Seq<Seq<char>>, x: Seq<char>) -> Seq<Seq<char>>
    decreases s.len(),
{
    if s.len() == 0 {
        s
    } else if s.last() == x {
        without(s.drop_last(), x)
    } else {
        without(s.drop_last(), x).push(s.last())
    }
}

/// `s` without any of `xs`.
pub open spec fn without_all(s: Seq<Seq<char>>, xs: Seq<Seq<char>>) -> Seq<Seq<char>>
    decreases xs.len(),
{
    if xs.len() == 0 {
        s
    } else {
        without(without_all(s, xs.drop_last()), xs.last())
    }
}

/// What a JOIN reads and changes of a channel.
pub struct JoinChannel {
    /// Local member sessions.
    pub members: Vec<String>,
    /// Operator sessions.
    pub ops: Vec<String>,
    /// Voiced sessions.
    pub voiced: Vec<String>,
    /// The founder's DID.
    pub founder_did: Option<String>,
    /// DIDs with persistent operator status.
    pub did_ops: Vec<String>,
    /// Outstanding invitations (sessions, DIDs, `nick:<nick>`).
    pub invites: Vec<String>,
    /// The ban list.
    pub bans: Vec<BanEntry>,
    /// The key (`+k`).
    pub key: Option<String>,
    /// `+i`.
    pub invite_only: bool,
    /// `+n`.
    pub no_ext_msg: bool,
    /// `+t`.
    pub topic_locked: bool,
    /// When the channel was created, in Unix seconds.
    pub created_at: u64,
    /// Whether a topic is set.
    pub has_topic: bool,
    /// Whether members on peer servers are present.
    pub has_remote_members: bool,
    /// Whether one of those is an operator.
    pub has_remote_op: bool,
}

/// The channel a JOIN sees, as plain values.
pub struct JoinView {
    pub members: Seq<Seq<char>>,
    pub ops: Seq<Seq<char>>,
    pub voiced: Seq<Seq<char>>,
    pub founder_did: Option<Seq<char>>,
    pub did_ops: Seq<Seq<char>>,
    pub invites: Seq<Seq<char>>,
    pub bans: Seq<BanEntry>,
    pub key: Option<Seq<char>>,
    pub invite_only: bool,
    pub no_ext_msg: bool,
    pub topic_locked: bool,
    pub created_at: u64,
    pub has_topic: bool,
    pub has_remote_members: bool,
    pub has_remote_op: bool,
}

impl View for JoinChannel {
    type V = JoinView;

    open spec fn view(&self) -> JoinView {
        JoinView {
            members: string_views(self.members@),
            ops: string_views(self.ops@),
            voiced: string_views(self.voiced@),
            founder_did: opt_seq(self.founder_did),
            did_ops: string_views(self.did_ops@),
            invites: string_views(self.invites@),
            bans: self.bans@,
            key: opt_seq(self.key),
            invite_only: self.invite_only,
            no_ext_msg: self.no_ext_msg,
            topic_locked: self.topic_locked,
            created_at: self.created_at,
            has_topic: self.has_topic,
            has_remote_members: self.has_remote_members,
            has_remote_op: self.has_remote_op,
        }
    }
}

/// A channel entry with nothing in it.
pub open spec fn empty_channel() -> JoinView {
    JoinView {
        members: Seq::empty(),
        ops: Seq::empty(),
        voiced: Seq::empty(),
        founder_did: None,
        did_ops: Seq::empty(),
        invites: Seq::empty(),
        bans: Seq::empty(),
        key: None,
        invite_only: false,
        no_ext_msg: false,
        topic_locked: false,
        created_at: 0,
        has_topic: false,
        has_remote_members: false,
        has_remote_op: false,
    }
}

/// What the channel's policy says of the joiner, as the policy engine
/// answered.
pub enum PolicyAnswer {
    /// The channel has no policy.
    NoPolicy,
    /// The joiner holds an attestation with this role.
    Member(String),
    /// The joiner holds no attestation.
    NotMember,
    /// The engine failed; the join goes ahead.
    EngineFailed,
}

/// A JOIN request.
pub struct JoinRequest {
    pub channel: String,
    pub session_id: String,
    pub nick: String,
    pub did: Option<String>,
    pub hostmask: String,
    pub key: Option<String>,
}

/// What a JOIN leaves: the channel (none when it did not exist and the
/// join was refused), the refusal sent to the joiner, whether the channel
/// was created, and whether the joiner is an operator.
pub struct JoinResult {
    pub channel: Option<JoinChannel>,
    pub refusal: Option<Reply>,
    pub is_new: bool,
    pub is_op: bool,
}

/// Whether a JOIN creates the channel: there is no entry, or it holds
/// nobody (here or on peers), no founder, no topic and no operators.
pub open spec fn is_new_channel(ch: Option<JoinView>) -> bool {
    match ch {
        None => true,
        Some(v) => v.members.len() == 0 && !v.has_remote_members && v.founder_did is None && !v.has_topic
            && v.ops.len() == 0,
    }
}

/// Whether a ban of the channel matches the joiner.
pub open spec fn banned_in(v: JoinView, hostmask: Seq<char>, did: Option<Seq<char>>) -> bool {
    exists|i: int| 0 <= i < v.bans.len() && ban_matches(#[trigger] v.bans[i].mask@, hostmask, did)
}

/// Whether the joiner holds an invitation in one of its forms.
pub open spec fn invited(v: JoinView, session: Seq<char>, did: Option<Seq<char>>, nick: Seq<char>) -> bool {
    v.invites.contains(session) || (did matches Some(d) && v.invites.contains(d)) || v.invites.contains(
        "nick:"@ + nick,
    )
}

/// The refusal an existing channel gives: the numeric and its text.
pub open spec fn channel_refusal(v: JoinView, key: Option<Seq<char>>, session: Seq<char>, did: Option<Seq<char>>, nick: Seq<char>, hostmask: Seq<char>) -> Option<(Seq<char>, Seq<char>)> {
    if v.key is Some && key != v.key {
        Some(("475"@, "Cannot join channel (+k)"@))
    } else if banned_in(v, hostmask, did) {
        Some(("474"@, "Cannot join channel (+b)"@))
    } else if v.invite_only && !invited(v, session, did, nick) {
        Some(("473"@, "Cannot join channel (+i)"@))
    } else {
        None
    }
}

/// An invitation to a user's DID lets that user into an invite-only
/// channel: with the channel's key given (or none set) and no ban
/// matching, a joiner signed in as `d` whose DID the channel invited is
/// not refused, and joining uses that invitation up.
pub proof fn law_did_invite_admits(
    v: JoinView,
    key: Option<Seq<char>>,
    session: Seq<char>,
    d: Seq<char>,
    nick: Seq<char>,
    hostmask: Seq<char>,
)
    requires
        v.key is None || key == v.key,
        !banned_in(v, hostmask, Some(d)),
        v.invites.contains(d),
    ensures
        channel_refusal(v, key, session, Some(d), nick, hostmask) is None,
        v.invite_only ==> !invites_used(v, session, Some(d), nick).invites.contains(d),
{
    if v.invite_only {
        let forms = invite_forms(session, Some(d), nick);
        assert(forms[1] == d);
        lemma_without_all_contains(v.invites, forms, d);
    }
}

/// The refusal the channel's policy gives.
pub open spec fn policy_refusal(did: Option<Seq<char>>, policy: PolicyAnswer) -> Option<(Seq<char>, Seq<char>)> {
    match policy {
        PolicyAnswer::NoPolicy => None,
        _ => if did is None {
            Some(("477"@, "This channel requires authentication — sign in to join"@))
        } else if policy is NotMember {
            Some(("477"@, "This channel requires policy acceptance — use POLICY <channel> ACCEPT"@))
        } else {
            None
        },
    }
}

/// The channel after an invite-only channel uses up the joiner's
/// invitations.
pub open spec fn invites_used(v: JoinView, session: Seq<char>, did: Option<Seq<char>>, nick: Seq<char>) -> JoinView {
    if v.invite_only {
        JoinView { invites: without_all(v.invites, invite_forms(session, did, nick)), ..v }
    } else {
        v
    }
}

/// The channel once the joiner is in: a member; in a new channel the
/// founder (with a DID), an operator, `+nt` and the creation time; in an
/// existing one an operator when its DID holds standing or it is alone
/// in a channel with no operators anywhere; then what its policy role
/// brings.
pub open spec fn joined(v: JoinView, is_new: bool, session: Seq<char>, did: Option<Seq<char>>, role: Option<Seq<char>>, now: u64) -> JoinView {
    let m = JoinView { members: ins(v.members, session), ..v };
    let base = if is_new {
        JoinView {
            created_at: now,
            founder_did: if did is Some { did } else { m.founder_did },
            did_ops: match did {
                Some(d) => ins(m.did_ops, d),
                None => m.did_ops,
            },
            ops: ins(m.ops, session),
            no_ext_msg: true,
            topic_locked: true,
            ..m
        }
    } else {
        let should_op = did_authority(did, m.founder_did, m.did_ops);
        let any_ops = m.ops.len() > 0 || m.has_remote_op;
        let alone = m.members.len() == 1 && !m.has_remote_members && !any_ops;
        if should_op || alone {
            JoinView { ops: ins(m.ops, session), ..m }
        } else {
            m
        }
    };
    match role {
        Some(r) => if role_rule(r) is Op {
            JoinView {
                ops: ins(base.ops, session),
                did_ops: match did {
                    Some(d) => ins(base.did_ops, d),
                    None => base.did_ops,
                },
                ..base
            }
        } else if role_rule(r) is Voice {
            JoinView { voiced: ins(base.voiced, session), ..base }
        } else {
            base
        },
        None => base,
    }
}

/// The role a policy answer brings.
pub open spec fn policy_role(policy: PolicyAnswer) -> Option<Seq<char>> {
    match policy {
        PolicyAnswer::Member(r) => Some(r@),
        _ => None,
    }
}

/// The view of a refusal reply to `nick` for `channel`.
pub open spec fn refusal_view(nick: Seq<char>, channel: Seq<char>, refusal: (Seq<char>, Seq<char>)) -> (Seq<char>, Seq<Seq<char>>) {
    (refusal.0, seq![nick, channel, refusal.1])
}

/// The view of an optional reply.
pub open spec fn opt_reply(o: Option<Reply>) -> Option<(Seq<char>, Seq<Seq<char>>)> {
    match o {
        Some(r) => Some(r@),
        None => None,
    }
}

/// The view of an optional channel.
pub open spec fn opt_channel(o: Option<JoinChannel>) -> Option<JoinView> {
    match o {
        Some(c) => Some(c@),
        None => None,
    }
}

/// Whether `s` holds `x`.
pub(crate) fn list_has(v: &Vec<String>, x: &str) -> (r: bool)
    ensures
        r == string_views(v@).contains(x@),
{
    let xc = chars_of(x);
    let mut i: usize = 0;
    while i < v.len()
        invariant
            i <= v@.len(),
            xc@ == x@,
            forall|j: int| 0 <= j < i ==> string_views(v@)[j] != x@,
        decreases v@.len() - i,
    {
        let c = chars_of(v[i].as_str());
        if eq_chars(c.as_slice(), xc.as_slice()) {
            assert(string_views(v@)[i as int] == x@);
            return true;
        }
        i = i + 1;
    }
    false
}

/// Add `x` unless it is already there.
pub(crate) fn list_insert(v: &mut Vec<String>, x: &str)
    ensures
        string_views(final(v)@) == ins(string_views(old(v)@), x@),
{
    if !list_has(v, x) {
        v.push(string_from(x));
        assert(string_views(v@) =~= string_views(old(v)@).push(x@));
    }
}

/// Remove every occurrence of `x`.
pub(crate) fn list_remove(v: &mut Vec<String>, x: &str)
    ensures
        string_views(final(v)@) == without(string_views(old(v)@), x@),
{
    let xc = chars_of(x);
    let ghost s = string_views(v@);
    let mut out: Vec<String> = Vec::new();
    let mut i: usize = 0;
    while i < v.len()
        invariant
            i <= v@.len(),
            xc@ == x@,
            s == string_views(v@),
            string_views(out@) == without(s.take(i as int), x@),
        decreases v@.len() - i,
    {
        assert(s.take(i + 1).drop_last() =~= s.take(i as int));
        let c = chars_of(v[i].as_str());
        if !eq_chars(c.as_slice(), xc.as_slice()) {
            out.push(string_from(v[i].as_str()));
            assert(string_views(out@) =~= without(s.take(i as int), x@).push(s[i as int]));
        }
        i = i + 1;
    }
    assert(s.take(v@.len() as int) =~= s);
    *v = out;
}

/// Remove every one of `xs`.
fn list_remove_all(v: &mut Vec<String>, xs: &Vec<String>)
    ensures
        string_views(final(v)@) == without_all(string_views(old(v)@), string_views(xs@)),
{
    let ghost s0 = string_views(v@);
    let mut i: usize = 0;
    while i < xs.len()
        invariant
            i <= xs@.len(),
            string_views(v@) == without_all(s0, string_views(xs@).take(i as int)),
        decreases xs@.len() - i,
    {
        assert(string_views(xs@).take(i + 1).drop_last() =~= string_views(xs@).take(i as int));
        list_remove(v, xs[i].as_str());
        i = i + 1;
    }
    assert(string_views(xs@).take(xs@.len() as int) =~= string_views(xs@));
}

/// Whether a ban of `bans` matches the joiner.
fn any_ban(bans: &Vec<BanEntry>, hostmask: &str, did: Option<&str>) -> (r: bool)
    ensures
        r == exists|i: int| 0 <= i < bans@.len() && ban_matches(#[trigger] bans@[i].mask@, hostmask@, opt_str_view(did)),
{
    let mut i: usize = 0;
    while i < bans.len()
        invariant
            i <= bans@.len(),
            forall|j: int| 0 <= j < i ==> !ban_matches(#[trigger] bans@[j].mask@, hostmask@, opt_str_view(did)),
        decreases bans@.len() - i,
    {
        if bans[i].matches(hostmask, did) {
            return true;
        }
        i = i + 1;
    }
    false
}

/// The `Option<&str>` of an optional string.
fn as_opt_str(o: &Option<String>) -> (r: Option<&str>)
    ensures
        opt_str_view(r) == opt_seq(*o),
{
    match o {
        Some(s) => Some(s.as_str()),
        None => None,
    }
}

/// Whether two optional texts are equal.
fn same_opt(a: &Option<String>, b: &Option<String>) -> (r: bool)
    ensures
        r == (opt_seq(*a) == opt_seq(*b)),
{
    match (a, b) {
        (Some(x), Some(y)) => {
            let xc = chars_of(x.as_str());
            let yc = chars_of(y.as_str());
            eq_chars(xc.as_slice(), yc.as_slice())
        },
        (None, None) => true,
        _ => false,
    }
}

/// The refusal reply to `req`.
fn refusal_reply(req: &JoinRequest, numeric: &str, text: &str) -> (r: Reply)
    ensures
        r@ == refusal_view(req.nick@, req.channel@, (numeric@, text@)),
{
    let mut params: Vec<String> = Vec::new();
    params.push(string_from(req.nick.as_str()));
    params.push(string_from(req.channel.as_str()));
    params.push(string_from(text));
    let r = Reply { command: string_from(numeric), params };
    assert(r@.1 =~= seq![req.nick@, req.channel@, text@]);
    r
}

/// A channel entry with nothing in it.
fn new_entry() -> (r: JoinChannel)
    ensures
        r@ == empty_channel(),
{
    let r = JoinChannel {
        members: Vec::new(),
        ops: Vec::new(),
        voiced: Vec::new(),
        founder_did: None,
        did_ops: Vec::new(),
        invites: Vec::new(),
        bans: Vec::new(),
        key: None,
        invite_only: false,
        no_ext_msg: false,
        topic_locked: false,
        created_at: 0,
        has_topic: false,
        has_remote_members: false,
        has_remote_op: false,
    };
    assert(r@.members =~= Seq::<Seq<char>>::empty());
    assert(r@.ops =~= Seq::<Seq<char>>::empty());
    assert(r@.voiced =~= Seq::<Seq<char>>::empty());
    assert(r@.did_ops =~= Seq::<Seq<char>>::empty());
    assert(r@.invites =~= Seq::<Seq<char>>::empty());
    r
}

/// The whole JOIN step: the channel as it is (if it exists), the request,
/// the policy engine's answer and the current Unix second give the
/// channel afterwards and the refusal, if any.
#[verifier::rlimit(50)]
#[verifier::spinoff_prover]
pub fn join_step(ch: Option<JoinChannel>, req: &JoinRequest, policy: &PolicyAnswer, now: u64) -> (r: JoinResult)
    ensures
        ({
            let v0 = opt_channel(ch);
            let did = opt_seq(req.did);
            let new = is_new_channel(v0);
            let pre = if new {
                None
            } else {
                channel_refusal(v0->0, opt_seq(req.key), req.session_id@, did, req.nick@, req.hostmask@)
            };
            let v1 = if new {
                v0
            } else {
                Some(invites_used(v0->0, req.session_id@, did, req.nick@))
            };
            &&& r.is_new == new
            &&& match pre {
                Some(refusal) => opt_reply(r.refusal) == Some(refusal_view(req.nick@, req.channel@, refusal))
                    && opt_channel(r.channel) == v0 && !r.is_op,
                None => match policy_refusal(did, *policy) {
                    Some(refusal) => opt_reply(r.refusal) == Some(refusal_view(req.nick@, req.channel@, refusal))
                        && opt_channel(r.channel) == v1 && !r.is_op,
                    None => {
                        let after = joined(
                            match v1 {
                                Some(v) => v,
                                None => empty_channel(),
                            },
                            new,
                            req.session_id@,
                            did,
                            policy_role(*policy),
                            now,
                        );
                        &&& r.refusal is None
                        &&& opt_channel(r.channel) == Some(after)
                        &&& r.is_op == after.ops.contains(req.session_id@)
                    },
                },
            }
        }),
        r.refusal is Some ==> !r.is_op && match (ch, r.channel) {
            (Some(a), Some(b)) => b@.members == a@.members && b@.ops == a@.ops,
            (None, None) => true,
            _ => false,
        },
        r.refusal is None ==> (r.channel matches Some(c) && c@.members.contains(req.session_id@)),
        r.refusal is None && r.is_new ==> r.is_op,
        (ch matches Some(c0) && req.did is Some && !is_new_channel(Some(c0@)) && c0@.key is None
            && c0@.invites.contains(req.did->0@) && !banned_in(c0@, req.hostmask@, Some(req.did->0@))
            && *policy is NoPolicy) ==> (r.channel matches Some(c1) && r.refusal is None
            && c1@.members.contains(req.session_id@) && (ch->0.invite_only ==> !c1@.invites.contains(
            req.did->0@,
        ))),
{
    proof {
        if ch is Some && req.did is Some {
            let c0 = ch->0;
            let d = req.did->0;
            if c0@.key is None && c0@.invites.contains(d@) && !banned_in(c0@, req.hostmask@, Some(d@)) {
                law_did_invite_admits(c0@, opt_seq(req.key), req.session_id@, d@, req.nick@, req.hostmask@);
            }
        }
    }
    let new = match &ch {
        None => true,
        Some(c) => c.members.len() == 0 && !c.has_remote_members && c.founder_did.is_none() && !c.has_topic
            && c.ops.len() == 0,
    };
    let did = as_opt_str(&req.did);
    let mut ch = ch;
    if !new {
        let mut c = match ch {
            Some(c) => c,
            None => new_entry(),
        };
        let ghost cv = c@;
        let key_bad = match &c.key {
            Some(_) => !same_opt(&req.key, &c.key),
            None => false,
        };
        if key_bad {
            let r = refusal_reply(req, "475", "Cannot join channel (+k)");
            return JoinResult { channel: Some(c), refusal: Some(r), is_new: false, is_op: false };
        }
        if any_ban(&c.bans, req.hostmask.as_str(), did) {
            let r = refusal_reply(req, "474", "Cannot join channel (+b)");
            return JoinResult { channel: Some(c), refusal: Some(r), is_new: false, is_op: false };
        }
        if c.invite_only {
            let forms = join_invite_forms(req.session_id.as_str(), did, req.nick.as_str());
            let mut nick_form = string_from("nick:");
            crate::text::push_str(&mut nick_form, req.nick.as_str());
            let has_invite = list_has(&c.invites, req.session_id.as_str()) || (match did {
                Some(d) => list_has(&c.invites, d),
                None => false,
            }) || list_has(&c.invites, nick_form.as_str());
            if !has_invite {
                let r = refusal_reply(req, "473", "Cannot join channel (+i)");
                return JoinResult { channel: Some(c), refusal: Some(r), is_new: false, is_op: false };
            }
            list_remove_all(&mut c.invites, &forms);
        }
        ch = Some(c);
    }
    let role: Option<&str> = match policy {
        PolicyAnswer::NoPolicy => None,
        PolicyAnswer::Member(r) => {
            if did.is_none() {
                let r = refusal_reply(req, "477", "This channel requires authentication — sign in to join");
                return JoinResult { channel: ch, refusal: Some(r), is_new: new, is_op: false };
            }
            Some(r.as_str())
        },
        PolicyAnswer::NotMember => {
            let r = if did.is_none() {
                refusal_reply(req, "477", "This channel requires authentication — sign in to join")
            } else {
                refusal_reply(req, "477", "This channel requires policy acceptance — use POLICY <channel> ACCEPT")
            };
            return JoinResult { channel: ch, refusal: Some(r), is_new: new, is_op: false };
        },
        PolicyAnswer::EngineFailed => {
            if did.is_none() {
                let r = refusal_reply(req, "477", "This channel requires authentication — sign in to join");
                return JoinResult { channel: ch, refusal: Some(r), is_new: new, is_op: false };
            }
            None
        },
    };
    let mut c = match ch {
        Some(c) => c,
        None => new_entry(),
    };
    let sid = req.session_id.as_str();
    let ghost m0 = c@.members;
    list_insert(&mut c.members, sid);
    proof {
        lemma_ins_contains(m0, sid@, sid@);
    }
    if new {
        c.created_at = now;
        match did {
            Some(d) => {
                c.founder_did = Some(string_from(d));
                list_insert(&mut c.did_ops, d);
            },
            None => {},
        }
        let ghost o0 = c@.ops;
        list_insert(&mut c.ops, sid);
        proof {
            lemma_ins_contains(o0, sid@, sid@);
        }
        c.no_ext_msg = true;
        c.topic_locked = true;
    } else {
        let should_op = holds_authority(&req.did, as_opt_str(&c.founder_did), c.did_ops.as_slice());
        let any_ops = c.ops.len() > 0 || c.has_remote_op;
        let alone = c.members.len() == 1 && !c.has_remote_members && !any_ops;
        if should_op || alone {
            list_insert(&mut c.ops, sid);
        }
    }
    match role {
        Some(r) => match role_mode(r) {
            RoleMode::Op => {
                let ghost o1 = c@.ops;
                list_insert(&mut c.ops, sid);
                proof {
                    lemma_ins_contains(o1, sid@, sid@);
                }
                match did {
                    Some(d) => list_insert(&mut c.did_ops, d),
                    None => {},
                }
            },
            RoleMode::Voice => list_insert(&mut c.voiced, sid),
            RoleMode::Member => {},
        },
        None => {},
    }
    let is_op = list_has(&c.ops, sid);
    JoinResult { channel: Some(c), refusal: None, is_new: new, is_op }
}

} // verus!
