//! Channel rules a server applies for its members: the channel-mode query
//! string, the steps a MODE command takes, flag and key changes, who may
//! send to a channel, who may join it, and the bounded message history.
use vstd::prelude::*;
use crate::channel::{BanEntry, ChannelState, HistoryMessage, MAX_HISTORY};
use crate::text::{chars_of, eq_chars, push_char, push_str, same_text, string_from};

verus! {

/// The channel-mode reply text: `+` then `n`, `t`, `i`, `m`, `k` for each
/// mode set, in that order.
pub open spec fn mode_text(no_ext_msg: bool, topic_locked: bool, invite_only: bool, moderated: bool, has_key: bool) -> Seq<char> {
    seq!['+'] + (if no_ext_msg {
        seq!['n']
    } else {
        Seq::empty()
    }) + (if topic_locked {
        seq!['t']
    } else {
        Seq::empty()
    }) + (if invite_only {
        seq!['i']
    } else {
        Seq::empty()
    }) + (if moderated {
        seq!['m']
    } else {
        Seq::empty()
    }) + (if has_key {
        seq!['k']
    } else {
        Seq::empty()
    })
}

/// The modes set on `ch`, as a MODE query reports them.
pub fn channel_modes(ch: &ChannelState) -> (r: String)
    ensures
        r@ == mode_text(ch.no_ext_msg, ch.topic_locked, ch.invite_only, ch.moderated, ch.key is Some),
{
    let mut m = string_from("+");
    proof {
        reveal_strlit("+");
    }
    let ghost start = m@;
    if ch.no_ext_msg {
        push_char(&mut m, 'n');
    }
    let ghost a = m@;
    if ch.topic_locked {
        push_char(&mut m, 't');
    }
    let ghost b = m@;
    if ch.invite_only {
        push_char(&mut m, 'i');
    }
    let ghost c = m@;
    if ch.moderated {
        push_char(&mut m, 'm');
    }
    let ghost d = m@;
    if ch.key.is_some() {
        push_char(&mut m, 'k');
    }
    assert(m@ =~= mode_text(ch.no_ext_msg, ch.topic_locked, ch.invite_only, ch.moderated, ch.key is Some));
    m
}

/// One step of a MODE command on a channel.
#[derive(Debug, Clone, Copy, PartialEq, Eq, Structural)]
pub enum ModeStep {
    /// `+o`/`-o` (`voice` false) or `+v`/`-v` (`voice` true) on the
    /// argument's nick.
    Member { adding: bool, voice: bool },
    /// `+b` with no argument: list the bans (and stop).
    ListBans,
    /// `+b` on the argument's mask.
    AddBan,
    /// `-b` on the argument's mask.
    RemoveBan,
    /// `+i` / `-i`.
    InviteOnly(bool),
    /// `+t` / `-t`.
    TopicLock(bool),
    /// `+n` / `-n`.
    NoExternal(bool),
    /// `+m` / `-m`.
    Moderated(bool),
    /// `+k` on the argument as key.
    SetKey,
    /// `-k`.
    ClearKey,
    /// A change that needs an argument had none (and stop).
    NeedMoreParams,
    /// A mode character the server does not know.
    Unknown(char),
}

/// The step for mode character `c` (neither `+` nor `-`), or `None` for
/// `-b` without an argument, which ends the command silently.
pub open spec fn step_for(c: char, adding: bool, has_arg: bool) -> Option<ModeStep> {
    if c == 'o' || c == 'v' {
        if has_arg {
            Some(ModeStep::Member { adding, voice: c == 'v' })
        } else {
            Some(ModeStep::NeedMoreParams)
        }
    } else if c == 'b' {
        if !has_arg {
            if adding {
                Some(ModeStep::ListBans)
            } else {
                None
            }
        } else if adding {
            Some(ModeStep::AddBan)
        } else {
            Some(ModeStep::RemoveBan)
        }
    } else if c == 'i' {
        Some(ModeStep::InviteOnly(adding))
    } else if c == 't' {
        Some(ModeStep::TopicLock(adding))
    } else if c == 'k' {
        if !adding {
            Some(ModeStep::ClearKey)
        } else if has_arg {
            Some(ModeStep::SetKey)
        } else {
            Some(ModeStep::NeedMoreParams)
        }
    } else if c == 'n' {
        Some(ModeStep::NoExternal(adding))
    } else if c == 'm' {
        Some(ModeStep::Moderated(adding))
    } else {
        Some(ModeStep::Unknown(c))
    }
}

/// Whether a step ends the command.
pub open spec fn ends_command(s: Option<ModeStep>) -> bool {
    match s {
        None => true,
        Some(ModeStep::ListBans) => true,
        Some(ModeStep::NeedMoreParams) => true,
        _ => false,
    }
}

/// The steps of mode string `cs` (read left to right, `+` and `-`
/// switching between adding and removing, starting with adding), given
/// whether the command has an argument.
pub open spec fn mode_plan(cs: Seq<char>, adding: bool, has_arg: bool) -> Seq<ModeStep>
    decreases cs.len(),
{
    if cs.len() == 0 {
        Seq::empty()
    } else if cs[0] == '+' {
        mode_plan(cs.drop_first(), true, has_arg)
    } else if cs[0] == '-' {
        mode_plan(cs.drop_first(), false, has_arg)
    } else {
        let s = step_for(cs[0], adding, has_arg);
        match s {
            None => Seq::empty(),
            Some(st) => if ends_command(s) {
                seq![st]
            } else {
                seq![st] + mode_plan(cs.drop_first(), adding, has_arg)
            },
        }
    }
}

/// The step for mode character `c`.
fn mode_step(c: char, adding: bool, has_arg: bool) -> (r: Option<ModeStep>)
    ensures
        r == step_for(c, adding, has_arg),
{
    if c == 'o' || c == 'v' {
        if has_arg {
            Some(ModeStep::Member { adding, voice: c == 'v' })
        } else {
            Some(ModeStep::NeedMoreParams)
        }
    } else if c == 'b' {
        if !has_arg {
            if adding {
                Some(ModeStep::ListBans)
            } else {
                None
            }
        } else if adding {
            Some(ModeStep::AddBan)
        } else {
            Some(ModeStep::RemoveBan)
        }
    } else if c == 'i' {
        Some(ModeStep::InviteOnly(adding))
    } else if c == 't' {
        Some(ModeStep::TopicLock(adding))
    } else if c == 'k' {
        if !adding {
            Some(ModeStep::ClearKey)
        } else if has_arg {
            Some(ModeStep::SetKey)
        } else {
            Some(ModeStep::NeedMoreParams)
        }
    } else if c == 'n' {
        Some(ModeStep::NoExternal(adding))
    } else if c == 'm' {
        Some(ModeStep::Moderated(adding))
    } else {
        Some(ModeStep::Unknown(c))
    }
}

/// The steps a MODE command with mode string `mode_str` takes, in
/// order; `has_arg` says whether it came with an argument.
pub fn plan_mode(mode_str: &str, has_arg: bool) -> (r: Vec<ModeStep>)
    ensures
        r@ == mode_plan(mode_str@, true, has_arg),
{
    let cs = chars_of(mode_str);
    let n = cs.len();
    let mut out: Vec<ModeStep> = Vec::new();
    let mut adding = true;
    let mut i: usize = 0;
    assert(cs@.skip(0) =~= cs@);
    while i < n
        invariant_except_break
            n == cs@.len(),
            i <= n,
            mode_plan(mode_str@, true, has_arg) == out@ + mode_plan(cs@.skip(i as int), adding, has_arg),
        ensures
            mode_plan(mode_str@, true, has_arg) == out@,
        decreases n - i,
    {
        let c = cs[i];
        proof {
            assert(cs@.skip(i as int).drop_first() =~= cs@.skip(i + 1));
            assert(cs@.skip(i as int)[0] == c);
        }
        if c == '+' {
            adding = true;
        } else if c == '-' {
            adding = false;
        } else {
            let s = mode_step(c, adding, has_arg);
            match s {
                None => {
                    assert(out@ + Seq::<ModeStep>::empty() =~= out@);
                    break;
                },
                Some(st) => {
                    let ghost before = out@;
                    out.push(st);
                    if matches!(st, ModeStep::ListBans | ModeStep::NeedMoreParams) {
                        assert(before + seq![st] =~= out@);
                        break;
                    }
                    assert(before + (seq![st] + mode_plan(cs@.skip(i + 1), adding, has_arg)) =~= out@
                        + mode_plan(cs@.skip(i + 1), adding, has_arg));
                },
            }
        }
        i = i + 1;
    }
    proof {
        if i == n {
            assert(cs@.skip(n as int) =~= Seq::<char>::empty());
            assert(out@ + Seq::<ModeStep>::empty() =~= out@);
        }
    }
    out
}

impl ChannelState {
    /// Apply a flag or key step (`+i`, `-i`, `+t`, `-t`, `+n`, `-n`, `+m`,
    /// `-m`, `+k` with `arg`, `-k`); other steps leave the channel as it
    /// is. Turning invite-only off forgets all invites. Returns the key a
    /// `-k` removed, if there was one.
    pub fn apply_flag_step(&mut self, step: ModeStep, arg: &str) -> (r: Option<String>)
        ensures
            final(self).invite_only == (match step {
                ModeStep::InviteOnly(on) => on,
                _ => old(self).invite_only,
            }),
            final(self).topic_locked == (match step {
                ModeStep::TopicLock(on) => on,
                _ => old(self).topic_locked,
            }),
            final(self).no_ext_msg == (match step {
                ModeStep::NoExternal(on) => on,
                _ => old(self).no_ext_msg,
            }),
            final(self).moderated == (match step {
                ModeStep::Moderated(on) => on,
                _ => old(self).moderated,
            }),
            opt_seq(final(self).key) == (match step {
                ModeStep::SetKey => Some(arg@),
                ModeStep::ClearKey => None,
                _ => opt_seq(old(self).key),
            }),
            step == ModeStep::InviteOnly(false) ==> final(self).invites@ == Set::<String>::empty(),
            step != ModeStep::InviteOnly(false) ==> final(self).invites == old(self).invites,
            r == (if step == ModeStep::ClearKey {
                old(self).key
            } else {
                None
            }),
            final(self).members == old(self).members,
            final(self).ops == old(self).ops,
            final(self).voiced == old(self).voiced,
            final(self).bans == old(self).bans,
            final(self).did_ops == old(self).did_ops,
            final(self).founder_did == old(self).founder_did,
    {
        match step {
            ModeStep::InviteOnly(on) => {
                self.invite_only = on;
                if !on {
                    self.invites.clear();
                }
                None
            },
            ModeStep::TopicLock(on) => {
                self.topic_locked = on;
                None
            },
            ModeStep::NoExternal(on) => {
                self.no_ext_msg = on;
                None
            },
            ModeStep::Moderated(on) => {
                self.moderated = on;
                None
            },
            ModeStep::SetKey => {
                self.key = Some(string_from(arg));
                None
            },
            ModeStep::ClearKey => self.key.take(),
            _ => None,
        }
    }

    /// Record a message in the channel history, keeping at most
    /// [`MAX_HISTORY`] of the newest messages.
    pub fn record_history(&mut self, msg: HistoryMessage)
        requires
            old(self).history@.len() <= MAX_HISTORY,
        ensures
            final(self).history@.len() <= MAX_HISTORY,
            final(self).history@ == (if old(self).history@.len() < MAX_HISTORY {
                old(self).history@.push(msg)
            } else {
                old(self).history@.push(msg).skip(1)
            }),
    {
        self.history.push_back(msg);
        let ghost pushed = self.history@;
        let ghost mut k: int = 0;
        while self.history.len() > MAX_HISTORY
            invariant
                0 <= k <= 1,
                pushed.len() <= MAX_HISTORY + 1,
                self.history@ == pushed.skip(k),
                self.history@.len() == pushed.len() - k,
                k == 1 ==> pushed.len() > MAX_HISTORY,
            decreases self.history@.len(),
        {
            let ghost before = self.history@;
            self.history.pop_front();
            proof {
                assert(self.history@ =~= pushed.skip(k + 1));
                k = k + 1;
            }
        }
        assert(pushed.skip(0) =~= pushed);
    }
}

/// The view of an optional string.
pub open spec fn opt_seq(o: Option<String>) -> Option<Seq<char>> {
    match o {
        Some(s) => Some(s@),
        None => None,
    }
}

/// Why a message to a channel is refused.
#[derive(Debug, Clone, Copy, PartialEq, Eq, Structural)]
pub enum SendRefusal {
    /// `+n` and the sender is not a member.
    NoExternal,
    /// `+m` and the sender is neither op nor voiced.
    Moderated,
}

/// Whether a local user may send to a channel: refused by `+n` when not
/// a member, then by `+m` when neither op nor voiced.
pub open spec fn send_rule(no_ext_msg: bool, moderated: bool, is_member: bool, is_op: bool, is_voiced: bool) -> Option<SendRefusal> {
    if no_ext_msg && !is_member {
        Some(SendRefusal::NoExternal)
    } else if moderated && !is_op && !is_voiced {
        Some(SendRefusal::Moderated)
    } else {
        None
    }
}

/// Check a local user's message to a channel with modes `+n`
/// (`no_ext_msg`) and `+m` (`moderated`).
pub fn check_send(no_ext_msg: bool, moderated: bool, is_member: bool, is_op: bool, is_voiced: bool) -> (r: Option<SendRefusal>)
    ensures
        r == send_rule(no_ext_msg, moderated, is_member, is_op, is_voiced),
{
    if no_ext_msg && !is_member {
        Some(SendRefusal::NoExternal)
    } else if moderated && !is_op && !is_voiced {
        Some(SendRefusal::Moderated)
    } else {
        None
    }
}

/// Whether a message relayed from a peer server is delivered: under
/// `+n` only from a member, under `+m` only from a remote op.
pub open spec fn relay_rule(no_ext_msg: bool, moderated: bool, is_member: bool, is_remote_op: bool) -> bool {
    (!no_ext_msg || is_member) && (!moderated || is_remote_op)
}

/// Check a message relayed from a peer server.
pub fn check_relay(no_ext_msg: bool, moderated: bool, is_member: bool, is_remote_op: bool) -> (r: bool)
    ensures
        r == relay_rule(no_ext_msg, moderated, is_member, is_remote_op),
{
    (!no_ext_msg || is_member) && (!moderated || is_remote_op)
}

/// Why a JOIN is refused.
#[derive(Debug, Clone, Copy, PartialEq, Eq, Structural)]
pub enum JoinRefusal {
    /// `+k` and the key supplied differs.
    BadKey,
    /// A ban matches the user.
    Banned,
    /// `+i` and the user holds no invite.
    InviteOnly,
    /// The channel has a policy and the authenticated user has not accepted it.
    NeedsPolicyAcceptance,
    /// The channel has a policy and the user is a guest.
    NeedsAuthentication,
}

/// What an existing channel says of a JOIN, checked in order: key, bans,
/// invite-only, then the channel's policy (when it has one: a guest is
/// refused, an authenticated user needs an attestation; an engine error
/// lets the user in).
pub open spec fn join_rule(
    is_new_channel: bool,
    key_matches: bool,
    banned: bool,
    invite_only: bool,
    has_invite: bool,
    has_policy: bool,
    authenticated: bool,
    attested: Option<bool>,
) -> Option<JoinRefusal> {
    if !is_new_channel && !key_matches {
        Some(JoinRefusal::BadKey)
    } else if !is_new_channel && banned {
        Some(JoinRefusal::Banned)
    } else if !is_new_channel && invite_only && !has_invite {
        Some(JoinRefusal::InviteOnly)
    } else if has_policy && !authenticated {
        Some(JoinRefusal::NeedsAuthentication)
    } else if has_policy && attested == Some(false) {
        Some(JoinRefusal::NeedsPolicyAcceptance)
    } else {
        None
    }
}

/// Decide a JOIN: `key_matches` whether the channel has no key or the
/// supplied one equals it, `attested` the policy engine's answer for the
/// user (`None` when it failed).
pub fn check_join(
    is_new_channel: bool,
    key_matches: bool,
    banned: bool,
    invite_only: bool,
    has_invite: bool,
    has_policy: bool,
    authenticated: bool,
    attested: Option<bool>,
) -> (r: Option<JoinRefusal>)
    ensures
        r == join_rule(is_new_channel, key_matches, banned, invite_only, has_invite, has_policy, authenticated, attested),
{
    if !is_new_channel && !key_matches {
        Some(JoinRefusal::BadKey)
    } else if !is_new_channel && banned {
        Some(JoinRefusal::Banned)
    } else if !is_new_channel && invite_only && !has_invite {
        Some(JoinRefusal::InviteOnly)
    } else if has_policy && !authenticated {
        Some(JoinRefusal::NeedsAuthentication)
    } else if has_policy && attested == Some(false) {
        Some(JoinRefusal::NeedsPolicyAcceptance)
    } else {
        None
    }
}

/// Whether a joining user gets channel-operator status: the founder of a
/// new channel always does; in an existing channel a user whose DID is
/// the founder's or a DID-op does, and so does the first user in a
/// channel with no one else and no ops anywhere.
pub open spec fn join_op_rule(is_new_channel: bool, did_has_ops: bool, only_member: bool, no_remote_members: bool, any_ops: bool) -> bool {
    is_new_channel || did_has_ops || (only_member && no_remote_members && !any_ops)
}

/// Decide whether a joining user is made operator.
pub fn join_gets_op(is_new_channel: bool, did_has_ops: bool, only_member: bool, no_remote_members: bool, any_ops: bool) -> (r: bool)
    ensures
        r == join_op_rule(is_new_channel, did_has_ops, only_member, no_remote_members, any_ops),
{
    is_new_channel || did_has_ops || (only_member && no_remote_members && !any_ops)
}

/// What a `+o`/`-o` does to the persistent operator DIDs.
#[derive(Debug, Clone, Copy, PartialEq, Eq, Structural)]
pub enum DidOpChange {
    /// Add the target's DID.
    Grant,
    /// Remove the target's DID.
    Revoke,
    /// Leave them: the target has no DID, or is the founder being
    /// de-opped.
    Unchanged,
}

/// The rule for operator DIDs: `+o` on a signed-in user grants its DID,
/// `-o` revokes it — except the founder's, which cannot be revoked.
pub open spec fn did_op_rule(adding: bool, target_did: Option<Seq<char>>, founder_did: Option<Seq<char>>) -> DidOpChange {
    match target_did {
        None => DidOpChange::Unchanged,
        Some(d) => if adding {
            DidOpChange::Grant
        } else if founder_did == Some(d) {
            DidOpChange::Unchanged
        } else {
            DidOpChange::Revoke
        },
    }
}

/// What a `+o`/`-o` on a user signed in as `target_did` does to the
/// channel's operator DIDs.
pub fn did_op_change(adding: bool, target_did: Option<&str>, founder_did: Option<&str>) -> (r: DidOpChange)
    ensures
        r == did_op_rule(
            adding,
            match target_did {
                Some(d) => Some(d@),
                None => None,
            },
            match founder_did {
                Some(f) => Some(f@),
                None => None,
            },
        ),
        (target_did matches Some(d) && founder_did matches Some(f) && d@ == f@) ==> r !is Revoke,
{
    match target_did {
        None => DidOpChange::Unchanged,
        Some(d) => {
            if adding {
                DidOpChange::Grant
            } else {
                let is_founder = match founder_did {
                    Some(f) => {
                        let dc = chars_of(d);
                        let fc = chars_of(f);
                        eq_chars(dc.as_slice(), fc.as_slice())
                    },
                    None => false,
                };
                if is_founder {
                    DidOpChange::Unchanged
                } else {
                    DidOpChange::Revoke
                }
            }
        },
    }
}

/// The masks of a ban list.
pub open spec fn ban_masks(bans: Seq<BanEntry>) -> Seq<Seq<char>> {
    bans.map_values(|b: BanEntry| b.mask@)
}

/// The bans whose mask is not `mask`, in order.
pub open spec fn bans_without(bans: Seq<BanEntry>, mask: Seq<char>) -> Seq<BanEntry>
    decreases bans.len(),
{
    if bans.len() == 0 {
        Seq::empty()
    } else if bans.last().mask@ == mask {
        bans_without(bans.drop_last(), mask)
    } else {
        bans_without(bans.drop_last(), mask).push(bans.last())
    }
}

pub(crate) fn copy_ban(b: &BanEntry) -> (r: BanEntry)
    ensures
        r == *b,
{
    BanEntry { mask: b.mask.clone(), set_by: b.set_by.clone(), set_at: b.set_at }
}

pub(crate) fn has_ban_mask(bans: &Vec<BanEntry>, mask: &str) -> (r: bool)
    ensures
        r == ban_masks(bans@).contains(mask@),
{
    let m = chars_of(mask);
    let mut i: usize = 0;
    while i < bans.len()
        invariant
            i <= bans@.len(),
            m@ == mask@,
            forall|j: int| 0 <= j < i ==> bans@[j].mask@ != mask@,
        decreases bans@.len() - i,
    {
        let b = chars_of(bans[i].mask.as_str());
        if eq_chars(b.as_slice(), m.as_slice()) {
            assert(ban_masks(bans@)[i as int] == mask@);
            return true;
        }
        i = i + 1;
    }
    assert forall|j: int| 0 <= j < ban_masks(bans@).len() implies ban_masks(bans@)[j] != mask@ by {
        assert(ban_masks(bans@)[j] == bans@[j].mask@);
    }
    false
}

/// After `-b <mask>` no ban with that mask remains, and every other ban
/// stays.
pub proof fn law_unban_removes_only_that_mask(bans: Seq<BanEntry>, mask: Seq<char>)
    ensures
        !ban_masks(bans_without(bans, mask)).contains(mask),
        forall|i: int| 0 <= i < bans.len() && bans[i].mask@ != mask ==> bans_without(bans, mask).contains(bans[i]),
    decreases bans.len(),
{
    if bans.len() > 0 {
        law_unban_removes_only_that_mask(bans.drop_last(), mask);
        let r = bans_without(bans, mask);
        let p = bans_without(bans.drop_last(), mask);
        assert forall|j: int| 0 <= j < ban_masks(r).len() implies ban_masks(r)[j] != mask by {
            if j < p.len() {
                assert(r[j] == p[j]);
                assert(ban_masks(p)[j] == p[j].mask@);
            }
        }
        assert forall|i: int| 0 <= i < bans.len() && bans[i].mask@ != mask implies r.contains(bans[i]) by {
            if i < bans.len() - 1 {
                assert(bans.drop_last()[i] == bans[i]);
                let k = choose|k: int| 0 <= k < p.len() && p[k] == bans[i];
                assert(r[k] == p[k]);
            } else {
                assert(r[r.len() - 1] == bans.last());
            }
        }
    }
}

/// `+b` keeps the masks of a ban list distinct.
pub proof fn law_ban_masks_stay_distinct(bans: Seq<BanEntry>, entry: BanEntry)
    requires
        ban_masks(bans).no_duplicates(),
    ensures
        !ban_masks(bans).contains(entry.mask@) ==> ban_masks(bans.push(entry)).no_duplicates(),
{
    if !ban_masks(bans).contains(entry.mask@) {
        let m = ban_masks(bans.push(entry));
        assert(m =~= ban_masks(bans).push(entry.mask@));
        assert forall|i: int, j: int| 0 <= i < m.len() && 0 <= j < m.len() && i != j implies m[i] != m[j] by {
            if i == m.len() - 1 {
                assert(ban_masks(bans)[j] == m[j]);
            } else if j == m.len() - 1 {
                assert(ban_masks(bans)[i] == m[i]);
            }
        }
    }
}

impl ChannelState {
    /// Add a ban (`+b <mask>`) unless one with the same mask is already
    /// there; says whether it was added.
    pub fn add_ban(&mut self, entry: BanEntry) -> (r: bool)
        ensures
            r == !ban_masks(old(self).bans@).contains(entry.mask@),
            final(self).bans@ == if r {
                old(self).bans@.push(entry)
            } else {
                old(self).bans@
            },
            final(self).members == old(self).members,
            final(self).ops == old(self).ops,
            final(self).did_ops == old(self).did_ops,
            final(self).founder_did == old(self).founder_did,
            final(self).key == old(self).key,
    {
        if has_ban_mask(&self.bans, entry.mask.as_str()) {
            false
        } else {
            self.bans.push(entry);
            true
        }
    }

    /// Remove every ban with mask `mask` (`-b <mask>`).
    pub fn remove_ban(&mut self, mask: &str)
        ensures
            final(self).bans@ == bans_without(old(self).bans@, mask@),
            final(self).members == old(self).members,
            final(self).ops == old(self).ops,
            final(self).did_ops == old(self).did_ops,
            final(self).founder_did == old(self).founder_did,
            final(self).key == old(self).key,
    {
        remove_ban_mask(&mut self.bans, mask);
    }
}

/// Remove every ban with mask `mask` from `bans`.
pub(crate) fn remove_ban_mask(bans: &mut Vec<BanEntry>, mask: &str)
    ensures
        final(bans)@ == bans_without(old(bans)@, mask@),
{
    let m = chars_of(mask);
    let mut kept: Vec<BanEntry> = Vec::new();
    let mut old_bans: Vec<BanEntry> = Vec::new();
    std::mem::swap(&mut old_bans, bans);
    let ghost ob = old_bans@;
    let n = old_bans.len();
    let mut i: usize = 0;
    while i < n
        invariant
            n == ob.len(),
            old_bans@ == ob,
            m@ == mask@,
            i <= n,
            kept@ == bans_without(ob.take(i as int), mask@),
        decreases n - i,
    {
        proof {
            assert(ob.take(i + 1).drop_last() =~= ob.take(i as int));
        }
        let b = chars_of(old_bans[i].mask.as_str());
        if !eq_chars(b.as_slice(), m.as_slice()) {
            kept.push(copy_ban(&old_bans[i]));
        }
        i = i + 1;
    }
    assert(ob.take(n as int) =~= ob);
    *bans = kept;
}

/// `:<hostmask> MODE <channel> <change>`, with the argument when there is
/// one: the line a mode change is broadcast as.
pub fn mode_line(hostmask: &str, channel: &str, change: &str, arg: Option<&str>) -> (r: String)
    ensures
        r@ == ":"@ + hostmask@ + " MODE "@ + channel@ + " "@ + change@ + match arg {
            Some(a) => " "@ + a@,
            None => ""@,
        } + "\r\n"@,
{
    let mut s = string_from(":");
    push_str(&mut s, hostmask);
    push_str(&mut s, " MODE ");
    push_str(&mut s, channel);
    push_str(&mut s, " ");
    push_str(&mut s, change);
    match arg {
        Some(a) => {
            push_str(&mut s, " ");
            push_str(&mut s, a);
        },
        None => {
            proof {
                reveal_strlit("");
            }
            assert(s@ + ""@ =~= s@);
        },
    }
    push_str(&mut s, "\r\n");
    s
}

/// Whether a JOIN creates the channel: it does not exist, or its entry
/// holds nobody (here or on peers), no founder, no topic and no ops.
pub fn channel_is_new(known: bool, no_members: bool, no_remote_members: bool, no_founder: bool, no_topic: bool, no_ops: bool) -> (r: bool)
    ensures
        r == (!known || (no_members && no_remote_members && no_founder && no_topic && no_ops)),
{
    !known || (no_members && no_remote_members && no_founder && no_topic && no_ops)
}

/// The invitations that let a user into an invite-only channel (and are
/// used up by its JOIN): its session, its DID, and `nick:<nick>`.
pub open spec fn invite_forms(session_id: Seq<char>, did: Option<Seq<char>>, nick: Seq<char>) -> Seq<Seq<char>> {
    match did {
        Some(d) => seq![session_id, d, "nick:"@ + nick],
        None => seq![session_id, "nick:"@ + nick],
    }
}

/// The invitations that let a user into an invite-only channel.
pub fn join_invite_forms(session_id: &str, did: Option<&str>, nick: &str) -> (r: Vec<String>)
    ensures
        r@.map_values(|s: String| s@) == invite_forms(
            session_id@,
            match did {
                Some(d) => Some(d@),
                None => None,
            },
            nick@,
        ),
{
    let mut out: Vec<String> = Vec::new();
    out.push(string_from(session_id));
    match did {
        Some(d) => out.push(string_from(d)),
        None => {},
    }
    let mut n = string_from("nick:");
    push_str(&mut n, nick);
    out.push(n);
    proof {
        assert(out@.map_values(|s: String| s@) =~= invite_forms(
            session_id@,
            match did {
                Some(d) => Some(d@),
                None => None,
            },
            nick@,
        ));
    }
    out
}

/// The channel mode a policy role brings on JOIN.
#[derive(Debug, Clone, Copy, PartialEq, Eq, Structural)]
pub enum RoleMode {
    /// Operator (and the DID becomes an operator DID).
    Op,
    /// Voice.
    Voice,
    /// Nothing special.
    Member,
}

/// The mode rule for roles: `op`, `admin`, `owner` and `moderator` are
/// operators; `voice`, `voiced` and `speaker` are voiced; any other role
/// is a plain member.
pub open spec fn role_rule(role: Seq<char>) -> RoleMode {
    if role == "op"@ || role == "admin"@ || role == "owner"@ || role == "moderator"@ {
        RoleMode::Op
    } else if role == "voice"@ || role == "voiced"@ || role == "speaker"@ {
        RoleMode::Voice
    } else {
        RoleMode::Member
    }
}

/// The channel mode a policy role brings on JOIN.
pub fn role_mode(role: &str) -> (r: RoleMode)
    ensures
        r == role_rule(role@),
{
    let c = chars_of(role);
    let s = c.as_slice();
    if same_text(s, "op") || same_text(s, "admin") || same_text(s, "owner") || same_text(s, "moderator") {
        RoleMode::Op
    } else if same_text(s, "voice") || same_text(s, "voiced") || same_text(s, "speaker") {
        RoleMode::Voice
    } else {
        RoleMode::Member
    }
}

} // verus!
