//! Channel policy: the POLICY command's forms, membership attestations
//! and when an existing one still admits its holder, and the outcome of
//! a join attempt.
use vstd::prelude::*;
use crate::canonical::{hex_encode, hex_lower, lemma_hex_len, sha256_digest, sha256_hex};
use crate::clock::{
    clock_instant, parse_rfc3339, rfc3339_at, rfc3339_instant, rfc3339_text, utc_now, CLOCK_MAX_SECS,
};
use crate::credentials::instant_before;
use crate::federation::{did_authority, holds_authority};
use crate::modes::opt_seq;
use crate::text::{
    at_boundary, byte_len, byte_prefix, chars_of, chars_within_bytes, dec, eq_chars, lowercase,
    push_str, same_text, string_from, string_of, to_lowercase_chars, to_uppercase_chars,
    u64_decimal, uppercase,
};

verus! {

/// A signed statement that a DID is a member of a channel under a policy.
#[derive(Debug)]
pub struct MembershipAttestation {
    pub attestation_id: String,
    pub channel_id: String,
    pub policy_id: String,
    pub authority_set_hash: String,
    pub subject_did: String,
    pub role: String,
    pub issued_at: String,
    pub expires_at: Option<String>,
    pub join_id: Option<String>,
    pub signature: String,
    pub issuer_did: String,
}

/// Result of a join attempt.
#[derive(Debug)]
pub enum JoinResult {
    /// Join succeeded — attestation issued.
    Confirmed { attestation: MembershipAttestation, join_id: String },
    /// Channel has no policy — open join.
    NoPolicy,
    /// Join pending — additional requirements needed.
    Pending { join_id: String, missing: Vec<String> },
    /// Join failed.
    Failed(String),
}

/// Whether an existing attestation still admits its holder at `now`: it
/// is for the current policy, and it has no expiry or one that parses
/// and lies after `now`.
pub open spec fn attestation_current_spec(policy_id: Seq<char>, expires_at: Option<String>, current_policy: Seq<char>, now: (i64, u32)) -> bool {
    policy_id == current_policy && match expires_at {
        None => true,
        Some(e) => match rfc3339_instant(e@) {
            Some(t) => instant_before(now, t),
            None => false,
        },
    }
}

/// Whether `att` still admits its holder under policy `current_policy`
/// at instant `now` (Unix seconds, nanoseconds).
pub fn attestation_current(att: &MembershipAttestation, current_policy: &str, now: (i64, u32)) -> (r: bool)
    ensures
        r == attestation_current_spec(att.policy_id@, att.expires_at, current_policy@, now),
{
    let a = chars_of(att.policy_id.as_str());
    let b = chars_of(current_policy);
    if !eq_chars(a.as_slice(), b.as_slice()) {
        return false;
    }
    match &att.expires_at {
        None => true,
        Some(e) => match parse_rfc3339(e.as_str()) {
            Some(t) => now.0 < t.0 || (now.0 == t.0 && now.1 < t.1),
            None => false,
        },
    }
}

/// Calls `rand::random` for 16 random bytes. Nothing is claimed of
/// them: they are random.
#[verifier::external_body]
fn random_bytes16() -> [u8; 16] {
    rand::random()
}

/// A fresh random identifier: 16 random bytes as 32 lowercase hex digits.
pub fn random_hex_id() -> (r: String)
    ensures
        r@.len() == 32,
        exists|b: Seq<u8>| b.len() == 16 && r@ == #[trigger] hex_lower(b),
{
    let b = random_bytes16();
    proof {
        lemma_hex_len(b@);
    }
    hex_encode(b.as_slice())
}

/// The RFC 3339 text of the instant `offset_secs` seconds after the
/// current one (the last second chrono can hold, past it).
pub(crate) fn utc_rfc3339_after(offset_secs: i64) -> (r: String)
    requires
        0 <= offset_secs <= 1_000_000_000,
    ensures
        exists|t: (i64, u32)| clock_instant(t) && r@ == rfc3339_text(
            if t.0 + offset_secs <= 8_210_266_876_799 { t.0 + offset_secs } else { 8_210_266_876_799 } as i64,
            t.1,
        ),
{
    let t = utc_now();
    let s: i64 = if t.0 <= CLOCK_MAX_SECS - offset_secs {
        t.0 + offset_secs
    } else {
        CLOCK_MAX_SECS
    };
    rfc3339_at(s, t.1)
}

/// Issue an attestation (unsigned) for `subject_did` with `role` under
/// the given policy: a fresh id, issued now, expiring in an hour under
/// the continuous validity model and never under the join-time model.
pub fn new_attestation(
    channel_id: &str,
    policy_id: &str,
    authority_set_hash: &str,
    subject_did: &str,
    role: &str,
    join_id: Option<&str>,
    continuous: bool,
    issuer_did: &str,
) -> (r: MembershipAttestation)
    ensures
        r.channel_id@ == channel_id@,
        r.policy_id@ == policy_id@,
        r.authority_set_hash@ == authority_set_hash@,
        r.subject_did@ == subject_did@,
        r.role@ == role@,
        r.attestation_id@.len() == 32,
        r.expires_at is Some == continuous,
        match join_id {
            Some(j) => r.join_id matches Some(s) && s@ == j@,
            None => r.join_id is None,
        },
        r.signature@ == Seq::<char>::empty(),
        r.issuer_did@ == issuer_did@,
{
    let issued_at = utc_rfc3339_after(0);
    let expires_at = if continuous {
        Some(utc_rfc3339_after(3600))
    } else {
        None
    };
    let join = match join_id {
        Some(j) => Some(string_from(j)),
        None => None,
    };
    MembershipAttestation {
        attestation_id: random_hex_id(),
        channel_id: string_from(channel_id),
        policy_id: string_from(policy_id),
        authority_set_hash: string_from(authority_set_hash),
        subject_did: string_from(subject_did),
        role: string_from(role),
        issued_at,
        expires_at,
        join_id: join,
        signature: String::new(),
        issuer_did: string_from(issuer_did),
    }
}

/// A POLICY command, as the server reads it.
#[derive(Debug)]
pub enum PolicyCommand {
    /// Fewer than two parameters, or an unknown subcommand: show usage.
    Usage,
    /// The target is not a `#` channel.
    NotAChannel,
    /// `SET` with the rules text (the remaining parameters joined by
    /// spaces), or `None` when there is none.
    SetRules { channel: String, rules_text: Option<String> },
    /// `INFO`.
    Info { channel: String },
    /// `ACCEPT`.
    Accept { channel: String },
    /// `CLEAR`.
    Clear { channel: String },
}

/// The parameters from `i` on, joined by single spaces.
pub open spec fn join_params(ps: Seq<String>, i: int) -> Seq<char>
    decreases ps.len() - i,
{
    if i >= ps.len() {
        Seq::empty()
    } else if i == ps.len() - 1 {
        ps[i]@
    } else {
        ps[i]@ + seq![' '] + join_params(ps, i + 1)
    }
}

/// What the parameters of a POLICY command ask for: the channel comes
/// first and must start with `#`; the subcommand second, in any case.
pub open spec fn policy_command_spec(ps: Seq<String>) -> PolicyCommandView {
    if ps.len() < 2 {
        PolicyCommandView::Usage
    } else if !(ps[0]@.len() > 0 && ps[0]@[0] == '#') {
        PolicyCommandView::NotAChannel
    } else {
        let sub = uppercase(ps[1]@);
        let ch = ps[0]@;
        if sub == "SET"@ {
            PolicyCommandView::SetRules(ch, if ps.len() > 2 {
                Some(join_params(ps, 2))
            } else {
                None
            })
        } else if sub == "INFO"@ {
            PolicyCommandView::Info(ch)
        } else if sub == "ACCEPT"@ {
            PolicyCommandView::Accept(ch)
        } else if sub == "CLEAR"@ {
            PolicyCommandView::Clear(ch)
        } else {
            PolicyCommandView::Usage
        }
    }
}

/// The view of a [`PolicyCommand`].
pub enum PolicyCommandView {
    Usage,
    NotAChannel,
    SetRules(Seq<char>, Option<Seq<char>>),
    Info(Seq<char>),
    Accept(Seq<char>),
    Clear(Seq<char>),
}

impl View for PolicyCommand {
    type V = PolicyCommandView;

    open spec fn view(&self) -> PolicyCommandView {
        match self {
            PolicyCommand::Usage => PolicyCommandView::Usage,
            PolicyCommand::NotAChannel => PolicyCommandView::NotAChannel,
            PolicyCommand::SetRules { channel, rules_text } => PolicyCommandView::SetRules(channel@, match rules_text {
                Some(t) => Some(t@),
                None => None,
            }),
            PolicyCommand::Info { channel } => PolicyCommandView::Info(channel@),
            PolicyCommand::Accept { channel } => PolicyCommandView::Accept(channel@),
            PolicyCommand::Clear { channel } => PolicyCommandView::Clear(channel@),
        }
    }
}

/// The parameters from `i` on, joined by single spaces.
fn join_from(ps: &[String], i: usize) -> (r: String)
    requires
        i < ps@.len(),
    ensures
        r@ == join_params(ps@, i as int),
    decreases ps@.len() - i,
{
    if i == ps.len() - 1 {
        string_from(ps[i].as_str())
    } else {
        let rest = join_from(ps, i + 1);
        let mut s = string_from(ps[i].as_str());
        push_str(&mut s, " ");
        push_str(&mut s, rest.as_str());
        proof {
            reveal_strlit(" ");
            assert(" "@ =~= seq![' ']);
        }
        s
    }
}

/// Read a POLICY command from its parameters.
pub fn parse_policy_command(params: &[String]) -> (r: PolicyCommand)
    ensures
        r@ == policy_command_spec(params@),
{
    let n = params.len();
    if n < 2 {
        return PolicyCommand::Usage;
    }
    let ch = chars_of(params[0].as_str());
    if !(ch.len() > 0 && ch[0] == '#') {
        return PolicyCommand::NotAChannel;
    }
    let subc = chars_of(params[1].as_str());
    let sub = to_uppercase_chars(subc.as_slice());
    let channel = string_from(params[0].as_str());
    if same_text(sub.as_slice(), "SET") {
        let rules_text = if n > 2 {
            Some(join_from(params, 2))
        } else {
            None
        };
        PolicyCommand::SetRules { channel, rules_text }
    } else if same_text(sub.as_slice(), "INFO") {
        PolicyCommand::Info { channel }
    } else if same_text(sub.as_slice(), "ACCEPT") {
        PolicyCommand::Accept { channel }
    } else if same_text(sub.as_slice(), "CLEAR") {
        PolicyCommand::Clear { channel }
    } else {
        PolicyCommand::Usage
    }
}

/// The notice after a policy is set: its version and the first 12
/// characters of the rules hash and of the policy id (`?` when there is
/// none).
pub open spec fn policy_set_text(channel: Seq<char>, version: u64, rules_hash: Seq<char>, policy_id: Option<Seq<char>>) -> Seq<char> {
    let pid = match policy_id {
        Some(p) => p,
        None => seq!['?'],
    };
    "Policy set for "@ + channel + " (version "@ + dec(version as nat) + ", rules_hash="@
        + byte_prefix(rules_hash, 12) + ", policy_id="@ + byte_prefix(pid, 12) + ")"@
}

/// The notice after a policy is set. The 12-byte cuts must fall on
/// characters (the rules hash and policy ids are hex).
pub fn policy_set_notice(channel: &str, version: u64, rules_hash: &str, policy_id: Option<&str>) -> (r: String)
    requires
        at_boundary(rules_hash@, 12),
        match policy_id {
            Some(p) => byte_len(p@) <= 12 || at_boundary(p@, 12),
            None => true,
        },
    ensures
        r@ == policy_set_text(channel@, version, rules_hash@, match policy_id {
            Some(p) => Some(p@),
            None => None,
        }),
{
    let mut s = string_from("Policy set for ");
    push_str(&mut s, channel);
    push_str(&mut s, " (version ");
    let v = u64_decimal(version);
    push_str(&mut s, v.as_str());
    push_str(&mut s, ", rules_hash=");
    let h = chars_of(rules_hash);
    let hp = chars_within_bytes(h.as_slice(), 12);
    let hs = string_of(hp.as_slice());
    push_str(&mut s, hs.as_str());
    push_str(&mut s, ", policy_id=");
    let pid = match policy_id {
        Some(p) => chars_of(p),
        None => {
            let mut q: Vec<char> = Vec::new();
            q.push('?');
            q
        },
    };
    let pp = chars_within_bytes(pid.as_slice(), 12);
    let ps = string_of(pp.as_slice());
    push_str(&mut s, ps.as_str());
    push_str(&mut s, ")");
    proof {
        match policy_id {
            Some(p) => {},
            None => {
                assert(pid@ =~= seq!['?']);
            },
        }
    }
    s
}

/// The channel id the policy API works with: the path's channel with a
/// `#` put in front when it has none, lowercased.
pub fn api_channel_id(channel: &str) -> (r: String)
    ensures
        r@ == lowercase(
            if channel@.len() > 0 && channel@[0] == '#' {
                channel@
            } else {
                seq!['#'] + channel@
            },
        ),
{
    let c = chars_of(channel);
    let full = if c.len() > 0 && c[0] == '#' {
        c
    } else {
        let mut v: Vec<char> = Vec::new();
        v.push('#');
        let mut i: usize = 0;
        while i < c.len()
            invariant
                i <= c@.len(),
                v@ == seq!['#'] + c@.take(i as int),
            decreases c@.len() - i,
        {
            v.push(c[i]);
            proof {
                assert(c@.take(i + 1) =~= c@.take(i as int).push(c@[i as int]));
            }
            i = i + 1;
        }
        assert(c@.take(c@.len() as int) =~= c@);
        v
    };
    let l = to_lowercase_chars(full.as_slice());
    string_of(l.as_slice())
}

/// The HTTP status and `status` field the join endpoint answers a join
/// result with: 200 `confirmed`, 200 `open` (no policy), 202 `pending`,
/// 403 `failed`.
pub fn join_status(result: &JoinResult) -> (r: (u16, &'static str))
    ensures
        match *result {
            JoinResult::Confirmed { .. } => r.0 == 200 && r.1@ == "confirmed"@,
            JoinResult::NoPolicy => r.0 == 200 && r.1@ == "open"@,
            JoinResult::Pending { .. } => r.0 == 202 && r.1@ == "pending"@,
            JoinResult::Failed(_) => r.0 == 403 && r.1@ == "failed"@,
        },
{
    match result {
        JoinResult::Confirmed { .. } => (200, "confirmed"),
        JoinResult::NoPolicy => (200, "open"),
        JoinResult::Pending { .. } => (202, "pending"),
        JoinResult::Failed(_) => (403, "failed"),
    }
}

/// Whether a session may manage a channel's policy: it holds operator
/// status there, or it is signed in with a DID that founded the channel
/// or is one of its operator DIDs.
pub fn is_channel_op(session_is_op: bool, did: &Option<String>, founder: Option<&str>, did_ops: &[String]) -> (r: bool)
    ensures
        r == (session_is_op || did_authority(
            opt_seq(*did),
            match founder {
                Some(f) => Some(f@),
                None => None,
            },
            did_ops@.map_values(|s: String| s@),
        )),
{
    session_is_op || holds_authority(did, founder, did_ops)
}

/// A notice the POLICY command answers with.
#[derive(Debug, Clone)]
pub enum PolicyNotice {
    /// The server runs without the policy framework.
    NotEnabled,
    /// Too few parameters or an unknown subcommand.
    Usage,
    /// The target is not a channel.
    NotAChannel,
    /// `SET` without rules text.
    SetUsage,
    /// The policy store failed.
    Error(String),
    /// Storing a new policy failed.
    SetFailed(String),
    /// `INFO` on a channel without a policy.
    NoPolicy { channel: String },
    /// `ACCEPT` on a channel without a policy.
    NothingToAccept { channel: String },
    /// `ACCEPT` by a guest.
    MustAuthenticate,
    /// `ACCEPT` succeeded with `role`.
    Accepted { channel: String, role: String },
    /// `ACCEPT` was refused.
    AcceptFailed(String),
    /// `CLEAR` removed the policy.
    Removed { channel: String },
    /// `CLEAR` on a channel without a policy.
    NothingToRemove { channel: String },
    /// Removing the policy failed.
    RemoveFailed(String),
}

/// The text of a POLICY notice.
pub open spec fn notice_text(n: PolicyNotice) -> Seq<char> {
    match n {
        PolicyNotice::NotEnabled => "Policy framework is not enabled on this server"@,
        PolicyNotice::Usage => "Usage: POLICY <channel> SET|INFO|ACCEPT|CLEAR"@,
        PolicyNotice::NotAChannel => "POLICY only applies to channels"@,
        PolicyNotice::SetUsage => "Usage: POLICY <channel> SET <rules text>"@,
        PolicyNotice::Error(e) => "Policy error: "@ + e@,
        PolicyNotice::SetFailed(e) => "Failed to set policy: "@ + e@,
        PolicyNotice::NoPolicy { channel } => channel@ + " has no policy (open join)"@,
        PolicyNotice::NothingToAccept { channel } => channel@ + " has no policy — just JOIN it"@,
        PolicyNotice::MustAuthenticate => "You must be authenticated to accept a policy"@,
        PolicyNotice::Accepted { channel, role } => "Policy accepted for "@ + channel@ + " — role: "@ + role@
            + ". You may now JOIN."@,
        PolicyNotice::AcceptFailed(r) => "Policy acceptance failed: "@ + r@,
        PolicyNotice::Removed { channel } => "Policy removed from "@ + channel@ + " — channel is now open join"@,
        PolicyNotice::NothingToRemove { channel } => channel@ + " has no policy to remove"@,
        PolicyNotice::RemoveFailed(e) => "Failed to remove policy: "@ + e@,
    }
}

fn concat3(a: &str, b: &str, c: &str) -> (r: String)
    ensures
        r@ == a@ + b@ + c@,
{
    let mut s = string_from(a);
    push_str(&mut s, b);
    push_str(&mut s, c);
    s
}

/// The text of a POLICY notice.
pub fn policy_notice(n: &PolicyNotice) -> (r: String)
    ensures
        r@ == notice_text(*n),
{
    proof {
        reveal_strlit("");
    }
    match n {
        PolicyNotice::NotEnabled => string_from("Policy framework is not enabled on this server"),
        PolicyNotice::Usage => string_from("Usage: POLICY <channel> SET|INFO|ACCEPT|CLEAR"),
        PolicyNotice::NotAChannel => string_from("POLICY only applies to channels"),
        PolicyNotice::SetUsage => string_from("Usage: POLICY <channel> SET <rules text>"),
        PolicyNotice::Error(e) => concat3("Policy error: ", e.as_str(), ""),
        PolicyNotice::SetFailed(e) => concat3("Failed to set policy: ", e.as_str(), ""),
        PolicyNotice::NoPolicy { channel } => concat3("", channel.as_str(), " has no policy (open join)"),
        PolicyNotice::NothingToAccept { channel } => concat3("", channel.as_str(), " has no policy — just JOIN it"),
        PolicyNotice::MustAuthenticate => string_from("You must be authenticated to accept a policy"),
        PolicyNotice::Accepted { channel, role } => {
            let mut s = concat3("Policy accepted for ", channel.as_str(), " — role: ");
            push_str(&mut s, role.as_str());
            push_str(&mut s, ". You may now JOIN.");
            s
        },
        PolicyNotice::AcceptFailed(r) => concat3("Policy acceptance failed: ", r.as_str(), ""),
        PolicyNotice::Removed { channel } => concat3(
            "Policy removed from ",
            channel.as_str(),
            " — channel is now open join",
        ),
        PolicyNotice::NothingToRemove { channel } => concat3("", channel.as_str(), " has no policy to remove"),
        PolicyNotice::RemoveFailed(e) => concat3("Failed to remove policy: ", e.as_str(), ""),
    }
}

/// The lines `POLICY <channel> INFO` answers with: the channel, the
/// policy's version, id (`unknown` when it has none), effective time,
/// validity model and requirement, then one line per role requirement.
pub open spec fn info_texts(
    channel: Seq<char>,
    version: u64,
    policy_id: Option<Seq<char>>,
    effective_at: Seq<char>,
    validity: Seq<char>,
    requirement: Seq<char>,
    roles: Seq<(String, String)>,
) -> Seq<Seq<char>> {
    seq![
        "Policy for "@ + channel + ":"@,
        "  Version: "@ + dec(version as nat),
        "  Policy ID: "@ + match policy_id {
            Some(p) => p,
            None => "unknown"@,
        },
        "  Effective: "@ + effective_at,
        "  Validity: "@ + validity,
        "  Requirement: "@ + requirement,
    ] + roles.map_values(|r: (String, String)| "  Role '"@ + r.0@ + "': "@ + r.1@)
}

/// The lines `POLICY <channel> INFO` answers with; `roles` pairs each
/// role with its requirement's description.
pub fn policy_info_lines(
    channel: &str,
    version: u64,
    policy_id: Option<&str>,
    effective_at: &str,
    validity: &str,
    requirement: &str,
    roles: &[(String, String)],
) -> (r: Vec<String>)
    ensures
        r@.map_values(|s: String| s@) == info_texts(
            channel@,
            version,
            match policy_id {
                Some(p) => Some(p@),
                None => None,
            },
            effective_at@,
            validity@,
            requirement@,
            roles@,
        ),
{
    let mut out: Vec<String> = Vec::new();
    out.push(concat3("Policy for ", channel, ":"));
    let v = u64_decimal(version);
    out.push(concat3("  Version: ", v.as_str(), ""));
    let pid = match policy_id {
        Some(p) => p,
        None => "unknown",
    };
    out.push(concat3("  Policy ID: ", pid, ""));
    out.push(concat3("  Effective: ", effective_at, ""));
    out.push(concat3("  Validity: ", validity, ""));
    out.push(concat3("  Requirement: ", requirement, ""));
    proof {
        reveal_strlit("");
    }
    let ghost head = out@.map_values(|s: String| s@);
    let ghost rs = roles@.map_values(|r: (String, String)| "  Role '"@ + r.0@ + "': "@ + r.1@);
    let n = roles.len();
    let mut i: usize = 0;
    while i < n
        invariant
            n == roles@.len(),
            rs == roles@.map_values(|r: (String, String)| "  Role '"@ + r.0@ + "': "@ + r.1@),
            i <= n,
            out@.map_values(|s: String| s@) == head + rs.take(i as int),
        decreases n - i,
    {
        let mut line = concat3("  Role '", roles[i].0.as_str(), "': ");
        push_str(&mut line, roles[i].1.as_str());
        let ghost before = out@;
        out.push(line);
        proof {
            assert(out@.map_values(|s: String| s@) =~= before.map_values(|s: String| s@).push(line@));
            assert(rs.take(i + 1) =~= rs.take(i as int).push(rs[i as int]));
        }
        i = i + 1;
    }
    assert(rs.take(n as int) =~= rs);
    proof {
        assert(head =~= seq![
            "Policy for "@ + channel@ + ":"@,
            "  Version: "@ + dec(version as nat),
            "  Policy ID: "@ + match policy_id {
                Some(p) => p@,
                None => "unknown"@,
            },
            "  Effective: "@ + effective_at@,
            "  Validity: "@ + validity@,
            "  Requirement: "@ + requirement@,
        ]);
    }
    out
}

/// What a POLICY command does before the policy engine is asked.
pub enum PolicyStep {
    /// Send this notice and stop.
    Notice(PolicyNotice),
    /// `SET` or `CLEAR` by someone who is not a channel operator: 482.
    NotOperator { channel: String },
    /// Store a policy requiring acceptance of rules with this SHA-256 hash
    /// (lower-case hex of the rules text's UTF-8 bytes).
    StoreRules { channel: String, rules_hash: String },
    /// Report the channel's policy.
    Info { channel: String },
    /// Accept the channel's policy.
    Accept { channel: String },
    /// Remove the channel's policy.
    Clear { channel: String },
}

/// Decide a POLICY command with parameters `params`: without the policy
/// framework only a notice; a malformed command gets its usage notice;
/// `SET` and `CLEAR` need a channel operator (`is_op`), and `SET` needs
/// rules text, whose hash the stored policy requires.
pub fn policy_step(params: &[String], engine_enabled: bool, is_op: bool) -> (r: PolicyStep)
    ensures
        !engine_enabled ==> (r matches PolicyStep::Notice(n) && n is NotEnabled),
        engine_enabled ==> match policy_command_spec(params@) {
            PolicyCommandView::Usage => r matches PolicyStep::Notice(n) && n is Usage,
            PolicyCommandView::NotAChannel => r matches PolicyStep::Notice(n) && n is NotAChannel,
            PolicyCommandView::SetRules(c, rules) => if !is_op {
                r matches PolicyStep::NotOperator { channel } && channel@ == c
            } else {
                match rules {
                    None => r matches PolicyStep::Notice(n) && n is SetUsage,
                    Some(t) => r matches PolicyStep::StoreRules { channel, rules_hash } && channel@ == c
                        && rules_hash@ == hex_lower(sha256_digest(vstd::utf8::encode_utf8(t))),
                }
            },
            PolicyCommandView::Info(c) => r matches PolicyStep::Info { channel } && channel@ == c,
            PolicyCommandView::Accept(c) => r matches PolicyStep::Accept { channel } && channel@ == c,
            PolicyCommandView::Clear(c) => if !is_op {
                r matches PolicyStep::NotOperator { channel } && channel@ == c
            } else {
                r matches PolicyStep::Clear { channel } && channel@ == c
            },
        },
        !is_op ==> !(r is StoreRules || r is Clear),
{
    if !engine_enabled {
        return PolicyStep::Notice(PolicyNotice::NotEnabled);
    }
    match parse_policy_command(params) {
        PolicyCommand::Usage => PolicyStep::Notice(PolicyNotice::Usage),
        PolicyCommand::NotAChannel => PolicyStep::Notice(PolicyNotice::NotAChannel),
        PolicyCommand::SetRules { channel, rules_text } => {
            if !is_op {
                PolicyStep::NotOperator { channel }
            } else {
                match rules_text {
                    None => PolicyStep::Notice(PolicyNotice::SetUsage),
                    Some(t) => {
                        let h = sha256_hex(t.as_str().as_bytes());
                        PolicyStep::StoreRules { channel, rules_hash: h }
                    },
                }
            }
        },
        PolicyCommand::Info { channel } => PolicyStep::Info { channel },
        PolicyCommand::Accept { channel } => PolicyStep::Accept { channel },
        PolicyCommand::Clear { channel } => {
            if !is_op {
                PolicyStep::NotOperator { channel }
            } else {
                PolicyStep::Clear { channel }
            }
        },
    }
}

/// What the requirement evaluator answered for a joiner's evidence.
pub enum EvalOutcome {
    Satisfied,
    Failed(String),
    Error(String),
}

/// What a join under a channel's policy comes to, before the store is
/// written.
pub enum JoinPlan {
    /// The channel has no policy: open join.
    NoPolicy,
    /// The joiner's attestation is still current: confirm it.
    Reuse,
    /// The requirements are met: issue an attestation with this role.
    Issue { role: String },
    /// The join fails with this reason.
    Fail(String),
}

/// The role a joiner gets: the highest role (last in key order) whose
/// requirement it meets, else `member`.
pub open spec fn chosen_role(roles: Seq<(String, bool)>) -> Seq<char>
    decreases roles.len(),
{
    if roles.len() == 0 {
        "member"@
    } else if roles.last().1 {
        roles.last().0@
    } else {
        chosen_role(roles.drop_last())
    }
}

/// The role granted is the highest one met: when some requirement is met,
/// the role is that of a met requirement with no met requirement after it
/// in key order (so the last role, when met, is the one granted); when
/// none is met, the role is `member`.
pub proof fn law_chosen_role_is_highest_met(roles: Seq<(String, bool)>)
    ensures
        roles.len() > 0 && roles.last().1 ==> chosen_role(roles) == roles.last().0@,
        (exists|i: int| 0 <= i < roles.len() && #[trigger] roles[i].1) ==> exists|i: int|
            0 <= i < roles.len() && #[trigger] roles[i].1 && chosen_role(roles) == roles[i].0@ && forall|j: int|
                i < j < roles.len() ==> !(#[trigger] roles[j].1),
        (forall|i: int| 0 <= i < roles.len() ==> !(#[trigger] roles[i].1)) ==> chosen_role(roles) == "member"@,
    decreases roles.len(),
{
    if roles.len() > 0 {
        let d = roles.drop_last();
        let n = roles.len() - 1;
        law_chosen_role_is_highest_met(d);
        if roles.last().1 {
            assert(roles[n].1);
        } else {
            assert forall|i: int| 0 <= i < d.len() implies d[i] == roles[i] by {}
            if exists|i: int| 0 <= i < roles.len() && #[trigger] roles[i].1 {
                let i = choose|i: int| 0 <= i < roles.len() && #[trigger] roles[i].1;
                assert(i < n);
                assert(d[i].1);
                let k = choose|k: int|
                    0 <= k < d.len() && #[trigger] d[k].1 && chosen_role(d) == d[k].0@ && forall|j: int|
                        k < j < d.len() ==> !(#[trigger] d[j].1);
                assert(roles[k].1);
                assert forall|j: int| k < j < roles.len() implies !(#[trigger] roles[j].1) by {
                    if j < n {
                        assert(!d[j].1);
                    }
                }
            } else {
                assert forall|i: int| 0 <= i < d.len() implies !(#[trigger] d[i].1) by {
                    assert(!roles[i].1);
                }
            }
        }
    }
}

/// The role a joiner gets, given each role requirement in key order with
/// whether the joiner meets it.
pub fn evaluate_role(roles: &[(String, bool)]) -> (r: String)
    ensures
        r@ == chosen_role(roles@),
        roles@.len() > 0 && roles@.last().1 ==> r@ == roles@.last().0@,
        (exists|i: int| 0 <= i < roles@.len() && #[trigger] roles@[i].1) ==> exists|i: int|
            0 <= i < roles@.len() && #[trigger] roles@[i].1 && r@ == roles@[i].0@ && forall|j: int|
                i < j < roles@.len() ==> !(#[trigger] roles@[j].1),
        (forall|i: int| 0 <= i < roles@.len() ==> !(#[trigger] roles@[i].1)) ==> r@ == "member"@,
{
    proof {
        law_chosen_role_is_highest_met(roles@);
    }
    let mut i: usize = roles.len();
    assert(roles@.take(i as int) =~= roles@);
    while i > 0
        invariant
            i <= roles@.len(),
            chosen_role(roles@) == chosen_role(roles@.take(i as int)),
        decreases i,
    {
        proof {
            assert(roles@.take(i as int).drop_last() =~= roles@.take(i - 1));
        }
        if roles[i - 1].1 {
            proof {
                law_chosen_role_is_highest_met(roles@);
            }
            return string_from(roles[i - 1].0.as_str());
        }
        i = i - 1;
    }
    proof {
        reveal_strlit("member");
        assert(roles@.take(0) =~= Seq::<(String, bool)>::empty());
    }
    string_from("member")
}

/// Decide a join under a channel's policy: no policy is an open join; an
/// attestation still current under the policy at `now` is confirmed
/// again; otherwise the evaluator's answer decides, a met requirement
/// issuing an attestation with the chosen role.
pub fn join_plan(
    has_policy: bool,
    existing: Option<&MembershipAttestation>,
    current_policy: &str,
    now: (i64, u32),
    eval: &EvalOutcome,
    roles: &[(String, bool)],
) -> (r: JoinPlan)
    ensures
        !has_policy ==> r is NoPolicy,
        has_policy ==> if (existing matches Some(a) && attestation_current_spec(a.policy_id@, a.expires_at, current_policy@, now)) {
            r is Reuse
        } else {
            match eval {
                EvalOutcome::Satisfied => r matches JoinPlan::Issue { role } && role@ == chosen_role(roles@),
                EvalOutcome::Failed(why) => r matches JoinPlan::Fail(m) && m@ == why@,
                EvalOutcome::Error(e) => r matches JoinPlan::Fail(m) && m@ == "Evaluation error: "@ + e@,
            }
        },
{
    if !has_policy {
        return JoinPlan::NoPolicy;
    }
    match existing {
        Some(a) => {
            if attestation_current(a, current_policy, now) {
                return JoinPlan::Reuse;
            }
        },
        None => {},
    }
    match eval {
        EvalOutcome::Satisfied => JoinPlan::Issue { role: evaluate_role(roles) },
        EvalOutcome::Failed(why) => JoinPlan::Fail(string_from(why.as_str())),
        EvalOutcome::Error(e) => {
            let mut m = string_from("Evaluation error: ");
            push_str(&mut m, e.as_str());
            JoinPlan::Fail(m)
        },
    }
}

} // verus!
