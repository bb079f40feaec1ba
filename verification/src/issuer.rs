//! The credential issuer's GitHub flow: the authorize URL it redirects to,
//! how long a pending verification stays valid, and the credential it
//! issues for a confirmed organisation member.
use vstd::prelude::*;
use crate::credentials::VerifiableCredential;
use crate::json::JsonValue;
use crate::policy::{random_hex_id, utc_rfc3339_after};
use crate::text::{push_char, push_str, string_from};

verus! {

/// Whether a byte is left as it is by percent-encoding: ASCII letters and
/// digits, `-`, `.`, `_` and `~`.
pub open spec fn unreserved(b: u8) -> bool {
    (48 <= b <= 57) || (65 <= b <= 90) || (97 <= b <= 122) || b == 45 || b == 46 || b == 95 || b == 126
}

/// An upper-case hexadecimal digit for `n < 16`.
pub open spec fn hex_upper(n: int) -> char {
    if n < 10 {
        (48 + n) as char
    } else {
        (55 + n) as char
    }
}

/// One byte percent-encoded.
pub open spec fn pct_byte(b: u8) -> Seq<char> {
    if unreserved(b) {
        seq![b as char]
    } else {
        seq!['%', hex_upper((b / 16) as int), hex_upper((b % 16) as int)]
    }
}

/// Bytes percent-encoded, one after the other.
pub open spec fn pct_encode(bs: Seq<u8>) -> Seq<char>
    decreases bs.len(),
{
    if bs.len() == 0 {
        Seq::empty()
    } else {
        pct_encode(bs.drop_last()) + pct_byte(bs.last())
    }
}

fn hex_upper_char(n: u8) -> (c: char)
    requires
        n < 16,
    ensures
        c == hex_upper(n as int),
{
    if n < 10 {
        (48 + n) as char
    } else {
        (55 + n) as char
    }
}

/// `s` percent-encoded as UTF-8 (`urlencoding::encode`): every byte but
/// ASCII letters, digits, `-`, `.`, `_` and `~` becomes `%XX`.
pub fn url_encode(s: &str) -> (r: String)
    ensures
        r@ == pct_encode(vstd::utf8::encode_utf8(s@)),
{
    let bs = s.as_bytes();
    let n = bs.len();
    let mut out = String::new();
    let mut i: usize = 0;
    while i < n
        invariant
            n == bs@.len(),
            bs@ == vstd::utf8::encode_utf8(s@),
            i <= n,
            out@ == pct_encode(bs@.take(i as int)),
        decreases n - i,
    {
        let b = bs[i];
        proof {
            assert(bs@.take(i + 1).drop_last() =~= bs@.take(i as int));
            assert(bs@.take(i + 1).last() == b);
        }
        let ghost before = out@;
        if (48 <= b && b <= 57) || (65 <= b && b <= 90) || (97 <= b && b <= 122) || b == 45 || b == 46 || b == 95
            || b == 126 {
            push_char(&mut out, b as char);
        } else {
            push_char(&mut out, '%');
            push_char(&mut out, hex_upper_char(b / 16));
            push_char(&mut out, hex_upper_char(b % 16));
        }
        assert(out@ =~= before + pct_byte(b));
        i = i + 1;
    }
    assert(bs@.take(n as int) =~= bs@);
    out
}

/// The GitHub authorize URL a verification starts at: the issuer's client
/// id, its callback under `external_url` (percent-encoded), read access
/// to organisations, and the state token that ties the callback to the
/// pending verification.
pub open spec fn authorize_url(client_id: Seq<char>, external_url: Seq<char>, state_token: Seq<char>) -> Seq<char> {
    "https://github.com/login/oauth/authorize?client_id="@ + client_id + "&redirect_uri="@ + pct_encode(
        vstd::utf8::encode_utf8(external_url + "/verify/github/callback"@),
    ) + "&scope=read:org&state="@ + state_token
}

/// The GitHub authorize URL for a verification with `state_token`.
pub fn github_authorize_url(client_id: &str, external_url: &str, state_token: &str) -> (r: String)
    ensures
        r@ == authorize_url(client_id@, external_url@, state_token@),
{
    let mut redirect = string_from(external_url);
    push_str(&mut redirect, "/verify/github/callback");
    let enc = url_encode(redirect.as_str());
    let mut s = string_from("https://github.com/login/oauth/authorize?client_id=");
    push_str(&mut s, client_id);
    push_str(&mut s, "&redirect_uri=");
    push_str(&mut s, enc.as_str());
    push_str(&mut s, "&scope=read:org&state=");
    push_str(&mut s, state_token);
    s
}

/// A new pending verification: a fresh 32-hex-digit state token and the
/// URL to send the user to.
pub fn start_github_verification(client_id: &str, external_url: &str) -> (r: (String, String))
    ensures
        r.0@.len() == 32,
        r.1@ == authorize_url(client_id@, external_url@, r.0@),
{
    let token = random_hex_id();
    let url = github_authorize_url(client_id, external_url, token.as_str());
    (token, url)
}

/// How long a pending verification waits for its callback, in seconds.
pub const PENDING_TTL_SECS: u64 = 300;

/// Whether a pending verification started `elapsed_secs` ago can still
/// be completed.
pub fn pending_fresh(elapsed_secs: u64) -> (r: bool)
    ensures
        r == (elapsed_secs < PENDING_TTL_SECS),
{
    elapsed_secs < PENDING_TTL_SECS
}

/// How long an issued membership credential is valid, in seconds (30
/// days).
pub const CREDENTIAL_TTL_SECS: i64 = 2592000;

/// Whether `v` is the JSON string `s`.
pub open spec fn json_str_is(v: JsonValue, s: Seq<char>) -> bool {
    match v {
        JsonValue::Str(x) => x@ == s,
        _ => false,
    }
}

/// Whether `v` holds the claims of a GitHub membership credential:
/// `{"github_username": username, "org": org}`.
pub open spec fn membership_claims(v: JsonValue, username: Seq<char>, org: Seq<char>) -> bool {
    match v {
        JsonValue::Object(ms) => ms@.len() == 2 && ms@[0].0@ == "github_username"@ && json_str_is(ms@[0].1, username)
            && ms@[1].0@ == "org"@ && json_str_is(ms@[1].1, org),
        _ => false,
    }
}

/// The (unsigned) credential the issuer grants `subject_did` for being a
/// member of `org` as `username`: a `FreeqCredential/v1` of type
/// `github_membership`, issued now and expiring in 30 days.
pub fn github_credential(issuer_did: &str, subject_did: &str, username: &str, org: &str) -> (r: VerifiableCredential)
    ensures
        r.credential_type_tag@ == "FreeqCredential/v1"@,
        r.issuer@ == issuer_did@,
        r.subject@ == subject_did@,
        r.credential_type@ == "github_membership"@,
        membership_claims(r.claims, username@, org@),
        r.expires_at is Some,
        r.signature@.len() == 0,
{
    let mut members: Vec<(String, JsonValue)> = Vec::new();
    members.push((string_from("github_username"), JsonValue::Str(string_from(username))));
    members.push((string_from("org"), JsonValue::Str(string_from(org))));
    let issued_at = utc_rfc3339_after(0);
    let expires_at = utc_rfc3339_after(CREDENTIAL_TTL_SECS);
    proof {
        reveal_strlit("");
    }
    VerifiableCredential {
        credential_type_tag: string_from("FreeqCredential/v1"),
        issuer: string_from(issuer_did),
        subject: string_from(subject_did),
        credential_type: string_from("github_membership"),
        claims: JsonValue::Object(members),
        issued_at,
        expires_at: Some(expires_at),
        signature: string_from(""),
    }
}

} // verus!
