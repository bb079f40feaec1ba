use freeq::issuer::{
    github_authorize_url, github_credential, pending_fresh, start_github_verification, url_encode, PENDING_TTL_SECS,
};
use freeq::json::JsonValue;

#[test]
fn percent_encoding_keeps_unreserved_bytes() {
    assert_eq!(url_encode("abcXYZ019-._~"), "abcXYZ019-._~");
    assert_eq!(url_encode("http://localhost:3000/verify"), "http%3A%2F%2Flocalhost%3A3000%2Fverify");
    assert_eq!(url_encode("a b&c=d"), "a%20b%26c%3Dd");
    assert_eq!(url_encode("é"), "%C3%A9");
    assert_eq!(url_encode(""), "");
}

#[test]
fn authorize_urls() {
    assert_eq!(
        github_authorize_url("cid", "http://localhost:3000", "tok"),
        "https://github.com/login/oauth/authorize?client_id=cid&redirect_uri=http%3A%2F%2Flocalhost%3A3000%2Fverify%2Fgithub%2Fcallback&scope=read:org&state=tok"
    );
    let (token, url) = start_github_verification("cid", "https://v.example");
    assert_eq!(token.len(), 32);
    assert!(token.chars().all(|c| c.is_ascii_hexdigit() && !c.is_ascii_uppercase()));
    assert!(url.ends_with(&format!("&state={token}")));
}

#[test]
fn pending_verifications_expire_after_five_minutes() {
    assert_eq!(PENDING_TTL_SECS, 300);
    assert!(pending_fresh(0));
    assert!(pending_fresh(299));
    assert!(!pending_fresh(300));
}

#[test]
fn membership_credentials() {
    let vc = github_credential("did:web:issuer", "did:plc:alice", "alice", "freeq");
    assert_eq!(vc.credential_type_tag, "FreeqCredential/v1");
    assert_eq!(vc.issuer, "did:web:issuer");
    assert_eq!(vc.subject, "did:plc:alice");
    assert_eq!(vc.credential_type, "github_membership");
    assert_eq!(vc.signature, "");
    match &vc.claims {
        JsonValue::Object(ms) => {
            assert_eq!(ms.len(), 2);
            assert_eq!(ms[0].0, "github_username");
            assert!(matches!(&ms[0].1, JsonValue::Str(u) if u == "alice"));
            assert_eq!(ms[1].0, "org");
            assert!(matches!(&ms[1].1, JsonValue::Str(o) if o == "freeq"));
        }
        other => panic!("unexpected claims {other:?}"),
    }
    let issued = chrono::DateTime::parse_from_rfc3339(&vc.issued_at).unwrap();
    let expires = chrono::DateTime::parse_from_rfc3339(vc.expires_at.as_deref().unwrap()).unwrap();
    let days = (expires - issued).num_days();
    assert!((29..=30).contains(&days));
}
