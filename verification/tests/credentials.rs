use freeq::canonical::canonicalize;
use freeq::credentials::{
    did_document, expired_at, public_key_multibase, public_key_of, sign_credential,
    verify_credential, verify_credential_signature, VerifiableCredential,
};
use freeq::json::JsonValue;
use rand::rngs::OsRng;
use ed25519_dalek::SigningKey;

fn claims(members: &[(&str, &str)]) -> JsonValue {
    JsonValue::Object(
        members
            .iter()
            .map(|(k, v)| (k.to_string(), JsonValue::Str(v.to_string())))
            .collect(),
    )
}

fn make_test_credential(
    issuer: &str,
    subject: &str,
    cred_type: &str,
    signing_key: &SigningKey,
) -> VerifiableCredential {
    let mut vc = VerifiableCredential {
        credential_type_tag: "FreeqCredential/v1".into(),
        issuer: issuer.into(),
        subject: subject.into(),
        credential_type: cred_type.into(),
        claims: claims(&[("github_username", "octocat"), ("org", "freeq")]),
        issued_at: chrono::Utc::now().to_rfc3339(),
        expires_at: Some((chrono::Utc::now() + chrono::Duration::hours(24)).to_rfc3339()),
        signature: String::new(),
    };
    sign_credential(&mut vc, &signing_key.to_bytes()).unwrap();
    vc
}

#[test]
fn test_sign_and_verify() {
    let signing_key = SigningKey::generate(&mut OsRng);
    let public_key = signing_key.verifying_key();

    let vc = make_test_credential(
        "did:web:verify.example.com",
        "did:plc:user1",
        "github_membership",
        &signing_key,
    );

    assert!(!vc.signature.is_empty());
    assert!(verify_credential_signature(&vc, public_key.as_bytes()).unwrap());
}

#[test]
fn test_tampered_credential_fails() {
    let signing_key = SigningKey::generate(&mut OsRng);
    let public_key = signing_key.verifying_key();

    let mut vc = make_test_credential(
        "did:web:verify.example.com",
        "did:plc:user1",
        "github_membership",
        &signing_key,
    );

    // Tamper with claims
    vc.claims = claims(&[("org", "evil")]);
    assert!(!verify_credential_signature(&vc, public_key.as_bytes()).unwrap());
}

#[test]
fn test_wrong_key_fails() {
    let signing_key = SigningKey::generate(&mut OsRng);
    let wrong_key = SigningKey::generate(&mut OsRng);

    let vc = make_test_credential(
        "did:web:verify.example.com",
        "did:plc:user1",
        "github_membership",
        &signing_key,
    );

    assert!(!verify_credential_signature(&vc, wrong_key.verifying_key().as_bytes()).unwrap());
}

#[test]
fn test_full_verification() {
    let signing_key = SigningKey::generate(&mut OsRng);
    let public_key = signing_key.verifying_key();

    let vc = make_test_credential(
        "did:web:verify.example.com",
        "did:plc:user1",
        "github_membership",
        &signing_key,
    );

    // Correct subject
    assert!(verify_credential(&vc, "did:plc:user1", public_key.as_bytes()).is_ok());

    // Wrong subject
    assert!(verify_credential(&vc, "did:plc:attacker", public_key.as_bytes()).is_err());
}

#[test]
fn test_expired_credential() {
    let signing_key = SigningKey::generate(&mut OsRng);
    let public_key = signing_key.verifying_key();

    let mut vc = VerifiableCredential {
        credential_type_tag: "FreeqCredential/v1".into(),
        issuer: "did:web:verify.example.com".into(),
        subject: "did:plc:user1".into(),
        credential_type: "github_membership".into(),
        claims: JsonValue::Object(vec![]),
        issued_at: "2020-01-01T00:00:00Z".into(),
        expires_at: Some("2020-01-02T00:00:00Z".into()),
        signature: String::new(),
    };
    sign_credential(&mut vc, &signing_key.to_bytes()).unwrap();

    let result = verify_credential(&vc, "did:plc:user1", public_key.as_bytes());
    assert!(result.is_err());
    assert!(result.unwrap_err().contains("expired"));
}

#[test]
fn public_key_of_matches_the_signing_key() {
    let signing_key = SigningKey::generate(&mut OsRng);
    assert_eq!(
        public_key_of(&signing_key.to_bytes()),
        signing_key.verifying_key().to_bytes()
    );
}

#[test]
fn unknown_type_tag_is_rejected_first() {
    let signing_key = SigningKey::generate(&mut OsRng);
    let mut vc = make_test_credential("i", "did:plc:u", "t", &signing_key);
    vc.credential_type_tag = "Other/v9".into();
    let err = verify_credential(&vc, "did:plc:u", &signing_key.verifying_key().to_bytes())
        .unwrap_err();
    assert_eq!(err, "Unknown credential type: Other/v9");
}

#[test]
fn subject_mismatch_message() {
    let signing_key = SigningKey::generate(&mut OsRng);
    let vc = make_test_credential("i", "did:plc:u", "t", &signing_key);
    let err = verify_credential(&vc, "did:plc:x", &signing_key.verifying_key().to_bytes())
        .unwrap_err();
    assert_eq!(err, "Credential subject did:plc:u does not match claimed DID did:plc:x");
}

#[test]
fn bad_signature_encodings_are_errors() {
    let signing_key = SigningKey::generate(&mut OsRng);
    let key = signing_key.verifying_key().to_bytes();
    let mut vc = make_test_credential("i", "did:plc:u", "t", &signing_key);
    vc.signature = "***".into();
    let e = verify_credential_signature(&vc, &key).unwrap_err();
    assert!(e.starts_with("Invalid signature encoding: "));
    vc.signature = "AAAA".into();
    let e = verify_credential_signature(&vc, &key).unwrap_err();
    assert!(e.starts_with("Invalid signature format: "));
    let e = verify_credential(&vc, "did:plc:u", &key).unwrap_err();
    assert!(e.starts_with("Invalid signature format: "));
}

#[test]
fn invalid_public_key_is_an_error() {
    let signing_key = SigningKey::generate(&mut OsRng);
    let vc = make_test_credential("i", "did:plc:u", "t", &signing_key);
    // Find an encoding that does not decompress to a curve point.
    let mut bad = [0u8; 32];
    for y in 2u8..=255 {
        bad[0] = y;
        if ed25519_dalek::VerifyingKey::from_bytes(&bad).is_err() {
            break;
        }
    }
    assert!(ed25519_dalek::VerifyingKey::from_bytes(&bad).is_err());
    let e = verify_credential_signature(&vc, &bad).unwrap_err();
    assert!(e.starts_with("Invalid public key: "), "{e}");
}

#[test]
fn signature_failure_message() {
    let signing_key = SigningKey::generate(&mut OsRng);
    let other = SigningKey::generate(&mut OsRng);
    let vc = make_test_credential("i", "did:plc:u", "t", &signing_key);
    let err = verify_credential(&vc, "did:plc:u", &other.verifying_key().to_bytes()).unwrap_err();
    assert_eq!(err, "Signature verification failed");
}

#[test]
fn expiry_is_compared_with_the_given_instant() {
    let exp = Some("2020-01-02T00:00:00Z".to_string());
    // 2020-01-02T00:00:00Z is 1577923200.
    assert!(!expired_at(&exp, (1577923200, 0)));
    assert!(expired_at(&exp, (1577923200, 1)));
    assert!(!expired_at(&exp, (1577923199, 999_999_999)));
    assert!(!expired_at(&None, (i64::MAX, 0)));
    assert!(!expired_at(&Some("not a date".to_string()), (i64::MAX, 0)));
}

#[test]
fn multibase_of_a_known_key() {
    assert_eq!(
        public_key_multibase(&[0u8; 32]),
        "z6MkeTG3bFFSLYVU7VqhgZxqr6YzpaGrQtFMh1uvqGy1vDnP"
    );
}

#[test]
fn did_document_shape() {
    let doc = did_document("did:web:verify.example.com", &[0u8; 32]);
    assert_eq!(
        canonicalize(&doc).unwrap(),
        r#"{"@context":["https://www.w3.org/ns/did/v1","https://w3id.org/security/multikey/v1"],"assertionMethod":["did:web:verify.example.com#key-1"],"authentication":["did:web:verify.example.com#key-1"],"id":"did:web:verify.example.com","verificationMethod":[{"controller":"did:web:verify.example.com","id":"did:web:verify.example.com#key-1","publicKeyMultibase":"z6MkeTG3bFFSLYVU7VqhgZxqr6YzpaGrQtFMh1uvqGy1vDnP","type":"Multikey"}]}"#
    );
}

#[test]
fn is_expired_reads_the_clock() {
    let mut vc = VerifiableCredential {
        credential_type_tag: "FreeqCredential/v1".into(),
        issuer: "did:web:verify.example.com".into(),
        subject: "did:plc:user1".into(),
        credential_type: "github_membership".into(),
        claims: JsonValue::Object(vec![]),
        issued_at: "1960-01-01T00:00:00Z".into(),
        expires_at: Some("1969-12-31T23:59:59Z".into()),
        signature: String::new(),
    };
    assert!(vc.is_expired());
    vc.expires_at = Some("9999-12-31T23:59:59Z".into());
    assert!(!vc.is_expired());
    vc.expires_at = Some("never".into());
    assert!(!vc.is_expired());
    vc.expires_at = None;
    assert!(!vc.is_expired());
}
