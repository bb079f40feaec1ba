use freeq::canonical::{canonicalize, hash_canonical, hmac_sign, hmac_verify, sha256_hex};
use freeq::json::JsonValue;

fn num(n: &str) -> JsonValue {
    JsonValue::Number(n.to_string())
}

fn s(t: &str) -> JsonValue {
    JsonValue::Str(t.to_string())
}

fn obj(members: Vec<(&str, JsonValue)>) -> JsonValue {
    JsonValue::Object(members.into_iter().map(|(k, v)| (k.to_string(), v)).collect())
}

#[test]
fn test_canonicalize_sorts_keys() {
    let v = obj(vec![("b", num("1")), ("a", num("2"))]);
    let c = canonicalize(&v).unwrap();
    assert_eq!(c, r#"{"a":2,"b":1}"#);
}

#[test]
fn test_canonicalize_nested() {
    let v = obj(vec![
        ("z", obj(vec![("b", num("1")), ("a", num("2"))])),
        ("a", JsonValue::Array(vec![])),
    ]);
    let c = canonicalize(&v).unwrap();
    assert_eq!(c, r#"{"a":[],"z":{"a":2,"b":1}}"#);
}

#[test]
fn test_hash_deterministic() {
    let v = obj(vec![("channel", s("#test")), ("version", num("1"))]);
    let h1 = hash_canonical(&v).unwrap();
    let h2 = hash_canonical(&v).unwrap();
    assert_eq!(h1, h2);
    assert_eq!(h1.len(), 64); // 32 bytes hex
}

#[test]
fn test_canonicalize_strings() {
    let v = obj(vec![("msg", s("hello \"world\""))]);
    let c = canonicalize(&v).unwrap();
    assert_eq!(c, r#"{"msg":"hello \"world\""}"#);
}

#[test]
fn test_canonicalize_array() {
    let v = JsonValue::Array(vec![num("3"), num("1"), num("2")]);
    let c = canonicalize(&v).unwrap();
    assert_eq!(c, "[3,1,2]");
}

#[test]
fn test_hmac_sign_verify() {
    let key = b"test-signing-key-32bytes!!!!!!!!";
    let v = obj(vec![("channel", s("#test")), ("user", s("did:plc:abc"))]);
    let sig = hmac_sign(&v, key).unwrap();
    assert!(!sig.is_empty());
    assert!(hmac_verify(&v, key, &sig).unwrap());
    assert!(!hmac_verify(&v, key, &sig[..10]).unwrap());
    assert!(!hmac_verify(&v, key, &format!("{sig}0")).unwrap());
    // Wrong key fails
    assert!(!hmac_verify(&v, b"wrong-key-32bytes!!!!!!!!!!!!!!!!", &sig).unwrap());
    // Tampered data fails
    let v2 = obj(vec![("channel", s("#test")), ("user", s("did:plc:xyz"))]);
    assert!(!hmac_verify(&v2, key, &sig).unwrap());
}

#[test]
fn canonical_scalars_and_nesting() {
    assert_eq!(canonicalize(&JsonValue::Null).unwrap(), "null");
    assert_eq!(canonicalize(&JsonValue::Bool(true)).unwrap(), "true");
    assert_eq!(canonicalize(&JsonValue::Bool(false)).unwrap(), "false");
    assert_eq!(canonicalize(&num("-1.5e3")).unwrap(), "-1.5e3");
    let v = JsonValue::Array(vec![obj(vec![("y", JsonValue::Null), ("x", s("a\nb"))])]);
    assert_eq!(canonicalize(&v).unwrap(), r#"[{"x":"a\nb","y":null}]"#);
}

#[test]
fn canonical_key_order_is_by_code_point() {
    let v = obj(vec![("é", num("1")), ("z", num("2")), ("Z", num("3")), ("", num("4"))]);
    assert_eq!(canonicalize(&v).unwrap(), r#"{"":4,"Z":3,"z":2,"é":1}"#);
}

#[test]
fn sha256_hex_of_known_input() {
    assert_eq!(
        sha256_hex(b"abc"),
        "ba7816bf8f01cfea414140de5dae2223b00361a396177a9cb410ff61f20015ad"
    );
    assert_eq!(
        sha256_hex(b""),
        "e3b0c44298fc1c149afbf4c8996fb92427ae41e4649b934ca495991b7852b855"
    );
}

#[test]
fn hash_canonical_hashes_the_canonical_text() {
    let v = obj(vec![("b", num("1")), ("a", num("2"))]);
    assert_eq!(hash_canonical(&v).unwrap(), sha256_hex(br#"{"a":2,"b":1}"#));
}

#[test]
fn hmac_sign_matches_rfc_4231_case_2() {
    // HMAC-SHA256(key = "Jefe", data = "what do ya want for nothing?"); the
    // canonical text of a JSON string is its quoted form, so sign a value
    // whose canonical text is exactly that data via a number's raw text.
    let v = num("what do ya want for nothing?");
    assert_eq!(
        hmac_sign(&v, b"Jefe").unwrap(),
        "5bdcc146bf60754e6a042426089575c75a003f089d2739839dec58b964ec3843"
    );
}
