//! Verifiable credentials: an issuer signs the canonical JSON of a
//! credential (with an empty signature field) with Ed25519 and stores the
//! base64url signature in it; a verifier checks the type tag, the expiry,
//! the subject and that signature.
use vstd::prelude::*;
use crate::canonical::{
    canon, canonicalize_value, json_string_text, object_canon, object_text, pair_views, quote,
};
use crate::clock::{clock_instant, parse_rfc3339, rfc3339_instant, utc_now};
use crate::json::{member, member_index, str_of, JsonValue};
use crate::text::{chars_of, eq_chars, push_str, starts_with, string_from};
use ed25519_dalek::{Signer, Verifier};
use vstd::utf8::encode_utf8;

verus! {

/// The type tag every credential this library accepts carries.
pub const CREDENTIAL_TYPE_TAG: &'static str = "FreeqCredential/v1";

/// A credential an issuer signed over the rest of its fields.
#[derive(Debug)]
pub struct VerifiableCredential {
    pub credential_type_tag: String,
    pub issuer: String,
    pub subject: String,
    pub credential_type: String,
    pub claims: JsonValue,
    pub issued_at: String,
    pub expires_at: Option<String>,
    pub signature: String,
}

#[verifier::external_type_specification]
#[verifier::external_body]
pub struct ExSignatureError(ed25519_dalek::SignatureError);

#[verifier::external_type_specification]
#[verifier::external_body]
pub struct ExDecodeError(base64::DecodeError);

/// Whether `VerifyingKey::from_bytes` accepts `key` (a point on the curve).
pub uninterp spec fn ed25519_key_valid(key: Seq<u8>) -> bool;

/// Whether Ed25519 verification of `sig` over `msg` under public key `key`
/// succeeds.
pub uninterp spec fn ed25519_accepts(key: Seq<u8>, msg: Seq<u8>, sig: Seq<u8>) -> bool;

/// The public key of the Ed25519 secret key `secret`.
pub uninterp spec fn ed25519_public_key(secret: Seq<u8>) -> Seq<u8>;

/// The (deterministic) Ed25519 signature of `msg` under `secret`.
pub uninterp spec fn ed25519_signature(secret: Seq<u8>, msg: Seq<u8>) -> Seq<u8>;

/// The URL-safe, unpadded base64 text of `data`.
pub uninterp spec fn base64url_text(data: Seq<u8>) -> Seq<char>;

/// The bytes URL-safe, unpadded base64 `text` decodes to, if it is valid.
pub uninterp spec fn base64url_bytes(text: Seq<char>) -> Option<Seq<u8>>;

/// Calls `VerifyingKey::from_bytes`, which succeeds exactly when the bytes
/// decompress to a curve point ([`ed25519_key_valid`]).
#[verifier::external_body]
fn verifying_key_check(key: &[u8; 32]) -> (r: Result<(), ed25519_dalek::SignatureError>)
    ensures
        r is Ok <==> ed25519_key_valid(key@),
{
    match ed25519_dalek::VerifyingKey::from_bytes(key) {
        Ok(_) => Ok(()),
        Err(e) => Err(e),
    }
}

/// Calls `ed25519::Signature::from_slice`, which accepts exactly 64 bytes.
#[verifier::external_body]
fn signature_check(sig: &[u8]) -> (r: Result<(), ed25519_dalek::SignatureError>)
    ensures
        r is Ok <==> sig@.len() == 64,
{
    match ed25519_dalek::Signature::from_slice(sig) {
        Ok(_) => Ok(()),
        Err(e) => Err(e),
    }
}

/// Calls `Verifier::verify` of `VerifyingKey` on the key and signature
/// those bytes make (the two conversions succeed under `requires`); the
/// outcome is [`ed25519_accepts`].
#[verifier::external_body]
fn ed25519_verify(key: &[u8; 32], msg: &[u8], sig: &[u8]) -> (r: bool)
    requires
        ed25519_key_valid(key@),
        sig@.len() == 64,
    ensures
        r == ed25519_accepts(key@, msg@, sig@),
{
    match (ed25519_dalek::VerifyingKey::from_bytes(key), ed25519_dalek::Signature::from_slice(sig)) {
        (Ok(k), Ok(s)) => k.verify(msg, &s).is_ok(),
        _ => false,
    }
}

/// Calls `SigningKey::from_bytes` and `SigningKey::verifying_key`, and
/// returns the public key's bytes, which `VerifyingKey::from_bytes` accepts.
#[verifier::external_body]
fn ed25519_public(secret: &[u8; 32]) -> (r: [u8; 32])
    ensures
        r@ == ed25519_public_key(secret@),
        ed25519_key_valid(r@),
{
    ed25519_dalek::SigningKey::from_bytes(secret).verifying_key().to_bytes()
}

/// Calls `SigningKey::from_bytes` and `Signer::sign`. Ed25519 signing is
/// deterministic; the 64-byte signature verifies under the key's public key.
#[verifier::external_body]
fn ed25519_sign(secret: &[u8; 32], msg: &[u8]) -> (r: Vec<u8>)
    ensures
        r@ == ed25519_signature(secret@, msg@),
        r@.len() == 64,
        ed25519_accepts(ed25519_public_key(secret@), msg@, r@),
{
    ed25519_dalek::SigningKey::from_bytes(secret).sign(msg).to_bytes().to_vec()
}

/// Calls `URL_SAFE_NO_PAD.encode`; decoding the text gives the bytes back.
#[verifier::external_body]
fn base64url_encode(data: &[u8]) -> (r: String)
    ensures
        r@ == base64url_text(data@),
        base64url_bytes(r@) == Some(data@),
{
    base64::Engine::encode(&base64::engine::general_purpose::URL_SAFE_NO_PAD, data)
}

/// Calls `URL_SAFE_NO_PAD.decode`: it succeeds exactly when
/// [`base64url_bytes`] is `Some`, with those bytes.
#[verifier::external_body]
fn base64url_decode(text: &str) -> (r: Result<Vec<u8>, base64::DecodeError>)
    ensures
        match r {
            Ok(v) => base64url_bytes(text@) == Some(v@),
            Err(_) => base64url_bytes(text@) is None,
        },
{
    base64::Engine::decode(&base64::engine::general_purpose::URL_SAFE_NO_PAD, text)
}

/// `SignatureError`'s `Display` text; nothing is claimed of it.
#[verifier::external_body]
fn signature_error_text(e: &ed25519_dalek::SignatureError) -> String {
    e.to_string()
}

/// `DecodeError`'s `Display` text; nothing is claimed of it.
#[verifier::external_body]
fn decode_error_text(e: &base64::DecodeError) -> String {
    e.to_string()
}

/// Whether instant `a` is strictly before instant `b`.
pub open spec fn instant_before(a: (i64, u32), b: (i64, u32)) -> bool {
    a.0 < b.0 || (a.0 == b.0 && a.1 < b.1)
}

/// Whether a credential expiring at `expires_at` has expired at `now`:
/// it has an expiry that parses and lies before `now`.
pub open spec fn expired_at_spec(expires_at: Option<String>, now: (i64, u32)) -> bool {
    match expires_at {
        Some(e) => match rfc3339_instant(e@) {
            Some(t) => instant_before(t, now),
            None => false,
        },
        None => false,
    }
}

/// The JSON text of an optional string: a string literal or `null`.
pub open spec fn opt_text(o: Option<String>) -> Seq<char> {
    match o {
        Some(s) => json_string_text(s@),
        None => "null"@,
    }
}

/// The credential's members (name and canonical value text) with
/// signature `sig`.
pub open spec fn credential_pairs(c: VerifiableCredential, sig: Seq<char>) -> Seq<
    (Seq<char>, Seq<char>),
> {
    seq![
        ("credential_type_tag"@, json_string_text(c.credential_type_tag@)),
        ("issuer"@, json_string_text(c.issuer@)),
        ("subject"@, json_string_text(c.subject@)),
        ("credential_type"@, json_string_text(c.credential_type@)),
        ("claims"@, canon(c.claims)),
        ("issued_at"@, json_string_text(c.issued_at@)),
        ("expires_at"@, opt_text(c.expires_at)),
        ("signature"@, json_string_text(sig)),
    ]
}

/// The bytes a credential's signature covers: the UTF-8 of its canonical
/// JSON with an empty signature.
pub open spec fn signing_bytes(c: VerifiableCredential) -> Seq<u8> {
    encode_utf8(object_canon(credential_pairs(c, Seq::empty())))
}

/// The outcome of checking `c`'s signature under public key `key`:
/// `None` when the key, the encoding or the signature's length is
/// invalid, else whether Ed25519 accepts it.
pub open spec fn signature_verdict(c: VerifiableCredential, key: Seq<u8>) -> Option<bool> {
    if !ed25519_key_valid(key) {
        None
    } else {
        match base64url_bytes(c.signature@) {
            None => None,
            Some(sig) => if sig.len() != 64 {
                None
            } else {
                Some(ed25519_accepts(key, signing_bytes(c), sig))
            },
        }
    }
}

/// `prefix` followed by `rest`.
fn prefixed(prefix: &str, rest: &str) -> (r: String)
    ensures
        r@ == prefix@ + rest@,
        starts_with(r@, prefix@),
{
    let mut m = string_from(prefix);
    push_str(&mut m, rest);
    assert((prefix@ + rest@).subrange(0, prefix@.len() as int) =~= prefix@);
    m
}

/// The canonical JSON of `c` with an empty signature: what is signed.
fn unsigned_canonical(c: &VerifiableCredential) -> (r: String)
    ensures
        encode_utf8(r@) == signing_bytes(*c),
{
    let mut pairs: Vec<(String, String)> = Vec::new();
    pairs.push((string_from("credential_type_tag"), quote(c.credential_type_tag.as_str())));
    pairs.push((string_from("issuer"), quote(c.issuer.as_str())));
    pairs.push((string_from("subject"), quote(c.subject.as_str())));
    pairs.push((string_from("credential_type"), quote(c.credential_type.as_str())));
    let claims = match canonicalize_value(&c.claims) {
        Ok(t) => t,
        Err(_) => String::new(),
    };
    pairs.push((string_from("claims"), claims));
    pairs.push((string_from("issued_at"), quote(c.issued_at.as_str())));
    let exp = match &c.expires_at {
        Some(e) => quote(e.as_str()),
        None => string_from("null"),
    };
    pairs.push((string_from("expires_at"), exp));
    pairs.push((string_from("signature"), quote("")));
    proof {
        reveal_strlit("");
        let want = credential_pairs(*c, Seq::empty());
        assert(pairs@.len() == 8);
        assert(""@ =~= Seq::<char>::empty());
        assert(pair_views(pairs@)[7] == want[7]);
        assert(pair_views(pairs@) =~= want);
    }
    object_text(pairs)
}

impl VerifiableCredential {
    /// Whether the credential has expired: it has an expiry that parses as
    /// RFC 3339 and lies before the current time. The verdict is that of
    /// [`expired_at_spec`] at an instant the clock can give.
    pub fn is_expired(&self) -> (r: bool)
        ensures
            r ==> self.expires_at is Some && rfc3339_instant(self.expires_at->0@) is Some,
            exists|now: (i64, u32)| clock_instant(now) && r == expired_at_spec(self.expires_at, now),
    {
        let now = utc_now();
        expired_at(&self.expires_at, now)
    }
}

/// Whether a credential expiring at `expires_at` has expired at `now`.
pub fn expired_at(expires_at: &Option<String>, now: (i64, u32)) -> (r: bool)
    ensures
        r == expired_at_spec(*expires_at, now),
{
    match expires_at {
        Some(e) => match parse_rfc3339(e.as_str()) {
            Some(t) => t.0 < now.0 || (t.0 == now.0 && t.1 < now.1),
            None => false,
        },
        None => false,
    }
}

/// The public key of the Ed25519 secret key `secret`.
pub fn public_key_of(secret: &[u8; 32]) -> (r: [u8; 32])
    ensures
        r@ == ed25519_public_key(secret@),
        ed25519_key_valid(r@),
{
    ed25519_public(secret)
}

/// Verify a credential's signature against the issuer's raw 32-byte
/// Ed25519 public key.
pub fn verify_credential_signature(credential: &VerifiableCredential, issuer_public_key: &[u8; 32]) -> (r: Result<bool, String>)
    ensures
        r is Ok <==> signature_verdict(*credential, issuer_public_key@) is Some,
        r matches Ok(b) ==> signature_verdict(*credential, issuer_public_key@) == Some(b),
        !ed25519_key_valid(issuer_public_key@) ==> (r matches Err(m) && starts_with(m@, "Invalid public key: "@)),
        ed25519_key_valid(issuer_public_key@) && base64url_bytes(credential.signature@) is None ==> (r matches Err(m) && starts_with(m@, "Invalid signature encoding: "@)),
        (ed25519_key_valid(issuer_public_key@) && base64url_bytes(credential.signature@) is Some
            && base64url_bytes(credential.signature@)->0.len() != 64) ==> (r matches Err(m) && starts_with(m@, "Invalid signature format: "@)),
{
    match verifying_key_check(issuer_public_key) {
        Ok(()) => {},
        Err(e) => {
            let t = signature_error_text(&e);
            return Err(prefixed("Invalid public key: ", t.as_str()));
        },
    }
    let canonical = unsigned_canonical(credential);
    let sig = match base64url_decode(credential.signature.as_str()) {
        Ok(v) => v,
        Err(e) => {
            let t = decode_error_text(&e);
            return Err(prefixed("Invalid signature encoding: ", t.as_str()));
        },
    };
    match signature_check(sig.as_slice()) {
        Ok(()) => {},
        Err(e) => {
            let t = signature_error_text(&e);
            return Err(prefixed("Invalid signature format: ", t.as_str()));
        },
    }
    Ok(ed25519_verify(issuer_public_key, canonical.as_str().as_bytes(), sig.as_slice()))
}

/// Whether `c` carries this library's type tag.
pub open spec fn tag_ok(c: VerifiableCredential) -> bool {
    c.credential_type_tag@ == CREDENTIAL_TYPE_TAG@
}

/// Checks a credential given whether it has expired: its type tag, then
/// the expiry, then that its subject is `subject_did`, then its signature.
pub fn check_credential(credential: &VerifiableCredential, subject_did: &str, issuer_public_key: &[u8; 32], expired: bool) -> (r: Result<(), String>)
    ensures
        r is Ok <==> tag_ok(*credential) && !expired && credential.subject@ == subject_did@
            && signature_verdict(*credential, issuer_public_key@) == Some(true),
        !tag_ok(*credential) ==> (r matches Err(m) && m@ == "Unknown credential type: "@ + credential.credential_type_tag@),
        tag_ok(*credential) && expired ==> (r matches Err(m) && m@ == "Credential has expired"@),
        tag_ok(*credential) && !expired && credential.subject@ != subject_did@ ==> (r matches Err(m)
            && m@ == "Credential subject "@ + credential.subject@ + " does not match claimed DID "@ + subject_did@),
        tag_ok(*credential) && !expired && credential.subject@ == subject_did@
            && signature_verdict(*credential, issuer_public_key@) == Some(false) ==> (r matches Err(m)
            && m@ == "Signature verification failed"@),
{
    let tag = chars_of(credential.credential_type_tag.as_str());
    let want = chars_of(CREDENTIAL_TYPE_TAG);
    if !eq_chars(tag.as_slice(), want.as_slice()) {
        let mut m = string_from("Unknown credential type: ");
        push_str(&mut m, credential.credential_type_tag.as_str());
        return Err(m);
    }
    if expired {
        return Err(string_from("Credential has expired"));
    }
    let subj = chars_of(credential.subject.as_str());
    let did = chars_of(subject_did);
    if !eq_chars(subj.as_slice(), did.as_slice()) {
        let mut m = string_from("Credential subject ");
        push_str(&mut m, credential.subject.as_str());
        push_str(&mut m, " does not match claimed DID ");
        push_str(&mut m, subject_did);
        return Err(m);
    }
    match verify_credential_signature(credential, issuer_public_key) {
        Ok(true) => Ok(()),
        Ok(false) => Err(string_from("Signature verification failed")),
        Err(m) => Err(m),
    }
}

/// Verify a credential end-to-end: type tag, expiry (against the current
/// time), subject, signature.
pub fn verify_credential(credential: &VerifiableCredential, subject_did: &str, issuer_public_key: &[u8; 32]) -> (r: Result<(), String>)
    ensures
        r is Ok ==> tag_ok(*credential) && credential.subject@ == subject_did@
            && signature_verdict(*credential, issuer_public_key@) == Some(true),
        !tag_ok(*credential) ==> (r matches Err(m) && m@ == "Unknown credential type: "@ + credential.credential_type_tag@),
        tag_ok(*credential) && (credential.expires_at is None || rfc3339_instant(credential.expires_at->0@) is None)
            ==> (r is Ok <==> credential.subject@ == subject_did@
            && signature_verdict(*credential, issuer_public_key@) == Some(true)),
        tag_ok(*credential) ==> exists|now: (i64, u32)| #[trigger] clock_instant(now)
            && (r is Ok <==> !expired_at_spec(credential.expires_at, now) && credential.subject@ == subject_did@
            && signature_verdict(*credential, issuer_public_key@) == Some(true))
            && (expired_at_spec(credential.expires_at, now) ==> (r matches Err(m) && m@ == "Credential has expired"@)),
{
    let tag = chars_of(credential.credential_type_tag.as_str());
    let want = chars_of(CREDENTIAL_TYPE_TAG);
    if !eq_chars(tag.as_slice(), want.as_slice()) {
        return check_credential(credential, subject_did, issuer_public_key, false);
    }
    let expired = credential.is_expired();
    let r = check_credential(credential, subject_did, issuer_public_key, expired);
    proof {
        let now = choose|now: (i64, u32)| clock_instant(now) && expired == expired_at_spec(credential.expires_at, now);
        assert(clock_instant(now));
    }
    r
}

/// Sign a credential with the 32-byte Ed25519 secret key `signing_key`:
/// the signature field becomes the base64url signature of the canonical
/// JSON with an empty signature. The signed credential verifies under the
/// key's public key.
pub fn sign_credential(credential: &mut VerifiableCredential, signing_key: &[u8; 32]) -> (r: Result<(), String>)
    ensures
        r is Ok,
        final(credential).signature@ == base64url_text(ed25519_signature(signing_key@, signing_bytes(*old(credential)))),
        final(credential).credential_type_tag == old(credential).credential_type_tag,
        final(credential).issuer == old(credential).issuer,
        final(credential).subject == old(credential).subject,
        final(credential).credential_type == old(credential).credential_type,
        final(credential).claims == old(credential).claims,
        final(credential).issued_at == old(credential).issued_at,
        final(credential).expires_at == old(credential).expires_at,
        ed25519_key_valid(ed25519_public_key(signing_key@)) ==> signature_verdict(*final(credential), ed25519_public_key(signing_key@)) == Some(true),
{
    credential.signature = String::new();
    let canonical = unsigned_canonical(credential);
    let sig = ed25519_sign(signing_key, canonical.as_str().as_bytes());
    credential.signature = base64url_encode(sig.as_slice());
    Ok(())
}

/// The base58 (Bitcoin alphabet) text of `data`.
pub uninterp spec fn base58_text(data: Seq<u8>) -> Seq<char>;

/// Calls `bs58::encode(..).into_string()`: the result is [`base58_text`]
/// of the input.
#[verifier::external_body]
fn base58_encode(data: &[u8]) -> (r: String)
    ensures
        r@ == base58_text(data@),
{
    bs58::encode(data).into_string()
}

/// The multicodec prefix of an Ed25519 public key (`0xed 0x01`).
pub open spec fn ed25519_multicodec(key: Seq<u8>) -> Seq<u8> {
    seq![0xedu8, 0x01u8] + key
}

/// A public key in multibase form: `z` then the base58 of the multicodec
/// prefix and the key.
pub open spec fn multibase_text(key: Seq<u8>) -> Seq<char> {
    seq!['z'] + base58_text(ed25519_multicodec(key))
}

/// The multibase (`z` + base58btc) form of an Ed25519 public key, as a
/// DID document publishes it.
pub fn public_key_multibase(public_key: &[u8; 32]) -> (r: String)
    ensures
        r@ == multibase_text(public_key@),
{
    let mut bytes: Vec<u8> = Vec::new();
    bytes.push(0xed);
    bytes.push(0x01);
    let mut i: usize = 0;
    while i < 32
        invariant
            i <= 32,
            bytes@ == seq![0xedu8, 0x01u8] + public_key@.take(i as int),
        decreases 32 - i,
    {
        bytes.push(public_key[i]);
        assert(bytes@ =~= seq![0xedu8, 0x01u8] + public_key@.take(i + 1));
        i = i + 1;
    }
    assert(public_key@.take(32) =~= public_key@);
    let enc = base58_encode(bytes.as_slice());
    let mut r = string_from("z");
    push_str(&mut r, enc.as_str());
    proof {
        reveal_strlit("z");
    }
    r
}

/// The issuer's DID document: the two contexts, its DID, one Multikey
/// verification method `{did}#key-1` with the key in multibase form, used
/// for assertions and authentication.
pub fn did_document(did: &str, public_key: &[u8; 32]) -> (r: JsonValue)
    ensures
        r matches JsonValue::Object(es) && es@.len() == 5,
        str_of(member(r, "id"@)) == Some(did@),
        member(r, "verificationMethod"@) matches Some(JsonValue::Array(ms)) && ms@.len() == 1 && str_of(
            member(ms@[0], "publicKeyMultibase"@),
        ) == Some(multibase_text(public_key@)) && str_of(member(ms@[0], "id"@)) == Some(did@ + "#key-1"@)
            && str_of(member(ms@[0], "type"@)) == Some("Multikey"@),
{
    let mut key_id = string_from(did);
    push_str(&mut key_id, "#key-1");
    let mut contexts: Vec<JsonValue> = Vec::new();
    contexts.push(JsonValue::Str(string_from("https://www.w3.org/ns/did/v1")));
    contexts.push(JsonValue::Str(string_from("https://w3id.org/security/multikey/v1")));
    let mut method: Vec<(String, JsonValue)> = Vec::new();
    method.push((string_from("id"), JsonValue::Str(string_from(key_id.as_str()))));
    method.push((string_from("type"), JsonValue::Str(string_from("Multikey"))));
    method.push((string_from("controller"), JsonValue::Str(string_from(did))));
    method.push((string_from("publicKeyMultibase"), JsonValue::Str(public_key_multibase(public_key))));
    let mut methods: Vec<JsonValue> = Vec::new();
    methods.push(JsonValue::Object(method));
    let mut assertion: Vec<JsonValue> = Vec::new();
    assertion.push(JsonValue::Str(string_from(key_id.as_str())));
    let mut authentication: Vec<JsonValue> = Vec::new();
    authentication.push(JsonValue::Str(string_from(key_id.as_str())));
    let mut doc: Vec<(String, JsonValue)> = Vec::new();
    doc.push((string_from("@context"), JsonValue::Array(contexts)));
    doc.push((string_from("id"), JsonValue::Str(string_from(did))));
    doc.push((string_from("verificationMethod"), JsonValue::Array(methods)));
    doc.push((string_from("assertionMethod"), JsonValue::Array(assertion)));
    doc.push((string_from("authentication"), JsonValue::Array(authentication)));
    proof {
        lemma_literals_differ();
        reveal_with_fuel(member_index, 6);
    }
    JsonValue::Object(doc)
}

/// The member names a DID document uses are different texts.
proof fn lemma_literals_differ()
    ensures
        "@context"@ != "id"@,
        "type"@ != "id"@,
        "controller"@ != "publicKeyMultibase"@,
        "id"@ != "publicKeyMultibase"@,
        "type"@ != "publicKeyMultibase"@,
        "id"@ != "verificationMethod"@,
        "@context"@ != "verificationMethod"@,
        "id"@ != "type"@,
{
    reveal_strlit("@context");
    reveal_strlit("id");
    reveal_strlit("type");
    reveal_strlit("controller");
    reveal_strlit("publicKeyMultibase");
    reveal_strlit("verificationMethod");
    assert("@context"@.len() != "id"@.len());
    assert("type"@.len() != "id"@.len());
    assert("controller"@.len() != "publicKeyMultibase"@.len());
    assert("id"@.len() != "publicKeyMultibase"@.len());
    assert("type"@.len() != "publicKeyMultibase"@.len());
    assert("id"@.len() != "verificationMethod"@.len());
    assert("@context"@.len() != "verificationMethod"@.len());
    assert("id"@[0] != "type"@[0]);
}

} // verus!
