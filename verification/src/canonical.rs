//! JCS-style canonical JSON text (object members sorted by key, no
//! whitespace), SHA-256 and HMAC-SHA256 over it, hex-encoded.
use vstd::prelude::*;
use crate::json::JsonValue;
use crate::text::{chars_of, eq_chars, join, key_lt, push_str, string_views};
use vstd::utf8::encode_utf8;
use hmac::Mac;
use sha2::Digest;

verus! {

/// Why a value could not be canonicalized.
#[derive(Debug, Clone)]
pub struct JsonError {
    pub message: String,
}

#[verifier::external_type_specification]
#[verifier::external_body]
pub struct ExSerdeJsonError(serde_json::Error);

/// What `serde_json::to_string` produces for a string holding `s`: the
/// JSON string literal.
pub uninterp spec fn json_string_text(s: Seq<char>) -> Seq<char>;

/// Calls `serde_json::to_string` on a string slice. Serializing a `str`
/// into memory never fails (its serializer only escapes characters into
/// a `Vec<u8>`), and the text is the name [`json_string_text`] applied to
/// the input.
#[verifier::external_body]
fn json_quote(s: &str) -> (r: Result<String, serde_json::Error>)
    ensures
        r is Ok,
        r matches Ok(t) ==> t@ == json_string_text(s@),
{
    serde_json::to_string(s)
}

/// The JSON string literal for `s`.
pub fn quote(s: &str) -> (r: String)
    ensures
        r@ == json_string_text(s@),
{
    match json_quote(s) {
        Ok(t) => t,
        Err(_) => String::new(),
    }
}

/// `x` inserted into `s` before the first member whose key is greater
/// (after any with an equal key).
pub open spec fn insert_member(x: (Seq<char>, Seq<char>), s: Seq<(Seq<char>, Seq<char>)>) -> Seq<
    (Seq<char>, Seq<char>),
>
    decreases s.len(),
{
    if s.len() == 0 {
        seq![x]
    } else if key_lt(x.0, s[0].0) {
        seq![x] + s
    } else {
        seq![s[0]] + insert_member(x, s.drop_first())
    }
}

/// `ps` stably sorted by key.
pub open spec fn sort_members(ps: Seq<(Seq<char>, Seq<char>)>) -> Seq<(Seq<char>, Seq<char>)>
    decreases ps.len(),
{
    if ps.len() == 0 {
        Seq::empty()
    } else {
        insert_member(ps.last(), sort_members(ps.drop_last()))
    }
}

/// The canonical text of `v`: `null`, `true`/`false`, a number's text, a
/// JSON string literal, `[a,b,…]`, or `{"k":v,…}` with members sorted by key.
pub open spec fn canon(v: JsonValue) -> Seq<char>
    decreases v,
{
    match v {
        JsonValue::Null => "null"@,
        JsonValue::Bool(b) => if b {
            "true"@
        } else {
            "false"@
        },
        JsonValue::Number(t) => t@,
        JsonValue::Str(s) => json_string_text(s@),
        JsonValue::Array(items) => "["@ + join(canon_items(items@), ","@) + "]"@,
        JsonValue::Object(es) => object_canon(member_pairs(es@)),
    }
}

/// The canonical texts of `items`.
pub open spec fn canon_items(items: Seq<JsonValue>) -> Seq<Seq<char>>
    decreases items,
{
    if items.len() == 0 {
        Seq::empty()
    } else {
        canon_items(items.drop_last()).push(canon(items.last()))
    }
}

/// Each member's key and the canonical text of its value.
pub open spec fn member_pairs(es: Seq<(String, JsonValue)>) -> Seq<(Seq<char>, Seq<char>)>
    decreases es,
{
    if es.len() == 0 {
        Seq::empty()
    } else {
        member_pairs(es.drop_last()).push((es.last().0@, canon(es.last().1)))
    }
}

/// The canonical text of an object whose members' keys and value texts
/// are `ps`: `{"k":v,…}` sorted by key.
pub open spec fn object_canon(ps: Seq<(Seq<char>, Seq<char>)>) -> Seq<char> {
    "{"@ + join(member_texts(sort_members(ps)), ","@) + "}"@
}

/// `"key":text` for each member.
pub open spec fn member_texts(ps: Seq<(Seq<char>, Seq<char>)>) -> Seq<Seq<char>> {
    ps.map_values(|p: (Seq<char>, Seq<char>)| json_string_text(p.0) + ":"@ + p.1)
}

/// The views of a list of string pairs.
pub open spec fn pair_views(v: Seq<(String, String)>) -> Seq<(Seq<char>, Seq<char>)> {
    v.map_values(|p: (String, String)| (p.0@, p.1@))
}

/// Whether `a` sorts strictly before `b`.
pub fn key_less(a: &str, b: &str) -> (r: bool)
    ensures
        r == key_lt(a@, b@),
{
    let ac = crate::text::chars_of(a);
    let bc = crate::text::chars_of(b);
    let n = ac.len();
    let m = bc.len();
    let mut i: usize = 0;
    assert(a@.skip(0) =~= a@);
    assert(b@.skip(0) =~= b@);
    while i < n && i < m && ac[i] == bc[i]
        invariant
            n == ac@.len(),
            m == bc@.len(),
            ac@ == a@,
            bc@ == b@,
            i <= n,
            i <= m,
            key_lt(a@, b@) == key_lt(a@.skip(i as int), b@.skip(i as int)),
        decreases n - i,
    {
        proof {
            let sa = a@.skip(i as int);
            let sb = b@.skip(i as int);
            assert(sa.drop_first() =~= a@.skip(i + 1));
            assert(sb.drop_first() =~= b@.skip(i + 1));
            assert(sa[0] == ac@[i as int]);
            assert(sb[0] == bc@[i as int]);
        }
        i = i + 1;
    }
    proof {
        if i < n {
            assert(a@.skip(i as int)[0] == ac@[i as int]);
        }
        if i < m {
            assert(b@.skip(i as int)[0] == bc@[i as int]);
        }
    }
    if i == n {
        i < m
    } else if i == m {
        false
    } else {
        (ac[i] as u32) < (bc[i] as u32)
    }
}

proof fn lemma_insert_at(x: (Seq<char>, Seq<char>), s: Seq<(Seq<char>, Seq<char>)>, j: int)
    requires
        0 <= j <= s.len(),
        forall|i: int| 0 <= i < j ==> !key_lt(x.0, #[trigger] s[i].0),
        j == s.len() || key_lt(x.0, s[j].0),
    ensures
        insert_member(x, s) == s.take(j) + seq![x] + s.skip(j),
    decreases j,
{
    if j == 0 {
        assert(s.take(0) + seq![x] + s.skip(0) =~= seq![x] + s);
        if s.len() == 0 {
            assert(seq![x] + s =~= seq![x]);
        }
    } else {
        let t = s.drop_first();
        assert forall|i: int| 0 <= i < j - 1 implies !key_lt(x.0, #[trigger] t[i].0) by {
            assert(t[i] == s[i + 1]);
        }
        if j < s.len() {
            assert(t[j - 1] == s[j]);
        }
        lemma_insert_at(x, t, j - 1);
        assert(seq![s[0]] + (t.take(j - 1) + seq![x] + t.skip(j - 1)) =~= s.take(j) + seq![x]
            + s.skip(j));
    }
}

/// `v` stably sorted by key.
fn sort_pairs(v: Vec<(String, String)>) -> (r: Vec<(String, String)>)
    ensures
        pair_views(r@) == sort_members(pair_views(v@)),
{
    let n = v.len();
    let mut out: Vec<(String, String)> = Vec::new();
    let mut i: usize = 0;
    while i < n
        invariant
            n == v@.len(),
            i <= n,
            pair_views(out@) == sort_members(pair_views(v@).take(i as int)),
        decreases n - i,
    {
        let x = (v[i].0.clone(), v[i].1.clone());
        let ghost xv = (x.0@, x.1@);
        proof {
            assert(pair_views(v@).take(i + 1).drop_last() =~= pair_views(v@).take(i as int));
            assert(pair_views(v@).take(i + 1).last() == xv);
        }
        let m = out.len();
        let mut j: usize = 0;
        while j < m && !key_less(x.0.as_str(), out[j].0.as_str())
            invariant
                m == out@.len(),
                j <= m,
                xv.0 == x.0@,
                forall|k: int| 0 <= k < j ==> !key_lt(xv.0, #[trigger] pair_views(out@)[k].0),
            decreases m - j,
        {
            assert(pair_views(out@)[j as int] == (out@[j as int].0@, out@[j as int].1@));
            j = j + 1;
        }
        proof {
            lemma_insert_at(xv, pair_views(out@), j as int);
        }
        let ghost before = pair_views(out@);
        out.insert(j, x);
        assert(pair_views(out@) =~= before.take(j as int) + seq![xv] + before.skip(j as int));
        i = i + 1;
    }
    assert(pair_views(v@).take(n as int) =~= pair_views(v@));
    out
}

/// Appends the texts `ts` joined by commas.
fn push_joined(out: &mut String, ts: &Vec<String>)
    ensures
        final(out)@ == old(out)@ + join(string_views(ts@), ","@),
{
    let n = ts.len();
    let ghost start = out@;
    let mut i: usize = 0;
    while i < n
        invariant
            n == ts@.len(),
            i <= n,
            out@ == start + join(string_views(ts@).take(i as int), ","@),
        decreases n - i,
    {
        proof {
            let t = string_views(ts@).take(i + 1);
            assert(t.drop_last() =~= string_views(ts@).take(i as int));
            assert(t.last() == ts@[i as int]@);
        }
        if i > 0 {
            push_str(out, ",");
        }
        push_str(out, ts[i].as_str());
        proof {
            if i == 0 {
                assert(join(string_views(ts@).take(1), ","@) == ts@[0]@);
                assert(start + join(string_views(ts@).take(0), ","@) =~= start);
            }
        }
        i = i + 1;
    }
    assert(string_views(ts@).take(n as int) =~= string_views(ts@));
}

/// The canonical text of an object with members `pairs` (key, value
/// text): keys quoted, members sorted by key.
pub fn object_text(pairs: Vec<(String, String)>) -> (r: String)
    ensures
        r@ == object_canon(pair_views(pairs@)),
{
    let sorted = sort_pairs(pairs);
    let m = sorted.len();
    let mut texts: Vec<String> = Vec::new();
    let mut k: usize = 0;
    while k < m
        invariant
            m == sorted@.len(),
            k <= m,
            string_views(texts@) == member_texts(pair_views(sorted@)).take(k as int),
        decreases m - k,
    {
        let mut t = quote(sorted[k].0.as_str());
        push_str(&mut t, ":");
        push_str(&mut t, sorted[k].1.as_str());
        let ghost before = string_views(texts@);
        proof {
            assert(pair_views(sorted@)[k as int] == (sorted@[k as int].0@, sorted@[k as int].1@));
            assert(member_texts(pair_views(sorted@))[k as int] == json_string_text(sorted@[k as int].0@) + ":"@ + sorted@[k as int].1@);
        }
        let ghost tv = t@;
        texts.push(t);
        assert(string_views(texts@) =~= before.push(tv));
        assert(string_views(texts@) =~= member_texts(pair_views(sorted@)).take(k + 1));
        k = k + 1;
    }
    assert(member_texts(pair_views(sorted@)).take(m as int) =~= member_texts(
        pair_views(sorted@),
    ));
    let mut out = String::new();
    push_str(&mut out, "{");
    push_joined(&mut out, &texts);
    push_str(&mut out, "}");
    out
}

/// Canonicalize a JSON value (JCS): object members sorted by key, no
/// whitespace, strings and numbers as the serializer writes them.
#[verifier::loop_isolation(false)]
pub fn canonicalize_value(value: &JsonValue) -> (r: Result<String, JsonError>)
    ensures
        r is Ok,
        r matches Ok(t) ==> t@ == canon(*value),
    decreases value,
{

    match value {
        JsonValue::Null => Ok(crate::text::string_from("null")),
        JsonValue::Bool(b) => if *b {
            Ok(crate::text::string_from("true"))
        } else {
            Ok(crate::text::string_from("false"))
        },
        JsonValue::Number(t) => Ok(t.clone()),
        JsonValue::Str(s) => Ok(quote(s.as_str())),
        JsonValue::Array(items) => {
            let n = items.len();
            let mut texts: Vec<String> = Vec::new();
            let mut i: usize = 0;
            while i < n
                invariant
                    n == items@.len(),
                    i <= n,
                    string_views(texts@) == canon_items(items@.take(i as int)),
                decreases n - i,
            {
                proof {
                    assert(items@.take(i + 1).drop_last() =~= items@.take(i as int));
                    assert(items@.take(i + 1).last() == items@[i as int]);
                    assert(decreases_to!(items@ => items@[i as int]));
                }
                let t = canonicalize_value(&items[i])?;
                let ghost before = string_views(texts@);
                texts.push(t);
                assert(string_views(texts@) =~= before.push(canon(items@[i as int])));
                i = i + 1;
            }
            assert(items@.take(n as int) =~= items@);
            let mut out = String::new();
            push_str(&mut out, "[");
            push_joined(&mut out, &texts);
            push_str(&mut out, "]");
            Ok(out)
        },
        JsonValue::Object(es) => {
            let n = es.len();
            let mut pairs: Vec<(String, String)> = Vec::new();
            let mut i: usize = 0;
            while i < n
                invariant
                    n == es@.len(),
                    i <= n,
                    pair_views(pairs@) == member_pairs(es@.take(i as int)),
                decreases n - i,
            {
                proof {
                    assert(es@.take(i + 1).drop_last() =~= es@.take(i as int));
                    assert(es@.take(i + 1).last() == es@[i as int]);
                    assert(decreases_to!(es@ => es@[i as int]));
                    assert(decreases_to!(es@[i as int] => es@[i as int].1));
                }
                let t = canonicalize_value(&es[i].1)?;
                let ghost before = pair_views(pairs@);
                pairs.push((es[i].0.clone(), t));
                assert(pair_views(pairs@) =~= before.push((es@[i as int].0@, canon(es@[i as int].1))));
                i = i + 1;
            }
            assert(es@.take(n as int) =~= es@);
            Ok(object_text(pairs))
        },
    }
}

/// Canonicalize a JSON value (JCS).
pub fn canonicalize(value: &JsonValue) -> (r: Result<String, JsonError>)
    ensures
        r is Ok,
        r matches Ok(t) ==> t@ == canon(*value),
{
    canonicalize_value(value)
}

/// The SHA-256 digest of `data`.
pub uninterp spec fn sha256_digest(data: Seq<u8>) -> Seq<u8>;

/// The HMAC-SHA256 tag of `data` under `key`.
pub uninterp spec fn hmac_sha256_tag(key: Seq<u8>, data: Seq<u8>) -> Seq<u8>;

/// Calls `sha2::Sha256::digest`: the result is the name [`sha256_digest`]
/// of the input, 32 bytes long.
#[verifier::external_body]
fn sha256(data: &[u8]) -> (r: Vec<u8>)
    ensures
        r@ == sha256_digest(data@),
        r@.len() == 32,
{
    sha2::Sha256::digest(data).to_vec()
}

/// Computes HMAC-SHA256 with the `hmac` crate (`Mac::new_from_slice`,
/// `update`, `finalize`): the result is the name [`hmac_sha256_tag`] of
/// key and data, 32 bytes long. `new_from_slice` accepts a key of any
/// length for HMAC, so the `expect` never fires.
#[verifier::external_body]
fn hmac_sha256(key: &[u8], data: &[u8]) -> (r: Vec<u8>)
    ensures
        r@ == hmac_sha256_tag(key@, data@),
        r@.len() == 32,
{
    let mut mac = hmac::Hmac::<sha2::Sha256>::new_from_slice(key).expect("any key length");
    mac.update(data);
    mac.finalize().into_bytes().to_vec()
}

/// The lowercase hexadecimal digit for `n < 16`.
pub open spec fn hex_digit(n: u8) -> char {
    if n < 10 {
        ((48 + n) as u32) as char
    } else {
        ((87 + n) as u32) as char
    }
}

/// `data` as lowercase hexadecimal, two digits per byte.
pub open spec fn hex_lower(data: Seq<u8>) -> Seq<char>
    decreases data.len(),
{
    if data.len() == 0 {
        Seq::empty()
    } else {
        seq![hex_digit(data[0] / 16), hex_digit(data[0] % 16)] + hex_lower(data.drop_first())
    }
}

/// Calls `hex::encode`, which writes each byte as two lowercase
/// hexadecimal digits.
#[verifier::external_body]
pub(crate) fn hex_encode(data: &[u8]) -> (r: String)
    ensures
        r@ == hex_lower(data@),
{
    hex::encode(data)
}

/// Hex text is twice as long as its bytes.
pub proof fn lemma_hex_len(data: Seq<u8>)
    ensures
        hex_lower(data).len() == 2 * data.len(),
    decreases data.len(),
{
    if data.len() > 0 {
        lemma_hex_len(data.drop_first());
    }
}

/// Raw SHA-256 hash (hex-encoded).
pub fn sha256_hex(data: &[u8]) -> (r: String)
    ensures
        r@ == hex_lower(sha256_digest(data@)),
        r@.len() == 64,
{
    let d = sha256(data);
    proof {
        lemma_hex_len(d@);
    }
    hex_encode(d.as_slice())
}

/// SHA-256 of the canonical text's UTF-8 bytes, hex-encoded.
pub fn hash_canonical(value: &JsonValue) -> (r: Result<String, JsonError>)
    ensures
        r is Ok,
        r matches Ok(h) ==> h@ == hex_lower(sha256_digest(encode_utf8(canon(*value)))),
{
    let c = canonicalize(value)?;
    Ok(sha256_hex(c.as_str().as_bytes()))
}

/// HMAC-SHA256 of the canonical text's UTF-8 bytes under `key`,
/// hex-encoded.
pub fn hmac_sign(value: &JsonValue, key: &[u8]) -> (r: Result<String, JsonError>)
    ensures
        r is Ok,
        r matches Ok(h) ==> h@ == hex_lower(hmac_sha256_tag(key@, encode_utf8(canon(*value)))),
{
    let c = canonicalize(value)?;
    let tag = hmac_sha256(key, c.as_str().as_bytes());
    Ok(hex_encode(tag.as_slice()))
}

/// Whether `signature` is the HMAC-SHA256 signature [`hmac_sign`] gives
/// for `value` under `key`.
pub fn hmac_verify(value: &JsonValue, key: &[u8], signature: &str) -> (r: Result<bool, JsonError>)
    ensures
        r is Ok,
        r matches Ok(b) ==> (b <==> signature@ == hex_lower(
            hmac_sha256_tag(key@, encode_utf8(canon(*value))),
        )),
{
    let expected = hmac_sign(value, key)?;
    let a = chars_of(expected.as_str());
    let b = chars_of(signature);
    Ok(same_in_full(a.as_slice(), b.as_slice()))
}

/// Whether `a` and `b` are the same text, comparing every character
/// position they share rather than stopping at the first difference.
fn same_in_full(a: &[char], b: &[char]) -> (r: bool)
    ensures
        r == (a@ == b@),
{
    let n = if a.len() < b.len() {
        a.len()
    } else {
        b.len()
    };
    let mut acc: usize = 0;
    let mut i: usize = 0;
    while i < n
        invariant
            i <= n,
            n <= a.len(),
            n <= b.len(),
            n == a.len() || n == b.len(),
            acc <= i,
            (acc == 0) == (forall|j: int| 0 <= j < i ==> a@[j] == b@[j]),
        decreases n - i,
    {
        let d: usize = if a[i] == b[i] {
            0
        } else {
            1
        };
        acc = acc + d;
        i = i + 1;
    }
    let same = a.len() == b.len() && acc == 0;
    proof {
        if same {
            assert(a@ =~= b@);
        } else if a@.len() == b@.len() {
            let j = choose|j: int| 0 <= j < n && a@[j] != b@[j];
            assert(a@[j] != b@[j]);
        }
    }
    same
}

/// No text sorts before itself.
pub proof fn lemma_key_lt_irreflexive(a: Seq<char>)
    ensures
        !key_lt(a, a),
    decreases a.len(),
{
    if a.len() > 0 {
        lemma_key_lt_irreflexive(a.drop_first());
    }
}

/// The key order is transitive.
pub proof fn lemma_key_lt_transitive(a: Seq<char>, b: Seq<char>, c: Seq<char>)
    requires
        key_lt(a, b),
        key_lt(b, c),
    ensures
        key_lt(a, c),
    decreases a.len(),
{
    if a.len() > 0 && b.len() > 0 && c.len() > 0 && a[0] == b[0] && b[0] == c[0] {
        lemma_key_lt_transitive(a.drop_first(), b.drop_first(), c.drop_first());
    }
}

/// Of two different texts, one sorts before the other.
pub proof fn lemma_key_lt_total(a: Seq<char>, b: Seq<char>)
    ensures
        a == b || key_lt(a, b) || key_lt(b, a),
    decreases a.len(),
{
    if a.len() > 0 && b.len() > 0 && a[0] == b[0] {
        lemma_key_lt_total(a.drop_first(), b.drop_first());
        if a.drop_first() == b.drop_first() {
            assert(a =~= seq![a[0]] + a.drop_first());
            assert(b =~= seq![b[0]] + b.drop_first());
        }
    } else if a.len() > 0 && b.len() > 0 {
        vstd::utf8::char_u32_cast(a[0], a[0] as u32);
        vstd::utf8::char_u32_cast(b[0], b[0] as u32);
    } else if a.len() == 0 && b.len() == 0 {
        assert(a =~= b);
    }
}

/// Members ordered by key: no later key sorts before an earlier one.
pub open spec fn sorted_by_key(s: Seq<(Seq<char>, Seq<char>)>) -> bool {
    forall|i: int, j: int| 0 <= i < j < s.len() ==> !key_lt(#[trigger] s[j].0, #[trigger] s[i].0)
}

/// Inserting keeps the members, plus the one inserted.
proof fn lemma_insert_member_multiset(x: (Seq<char>, Seq<char>), s: Seq<(Seq<char>, Seq<char>)>)
    ensures
        insert_member(x, s).to_multiset() == s.to_multiset().insert(x),
        insert_member(x, s).len() == s.len() + 1,
    decreases s.len(),
{
    broadcast use vstd::seq_lib::group_to_multiset_ensures;
    if s.len() == 0 {
        assert(seq![x] =~= Seq::<(Seq<char>, Seq<char>)>::empty().push(x));
    } else if key_lt(x.0, s[0].0) {
        assert(seq![x] + s =~= s.insert(0, x));
    } else {
        lemma_insert_member_multiset(x, s.drop_first());
        let t = insert_member(x, s.drop_first());
        assert(seq![s[0]] + t =~= t.insert(0, s[0]));
        assert(s =~= s.drop_first().insert(0, s[0]));
    }
}

/// Inserting into sorted members keeps them sorted.
proof fn lemma_insert_member_sorted(x: (Seq<char>, Seq<char>), s: Seq<(Seq<char>, Seq<char>)>)
    requires
        sorted_by_key(s),
    ensures
        sorted_by_key(insert_member(x, s)),
    decreases s.len(),
{
    if s.len() == 0 {
    } else if key_lt(x.0, s[0].0) {
        let r = seq![x] + s;
        assert forall|i: int, j: int| 0 <= i < j < r.len() implies !key_lt(#[trigger] r[j].0, #[trigger] r[i].0) by {
            if i == 0 {
                assert(r[j] == s[j - 1]);
                if key_lt(s[j - 1].0, x.0) {
                    lemma_key_lt_transitive(s[j - 1].0, x.0, s[0].0);
                    if j - 1 == 0 {
                        lemma_key_lt_irreflexive(s[0].0);
                    }
                }
            } else {
                assert(r[i] == s[i - 1] && r[j] == s[j - 1]);
            }
        }
    } else {
        let rest = s.drop_first();
        assert(sorted_by_key(rest)) by {
            assert forall|i: int, j: int| 0 <= i < j < rest.len() implies !key_lt(#[trigger] rest[j].0, #[trigger] rest[i].0) by {
                assert(rest[i] == s[i + 1] && rest[j] == s[j + 1]);
            }
        }
        lemma_insert_member_sorted(x, rest);
        lemma_insert_member_multiset(x, rest);
        let t = insert_member(x, rest);
        let r = seq![s[0]] + t;
        assert forall|i: int, j: int| 0 <= i < j < r.len() implies !key_lt(#[trigger] r[j].0, #[trigger] r[i].0) by {
            if i == 0 {
                let e = t[j - 1];
                assert(r[j] == e);
                assert(t.to_multiset().count(e) > 0) by {
                    broadcast use vstd::seq_lib::group_to_multiset_ensures;
                    assert(t.contains(e));
                }
                assert(rest.to_multiset().insert(x).count(e) > 0);
                if e != x {
                    assert(rest.to_multiset().count(e) > 0);
                    broadcast use vstd::seq_lib::group_to_multiset_ensures;
                    assert(rest.contains(e));
                    let k = choose|k: int| 0 <= k < rest.len() && rest[k] == e;
                    assert(s[k + 1] == e);
                    assert(!key_lt(s[k + 1].0, s[0].0));
                } else {
                    lemma_key_lt_total(x.0, s[0].0);
                    if key_lt(x.0, s[0].0) {
                    }
                }
            } else {
                assert(r[i] == t[i - 1] && r[j] == t[j - 1]);
            }
        }
    }
}

/// Sorting orders members by key and keeps exactly the members it was
/// given.
pub proof fn law_sort_members(ps: Seq<(Seq<char>, Seq<char>)>)
    ensures
        sorted_by_key(sort_members(ps)),
        sort_members(ps).to_multiset() == ps.to_multiset(),
    decreases ps.len(),
{
    broadcast use vstd::seq_lib::group_to_multiset_ensures;
    if ps.len() > 0 {
        law_sort_members(ps.drop_last());
        lemma_insert_member_sorted(ps.last(), sort_members(ps.drop_last()));
        lemma_insert_member_multiset(ps.last(), sort_members(ps.drop_last()));
        assert(ps =~= ps.drop_last().push(ps.last()));
    } else {
        assert(sort_members(ps).to_multiset() =~= ps.to_multiset());
    }
}

} // verus!
