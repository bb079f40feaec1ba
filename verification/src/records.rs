//! AT Protocol records for forkable personas: the record types, AT-URI
//! parsing and printing, and the fork-graph edge a record implies.
use vstd::prelude::*;
use crate::text::{
    chars_of, find, find_in, lemma_find_is, lemma_find_some, occurs_at, push_str, starts_at,
    starts_with, string_of, sub_chars,
};

verus! {

/// Collection / NSID for persona records.
pub const PERSONA_NSID: &'static str = "at.freeq.persona";

/// Collection / NSID for character records.
pub const CHARACTER_NSID: &'static str = "at.freeq.character";

/// The `$type` a persona record carries by default.
pub fn persona_type() -> (r: String)
    ensures
        r@ == PERSONA_NSID@,
{
    let c = chars_of(PERSONA_NSID);
    string_of(c.as_slice())
}

/// `at.freeq.persona#voice` — the base TTS voice.
#[derive(Debug, Clone, PartialEq)]
pub struct PersonaVoice {
    pub provider: String,
    pub voice_id: String,
    pub speed_milli: Option<i64>,
}

/// `at.freeq.persona#face` — the character the persona wears.
#[derive(Debug, Clone, PartialEq, Default)]
pub struct PersonaFace {
    pub character: Option<String>,
    pub pack: Option<String>,
}

/// An `at.freeq.persona` record.
#[derive(Debug, Clone, PartialEq)]
pub struct PersonaRecord {
    pub record_type: String,
    pub name: String,
    pub system_prompt: String,
    pub greeting: Option<String>,
    pub voice: Option<PersonaVoice>,
    pub face: Option<PersonaFace>,
    pub forked_from: Option<String>,
    pub created_at: String,
}

/// A parsed `at://authority/collection/rkey` URI.
#[derive(Debug, Clone, PartialEq, Eq)]
pub struct AtUri {
    /// The repo authority — a DID (or handle).
    pub authority: String,
    pub collection: String,
    pub rkey: String,
}

/// The components of a parsed AT-URI.
pub struct AtUriView {
    pub authority: Seq<char>,
    pub collection: Seq<char>,
    pub rkey: Seq<char>,
}

impl View for AtUri {
    type V = AtUriView;

    open spec fn view(&self) -> AtUriView {
        AtUriView {
            authority: self.authority@,
            collection: self.collection@,
            rkey: self.rkey@,
        }
    }
}

/// The `at://` scheme prefix.
pub open spec fn at_prefix() -> Seq<char> {
    seq!['a', 't', ':', '/', '/']
}

/// The parse of `uri`: after the `at://` prefix, the text up to the
/// first `/` is the authority, up to the second `/` the collection, and
/// the rest the record key; each must be non-empty.
pub open spec fn parse_at_uri(uri: Seq<char>) -> Option<AtUriView> {
    if !starts_with(uri, at_prefix()) {
        None
    } else {
        let rest = uri.skip(5);
        match find(rest, seq!['/']) {
            None => None,
            Some(i) => {
                let after = rest.skip(i + 1);
                match find(after, seq!['/']) {
                    None => None,
                    Some(j) => {
                        let authority = rest.take(i);
                        let collection = after.take(j);
                        let rkey = after.skip(j + 1);
                        if authority.len() == 0 || collection.len() == 0 || rkey.len() == 0 {
                            None
                        } else {
                            Some(AtUriView { authority, collection, rkey })
                        }
                    },
                }
            },
        }
    }
}

/// The printed form `at://authority/collection/rkey`.
pub open spec fn format_at_uri(u: AtUriView) -> Seq<char> {
    at_prefix() + u.authority + seq!['/'] + u.collection + seq!['/'] + u.rkey
}

impl AtUri {
    /// Parse `at://did/collection/rkey`. `None` if it isn't a
    /// fully-qualified record URI.
    pub fn parse(uri: &str) -> (r: Option<AtUri>)
        ensures
            match r {
                Some(u) => parse_at_uri(uri@) == Some(u@),
                None => parse_at_uri(uri@) is None,
            },
    {
        let s = chars_of(uri);
        let n = s.len();
        let prefix = vec!['a', 't', ':', '/', '/'];
        let slash = vec!['/'];
        assert(prefix@ =~= at_prefix());
        assert(slash@ =~= seq!['/']);
        if !starts_at(s.as_slice(), 0, prefix.as_slice()) {
            assert(s@.skip(0) =~= s@);
            return None;
        }
        assert(s@.skip(0) =~= s@);
        let ghost rest = s@.skip(5);
        let i = match find_in(s.as_slice(), 5, slash.as_slice()) {
            Some(i) => i,
            None => return None,
        };
        let b = 5 + i + 1;
        assert(rest.skip(i + 1) =~= s@.skip(b as int));
        let j = match find_in(s.as_slice(), b, slash.as_slice()) {
            Some(j) => j,
            None => return None,
        };
        let authority = sub_chars(s.as_slice(), 5, 5 + i);
        let collection = sub_chars(s.as_slice(), b, b + j);
        let rkey = sub_chars(s.as_slice(), b + j + 1, n);
        assert(authority@ =~= rest.take(i as int));
        assert(collection@ =~= s@.skip(b as int).take(j as int));
        assert(rkey@ =~= s@.skip(b as int).skip(j + 1));
        if authority.len() == 0 || collection.len() == 0 || rkey.len() == 0 {
            return None;
        }
        Some(
            AtUri {
                authority: string_of(authority.as_slice()),
                collection: string_of(collection.as_slice()),
                rkey: string_of(rkey.as_slice()),
            },
        )
    }

    /// The printed form `at://authority/collection/rkey`.
    pub fn to_string(&self) -> (r: String)
        ensures
            r@ == format_at_uri(self@),
    {
        let mut s = String::new();
        push_str(&mut s, "at://");
        push_str(&mut s, self.authority.as_str());
        push_str(&mut s, "/");
        push_str(&mut s, self.collection.as_str());
        push_str(&mut s, "/");
        push_str(&mut s, self.rkey.as_str());
        proof {
            reveal_strlit("at://");
            reveal_strlit("/");
            assert("at://"@ =~= at_prefix());
        }
        s
    }
}

/// The fork-graph edge a persona record implies, given its own at://
/// URI: `(parent_uri, child_uri, forked_by_did)` when the record is a
/// fork (`forked_from` set), else `None`. `forked_by` is the child URI's
/// authority — the DID that signed the fork.
pub fn persona_fork_edge(record_uri: &str, rec: &PersonaRecord) -> (r: Option<
    (String, String, Option<String>),
>)
    ensures
        match r {
            Some((parent, child, by)) => {
                &&& rec.forked_from matches Some(p) && parent@ == p@
                &&& child@ == record_uri@
                &&& match by {
                    Some(d) => parse_at_uri(record_uri@) matches Some(u) && d@ == u.authority,
                    None => parse_at_uri(record_uri@) is None,
                }
            },
            None => rec.forked_from is None,
        },
{
    let parent = match &rec.forked_from {
        Some(p) => p.clone(),
        None => return None,
    };
    let forked_by = match AtUri::parse(record_uri) {
        Some(u) => Some(u.authority),
        None => None,
    };
    let c = chars_of(record_uri);
    Some((parent, string_of(c.as_slice()), forked_by))
}

/// A component that can stand between slashes: non-empty, without `/`.
pub open spec fn is_segment(c: Seq<char>) -> bool {
    c.len() > 0 && forall|i: int| 0 <= i < c.len() ==> c[i] != '/'
}

proof fn lemma_slash_first(a: Seq<char>, tail: Seq<char>)
    requires
        forall|i: int| 0 <= i < a.len() ==> a[i] != '/',
    ensures
        find(a + seq!['/'] + tail, seq!['/']) == Some(a.len() as int),
{
    let s = a + seq!['/'] + tail;
    assert(s.subrange(a.len() as int, a.len() + 1 as int) =~= seq!['/']);
    assert forall|j: int| 0 <= j < a.len() implies !occurs_at(s, seq!['/'], j) by {
        assert(s.subrange(j, j + 1)[0] == a[j]);
    }
    lemma_find_is(s, seq!['/'], a.len() as int);
}

/// Printing then parsing an AT-URI whose authority and collection are
/// slash-free non-empty segments and whose record key is non-empty gives
/// back the same URI.
pub proof fn law_at_uri_format_then_parse(u: AtUriView)
    requires
        is_segment(u.authority),
        is_segment(u.collection),
        u.rkey.len() > 0,
    ensures
        parse_at_uri(format_at_uri(u)) == Some(u),
{
    let s = format_at_uri(u);
    assert(s.subrange(0, 5) =~= at_prefix());
    let rest = s.skip(5);
    let after = u.collection + seq!['/'] + u.rkey;
    assert(rest =~= u.authority + seq!['/'] + after);
    lemma_slash_first(u.authority, after);
    assert(rest.skip(u.authority.len() as int + 1) =~= after);
    lemma_slash_first(u.collection, u.rkey);
    assert(rest.take(u.authority.len() as int) =~= u.authority);
    assert(after.take(u.collection.len() as int) =~= u.collection);
    assert(after.skip(u.collection.len() as int + 1) =~= u.rkey);
}

/// Parsing an AT-URI and printing it again gives back the input.
pub proof fn law_at_uri_parse_then_format(uri: Seq<char>)
    requires
        parse_at_uri(uri) is Some,
    ensures
        format_at_uri(parse_at_uri(uri)->0) == uri,
{
    let rest = uri.skip(5);
    lemma_find_some(rest, seq!['/']);
    let i = find(rest, seq!['/'])->0;
    assert(occurs_at(rest, seq!['/'], i));
    let after = rest.skip(i + 1);
    lemma_find_some(after, seq!['/']);
    let j = find(after, seq!['/'])->0;
    assert(occurs_at(after, seq!['/'], j));
    let u = parse_at_uri(uri)->0;
    assert(u.authority == rest.take(i));
    assert(u.collection == after.take(j));
    assert(u.rkey == after.skip(j + 1));
    lemma_split_at_slash(after, j);
    lemma_split_at_slash(rest, i);
    assert(uri =~= at_prefix() + rest);
}

proof fn lemma_split_at_slash(s: Seq<char>, i: int)
    requires
        occurs_at(s, seq!['/'], i),
    ensures
        s == s.take(i) + seq!['/'] + s.skip(i + 1),
{
    assert(s[i] == s.subrange(i, i + 1)[0]);
    assert(s =~= s.take(i) + seq!['/'] + s.skip(i + 1));
}
} // verus!
