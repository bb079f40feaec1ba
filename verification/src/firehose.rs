//! Reading the fork graph out of a Jetstream feed: a commit event
//! `{did, kind, commit: {operation, collection, rkey, record}}` that
//! creates or updates an `at.freeq.persona` record names the record's
//! own `at://` URI and carries the record, from which the fork edge is
//! derived as for a pushed record.
use vstd::prelude::*;
use crate::json::{member, str_of, JsonValue};
use crate::records::{format_at_uri, AtUri, AtUriView, PERSONA_NSID};
use crate::text::{chars_of, eq_chars, string_from};

verus! {

/// The string member `k` of `v`, if `v` is an object holding one.
pub open spec fn str_member(v: JsonValue, k: Seq<char>) -> Option<Seq<char>> {
    str_of(member(v, k))
}

/// For a Jetstream commit that creates or updates a persona record: the
/// record's `at://` URI (the repo DID, the collection and the rkey) and
/// the record. `None` for any other event, or when a member is missing.
pub open spec fn persona_commit_spec(ev: JsonValue) -> Option<(Seq<char>, JsonValue)> {
    if str_member(ev, "kind"@) != Some("commit"@) {
        None
    } else {
        match (str_member(ev, "did"@), member(ev, "commit"@)) {
            (Some(did), Some(c)) => match str_member(c, "operation"@) {
                Some(op) => if op != "create"@ && op != "update"@ {
                    None
                } else {
                    match str_member(c, "collection"@) {
                        Some(coll) => if coll != PERSONA_NSID@ {
                            None
                        } else {
                            match (str_member(c, "rkey"@), member(c, "record"@)) {
                                (Some(rkey), Some(rec)) => Some(
                                    (format_at_uri(AtUriView { authority: did, collection: coll, rkey }), rec),
                                ),
                                _ => None,
                            }
                        },
                        None => None,
                    }
                },
                None => None,
            },
            _ => None,
        }
    }
}

/// Whether `s` holds exactly the characters of `lit`.
fn is_text(s: &str, lit: &str) -> (r: bool)
    ensures
        r == (s@ == lit@),
{
    let a = chars_of(s);
    let b = chars_of(lit);
    eq_chars(a.as_slice(), b.as_slice())
}

/// The string member `k` of `v`.
fn get_str<'a>(v: &'a JsonValue, k: &str) -> (r: Option<&'a str>)
    ensures
        match r {
            Some(s) => str_member(*v, k@) == Some(s@),
            None => str_member(*v, k@) is None,
        },
{
    match v.get(k) {
        Some(x) => x.as_str(),
        None => None,
    }
}

/// The URI and record of a Jetstream commit that creates or updates a
/// persona record, or `None`.
pub fn persona_commit(event: &JsonValue) -> (r: Option<(String, &JsonValue)>)
    ensures
        match r {
            Some((uri, rec)) => persona_commit_spec(*event) == Some((uri@, *rec)),
            None => persona_commit_spec(*event) is None,
        },
{
    match get_str(event, "kind") {
        Some(k) => {
            if !is_text(k, "commit") {
                return None;
            }
        },
        None => return None,
    }
    let did = match get_str(event, "did") {
        Some(d) => d,
        None => return None,
    };
    let commit = match event.get("commit") {
        Some(c) => c,
        None => return None,
    };
    let op = match get_str(commit, "operation") {
        Some(o) => o,
        None => return None,
    };
    if !is_text(op, "create") && !is_text(op, "update") {
        return None;
    }
    let collection = match get_str(commit, "collection") {
        Some(c) => c,
        None => return None,
    };
    if !is_text(collection, PERSONA_NSID) {
        return None;
    }
    let rkey = match get_str(commit, "rkey") {
        Some(k) => k,
        None => return None,
    };
    let record = match commit.get("record") {
        Some(r) => r,
        None => return None,
    };
    let uri = AtUri { authority: string_from(did), collection: string_from(collection), rkey: string_from(rkey) };
    Some((uri.to_string(), record))
}

} // verus!
