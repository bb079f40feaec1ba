//! IRC protocol lines the server builds for channel joins, and channel
//! name normalization.
use vstd::prelude::*;
use crate::text::{chars_of, lowercase, push_str, string_of, to_lowercase_chars};

verus! {

/// Channel names are compared lowercased (`str::to_lowercase`).
pub fn normalize_channel(name: &str) -> (r: String)
    ensures
        r@ == lowercase(name@),
{
    let l = to_lowercase_chars(chars_of(name).as_slice());
    string_of(l.as_slice())
}

/// The account field of an extended JOIN: the DID, or `*` when there is none.
pub open spec fn account_of(did: Option<&str>) -> Seq<char> {
    match did {
        Some(d) => d@,
        None => "*"@,
    }
}

/// A JOIN line for extended-join capable clients:
/// `:nick!user@host JOIN #channel account :realname`.
pub fn make_extended_join(hostmask: &str, channel: &str, did: Option<&str>, realname: &str) -> (r:
    String)
    ensures
        r@ == ":"@ + hostmask@ + " JOIN "@ + channel@ + " "@ + account_of(did) + " :"@ + realname@
            + "\r\n"@,
{
    let account = match did {
        Some(d) => d,
        None => "*",
    };
    let mut s = String::new();
    push_str(&mut s, ":");
    push_str(&mut s, hostmask);
    push_str(&mut s, " JOIN ");
    push_str(&mut s, channel);
    push_str(&mut s, " ");
    push_str(&mut s, account);
    push_str(&mut s, " :");
    push_str(&mut s, realname);
    push_str(&mut s, "\r\n");
    s
}

/// A standard JOIN line: `:nick!user@host JOIN #channel`.
pub fn make_standard_join(hostmask: &str, channel: &str) -> (r: String)
    ensures
        r@ == ":"@ + hostmask@ + " JOIN "@ + channel@ + "\r\n"@,
{
    let mut s = String::new();
    push_str(&mut s, ":");
    push_str(&mut s, hostmask);
    push_str(&mut s, " JOIN ");
    push_str(&mut s, channel);
    push_str(&mut s, "\r\n");
    s
}

} // verus!
