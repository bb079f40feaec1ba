//! Replaying stored channel messages to a client (on JOIN and for
//! CHATHISTORY): which tags each message carries, and the batch that
//! frames them.
use vstd::prelude::*;
use crate::clock::{server_time, server_time_text};
use crate::tags::TagMap;
use crate::text::{dec, push_str, string_from, u64_decimal};

verus! {

/// `m` with `k` set to the text of `v`, when there is one.
pub open spec fn with_tag(m: Map<Seq<char>, Seq<char>>, k: Seq<char>, v: Option<Seq<char>>) -> Map<Seq<char>, Seq<char>> {
    match v {
        Some(x) => m.insert(k, x),
        None => m,
    }
}

/// The tags a replayed message carries for a client: its stored tags
/// when the client negotiated `message-tags`, then `time` (the message's
/// second, when it negotiated `server-time`) and `batch` (when it
/// negotiated `batch`).
pub open spec fn replay_tag_map(
    stored: Map<Seq<char>, Seq<char>>,
    message_tags: bool,
    time: Option<u64>,
    batch: Option<Seq<char>>,
) -> Map<Seq<char>, Seq<char>> {
    with_tag(
        with_tag(
            if message_tags {
                stored
            } else {
                Map::empty()
            },
            "time"@,
            match time {
                Some(t) => Some(server_time_text(t)),
                None => None,
            },
        ),
        "batch"@,
        batch,
    )
}

/// The tags a replayed message carries for a client; `time` is the
/// message's second when the client negotiated `server-time`, `batch`
/// the batch id when it negotiated `batch`.
pub fn replay_tags(stored: &TagMap, message_tags: bool, time: Option<u64>, batch: Option<&str>) -> (r: TagMap)
    ensures
        r@ == replay_tag_map(
            stored@,
            message_tags,
            time,
            match batch {
                Some(b) => Some(b@),
                None => None,
            },
        ),
{
    let mut m = if message_tags {
        stored.duplicate()
    } else {
        TagMap::new()
    };
    match time {
        Some(t) => {
            let text = server_time(t);
            m.insert("time", text.as_str());
        },
        None => {},
    }
    match batch {
        Some(b) => m.insert("batch", b),
        None => {},
    }
    m
}

/// Whether a replayed message goes out with its tags: only to a client
/// that negotiated `message-tags`, and only when there are tags.
pub fn replay_tagged(tags: &TagMap, message_tags: bool) -> (r: bool)
    ensures
        r == (message_tags && tags@.dom().len() > 0),
{
    message_tags && tags.len() > 0
}

/// A batch id: `prefix` and the byte length of the session id.
pub fn batch_id(prefix: &str, session_id: &str) -> (r: String)
    ensures
        r@ == prefix@ + dec(vstd::utf8::encode_utf8(session_id@).len()),
{
    let n = session_id.as_bytes().len();
    let d = u64_decimal(n as u64);
    let mut s = string_from(prefix);
    push_str(&mut s, d.as_str());
    s
}

/// `:<server> BATCH +<id> chathistory <target>`: the line opening a
/// replay.
pub fn batch_start(server_name: &str, id: &str, target: &str) -> (r: String)
    ensures
        r@ == ":"@ + server_name@ + " BATCH +"@ + id@ + " chathistory "@ + target@ + "\r\n"@,
{
    let mut s = string_from(":");
    push_str(&mut s, server_name);
    push_str(&mut s, " BATCH +");
    push_str(&mut s, id);
    push_str(&mut s, " chathistory ");
    push_str(&mut s, target);
    push_str(&mut s, "\r\n");
    s
}

/// `:<server> BATCH -<id>`: the line closing a replay.
pub fn batch_end(server_name: &str, id: &str) -> (r: String)
    ensures
        r@ == ":"@ + server_name@ + " BATCH -"@ + id@ + "\r\n"@,
{
    let mut s = string_from(":");
    push_str(&mut s, server_name);
    push_str(&mut s, " BATCH -");
    push_str(&mut s, id);
    push_str(&mut s, "\r\n");
    s
}

} // verus!
