//! Cluster state shared between servers through an Automerge document
//! with flat keys in its root map:
//!
//! - `topic:{channel}` → JSON `{origin_peer, set_by, set_by_did, text}`
//! - `topic_by:{channel}` → the setter's nick
//! - `ban:{channel}:{mask}` → JSON `{origin_peer, set_by, set_by_did}`
//! - `nick_owner:{nick}` → DID
//! - `founder:{channel}` → JSON `{actor_id, did}`, smallest actor wins
//! - `did_op:{channel}:{did}` → JSON `{granted_by_did, origin_peer}`
//!
//! Presence is not stored here. Sync state is kept per peer id.
use vstd::prelude::*;
use crate::canonical::{json_string_text, object_canon, object_text, pair_views, quote};
use crate::text::{
    chars_of, eq_chars, key_lt, push_str, starts_at, starts_with, string_from, string_of,
    sub_chars,
};

verus! {

#[verifier::external_type_specification]
#[verifier::external_body]
pub struct ExAutoCommit(automerge::AutoCommit);

#[verifier::external_type_specification]
#[verifier::external_body]
pub struct ExSyncState(automerge::sync::State);

#[verifier::external_type_specification]
#[verifier::external_body]
pub struct ExSyncMessage(automerge::sync::Message);

#[verifier::external_type_specification]
#[verifier::external_body]
pub struct ExAutomergeError(automerge::AutomergeError);

#[verifier::external_type_specification]
#[verifier::external_body]
pub struct ExReadMessageError(automerge::sync::ReadMessageError);

/// What the root map of a document holds: each key with its string
/// value, or `None` for a value that is not a string.
pub uninterp spec fn doc_root(d: automerge::AutoCommit) -> Map<Seq<char>, Option<Seq<char>>>;

/// The root map of the document that saved bytes `data` load into, if
/// they load.
pub uninterp spec fn saved_root(data: Seq<u8>) -> Option<Map<Seq<char>, Option<Seq<char>>>>;

/// Whether `text` parses as JSON (outer `Some`) and, if so, the string
/// its top-level member `field` holds, if it is a string.
pub uninterp spec fn json_str_field(text: Seq<char>, field: Seq<char>) -> Option<Option<Seq<char>>>;

/// Calls `AutoCommit::new().with_actor(..)`: an empty document whose
/// changes are made as actor `actor`.
#[verifier::external_body]
fn doc_new(actor: &str) -> (r: automerge::AutoCommit)
    ensures
        doc_root(r) =~= Map::empty(),
{
    automerge::AutoCommit::new().with_actor(automerge::ActorId::from(actor.as_bytes()))
}

/// Calls `AutoCommit::set_actor`; the contents stay as they are.
#[verifier::external_body]
fn doc_set_actor(d: &mut automerge::AutoCommit, actor: &str)
    ensures
        doc_root(*final(d)) == doc_root(*old(d)),
{
    d.set_actor(automerge::ActorId::from(actor.as_bytes()));
}

/// Calls `AutoCommit::load`: it succeeds exactly on bytes that load, into
/// the document [`saved_root`] names.
#[verifier::external_body]
fn doc_load(data: &[u8]) -> (r: Result<automerge::AutoCommit, automerge::AutomergeError>)
    ensures
        r is Ok <==> saved_root(data@) is Some,
        r matches Ok(d) ==> saved_root(data@) == Some(doc_root(d)),
{
    automerge::AutoCommit::load(data)
}

/// Calls `AutoCommit::save`: the contents stay as they are, and the bytes
/// load back into the same contents.
#[verifier::external_body]
fn doc_save(d: &mut automerge::AutoCommit) -> (r: Vec<u8>)
    ensures
        doc_root(*final(d)) == doc_root(*old(d)),
        saved_root(r@) == Some(doc_root(*old(d))),
{
    d.save()
}

/// Calls `Transactable::put` on the root map: key `key` then holds the
/// string `value`.
#[verifier::external_body]
fn doc_put(d: &mut automerge::AutoCommit, key: &str, value: &str)
    ensures
        doc_root(*final(d)) == doc_root(*old(d)).insert(key@, Some(value@)),
{
    let _ = automerge::transaction::Transactable::put(d, automerge::ROOT, key, value);
}

/// Calls `Transactable::delete` on the root map: key `key` is then absent.
#[verifier::external_body]
fn doc_delete(d: &mut automerge::AutoCommit, key: &str)
    ensures
        doc_root(*final(d)) == doc_root(*old(d)).remove(key@),
{
    let _ = automerge::transaction::Transactable::delete(d, automerge::ROOT, key);
}

/// The string value at `k` in `root`, if there is one.
pub open spec fn str_at(root: Map<Seq<char>, Option<Seq<char>>>, k: Seq<char>) -> Option<Seq<char>> {
    if root.contains_key(k) {
        root[k]
    } else {
        None
    }
}

/// Calls `ReadDoc::get` on the root map and reads a string value.
#[verifier::external_body]
fn doc_get(d: &automerge::AutoCommit, key: &str) -> (r: Option<String>)
    ensures
        opt_view(r) == str_at(doc_root(*d), key@),
{
    match automerge::ReadDoc::get(d, automerge::ROOT, key) {
        Ok(Some((automerge::Value::Scalar(s), _))) => match s.as_ref() {
            automerge::ScalarValue::Str(t) => Some(t.to_string()),
            _ => None,
        },
        _ => None,
    }
}

/// Calls `ReadDoc::map_range` over the whole root map: every key once,
/// each with its string value (or `None`).
#[verifier::external_body]
fn doc_entries(d: &automerge::AutoCommit) -> (r: Vec<(String, Option<String>)>)
    ensures
        forall|i: int, j: int| 0 <= i < j < r@.len() ==> (#[trigger] r@[i]).0@ != (#[trigger] r@[j]).0@,
        forall|i: int| 0 <= i < r@.len() ==> doc_root(*d).contains_key((#[trigger] r@[i]).0@) && doc_root(*d)[r@[i].0@] == opt_view(r@[i].1),
        forall|k: Seq<char>| #[trigger] doc_root(*d).contains_key(k) ==> exists|i: int| 0 <= i < r@.len() && (#[trigger] r@[i]).0@ == k,
{
    let mut out = Vec::new();
    for item in automerge::ReadDoc::map_range(d, automerge::ROOT, ..) {
        let v = match item.value {
            automerge::Value::Scalar(s) => match s.as_ref() {
                automerge::ScalarValue::Str(t) => Some(t.to_string()),
                _ => None,
            },
            _ => None,
        };
        out.push((item.key.to_string(), v));
    }
    out
}

/// Counts the keys `ReadDoc::map_range` yields over the root map.
#[verifier::external_body]
fn doc_key_count(d: &automerge::AutoCommit) -> (r: usize)
    ensures
        r == doc_root(*d).dom().len(),
{
    automerge::ReadDoc::map_range(d, automerge::ROOT, ..).count()
}

/// Whether `st` is a peer sync state as `sync::State::new` makes it.
pub uninterp spec fn fresh_sync_state(st: automerge::sync::State) -> bool;

/// What `SyncDoc::generate_sync_message` gives for document `d` and a
/// peer whose sync state is `st`: the encoded message (`None` when the
/// peer is up to date) and the peer's sync state afterwards.
pub uninterp spec fn sync_generated(d: automerge::AutoCommit, st: automerge::sync::State) -> (
    Option<Seq<u8>>,
    automerge::sync::State,
);

/// The message that `sync::Message::decode` reads from `bytes`, if they
/// decode.
pub uninterp spec fn sync_decoded(bytes: Seq<u8>) -> Option<automerge::sync::Message>;

/// What `SyncDoc::receive_sync_message` does with message `m` from a
/// peer whose sync state is `st` in document `d`: the document and the
/// peer's sync state afterwards, or `None` when it fails.
pub uninterp spec fn sync_received(
    d: automerge::AutoCommit,
    st: automerge::sync::State,
    m: automerge::sync::Message,
) -> Option<(automerge::AutoCommit, automerge::sync::State)>;

/// Calls `sync::State::new`: a fresh peer sync state.
#[verifier::external_body]
fn sync_state_new() -> (r: automerge::sync::State)
    ensures
        fresh_sync_state(r),
{
    automerge::sync::State::new()
}

/// The view of optional bytes.
pub open spec fn opt_bytes(o: Option<Vec<u8>>) -> Option<Seq<u8>> {
    match o {
        Some(b) => Some(b@),
        None => None,
    }
}

/// Calls `SyncDoc::generate_sync_message` and encodes the message: the
/// message and the new peer state are [`sync_generated`] of the document
/// and the state as they were; generating does not change the contents.
#[verifier::external_body]
fn sync_generate(d: &mut automerge::AutoCommit, st: &mut automerge::sync::State) -> (r: Option<Vec<u8>>)
    ensures
        doc_root(*final(d)) == doc_root(*old(d)),
        opt_bytes(r) == sync_generated(*old(d), *old(st)).0,
        *final(st) == sync_generated(*old(d), *old(st)).1,
{
    match automerge::sync::SyncDoc::generate_sync_message(&mut d.sync(), st) {
        Some(m) => Some(m.encode()),
        None => None,
    }
}

/// Calls `sync::Message::decode`: the message is [`sync_decoded`] of the
/// bytes, an error exactly when that is `None`.
#[verifier::external_body]
fn sync_decode(bytes: &[u8]) -> (r: Result<automerge::sync::Message, automerge::sync::ReadMessageError>)
    ensures
        match r {
            Ok(m) => sync_decoded(bytes@) == Some(m),
            Err(_) => sync_decoded(bytes@) is None,
        },
{
    automerge::sync::Message::decode(bytes)
}

/// Calls `SyncDoc::receive_sync_message`: the peer's changes are merged
/// in. It succeeds exactly when [`sync_received`] of the document, the
/// state and the message is `Some`, and leaves the document and the
/// state it names; after a failure nothing is claimed of them.
#[verifier::external_body]
fn sync_receive(
    d: &mut automerge::AutoCommit,
    st: &mut automerge::sync::State,
    m: automerge::sync::Message,
) -> (r: Result<(), automerge::AutomergeError>)
    ensures
        r is Ok <==> sync_received(*old(d), *old(st), m) is Some,
        r is Ok ==> sync_received(*old(d), *old(st), m) == Some((*final(d), *final(st))),
{
    automerge::sync::SyncDoc::receive_sync_message(&mut d.sync(), st, m)
}

/// `AutomergeError`'s `Display` text; nothing is claimed of it.
#[verifier::external_body]
fn automerge_error_text(e: &automerge::AutomergeError) -> String {
    e.to_string()
}

/// `ReadMessageError`'s `Display` text; nothing is claimed of it.
#[verifier::external_body]
fn read_message_error_text(e: &automerge::sync::ReadMessageError) -> String {
    e.to_string()
}

/// Calls `serde_json::from_str` into a `Value` and reads the string at
/// its member `field`, as [`json_str_field`] names.
#[verifier::external_body]
fn json_field(text: &str, field: &str) -> (r: Option<Option<String>>)
    ensures
        match r {
            None => json_str_field(text@, field@) is None,
            Some(v) => json_str_field(text@, field@) == Some(opt_view(v)),
        },
{
    match serde_json::from_str::<serde_json::Value>(text) {
        Ok(v) => Some(v.get(field).and_then(|x| x.as_str()).map(|s| s.to_string())),
        Err(_) => None,
    }
}

/// The view of an optional string.
pub open spec fn opt_view(o: Option<String>) -> Option<Seq<char>> {
    match o {
        Some(s) => Some(s@),
        None => None,
    }
}

/// Metrics for observability.
#[derive(Debug, Clone, Copy)]
pub struct CrdtMetrics {
    /// Number of changes applied to the doc.
    pub change_count: u64,
    /// Number of sync messages sent.
    pub sync_messages_sent: u64,
    /// Number of sync messages received.
    pub sync_messages_received: u64,
    /// Total bytes sent in sync messages.
    pub sync_bytes_sent: u64,
    /// Total bytes received in sync messages.
    pub sync_bytes_received: u64,
    /// Last save size in bytes.
    pub last_save_size: u64,
    /// Number of compactions performed.
    pub compaction_count: u64,
}

impl CrdtMetrics {
    /// All counters at zero.
    pub fn new() -> (r: Self)
        ensures
            r.change_count == 0 && r.sync_messages_sent == 0 && r.sync_messages_received == 0
                && r.sync_bytes_sent == 0 && r.sync_bytes_received == 0 && r.last_save_size == 0
                && r.compaction_count == 0,
    {
        CrdtMetrics {
            change_count: 0,
            sync_messages_sent: 0,
            sync_messages_received: 0,
            sync_bytes_sent: 0,
            sync_bytes_received: 0,
            last_save_size: 0,
            compaction_count: 0,
        }
    }
}

impl Default for CrdtMetrics {
    fn default() -> (r: Self)
        ensures
            r.change_count == 0 && r.sync_messages_sent == 0 && r.sync_messages_received == 0
                && r.sync_bytes_sent == 0 && r.sync_bytes_received == 0 && r.last_save_size == 0
                && r.compaction_count == 0,
    {
        CrdtMetrics::new()
    }
}

/// Provenance metadata attached to CRDT values for authority checking.
#[derive(Debug, Clone)]
pub struct Provenance {
    /// The endpoint ID of the server that wrote this value.
    pub origin_peer: String,
    /// The DID that authorized this write (if applicable).
    pub authorized_by_did: Option<String>,
}

/// `"topic:{channel}"`.
pub open spec fn topic_key(c: Seq<char>) -> Seq<char> {
    "topic:"@ + c
}

/// `"topic_by:{channel}"`.
pub open spec fn topic_by_key(c: Seq<char>) -> Seq<char> {
    "topic_by:"@ + c
}

/// `"ban:{channel}:"`.
pub open spec fn ban_prefix(c: Seq<char>) -> Seq<char> {
    "ban:"@ + c + ":"@
}

/// `"nick_owner:{nick}"`.
pub open spec fn nick_key(n: Seq<char>) -> Seq<char> {
    "nick_owner:"@ + n
}

/// `"founder:{channel}"`.
pub open spec fn founder_key(c: Seq<char>) -> Seq<char> {
    "founder:"@ + c
}

/// `"did_op:{channel}:"`.
pub open spec fn did_op_prefix(c: Seq<char>) -> Seq<char> {
    "did_op:"@ + c + ":"@
}

/// A JSON string, or `null`.
pub open spec fn opt_json(o: Option<Seq<char>>) -> Seq<char> {
    match o {
        Some(s) => json_string_text(s),
        None => "null"@,
    }
}

/// The JSON text a topic is stored as.
pub open spec fn topic_text(topic: Seq<char>, set_by: Seq<char>, set_by_did: Option<Seq<char>>, origin_peer: Seq<char>) -> Seq<char> {
    object_canon(
        seq![
            ("text"@, json_string_text(topic)),
            ("set_by"@, json_string_text(set_by)),
            ("set_by_did"@, opt_json(set_by_did)),
            ("origin_peer"@, json_string_text(origin_peer)),
        ],
    )
}

/// The JSON text a ban's provenance is stored as.
pub open spec fn ban_text(set_by: Seq<char>, set_by_did: Option<Seq<char>>, origin_peer: Seq<char>) -> Seq<char> {
    object_canon(
        seq![
            ("set_by"@, json_string_text(set_by)),
            ("set_by_did"@, opt_json(set_by_did)),
            ("origin_peer"@, json_string_text(origin_peer)),
        ],
    )
}

/// The JSON text a founder record is stored as.
pub open spec fn founder_text(did: Seq<char>, actor: Seq<char>) -> Seq<char> {
    object_canon(seq![("did"@, json_string_text(did)), ("actor_id"@, json_string_text(actor))])
}

/// The JSON text an op grant's provenance is stored as.
pub open spec fn grant_text(granted_by_did: Option<Seq<char>>, origin_peer: Seq<char>) -> Seq<char> {
    object_canon(seq![("granted_by_did"@, opt_json(granted_by_did)), ("origin_peer"@, json_string_text(origin_peer))])
}

/// A channel's topic and its setter as stored: from the JSON record
/// (both members must be strings), or, for a record that is not JSON,
/// the plain text with the separately stored setter.
pub open spec fn topic_of(root: Map<Seq<char>, Option<Seq<char>>>, c: Seq<char>) -> Option<(Seq<char>, Seq<char>)> {
    match str_at(root, topic_key(c)) {
        None => None,
        Some(raw) => match json_str_field(raw, "text"@) {
            Some(t) => match (t, json_str_field(raw, "set_by"@)) {
                (Some(text), Some(Some(by))) => Some((text, by)),
                _ => None,
            },
            None => match str_at(root, topic_by_key(c)) {
                Some(by) => Some((raw, by)),
                None => None,
            },
        },
    }
}

/// A channel's founder DID as stored: the `did` of the JSON record, or a
/// plain DID for a record that is not JSON.
pub open spec fn founder_of(root: Map<Seq<char>, Option<Seq<char>>>, c: Seq<char>) -> Option<Seq<char>> {
    match str_at(root, founder_key(c)) {
        None => None,
        Some(raw) => match json_str_field(raw, "did"@) {
            Some(d) => d,
            None => Some(raw),
        },
    }
}

/// Whether setting the founder as actor `actor` writes: when there is no
/// string record, when the record is not JSON, or when `actor` sorts
/// strictly before the record's `actor_id` (a record without one keeps).
pub open spec fn founder_write(root: Map<Seq<char>, Option<Seq<char>>>, c: Seq<char>, actor: Seq<char>) -> bool {
    match str_at(root, founder_key(c)) {
        None => true,
        Some(raw) => match json_str_field(raw, "actor_id"@) {
            None => true,
            Some(a) => key_lt(actor, match a {
                Some(x) => x,
                None => Seq::empty(),
            }),
        },
    }
}

/// The DIDs holding persistent op status in channel `c`: those with a
/// key `did_op:{c}:{did}`.
pub open spec fn did_op_holders(root: Map<Seq<char>, Option<Seq<char>>>, c: Seq<char>) -> Set<Seq<char>> {
    Set::new(|d: Seq<char>| root.contains_key(did_op_prefix(c) + d))
}

/// Whether a write made in channel `c` on behalf of `did` is authorized:
/// without a DID only when not strict; with one when it is the founder's
/// or a DID-op's.
pub open spec fn authorized(root: Map<Seq<char>, Option<Seq<char>>>, c: Seq<char>, did: Option<Seq<char>>, require_did: bool) -> bool {
    match did {
        None => !require_did,
        Some(d) => founder_of(root, c) == Some(d) || did_op_holders(root, c).contains(d),
    }
}

/// `prefix` followed by `rest`.
fn concat(prefix: &str, rest: &str) -> (r: String)
    ensures
        r@ == prefix@ + rest@,
{
    let mut s = string_from(prefix);
    push_str(&mut s, rest);
    s
}

/// A JSON string literal or `null`.
fn opt_json_text(o: Option<&str>) -> (r: String)
    ensures
        r@ == opt_json(match o {
            Some(s) => Some(s@),
            None => None,
        }),
{
    match o {
        Some(s) => quote(s),
        None => string_from("null"),
    }
}

/// The peer ids of sync-state entries.
pub open spec fn peer_ids(s: Seq<(String, automerge::sync::State)>) -> Seq<Seq<char>> {
    s.map_values(|p: (String, automerge::sync::State)| p.0@)
}

/// The sync state `states` keep for `peer`, if any.
pub open spec fn old_peer_state(states: Seq<(String, automerge::sync::State)>, peer: Seq<char>) -> Option<automerge::sync::State> {
    if peer_ids(states).contains(peer) {
        Some(states[peer_ids(states).index_of(peer)].1)
    } else {
        None
    }
}

/// In a sequence without duplicates, the index of an element is where
/// it stands.
pub proof fn lemma_index_of_unique(s: Seq<Seq<char>>, i: int, x: Seq<char>)
    requires
        s.no_duplicates(),
        0 <= i < s.len(),
        s[i] == x,
    ensures
        s.contains(x),
        s.index_of(x) == i,
{
    assert(s.contains(x));
    let j = s.index_of(x);
    assert(0 <= j < s.len() && s[j] == x);
}

/// Wraps an Automerge document for cluster state synchronization.
pub struct ClusterDoc {
    doc: automerge::AutoCommit,
    actor_id: String,
    sync_states: Vec<(String, automerge::sync::State)>,
    /// Observability metrics.
    pub metrics: CrdtMetrics,
}

impl ClusterDoc {
    /// What the document's root map holds.
    pub closed spec fn root(&self) -> Map<Seq<char>, Option<Seq<char>>> {
        doc_root(self.doc)
    }

    /// The actor identity changes are made as.
    pub closed spec fn actor(&self) -> Seq<char> {
        self.actor_id@
    }

    /// The document itself (its contents and history).
    pub closed spec fn document(&self) -> automerge::AutoCommit {
        self.doc
    }

    /// The sync state kept for peer `peer`, if there is one.
    pub closed spec fn peer_state(&self, peer: Seq<char>) -> Option<automerge::sync::State> {
        if self.peers().contains(peer) {
            Some(self.sync_states@[self.peers().index_of(peer)].1)
        } else {
            None
        }
    }

    /// Whether `st` is the sync state a sync step with `peer` starts from:
    /// the one kept for it, or a fresh one for a peer not seen before.
    pub open spec fn starting_state(&self, peer: Seq<char>, st: automerge::sync::State) -> bool {
        match self.peer_state(peer) {
            Some(s) => st == s,
            None => fresh_sync_state(st),
        }
    }

    /// The peers there is sync state for, in the order first seen.
    pub closed spec fn peers(&self) -> Seq<Seq<char>> {
        peer_ids(self.sync_states@)
    }

    /// The metrics.
    pub closed spec fn counters(&self) -> CrdtMetrics {
        self.metrics
    }

    /// Each peer has one sync state.
    pub closed spec fn wf(&self) -> bool {
        self.peers().no_duplicates()
    }

    /// A new, empty cluster document for server `server_id` (its endpoint
    /// id, which is the actor identity).
    pub fn new(server_id: &str) -> (r: Self)
        ensures
            r.wf(),
            r.root() == Map::<Seq<char>, Option<Seq<char>>>::empty(),
            r.actor() == server_id@,
            r.peers().len() == 0,
            r.counters().change_count == 0 && r.counters().compaction_count == 0,
    {
        ClusterDoc {
            doc: doc_new(server_id),
            actor_id: string_from(server_id),
            sync_states: Vec::new(),
            metrics: CrdtMetrics::new(),
        }
    }

    /// Load from saved bytes.
    pub fn load(data: &[u8], server_id: &str) -> (r: Result<Self, automerge::AutomergeError>)
        ensures
            r is Ok <==> saved_root(data@) is Some,
            r matches Ok(c) ==> c.wf() && Some(c.root()) == saved_root(data@) && c.actor() == server_id@
                && c.peers().len() == 0,
    {
        match doc_load(data) {
            Ok(mut d) => {
                doc_set_actor(&mut d, server_id);
                Ok(ClusterDoc {
                    doc: d,
                    actor_id: string_from(server_id),
                    sync_states: Vec::new(),
                    metrics: CrdtMetrics::new(),
                })
            },
            Err(e) => Err(e),
        }
    }

    /// Re-key the actor identity (to the endpoint id): the contents stay,
    /// further changes are made as `new_actor_id`, and sync state is
    /// dropped so peers re-sync.
    pub fn rekey_actor(&mut self, new_actor_id: &str)
        requires
            old(self).wf(),
        ensures
            final(self).wf(),
            final(self).root() == old(self).root(),
            final(self).actor() == new_actor_id@,
            final(self).peers().len() == 0,
    {
        let bytes = doc_save(&mut self.doc);
        match doc_load(bytes.as_slice()) {
            Ok(mut d) => {
                doc_set_actor(&mut d, new_actor_id);
                self.doc = d;
            },
            Err(_) => {
                doc_set_actor(&mut self.doc, new_actor_id);
            },
        }
        self.actor_id = string_from(new_actor_id);
        self.sync_states = Vec::new();
        assert(peer_ids(self.sync_states@) =~= Seq::<Seq<char>>::empty());
    }

    /// The current actor id.
    pub fn get_actor_id(&self) -> (r: String)
        ensures
            r@ == self.actor(),
    {
        string_from(self.actor_id.as_str())
    }

    /// Save to bytes, recording their size.
    pub fn save(&mut self) -> (r: Vec<u8>)
        requires
            old(self).wf(),
        ensures
            final(self).wf(),
            final(self).root() == old(self).root(),
            saved_root(r@) == Some(old(self).root()),
            final(self).actor() == old(self).actor(),
            final(self).peers() == old(self).peers(),
            final(self).counters().last_save_size == r@.len(),
    {
        let bytes = doc_save(&mut self.doc);
        self.metrics.last_save_size = bytes.len() as u64;
        bytes
    }

    /// Compact the document: save and reload it to discard history. The
    /// contents stay; sync state is dropped.
    pub fn compact(&mut self) -> (r: Result<(), String>)
        requires
            old(self).wf(),
        ensures
            r is Ok,
            final(self).wf(),
            final(self).root() == old(self).root(),
            final(self).actor() == old(self).actor(),
            final(self).peers().len() == 0,
            final(self).counters().compaction_count == old(self).counters().compaction_count.wrapping_add(1),
    {
        let bytes = doc_save(&mut self.doc);
        let new_doc = match doc_load(bytes.as_slice()) {
            Ok(mut d) => {
                doc_set_actor(&mut d, self.actor_id.as_str());
                d
            },
            Err(e) => {
                let t = automerge_error_text(&e);
                return Err(concat("Compaction load failed: ", t.as_str()));
            },
        };
        self.doc = new_doc;
        self.sync_states = Vec::new();
        assert(peer_ids(self.sync_states@) =~= Seq::<Seq<char>>::empty());
        self.metrics.compaction_count = self.metrics.compaction_count.wrapping_add(1);
        self.metrics.last_save_size = bytes.len() as u64;
        Ok(())
    }

    /// A snapshot of the metrics.
    pub fn get_metrics(&self) -> (r: CrdtMetrics)
        ensures
            r == self.counters(),
    {
        self.metrics
    }

    /// Set a channel's topic with provenance.
    pub fn set_topic(&mut self, channel: &str, topic: &str, set_by: &str, set_by_did: Option<&str>, origin_peer: &str)
        requires
            old(self).wf(),
        ensures
            final(self).wf(),
            final(self).root() == old(self).root().insert(
                topic_key(channel@),
                Some(topic_text(topic@, set_by@, match set_by_did {
                    Some(d) => Some(d@),
                    None => None,
                }, origin_peer@)),
            ).insert(topic_by_key(channel@), Some(set_by@)),
            final(self).actor() == old(self).actor(),
            final(self).peers() == old(self).peers(),
            final(self).counters().change_count == old(self).counters().change_count.wrapping_add(1),
    {
        let mut pairs: Vec<(String, String)> = Vec::new();
        pairs.push((string_from("text"), quote(topic)));
        pairs.push((string_from("set_by"), quote(set_by)));
        pairs.push((string_from("set_by_did"), opt_json_text(set_by_did)));
        pairs.push((string_from("origin_peer"), quote(origin_peer)));
        let ghost sd = match set_by_did {
            Some(d) => Some(d@),
            None => None,
        };
        let ghost pv = pair_views(pairs@);
        assert(pv =~= seq![
            ("text"@, json_string_text(topic@)),
            ("set_by"@, json_string_text(set_by@)),
            ("set_by_did"@, opt_json(sd)),
            ("origin_peer"@, json_string_text(origin_peer@)),
        ]);
        let value = object_text(pairs);
        assert(value@ == topic_text(topic@, set_by@, sd, origin_peer@));
        let k1 = concat("topic:", channel);
        let k2 = concat("topic_by:", channel);
        doc_put(&mut self.doc, k1.as_str(), value.as_str());
        doc_put(&mut self.doc, k2.as_str(), set_by);
        self.metrics.change_count = self.metrics.change_count.wrapping_add(1);
    }

    /// A channel's topic and setter.
    pub fn channel_topic(&self, channel: &str) -> (r: Option<(String, String)>)
        ensures
            match r {
                Some((t, by)) => topic_of(self.root(), channel@) == Some((t@, by@)),
                None => topic_of(self.root(), channel@) is None,
            },
    {
        let key = concat("topic:", channel);
        let raw = match doc_get(&self.doc, key.as_str()) {
            Some(raw) => raw,
            None => return None,
        };
        match json_field(raw.as_str(), "text") {
            Some(t) => {
                let by = json_field(raw.as_str(), "set_by");
                match (t, by) {
                    (Some(text), Some(Some(by))) => Some((text, by)),
                    _ => None,
                }
            },
            None => {
                let k2 = concat("topic_by:", channel);
                match doc_get(&self.doc, k2.as_str()) {
                    Some(by) => Some((raw, by)),
                    None => None,
                }
            },
        }
    }

    /// The stored topic record, when it is JSON.
    pub fn channel_topic_provenance(&self, channel: &str) -> (r: Option<String>)
        ensures
            match r {
                Some(t) => str_at(self.root(), topic_key(channel@)) == Some(t@) && json_str_field(t@, Seq::empty()) is Some,
                None => match str_at(self.root(), topic_key(channel@)) {
                    Some(raw) => json_str_field(raw, Seq::empty()) is None,
                    None => true,
                },
            },
    {
        let key = concat("topic:", channel);
        json_record(&self.doc, key.as_str())
    }

    /// Add a ban with provenance.
    pub fn add_ban(&mut self, channel: &str, mask: &str, set_by: &str, set_by_did: Option<&str>, origin_peer: &str)
        requires
            old(self).wf(),
        ensures
            final(self).wf(),
            final(self).root() == old(self).root().insert(
                ban_prefix(channel@) + mask@,
                Some(ban_text(set_by@, match set_by_did {
                    Some(d) => Some(d@),
                    None => None,
                }, origin_peer@)),
            ),
            final(self).actor() == old(self).actor(),
            final(self).peers() == old(self).peers(),
            final(self).counters().change_count == old(self).counters().change_count.wrapping_add(1),
    {
        let mut pairs: Vec<(String, String)> = Vec::new();
        pairs.push((string_from("set_by"), quote(set_by)));
        pairs.push((string_from("set_by_did"), opt_json_text(set_by_did)));
        pairs.push((string_from("origin_peer"), quote(origin_peer)));
        let ghost sd = match set_by_did {
            Some(d) => Some(d@),
            None => None,
        };
        let ghost pv = pair_views(pairs@);
        assert(pv =~= seq![
            ("set_by"@, json_string_text(set_by@)),
            ("set_by_did"@, opt_json(sd)),
            ("origin_peer"@, json_string_text(origin_peer@)),
        ]);
        let value = object_text(pairs);
        assert(value@ == ban_text(set_by@, sd, origin_peer@));
        let p = ban_key_prefix(channel);
        let key = concat(p.as_str(), mask);
        doc_put(&mut self.doc, key.as_str(), value.as_str());
        self.metrics.change_count = self.metrics.change_count.wrapping_add(1);
    }

    /// Remove a ban.
    pub fn remove_ban(&mut self, channel: &str, mask: &str)
        requires
            old(self).wf(),
        ensures
            final(self).wf(),
            final(self).root() == old(self).root().remove(ban_prefix(channel@) + mask@),
            final(self).actor() == old(self).actor(),
            final(self).peers() == old(self).peers(),
            final(self).counters().change_count == old(self).counters().change_count.wrapping_add(1),
    {
        let p = ban_key_prefix(channel);
        let key = concat(p.as_str(), mask);
        doc_delete(&mut self.doc, key.as_str());
        self.metrics.change_count = self.metrics.change_count.wrapping_add(1);
    }

    /// A channel's bans: each mask with its provenance text.
    pub fn channel_bans(&self, channel: &str) -> (r: Vec<(String, String)>)
        ensures
            forall|i: int| 0 <= i < r@.len() ==> str_at(self.root(), ban_prefix(channel@) + (#[trigger] r@[i]).0@) == Some(r@[i].1@),
            forall|m: Seq<char>| #[trigger] str_at(self.root(), ban_prefix(channel@) + m) is Some ==> exists|i: int| 0 <= i < r@.len() && (#[trigger] r@[i]).0@ == m,
    {
        let p = ban_key_prefix(channel);
        let pc = chars_of(p.as_str());
        let es = doc_entries(&self.doc);
        let n = es.len();
        let mut out: Vec<(String, String)> = Vec::new();
        let mut i: usize = 0;
        let ghost mut w: Seq<int> = Seq::empty();
        while i < n
            invariant
                n == es@.len(),
                i <= n,
                w.len() == i,
                pc@ == ban_prefix(channel@),
                forall|j: int| 0 <= j < es@.len() ==> doc_root(self.doc).contains_key((#[trigger] es@[j]).0@) && doc_root(self.doc)[es@[j].0@] == opt_view(es@[j].1),
                forall|q: int| 0 <= q < out@.len() ==> str_at(doc_root(self.doc), ban_prefix(channel@) + (#[trigger] out@[q]).0@) == Some(out@[q].1@),
                forall|j: int| 0 <= j < i ==> (starts_with(es@[j].0@, pc@) && es@[j].1 is Some) ==> 0 <= #[trigger] w[j] < out@.len() && pc@ + out@[w[j]].0@ == es@[j].0@,
            decreases n - i,
        {
            let kc = chars_of(es[i].0.as_str());
            let klen = kc.len();
            let plen = pc.len();
            if plen <= klen && starts_at(kc.as_slice(), 0, pc.as_slice()) {
                proof {
                    assert(kc@.skip(0) =~= kc@);
                }
                match &es[i].1 {
                    Some(v) => {
                        let rest = sub_chars(kc.as_slice(), plen, klen);
                        proof {
                            assert(pc@ + rest@ =~= kc@);
                        }
                        out.push((string_of(rest.as_slice()), string_from(v.as_str())));
                        proof {
                            let q = out@.len() - 1;
                            assert(pc@ + out@[q].0@ == es@[i as int].0@);
                            w = w.push(q);
                        }
                    },
                    None => {
                        proof {
                            w = w.push(0);
                        }
                    },
                }
            } else {
                proof {
                    assert(kc@.skip(0) =~= kc@);
                    w = w.push(0);
                }
            }
            i = i + 1;
        }
        proof {
            assert forall|m: Seq<char>| #[trigger] str_at(doc_root(self.doc), ban_prefix(channel@) + m) is Some implies exists|q: int| 0 <= q < out@.len() && (#[trigger] out@[q]).0@ == m by {
                let k = ban_prefix(channel@) + m;
                assert(doc_root(self.doc).contains_key(k));
                let j = choose|j: int| 0 <= j < es@.len() && (#[trigger] es@[j]).0@ == k;
                assert(k.subrange(0, pc@.len() as int) =~= pc@);
                let q = w[j];
                assert(out@[q].0@ =~= m) by {
                    assert((pc@ + out@[q].0@).skip(pc@.len() as int) =~= out@[q].0@);
                    assert((pc@ + m).skip(pc@.len() as int) =~= m);
                }
            }
        }
        out
    }

    /// Bind a nick to a DID.
    pub fn set_nick_owner(&mut self, nick: &str, did: &str)
        requires
            old(self).wf(),
        ensures
            final(self).wf(),
            final(self).root() == old(self).root().insert(nick_key(nick@), Some(did@)),
            final(self).actor() == old(self).actor(),
            final(self).peers() == old(self).peers(),
            final(self).counters().change_count == old(self).counters().change_count.wrapping_add(1),
    {
        let key = concat("nick_owner:", nick);
        doc_put(&mut self.doc, key.as_str(), did);
        self.metrics.change_count = self.metrics.change_count.wrapping_add(1);
    }

    /// The DID that owns a nick.
    pub fn nick_owner(&self, nick: &str) -> (r: Option<String>)
        ensures
            opt_view(r) == str_at(self.root(), nick_key(nick@)),
    {
        let key = concat("nick_owner:", nick);
        doc_get(&self.doc, key.as_str())
    }

    /// Set the channel founder with deterministic min-actor resolution:
    /// write `{did, actor_id}` unless a JSON record exists whose actor id
    /// this actor's does not sort strictly before.
    pub fn set_founder(&mut self, channel: &str, did: &str)
        requires
            old(self).wf(),
        ensures
            final(self).wf(),
            final(self).root() == if founder_write(old(self).root(), channel@, old(self).actor()) {
                old(self).root().insert(founder_key(channel@), Some(founder_text(did@, old(self).actor())))
            } else {
                old(self).root()
            },
            final(self).actor() == old(self).actor(),
            final(self).peers() == old(self).peers(),
    {
        let key = concat("founder:", channel);
        match doc_get(&self.doc, key.as_str()) {
            Some(existing) => match json_field(existing.as_str(), "actor_id") {
                Some(a) => {
                    let ea = match a {
                        Some(x) => x,
                        None => String::new(),
                    };
                    if !crate::canonical::key_less(self.actor_id.as_str(), ea.as_str()) {
                        return;
                    }
                },
                None => {},
            },
            None => {},
        }
        let mut pairs: Vec<(String, String)> = Vec::new();
        pairs.push((string_from("did"), quote(did)));
        pairs.push((string_from("actor_id"), quote(self.actor_id.as_str())));
        assert(pair_views(pairs@) =~= seq![("did"@, json_string_text(did@)), ("actor_id"@, json_string_text(self.actor_id@))]);
        let value = object_text(pairs);
        doc_put(&mut self.doc, key.as_str(), value.as_str());
        self.metrics.change_count = self.metrics.change_count.wrapping_add(1);
    }

    /// The channel founder's DID.
    pub fn founder(&self, channel: &str) -> (r: Option<String>)
        ensures
            opt_view(r) == founder_of(self.root(), channel@),
    {
        let key = concat("founder:", channel);
        let raw = match doc_get(&self.doc, key.as_str()) {
            Some(raw) => raw,
            None => return None,
        };
        match json_field(raw.as_str(), "did") {
            Some(d) => d,
            None => Some(raw),
        }
    }

    /// Grant persistent operator status to a DID with provenance.
    pub fn grant_op(&mut self, channel: &str, did: &str, granted_by_did: Option<&str>, origin_peer: &str)
        requires
            old(self).wf(),
        ensures
            final(self).wf(),
            final(self).root() == old(self).root().insert(
                did_op_prefix(channel@) + did@,
                Some(grant_text(match granted_by_did {
                    Some(d) => Some(d@),
                    None => None,
                }, origin_peer@)),
            ),
            did_op_holders(final(self).root(), channel@).contains(did@),
            final(self).actor() == old(self).actor(),
            final(self).peers() == old(self).peers(),
            final(self).counters().change_count == old(self).counters().change_count.wrapping_add(1),
    {
        let mut pairs: Vec<(String, String)> = Vec::new();
        pairs.push((string_from("granted_by_did"), opt_json_text(granted_by_did)));
        pairs.push((string_from("origin_peer"), quote(origin_peer)));
        let ghost gd = match granted_by_did {
            Some(d) => Some(d@),
            None => None,
        };
        let ghost pv = pair_views(pairs@);
        assert(pv =~= seq![("granted_by_did"@, opt_json(gd)), ("origin_peer"@, json_string_text(origin_peer@))]);
        let value = object_text(pairs);
        assert(value@ == grant_text(gd, origin_peer@));
        let p = did_op_key_prefix(channel);
        let key = concat(p.as_str(), did);
        doc_put(&mut self.doc, key.as_str(), value.as_str());
        self.metrics.change_count = self.metrics.change_count.wrapping_add(1);
    }

    /// Revoke persistent operator status from a DID.
    pub fn revoke_op(&mut self, channel: &str, did: &str)
        requires
            old(self).wf(),
        ensures
            final(self).wf(),
            final(self).root() == old(self).root().remove(did_op_prefix(channel@) + did@),
            !did_op_holders(final(self).root(), channel@).contains(did@),
            final(self).actor() == old(self).actor(),
            final(self).peers() == old(self).peers(),
            final(self).counters().change_count == old(self).counters().change_count.wrapping_add(1),
    {
        let p = did_op_key_prefix(channel);
        let key = concat(p.as_str(), did);
        doc_delete(&mut self.doc, key.as_str());
        self.metrics.change_count = self.metrics.change_count.wrapping_add(1);
    }

    /// All DIDs with persistent operator status in a channel.
    pub fn channel_did_ops(&self, channel: &str) -> (r: Vec<String>)
        ensures
            forall|i: int| 0 <= i < r@.len() ==> did_op_holders(self.root(), channel@).contains((#[trigger] r@[i])@),
            forall|d: Seq<char>| #[trigger] did_op_holders(self.root(), channel@).contains(d) ==> exists|i: int| 0 <= i < r@.len() && (#[trigger] r@[i])@ == d,
    {
        let p = did_op_key_prefix(channel);
        let pc = chars_of(p.as_str());
        let es = doc_entries(&self.doc);
        let n = es.len();
        let mut out: Vec<String> = Vec::new();
        let mut i: usize = 0;
        let ghost mut w: Seq<int> = Seq::empty();
        while i < n
            invariant
                n == es@.len(),
                i <= n,
                w.len() == i,
                pc@ == did_op_prefix(channel@),
                forall|j: int| 0 <= j < es@.len() ==> doc_root(self.doc).contains_key((#[trigger] es@[j]).0@),
                forall|q: int| 0 <= q < out@.len() ==> doc_root(self.doc).contains_key(did_op_prefix(channel@) + (#[trigger] out@[q])@),
                forall|j: int| 0 <= j < i ==> starts_with(es@[j].0@, pc@) ==> 0 <= #[trigger] w[j] < out@.len() && pc@ + out@[w[j]]@ == es@[j].0@,
            decreases n - i,
        {
            let kc = chars_of(es[i].0.as_str());
            let klen = kc.len();
            let plen = pc.len();
            assert(kc@.skip(0) =~= kc@);
            if plen <= klen && starts_at(kc.as_slice(), 0, pc.as_slice()) {
                let rest = sub_chars(kc.as_slice(), plen, klen);
                assert(pc@ + rest@ =~= kc@);
                out.push(string_of(rest.as_slice()));
                proof {
                    let q = out@.len() - 1;
                    assert(pc@ + out@[q]@ == es@[i as int].0@);
                    w = w.push(q);
                }
            } else {
                proof {
                    w = w.push(0);
                }
            }
            i = i + 1;
        }
        proof {
            assert forall|d: Seq<char>| #[trigger] did_op_holders(doc_root(self.doc), channel@).contains(d) implies exists|q: int| 0 <= q < out@.len() && (#[trigger] out@[q])@ == d by {
                let k = did_op_prefix(channel@) + d;
                assert(doc_root(self.doc).contains_key(k));
                let j = choose|j: int| 0 <= j < es@.len() && (#[trigger] es@[j]).0@ == k;
                assert(k.subrange(0, pc@.len() as int) =~= pc@);
                let q = w[j];
                assert(out@[q]@ =~= d) by {
                    assert((pc@ + out@[q]@).skip(pc@.len() as int) =~= out@[q]@);
                    assert((pc@ + d).skip(pc@.len() as int) =~= d);
                }
            }
        }
        out
    }

    /// The stored provenance of a DID op grant, when it is JSON.
    pub fn did_op_provenance(&self, channel: &str, did: &str) -> (r: Option<String>)
        ensures
            match r {
                Some(t) => str_at(self.root(), did_op_prefix(channel@) + did@) == Some(t@) && json_str_field(t@, Seq::empty()) is Some,
                None => match str_at(self.root(), did_op_prefix(channel@) + did@) {
                    Some(raw) => json_str_field(raw, Seq::empty()) is None,
                    None => true,
                },
            },
    {
        let p = did_op_key_prefix(channel);
        let key = concat(p.as_str(), did);
        json_record(&self.doc, key.as_str())
    }

    /// Whether `did` is the founder's or a DID-op's in `channel`.
    fn has_authority(&self, channel: &str, did: &str) -> (r: bool)
        ensures
            r == (founder_of(self.root(), channel@) == Some(did@) || did_op_holders(self.root(), channel@).contains(did@)),
    {
        match self.founder(channel) {
            Some(f) => {
                let fc = chars_of(f.as_str());
                let dc = chars_of(did);
                if eq_chars(fc.as_slice(), dc.as_slice()) {
                    return true;
                }
            },
            None => {},
        }
        let ops = self.channel_did_ops(channel);
        let dc = chars_of(did);
        let n = ops.len();
        let mut i: usize = 0;
        while i < n
            invariant
                n == ops@.len(),
                i <= n,
                dc@ == did@,
                forall|j: int| 0 <= j < i ==> (#[trigger] ops@[j])@ != did@,
                forall|j: int| 0 <= j < ops@.len() ==> did_op_holders(self.root(), channel@).contains((#[trigger] ops@[j])@),
            decreases n - i,
        {
            let oc = chars_of(ops[i].as_str());
            if eq_chars(oc.as_slice(), dc.as_slice()) {
                assert(did_op_holders(self.root(), channel@).contains(ops@[i as int]@));
                return true;
            }
            i = i + 1;
        }
        proof {
            if did_op_holders(self.root(), channel@).contains(did@) {
                let k = choose|k: int| 0 <= k < ops@.len() && (#[trigger] ops@[k])@ == did@;
                assert(ops@[k]@ != did@);
            }
        }
        false
    }

    /// Validate that a topic change in `channel` by `setter_did` is
    /// authorized (without a DID: only when not `require_did`).
    pub fn validate_topic_authority(&self, channel: &str, setter_did: Option<&str>, require_did: bool) -> (r: bool)
        ensures
            r == authorized(self.root(), channel@, match setter_did {
                Some(d) => Some(d@),
                None => None,
            }, require_did),
    {
        match setter_did {
            None => !require_did,
            Some(d) => self.has_authority(channel, d),
        }
    }

    /// Validate that an op grant in `channel` by `granter_did` is
    /// authorized: only the founder or existing DID-ops may grant.
    pub fn validate_op_grant_authority(&self, channel: &str, granter_did: Option<&str>, require_did: bool) -> (r: bool)
        ensures
            r == authorized(self.root(), channel@, match granter_did {
                Some(d) => Some(d@),
                None => None,
            }, require_did),
    {
        match granter_did {
            None => !require_did,
            Some(d) => self.has_authority(channel, d),
        }
    }

    /// The position of `peer`'s sync state, if there is one.
    fn peer_index(&self, peer: &str) -> (r: Option<usize>)
        ensures
            match r {
                Some(i) => i < self.peers().len() && self.peers()[i as int] == peer@,
                None => !self.peers().contains(peer@),
            },
    {
        let pc = chars_of(peer);
        let n = self.sync_states.len();
        let mut i: usize = 0;
        while i < n
            invariant
                n == self.sync_states@.len(),
                i <= n,
                pc@ == peer@,
                forall|j: int| 0 <= j < i ==> peer_ids(self.sync_states@)[j] != peer@,
            decreases n - i,
        {
            let kc = chars_of(self.sync_states[i].0.as_str());
            if eq_chars(kc.as_slice(), pc.as_slice()) {
                return Some(i);
            }
            i = i + 1;
        }
        None
    }

    /// The position of `peer`'s sync state, adding a fresh one if needed.
    fn peer_slot(&mut self, peer: &str) -> (r: usize)
        requires
            old(self).wf(),
        ensures
            final(self).wf(),
            r < final(self).sync_states@.len(),
            final(self).peers()[r as int] == peer@,
            final(self).peers() == if old(self).peers().contains(peer@) {
                old(self).peers()
            } else {
                old(self).peers().push(peer@)
            },
            final(self).doc == old(self).doc,
            final(self).actor_id == old(self).actor_id,
            final(self).counters() == old(self).counters(),
            old(self).starting_state(peer@, final(self).sync_states@[r as int].1),
            forall|q: Seq<char>| q != peer@ ==> #[trigger] final(self).peer_state(q) == old(self).peer_state(q),
            old(self).peers().contains(peer@) ==> final(self).sync_states@ == old(self).sync_states@,
    {
        proof {
            if old(self).peers().contains(peer@) {
                let j = old(self).peers().index_of(peer@);
                lemma_index_of_unique(old(self).peers(), j, peer@);
            }
        }
        match self.peer_index(peer) {
            Some(i) => i,
            None => {
                let ghost before = peer_ids(self.sync_states@);
                let ghost old_states = self.sync_states@;
                self.sync_states.push((string_from(peer), sync_state_new()));
                assert(peer_ids(self.sync_states@) =~= before.push(peer@));
                proof {
                    assert forall|a: int, b: int| 0 <= a < b < before.push(peer@).len() implies before.push(peer@)[a] != before.push(peer@)[b] by {
                        if b == before.len() {
                            assert(before[a] != peer@);
                        }
                    }
                    assert forall|q: Seq<char>| q != peer@ implies #[trigger] self.peer_state(q) == old_peer_state(old_states, q) by {
                        if before.contains(q) {
                            let j = before.index_of(q);
                            lemma_index_of_unique(before, j, q);
                            lemma_index_of_unique(before.push(peer@), j, q);
                        } else {
                            assert(!before.push(peer@).contains(q)) by {
                                if before.push(peer@).contains(q) {
                                    let k = choose|k: int| 0 <= k < before.push(peer@).len() && before.push(peer@)[k] == q;
                                    assert(before[k] == q);
                                }
                            }
                        }
                    }
                }
                self.sync_states.len() - 1
            },
        }
    }

    /// After the sync state at slot `i` (kept for `peer`) is replaced in
    /// `before`, `peer` has the new state and every other peer its old one.
    proof fn lemma_state_replaced(&self, before: Seq<(String, automerge::sync::State)>, i: int, peer: Seq<char>)
        requires
            0 <= i < before.len(),
            peer_ids(before).no_duplicates(),
            peer_ids(before)[i] == peer,
            self.sync_states@.len() == before.len(),
            self.sync_states@[i].0 == before[i].0,
            forall|j: int| 0 <= j < before.len() && j != i ==> self.sync_states@[j] == before[j],
        ensures
            self.peer_state(peer) == Some(self.sync_states@[i].1),
            forall|q: Seq<char>| q != peer ==> #[trigger] self.peer_state(q) == old_peer_state(before, q),
            peer_ids(self.sync_states@) == peer_ids(before),
    {
        assert(peer_ids(self.sync_states@) =~= peer_ids(before));
        lemma_index_of_unique(peer_ids(before), i, peer);
        assert forall|q: Seq<char>| q != peer implies #[trigger] self.peer_state(q) == old_peer_state(before, q) by {
            if peer_ids(before).contains(q) {
                let j = peer_ids(before).index_of(q);
                lemma_index_of_unique(peer_ids(before), j, q);
            }
        }
    }

    /// Generate a sync message for peer `peer_id` (its endpoint id), or
    /// `None` when it is up to date.
    pub fn generate_sync_message(&mut self, peer_id: &str) -> (r: Option<Vec<u8>>)
        requires
            old(self).wf(),
        ensures
            final(self).wf(),
            final(self).root() == old(self).root(),
            final(self).peers().contains(peer_id@),
            final(self).counters().sync_messages_sent == (if r is Some {
                old(self).counters().sync_messages_sent.wrapping_add(1)
            } else {
                old(self).counters().sync_messages_sent
            }),
            exists|st: automerge::sync::State| #[trigger] old(self).starting_state(peer_id@, st)
                && opt_bytes(r) == sync_generated(old(self).document(), st).0
                && final(self).peer_state(peer_id@) == Some(sync_generated(old(self).document(), st).1),
            forall|q: Seq<char>| q != peer_id@ ==> #[trigger] final(self).peer_state(q) == old(self).peer_state(q),
    {
        let i = self.peer_slot(peer_id);
        let ghost ids = peer_ids(self.sync_states@);
        let ghost mid = self.sync_states@;
        let ghost s1 = *self;
        let ghost d0 = self.doc;
        let mut st = sync_state_new();
        std::mem::swap(&mut st, &mut self.sync_states[i].1);
        let ghost st0 = st;
        let result = sync_generate(&mut self.doc, &mut st);
        std::mem::swap(&mut st, &mut self.sync_states[i].1);
        assert(peer_ids(self.sync_states@) =~= ids);
        proof {
            self.lemma_state_replaced(mid, i as int, peer_id@);
            assert(old(self).starting_state(peer_id@, st0));
            assert forall|q: Seq<char>| q != peer_id@ implies #[trigger] self.peer_state(q) == old(self).peer_state(q) by {
                assert(self.peer_state(q) == old_peer_state(mid, q));
                assert(s1.peer_state(q) == old_peer_state(mid, q));
                assert(s1.peer_state(q) == old(self).peer_state(q));
            }
        }
        match &result {
            Some(bytes) => {
                self.metrics.sync_messages_sent = self.metrics.sync_messages_sent.wrapping_add(1);
                self.metrics.sync_bytes_sent = self.metrics.sync_bytes_sent.wrapping_add(bytes.len() as u64);
            },
            None => {},
        }
        proof {
            assert(self.sync_states@ == s1.sync_states@.update(i as int, self.sync_states@[i as int]));
            assert forall|q: Seq<char>| q != peer_id@ implies #[trigger] self.peer_state(q) == old(self).peer_state(q) by {
                assert(self.peer_state(q) == old_peer_state(mid, q));
                assert(s1.peer_state(q) == old(self).peer_state(q));
            }
        }
        result
    }

    /// Receive a sync message from peer `peer_id`.
    pub fn receive_sync_message(&mut self, peer_id: &str, message: &[u8]) -> (r: Result<(), String>)
        requires
            old(self).wf(),
        ensures
            final(self).wf(),
            final(self).actor() == old(self).actor(),
            final(self).counters().sync_messages_received == old(self).counters().sync_messages_received.wrapping_add(1),
            sync_decoded(message@) is None ==> (r matches Err(m) && starts_with(m@, "Invalid sync message: "@)
                && final(self).document() == old(self).document()),
            sync_decoded(message@) matches Some(msg) ==> exists|st: automerge::sync::State|
                #[trigger] old(self).starting_state(peer_id@, st) && match sync_received(old(self).document(), st, msg) {
                    Some(after) => r is Ok && final(self).document() == after.0 && final(self).root() == doc_root(after.0)
                        && final(self).peer_state(peer_id@) == Some(after.1),
                    None => r matches Err(m) && starts_with(m@, "Sync error: "@),
                },
            forall|q: Seq<char>| q != peer_id@ ==> #[trigger] final(self).peer_state(q) == old(self).peer_state(q),
    {
        self.metrics.sync_messages_received = self.metrics.sync_messages_received.wrapping_add(1);
        self.metrics.sync_bytes_received = self.metrics.sync_bytes_received.wrapping_add(message.len() as u64);
        let msg = match sync_decode(message) {
            Ok(m) => m,
            Err(e) => {
                let t = read_message_error_text(&e);
                let m = concat("Invalid sync message: ", t.as_str());
                proof {
                    assert(m@.subrange(0, "Invalid sync message: "@.len() as int) =~= "Invalid sync message: "@);
                }
                return Err(m);
            },
        };
        let i = self.peer_slot(peer_id);
        let ghost ids = peer_ids(self.sync_states@);
        let ghost mid = self.sync_states@;
        let ghost s1 = *self;
        let mut st = sync_state_new();
        std::mem::swap(&mut st, &mut self.sync_states[i].1);
        let ghost st0 = st;
        let result = sync_receive(&mut self.doc, &mut st, msg);
        std::mem::swap(&mut st, &mut self.sync_states[i].1);
        assert(peer_ids(self.sync_states@) =~= ids);
        proof {
            self.lemma_state_replaced(mid, i as int, peer_id@);
            assert(old(self).starting_state(peer_id@, st0));
            assert forall|q: Seq<char>| q != peer_id@ implies #[trigger] self.peer_state(q) == old(self).peer_state(q) by {
                assert(self.peer_state(q) == old_peer_state(mid, q));
                assert(s1.peer_state(q) == old_peer_state(mid, q));
                assert(s1.peer_state(q) == old(self).peer_state(q));
            }
        }
        match result {
            Ok(()) => Ok(()),
            Err(e) => {
                let t = automerge_error_text(&e);
                let m = concat("Sync error: ", t.as_str());
                proof {
                    assert(m@.subrange(0, "Sync error: "@.len() as int) =~= "Sync error: "@);
                }
                Err(m)
            },
        }
    }

    /// Forget the sync state of a disconnected peer.
    pub fn remove_peer_sync_state(&mut self, peer_id: &str)
        requires
            old(self).wf(),
        ensures
            final(self).wf(),
            !final(self).peers().contains(peer_id@),
            final(self).root() == old(self).root(),
    {
        match self.peer_index(peer_id) {
            Some(i) => {
                let ghost before = peer_ids(self.sync_states@);
                self.sync_states.remove(i);
                proof {
                    let after = peer_ids(self.sync_states@);
                    assert(after =~= before.remove(i as int));
                    assert forall|a: int, b: int| 0 <= a < b < after.len() implies after[a] != after[b] by {
                        let a0 = if a < i { a } else { a + 1 };
                        let b0 = if b < i { b } else { b + 1 };
                        assert(after[a] == before[a0]);
                        assert(after[b] == before[b0]);
                    }
                    assert forall|k: int| 0 <= k < after.len() implies after[k] != peer_id@ by {
                        let k0 = if k < i { k } else { k + 1 };
                        assert(after[k] == before[k0]);
                    }
                }
            },
            None => {},
        }
    }

    /// The peers there is sync state for.
    pub fn sync_peers(&self) -> (r: Vec<String>)
        ensures
            r@.len() == self.peers().len(),
            forall|i: int| 0 <= i < r@.len() ==> (#[trigger] r@[i])@ == self.peers()[i],
    {
        let n = self.sync_states.len();
        let mut out: Vec<String> = Vec::new();
        let mut i: usize = 0;
        while i < n
            invariant
                n == self.sync_states@.len(),
                i <= n,
                out@.len() == i,
                forall|j: int| 0 <= j < i ==> (#[trigger] out@[j])@ == peer_ids(self.sync_states@)[j],
            decreases n - i,
        {
            out.push(string_from(self.sync_states[i].0.as_str()));
            i = i + 1;
        }
        out
    }

    /// The number of keys in the document.
    pub fn key_count(&self) -> (r: usize)
        ensures
            r == self.root().dom().len(),
    {
        doc_key_count(&self.doc)
    }
}

/// `"ban:{channel}:"`.
fn ban_key_prefix(channel: &str) -> (r: String)
    ensures
        r@ == ban_prefix(channel@),
{
    let mut s = concat("ban:", channel);
    push_str(&mut s, ":");
    s
}

/// `"did_op:{channel}:"`.
fn did_op_key_prefix(channel: &str) -> (r: String)
    ensures
        r@ == did_op_prefix(channel@),
{
    let mut s = concat("did_op:", channel);
    push_str(&mut s, ":");
    s
}

/// The string at `key` when it parses as JSON.
fn json_record(d: &automerge::AutoCommit, key: &str) -> (r: Option<String>)
    ensures
        match r {
            Some(t) => str_at(doc_root(*d), key@) == Some(t@) && json_str_field(t@, Seq::empty()) is Some,
            None => match str_at(doc_root(*d), key@) {
                Some(raw) => json_str_field(raw, Seq::empty()) is None,
                None => true,
            },
        },
{
    match doc_get(d, key) {
        Some(raw) => {
            let probe = json_field(raw.as_str(), "");
            proof {
                reveal_strlit("");
                assert(""@ =~= Seq::<char>::empty());
            }
            match probe {
                Some(_) => Some(raw),
                None => None,
            }
        },
        None => None,
    }
}

/// After an op grant, the grantee has authority in the channel, whatever
/// else the document holds.
pub proof fn law_grant_gives_authority(root: Map<Seq<char>, Option<Seq<char>>>, c: Seq<char>, d: Seq<char>, v: Seq<char>, require_did: bool)
    ensures
        authorized(root.insert(did_op_prefix(c) + d, Some(v)), c, Some(d), require_did),
{
    assert(did_op_holders(root.insert(did_op_prefix(c) + d, Some(v)), c).contains(d));
}

/// After a revoke, a grantee who is not the founder loses authority.
pub proof fn law_revoke_removes_authority(root: Map<Seq<char>, Option<Seq<char>>>, c: Seq<char>, d: Seq<char>, require_did: bool)
    requires
        founder_of(root, c) != Some(d),
        founder_key(c) != did_op_prefix(c) + d,
    ensures
        !authorized(root.remove(did_op_prefix(c) + d), c, Some(d), require_did),
{
    let r2 = root.remove(did_op_prefix(c) + d);
    assert(str_at(r2, founder_key(c)) == str_at(root, founder_key(c)));
    assert(!did_op_holders(r2, c).contains(d));
}

/// A founder record is only ever replaced by an actor whose id sorts
/// strictly before the stored one: with a JSON record whose `actor_id`
/// this actor does not precede, setting the founder changes nothing.
pub proof fn law_founder_min_actor(root: Map<Seq<char>, Option<Seq<char>>>, c: Seq<char>, actor: Seq<char>, existing: Seq<char>, stored: Seq<char>)
    requires
        str_at(root, founder_key(c)) == Some(stored),
        json_str_field(stored, "actor_id"@) == Some(Some(existing)),
        !key_lt(actor, existing),
    ensures
        !founder_write(root, c, actor),
{
}

/// A read gives back what a write wrote: after `set_nick_owner(nick, did)`
/// the nick's owner reads as `did`, and after `add_ban(channel, mask, ..)`
/// the ban's record is there, so the channel's ban list holds `mask`.
pub proof fn law_read_after_write(
    root: Map<Seq<char>, Option<Seq<char>>>,
    nick: Seq<char>,
    did: Seq<char>,
    channel: Seq<char>,
    mask: Seq<char>,
    record: Seq<char>,
)
    ensures
        str_at(root.insert(nick_key(nick), Some(did)), nick_key(nick)) == Some(did),
        str_at(root.insert(ban_prefix(channel) + mask, Some(record)), ban_prefix(channel) + mask) == Some(record),
{
}

/// The standard, padded base64 text of `data`.
pub uninterp spec fn base64_text(data: Seq<u8>) -> Seq<char>;

/// The bytes standard base64 `text` decodes to, if it is valid.
pub uninterp spec fn base64_bytes(text: Seq<char>) -> Option<Seq<u8>>;

/// Calls `STANDARD.encode`; decoding the text gives the bytes back.
#[verifier::external_body]
fn base64_encode(data: &[u8]) -> (r: String)
    ensures
        r@ == base64_text(data@),
        base64_bytes(r@) == Some(data@),
{
    base64::Engine::encode(&base64::engine::general_purpose::STANDARD, data)
}

/// Calls `STANDARD.decode`: it succeeds exactly when [`base64_bytes`] is
/// `Some`, with those bytes.
#[verifier::external_body]
fn base64_decode(text: &str) -> (r: Option<Vec<u8>>)
    ensures
        match r {
            Some(v) => base64_bytes(text@) == Some(v@),
            None => base64_bytes(text@) is None,
        },
{
    base64::Engine::decode(&base64::engine::general_purpose::STANDARD, text).ok()
}

/// A sync message as it travels between servers: base64 text.
pub fn sync_payload(message: &[u8]) -> (r: String)
    ensures
        r@ == base64_text(message@),
        base64_bytes(r@) == Some(message@),
{
    base64_encode(message)
}

/// The sync message a peer's payload carries, if it is valid base64.
pub fn sync_message_of(payload: &str) -> (r: Option<Vec<u8>>)
    ensures
        match r {
            Some(v) => base64_bytes(payload@) == Some(v@),
            None => base64_bytes(payload@) is None,
        },
{
    base64_decode(payload)
}

/// The peer id this server signs its replicated edits with: its endpoint
/// id, or its name when it has none.
pub fn origin_peer(endpoint_id: Option<&str>, server_name: &str) -> (r: String)
    ensures
        r@ == match endpoint_id {
            Some(e) => e@,
            None => server_name@,
        },
{
    match endpoint_id {
        Some(e) => string_from(e),
        None => string_from(server_name),
    }
}

} // verus!
