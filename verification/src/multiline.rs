//! IRCv3 `draft/multiline` batches: per-session state for an in-flight
//! BATCH, the policy limits, and the byte accounting of appended lines.
use vstd::prelude::*;
use vstd::string::StringSliceAdditionalSpecFns;
use crate::tags::TagMap;

verus! {

/// Server policy: maximum total byte length of a multiline batch's
/// combined message value (the spec's `max-bytes`). Counted: the body of
/// each line, plus one byte per `\n` separator.
pub const MAX_BYTES: usize = 40_000;

/// Server policy: maximum number of PRIVMSG/NOTICE lines in a single
/// multiline batch (the spec's `max-lines`).
pub const MAX_LINES: usize = 100;

/// Soft cap on concurrent open batches per session.
pub const MAX_CONCURRENT_BATCHES_PER_SESSION: usize = 5;

/// Standard-replies error code: the batch exceeds `max-bytes`.
pub const MULTILINE_MAX_BYTES: &'static str = "MULTILINE_MAX_BYTES";

/// Standard-replies error code: the batch exceeds `max-lines`.
pub const MULTILINE_MAX_LINES: &'static str = "MULTILINE_MAX_LINES";

/// Standard-replies error code: a line's target differs from the batch's.
pub const MULTILINE_INVALID_TARGET: &'static str = "MULTILINE_INVALID_TARGET";

/// Standard-replies error code: the batch is otherwise invalid.
pub const MULTILINE_INVALID: &'static str = "MULTILINE_INVALID";

/// Per-line entry inside an open batch.
#[derive(Debug, Clone)]
pub struct BatchLine {
    /// Final-param body of this PRIVMSG or NOTICE.
    pub body: String,
    /// True if this line carried `draft/multiline-concat`.
    pub concat_to_previous: bool,
    /// PRIVMSG or NOTICE — must match across the whole batch.
    pub command: String,
}

/// An open BATCH on a single connection — accumulates lines until the
/// matching `BATCH -<id>` arrives.
#[derive(Debug)]
pub struct OpenBatch {
    /// The `batch_id` parameter the client supplied (without the `+`).
    pub batch_id: String,
    /// Batch type, e.g. `draft/multiline`.
    pub batch_type: String,
    /// Target channel or nick.
    pub target: String,
    /// Tags from the BATCH opener (other than `batch`).
    pub opener_tags: TagMap,
    /// Accumulated lines, in arrival order.
    pub lines: Vec<BatchLine>,
    /// Running total of body bytes + 1 per `\n` separator.
    pub byte_count: usize,
    /// First command seen inside the batch.
    pub first_command: Option<String>,
}

/// The number of bytes of the UTF-8 encoding of `s`.
pub open spec fn utf8_len(s: Seq<char>) -> nat {
    vstd::utf8::encode_utf8(s).len()
}

/// The bytes a line adds to a batch: its body, plus one for the `\n`
/// separator when it is not the first line and does not concatenate
/// onto the previous one.
pub open spec fn append_cost(has_lines: bool, body: Seq<char>, concat_to_previous: bool) -> int {
    if !has_lines || concat_to_previous {
        utf8_len(body) as int
    } else {
        utf8_len(body) as int + 1
    }
}

impl OpenBatch {
    /// The byte cost a new line would add to the batch: the body length,
    /// plus 1 for the `\n` separator if this is not the first line and
    /// the line is not marked concat-to-previous.
    pub fn cost_of_appending(&self, body: &str, concat_to_previous: bool) -> (r: usize)
        requires
            utf8_len(body@) < usize::MAX,
        ensures
            r == append_cost(self.lines@.len() > 0, body@, concat_to_previous),
    {
        let n = body.len();
        if self.lines.len() == 0 {
            n
        } else if concat_to_previous {
            n
        } else {
            n + 1
        }
    }
}

} // verus!
