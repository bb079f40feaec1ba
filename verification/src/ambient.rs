//! The ambient monitor's decisions: while a call is being listened to, a
//! fast model picks a concept and an accent colour for the video tile
//! now and then, and a concrete subject sometimes escalates to an image
//! scene.
use vstd::prelude::*;
use crate::json::{member, str_of, JsonValue};
use crate::text::{
    chars_of, first_chars, join, push_str, split_words, string_from, string_of, string_views,
    take_chars, trim, trim_chars, words,
};

verus! {

/// Fewest new transcript words worth asking the model about.
pub const MIN_NEW_WORDS: usize = 12;

/// Seconds between wake-ups of the monitor.
pub const TICK_SECS: u64 = 20;

/// Shortest gap between two scene escalations, in milliseconds.
pub const SCENE_COOLDOWN_MS: u64 = 60_000;

/// How long after an answer no scene escalation happens, in milliseconds.
pub const POST_ANSWER_GRACE_MS: u64 = 12_000;

/// How many recent concepts are fed back so the model does not repeat
/// itself.
pub const RECENT_CONCEPTS_MAX: usize = 4;

/// How many transcript lines the model reads.
pub const TAIL_LINES: usize = 25;

/// The longest concept shown on the tile's chip, in characters.
pub const CONCEPT_MAX_CHARS: usize = 28;

/// The longest image query kept, in characters.
pub const IMAGE_QUERY_MAX_CHARS: usize = 120;

/// The number of words in the transcript lines from `start` on.
pub open spec fn words_from(lines: Seq<Seq<char>>, start: int) -> nat
    decreases lines.len() - start,
{
    if start >= lines.len() || start < 0 {
        0
    } else {
        words(lines[start]).len() + words_from(lines, start + 1)
    }
}

/// Whether the lines after the `consumed` ones already read hold at least
/// [`MIN_NEW_WORDS`] (twelve) words.
pub fn enough_new_words(transcript: &[String], consumed: usize) -> (r: bool)
    ensures
        r ==> words_from(string_views(transcript@), if consumed < transcript@.len() {
            consumed as int
        } else {
            transcript@.len() as int
        }) >= 12,
        r == (words_from(
            string_views(transcript@),
            if consumed < transcript@.len() {
                consumed as int
            } else {
                transcript@.len() as int
            },
        ) >= MIN_NEW_WORDS),
{
    let ghost ls = string_views(transcript@);
    let n = transcript.len();
    let start = if consumed < n {
        consumed
    } else {
        n
    };
    let mut i: usize = start;
    let mut acc: usize = 0;
    while i < n
        invariant
            ls == string_views(transcript@),
            n == ls.len(),
            start <= i <= n,
            start == if consumed < n {
                consumed
            } else {
                n
            },
            acc < MIN_NEW_WORDS,
            words_from(ls, start as int) == acc + words_from(ls, i as int),
        decreases n - i,
    {
        let line = chars_of(transcript[i].as_str());
        let w = split_words(line.as_slice());
        let k = w.len();
        proof {
            assert(ls[i as int] == transcript@[i as int]@);
            assert(w@.len() == crate::text::views(w@).len());
            assert(k == words(ls[i as int]).len());
            assert(words_from(ls, i as int) == words(ls[i as int]).len() + words_from(ls, i + 1));
        }
        if k >= MIN_NEW_WORDS - acc {
            return true;
        }
        acc = acc + k;
        i = i + 1;
    }
    false
}

/// The transcript the model reads: its last [`TAIL_LINES`] lines joined
/// by newlines.
pub open spec fn tail_text(lines: Seq<Seq<char>>) -> Seq<char> {
    let start = if lines.len() > TAIL_LINES {
        lines.len() - TAIL_LINES
    } else {
        0
    };
    join(lines.skip(start), seq!['\n'])
}

/// The transcript the model reads.
pub fn recent_tail(transcript: &[String]) -> (r: String)
    ensures
        r@ == tail_text(string_views(transcript@)),
{
    let ghost ls = string_views(transcript@);
    let n = transcript.len();
    let start = if n > TAIL_LINES {
        n - TAIL_LINES
    } else {
        0
    };
    let ghost tail = ls.skip(start as int);
    let mut s = String::new();
    let mut i: usize = start;
    while i < n
        invariant
            ls == string_views(transcript@),
            n == ls.len(),
            start <= i <= n,
            tail == ls.skip(start as int),
            s@ == join(tail.take(i - start), seq!['\n']),
        decreases n - i,
    {
        proof {
            reveal_strlit("\n");
            let k = i - start;
            assert(tail.take(k + 1).drop_last() =~= tail.take(k));
            assert(tail[k] == transcript@[i as int]@);
            if k == 0 {
                assert(tail.take(0) =~= Seq::<Seq<char>>::empty());
            }
        }
        if i > start {
            push_str(&mut s, "\n");
        }
        push_str(&mut s, transcript[i].as_str());
        i = i + 1;
    }
    assert(tail.take(n - start) =~= tail);
    s
}

/// The instruction that asks the model for a pick: the recent transcript
/// and the concepts already shown (`(none yet)` at first).
pub open spec fn prompt_text(transcript: Seq<char>, recent: Seq<Seq<char>>) -> Seq<char> {
    let list = if recent.len() == 0 {
        "(none yet)"@
    } else {
        join(recent, ", "@)
    };
    "Recent transcript:\n"@ + transcript + "\n\nConcepts you've already shown (avoid repeating): "@ + list
        + "\n\nOutput the JSON object."@
}

/// The instruction that asks the model for a pick.
pub fn ambient_prompt(transcript: &str, recent: &[String]) -> (r: String)
    ensures
        r@ == prompt_text(transcript@, string_views(recent@)),
{
    let ghost rs = string_views(recent@);
    let mut s = string_from("Recent transcript:\n");
    push_str(&mut s, transcript);
    push_str(&mut s, "\n\nConcepts you've already shown (avoid repeating): ");
    let n = recent.len();
    if n == 0 {
        push_str(&mut s, "(none yet)");
    } else {
        let ghost pre = s@;
        let mut i: usize = 0;
        while i < n
            invariant
                rs == string_views(recent@),
                n == rs.len(),
                i <= n,
                s@ == pre + join(rs.take(i as int), ", "@),
            decreases n - i,
        {
            proof {
                assert(rs.take(i + 1).drop_last() =~= rs.take(i as int));
                assert(rs[i as int] == recent@[i as int]@);
                if i == 0 {
                    assert(rs.take(0) =~= Seq::<Seq<char>>::empty());
                    assert(pre + Seq::<char>::empty() =~= pre);
                }
            }
            let ghost before = s@;
            if i > 0 {
                push_str(&mut s, ", ");
            }
            push_str(&mut s, recent[i].as_str());
            proof {
                if i > 0 {
                    assert(s@ =~= pre + (join(rs.take(i as int), ", "@) + ", "@ + rs[i as int]));
                } else {
                    assert(s@ =~= pre + rs[0]);
                }
            }
            i = i + 1;
        }
        assert(rs.take(n as int) =~= rs);
    }
    push_str(&mut s, "\n\nOutput the JSON object.");
    s
}

/// The text of the first choice's message in a chat-completion reply
/// (`choices[0].message.content`), when it is a string.
pub open spec fn chat_content_spec(v: JsonValue) -> Option<Seq<char>> {
    match member(v, "choices"@) {
        Some(JsonValue::Array(cs)) => if cs@.len() > 0 {
            str_of(
                match member(cs@[0], "message"@) {
                    Some(m) => member(m, "content"@),
                    None => None,
                },
            )
        } else {
            None
        },
        _ => None,
    }
}

/// The text of the first choice's message in a chat-completion reply.
pub fn chat_content(v: &JsonValue) -> (r: Option<String>)
    ensures
        match r {
            Some(s) => chat_content_spec(*v) == Some(s@),
            None => chat_content_spec(*v) is None,
        },
{
    match v.get("choices") {
        Some(JsonValue::Array(cs)) => {
            if cs.len() > 0 {
                match cs[0].get("message") {
                    Some(m) => match m.get("content") {
                        Some(c) => match c.as_str() {
                            Some(t) => Some(string_from(t)),
                            None => None,
                        },
                        None => None,
                    },
                    None => None,
                }
            } else {
                None
            }
        },
        _ => None,
    }
}

/// A pick: the concept for the chip, the accent colour, and a concrete
/// image subject (empty for abstract topics).
#[derive(Debug, Clone, PartialEq, Eq)]
pub struct AmbientPlan {
    pub concept: String,
    pub accent: String,
    pub image_query: String,
}

/// A string field of the model's pick, trimmed (empty when missing or
/// not a string).
pub open spec fn pick_field(plan: JsonValue, k: Seq<char>) -> Seq<char> {
    trim(
        match str_of(member(plan, k)) {
            Some(s) => s,
            None => Seq::empty(),
        },
    )
}

fn field(plan: &JsonValue, k: &str) -> (r: Vec<char>)
    ensures
        r@ == pick_field(*plan, k@),
{
    let raw = match plan.get(k) {
        Some(v) => match v.as_str() {
            Some(s) => chars_of(s),
            None => Vec::new(),
        },
        None => Vec::new(),
    };
    trim_chars(raw.as_slice())
}

/// Read the model's pick. A blank concept means the model declined
/// (`None`); otherwise the concept is cut to [`CONCEPT_MAX_CHARS`] and the
/// image query to [`IMAGE_QUERY_MAX_CHARS`] characters, so a long answer
/// cannot break the tile's layout.
pub fn ambient_plan(plan: &JsonValue) -> (r: Option<AmbientPlan>)
    ensures
        match r {
            None => pick_field(*plan, "concept"@).len() == 0,
            Some(p) => {
                &&& pick_field(*plan, "concept"@).len() > 0
                &&& p.concept@ == first_chars(pick_field(*plan, "concept"@), CONCEPT_MAX_CHARS as nat)
                &&& p.accent@ == pick_field(*plan, "accent"@)
                &&& p.image_query@ == first_chars(pick_field(*plan, "image_query"@), IMAGE_QUERY_MAX_CHARS as nat)
            },
        },
{
    let concept = field(plan, "concept");
    if concept.len() == 0 {
        return None;
    }
    let accent = field(plan, "accent");
    let query = field(plan, "image_query");
    let c = take_chars(concept.as_slice(), CONCEPT_MAX_CHARS);
    let q = take_chars(query.as_slice(), IMAGE_QUERY_MAX_CHARS);
    Some(
        AmbientPlan {
            concept: string_of(c.as_slice()),
            accent: string_of(accent.as_slice()),
            image_query: string_of(q.as_slice()),
        },
    )
}

/// Remember a concept just shown, keeping the newest
/// [`RECENT_CONCEPTS_MAX`].
pub fn remember_concept(recent: &mut Vec<String>, concept: String)
    ensures
        final(recent)@ == if old(recent)@.len() + 1 > RECENT_CONCEPTS_MAX {
            old(recent)@.push(concept).drop_first()
        } else {
            old(recent)@.push(concept)
        },
        old(recent)@.len() <= RECENT_CONCEPTS_MAX ==> final(recent)@.len() <= RECENT_CONCEPTS_MAX,
{
    recent.push(concept);
    if recent.len() > RECENT_CONCEPTS_MAX {
        recent.remove(0);
    }
}

/// What the monitor does with a pick after applying its concept and
/// accent.
#[derive(Debug, Clone, Copy, PartialEq, Eq, Structural)]
pub enum Escalation {
    /// An abstract topic: colour only.
    Abstract,
    /// She answered within the grace period: her own scene stays.
    JustAnswered,
    /// A scene went up too recently.
    CoolingDown,
    /// Put up an image scene of the subject.
    Scene,
}

/// The escalation rule: only a concrete subject, never right after an
/// answer, and not before the scene cooldown has passed.
pub open spec fn escalation_rule(has_image_query: bool, within_answer_grace: bool, cooled_down: bool) -> Escalation {
    if !has_image_query {
        Escalation::Abstract
    } else if within_answer_grace {
        Escalation::JustAnswered
    } else if !cooled_down {
        Escalation::CoolingDown
    } else {
        Escalation::Scene
    }
}

/// Decide whether a pick escalates to a scene.
pub fn escalation(has_image_query: bool, within_answer_grace: bool, cooled_down: bool) -> (r: Escalation)
    ensures
        r == escalation_rule(has_image_query, within_answer_grace, cooled_down),
        r is Scene ==> has_image_query && !within_answer_grace && cooled_down,
{
    if !has_image_query {
        Escalation::Abstract
    } else if within_answer_grace {
        Escalation::JustAnswered
    } else if !cooled_down {
        Escalation::CoolingDown
    } else {
        Escalation::Scene
    }
}

/// Whether the monitor acts on the wake-up numbered `tick` (from 0): the
/// first one is skipped so that the call settles.
pub fn tick_acts(tick: u64) -> (r: bool)
    ensures
        r == (tick >= 1),
{
    tick >= 1
}

/// Whether the scene cooldown has passed: no scene yet, or the last one
/// went up at least 60 s ago.
pub fn scene_cooled_down(since_last_scene_ms: Option<u64>) -> (r: bool)
    ensures
        r == match since_last_scene_ms {
            None => true,
            Some(t) => t >= 60_000,
        },
{
    match since_last_scene_ms {
        None => true,
        Some(t) => t >= SCENE_COOLDOWN_MS,
    }
}

/// Whether she answered less than 12 s ago.
pub fn within_answer_grace(since_answer_ms: Option<u64>) -> (r: bool)
    ensures
        r == (since_answer_ms matches Some(t) && t < 12_000),
{
    match since_answer_ms {
        None => false,
        Some(t) => t < POST_ANSWER_GRACE_MS,
    }
}

/// What a pick escalates to, given whether it names a concrete subject
/// and the times since the last answer and the last scene (when there
/// was one): a scene only with a subject, at least 12 s after an answer
/// and at least 60 s after the previous scene.
pub fn ambient_escalation(
    has_image_query: bool,
    since_answer_ms: Option<u64>,
    since_last_scene_ms: Option<u64>,
) -> (r: Escalation)
    ensures
        r == escalation_rule(
            has_image_query,
            since_answer_ms matches Some(t) && t < 12_000,
            match since_last_scene_ms {
                None => true,
                Some(t) => t >= 60_000,
            },
        ),
        r is Scene ==> has_image_query && !(since_answer_ms matches Some(t) && t < 12_000) && (
        since_last_scene_ms matches Some(t) ==> t >= 60_000),
{
    let grace = within_answer_grace(since_answer_ms);
    let cooled = scene_cooled_down(since_last_scene_ms);
    escalation(has_image_query, grace, cooled)
}

} // verus!
