//! Classification of `+freeq.at/av-state` TAGMSGs for a voice agent.
use vstd::prelude::*;
use crate::tags::TagMap;
use crate::text::{chars_of, eq_chars, starts_with, starts_with_chars, string_from};

verus! {

/// What to do with an incoming av-state TAGMSG.
#[derive(Debug, PartialEq, Eq, Clone)]
pub enum AvAction {
    /// Skip this event — wrong target shape, missing tags, or a session
    /// start in a channel the agent has not joined.
    Skip,
    /// Start transcription for `(channel, session_id)`.
    Start { channel: String, session_id: String },
    /// End transcription for `(channel, session_id)`.
    End { channel: String, session_id: String },
    /// A state the agent does not act on (joined/left/unknown).
    Noop,
}

/// The mathematical form of an [`AvAction`].
pub enum AvActionView {
    Skip,
    Start { channel: Seq<char>, session_id: Seq<char> },
    End { channel: Seq<char>, session_id: Seq<char> },
    Noop,
}

impl View for AvAction {
    type V = AvActionView;

    open spec fn view(&self) -> AvActionView {
        match self {
            AvAction::Skip => AvActionView::Skip,
            AvAction::Start { channel, session_id } => AvActionView::Start {
                channel: channel@,
                session_id: session_id@,
            },
            AvAction::End { channel, session_id } => AvActionView::End {
                channel: channel@,
                session_id: session_id@,
            },
            AvAction::Noop => AvActionView::Noop,
        }
    }
}

/// The key of the av-state tag.
pub open spec fn av_state_key() -> Seq<char> {
    "+freeq.at/av-state"@
}

/// The key of the av session id tag.
pub open spec fn av_id_key() -> Seq<char> {
    "+freeq.at/av-id"@
}

/// A channel target starts with `#` or `&`.
pub open spec fn is_channel_target(t: Seq<char>) -> bool {
    starts_with(t, seq!['#']) || starts_with(t, seq!['&'])
}

/// The code of `c` after ASCII lowercasing (`char::to_ascii_lowercase`).
pub open spec fn ascii_lower_code(c: char) -> u32 {
    if 'A' <= c && c <= 'Z' {
        (c as u32 + 32) as u32
    } else {
        c as u32
    }
}

/// An ASCII case-insensitive match (`str::eq_ignore_ascii_case`).
pub open spec fn eq_ignore_ascii_case(a: Seq<char>, b: Seq<char>) -> bool {
    a.len() == b.len() && forall|i: int| 0 <= i < a.len() ==> ascii_lower_code(a[i])
        == ascii_lower_code(b[i])
}

/// Some joined channel matches `target` ignoring ASCII case.
pub open spec fn in_channels(target: Seq<char>, chans: Seq<Seq<char>>) -> bool {
    exists|i: int| 0 <= i < chans.len() && eq_ignore_ascii_case(chans[i], target)
}

/// The action for an av-state TAGMSG to `target` carrying `tags`, for an
/// agent joined to `chans`.
pub open spec fn av_action(
    target: Seq<char>,
    tags: Map<Seq<char>, Seq<char>>,
    chans: Seq<Seq<char>>,
) -> AvActionView {
    if !is_channel_target(target) {
        AvActionView::Skip
    } else if !tags.contains_key(av_state_key()) || !tags.contains_key(av_id_key()) {
        AvActionView::Skip
    } else if tags[av_state_key()] == "started"@ {
        if in_channels(target, chans) {
            AvActionView::Start { channel: target, session_id: tags[av_id_key()] }
        } else {
            AvActionView::Skip
        }
    } else if tags[av_state_key()] == "ended"@ {
        AvActionView::End { channel: target, session_id: tags[av_id_key()] }
    } else {
        AvActionView::Noop
    }
}

fn ascii_lower_code_exec(c: char) -> (r: u32)
    ensures
        r == ascii_lower_code(c),
{
    if 'A' <= c && c <= 'Z' {
        c as u32 + 32
    } else {
        c as u32
    }
}

/// ASCII case-insensitive equality (`str::eq_ignore_ascii_case`).
pub fn eq_ignore_ascii_case_str(a: &str, b: &str) -> (r: bool)
    ensures
        r == eq_ignore_ascii_case(a@, b@),
{
    let ac = chars_of(a);
    let bc = chars_of(b);
    if ac.len() != bc.len() {
        return false;
    }
    let n = ac.len();
    let mut i: usize = 0;
    while i < n
        invariant
            n == ac@.len(),
            n == bc@.len(),
            ac@ == a@,
            bc@ == b@,
            i <= n,
            forall|j: int| 0 <= j < i ==> ascii_lower_code(a@[j]) == ascii_lower_code(b@[j]),
        decreases n - i,
    {
        if ascii_lower_code_exec(ac[i]) != ascii_lower_code_exec(bc[i]) {
            return false;
        }
        i = i + 1;
    }
    true
}

/// Classifies an av-state TAGMSG: the target must be a channel, both the
/// av-state and av-id tags must be present, `started` is acted on only
/// for one of the agent's joined channels, `ended` always ends, and any
/// other state is a no-op. The agent's own nick is not used for
/// filtering: a session it started itself is acted on.
pub fn classify_av_event(
    target: &str,
    tags: &TagMap,
    my_channels: &[String],
    _my_nick: &str,
) -> (r: AvAction)
    ensures
        r@ == av_action(target@, tags@, my_channels@.map_values(|c: String| c@)),
{
    let tc = chars_of(target);
    let hash = vec!['#'];
    let amp = vec!['&'];
    assert(hash@ =~= seq!['#']);
    assert(amp@ =~= seq!['&']);
    if !starts_with_chars(tc.as_slice(), hash.as_slice()) && !starts_with_chars(
        tc.as_slice(),
        amp.as_slice(),
    ) {
        return AvAction::Skip;
    }
    let state = match tags.get("+freeq.at/av-state") {
        Some(s) => s,
        None => return AvAction::Skip,
    };
    let av_id = match tags.get("+freeq.at/av-id") {
        Some(s) => s,
        None => return AvAction::Skip,
    };
    let sc = chars_of(state.as_str());
    if eq_chars(sc.as_slice(), chars_of("started").as_slice()) {
        let ghost chans = my_channels@.map_values(|c: String| c@);
        let n = my_channels.len();
        let mut i: usize = 0;
        let mut found = false;
        while i < n
            invariant
                n == my_channels@.len(),
                i <= n,
                chans == my_channels@.map_values(|c: String| c@),
                found ==> in_channels(target@, chans),
                !found ==> forall|j: int| 0 <= j < i ==> !eq_ignore_ascii_case(chans[j], target@),
            decreases n - i,
        {
            if !found && eq_ignore_ascii_case_str(my_channels[i].as_str(), target) {
                assert(chans[i as int] == my_channels@[i as int]@);
                found = true;
            }
            i = i + 1;
        }
        if !found {
            return AvAction::Skip;
        }
        AvAction::Start { channel: string_from(target), session_id: av_id }
    } else if eq_chars(sc.as_slice(), chars_of("ended").as_slice()) {
        AvAction::End { channel: string_from(target), session_id: av_id }
    } else {
        AvAction::Noop
    }
}

} // verus!
