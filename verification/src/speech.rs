//! Conditioning transcribed speech and spoken replies.
//!
//! - [`is_hallucination`] drops the canonical phantom phrases a Whisper
//!   model emits for near-silence.
//! - [`split_speech_and_links`] separates a reply's speakable text from
//!   the URLs it mentioned — a voice agent can't pronounce a URL, so it
//!   posts links as text instead.
use vstd::prelude::*;
use crate::text::{
    alphanumeric, append_chars, chars_of, collapse_ws, eq_chars, find, find_in, first_chars,
    first_occurrence, is_alphanumeric, is_ws, is_ws_char, join_chars, lowercase, occurs_at,
    push_str, split_words, starts_at, starts_with, starts_with_chars, string_from, string_of,
    string_views, sub_chars, take_chars, to_lowercase_chars, trim, trim_by, trim_chars,
    trim_chars_by,
};

verus! {

/// The canonical phantom outputs of Whisper models, compared after
/// trimming and lowercasing.
pub open spec fn phantom_phrase(t: Seq<char>) -> bool {
    ||| t.len() == 0
    ||| t == "you"@
    ||| t == "thank you"@
    ||| t == "thanks for watching"@
    ||| t == "thank you for watching"@
    ||| t == "bye"@
    ||| t == "okay"@
    ||| t == "so"@
    ||| t == "the"@
}

/// What a transcript is compared by: whitespace trimmed, then
/// surrounding whitespace and ASCII punctuation trimmed, then lowercased.
pub open spec fn hallucination_key(text: Seq<char>) -> Seq<char> {
    lowercase(trim_by(trim(text), true))
}

/// Whether an already trimmed and lowercased transcript is one of the
/// phantom phrases.
pub fn is_phantom_phrase(t: &[char]) -> (r: bool)
    ensures
        r == phantom_phrase(t@),
{
    t.len() == 0 || eq_chars(t, chars_of("you").as_slice()) || eq_chars(
        t,
        chars_of("thank you").as_slice(),
    ) || eq_chars(t, chars_of("thanks for watching").as_slice()) || eq_chars(
        t,
        chars_of("thank you for watching").as_slice(),
    ) || eq_chars(t, chars_of("bye").as_slice()) || eq_chars(t, chars_of("okay").as_slice())
        || eq_chars(t, chars_of("so").as_slice()) || eq_chars(t, chars_of("the").as_slice())
}

/// Whether `text` is a known Whisper silence/noise hallucination.
///
/// The match is exact after trimming surrounding whitespace/punctuation
/// and lowercasing — the same phrase inside a real sentence is not a
/// hallucination.
pub fn is_hallucination(text: &str) -> (r: bool)
    ensures
        r == phantom_phrase(hallucination_key(text@)),
{
    let cs = chars_of(text);
    let t1 = trim_chars(cs.as_slice());
    let t2 = trim_chars_by(t1.as_slice(), true);
    let t3 = to_lowercase_chars(t2.as_slice());
    is_phantom_phrase(t3.as_slice())
}

// ---------------------------------------------------------------------
// Links out of speech
// ---------------------------------------------------------------------

pub open spec fn pat_image() -> Seq<char> {
    seq!['!', '[']
}

pub open spec fn pat_mid() -> Seq<char> {
    seq![']', '(']
}

pub open spec fn pat_close() -> Seq<char> {
    seq![')']
}

pub open spec fn pat_img_tag() -> Seq<char> {
    seq!['<', 'i', 'm', 'g']
}

pub open spec fn pat_gt() -> Seq<char> {
    seq!['>']
}

pub open spec fn pat_open() -> Seq<char> {
    seq!['[']
}

pub open spec fn pat_http() -> Seq<char> {
    seq!['h', 't', 't', 'p']
}

pub open spec fn pat_http_scheme() -> Seq<char> {
    seq!['h', 't', 't', 'p', ':', '/', '/']
}

pub open spec fn pat_https_scheme() -> Seq<char> {
    seq!['h', 't', 't', 'p', 's', ':', '/', '/']
}

pub open spec fn pat_www() -> Seq<char> {
    seq!['w', 'w', 'w', '.']
}

/// Whether a link target is surfaced as a postable link: it starts with
/// `http` or `www.`.
pub open spec fn is_web_target(u: Seq<char>) -> bool {
    starts_with(u, pat_http()) || starts_with(u, pat_www())
}

/// Punctuation trimmed off the end of a bare URL.
pub open spec fn is_url_tail(c: char) -> bool {
    c == ',' || c == '.' || c == ';' || c == ':' || c == '!' || c == '?' || c == ')' || c == ']'
        || c == '}' || c == '"' || c == '\''
}

/// `s` without its trailing URL punctuation.
pub open spec fn trim_url_tail(s: Seq<char>) -> Seq<char>
    decreases s.len(),
{
    if s.len() > 0 && is_url_tail(s.last()) {
        trim_url_tail(s.drop_last())
    } else {
        s
    }
}

/// The position of the first whitespace character of `s`, or its length.
pub open spec fn ws_index(s: Seq<char>) -> int
    decreases s.len(),
{
    if s.len() == 0 {
        0
    } else if is_ws(s[0]) {
        0
    } else {
        1 + ws_index(s.drop_first())
    }
}

/// `![alt](url)` at the start of `rest`: the trimmed url and how many
/// characters the whole construct spans.
pub open spec fn image_match(rest: Seq<char>) -> Option<(Seq<char>, int)> {
    if starts_with(rest, pat_image()) {
        let st = rest.skip(2);
        match find(st, pat_mid()) {
            Some(m) => match find(st.skip(m + 2), pat_close()) {
                Some(c) => Some((trim(st.subrange(m + 2, m + 2 + c)), 2 + m + 2 + c + 1)),
                None => None,
            },
            None => None,
        }
    } else {
        None
    }
}

/// `<img …>` at the start of `rest`: how many characters the tag spans.
pub open spec fn img_tag_match(rest: Seq<char>) -> Option<int> {
    if starts_with(rest, pat_img_tag()) {
        match find(rest, pat_gt()) {
            Some(e) => Some(e + 1),
            None => None,
        }
    } else {
        None
    }
}

/// `[label](url)` at the start of `rest`: the label, the trimmed url,
/// and how many characters the whole construct spans.
pub open spec fn link_match(rest: Seq<char>) -> Option<(Seq<char>, Seq<char>, int)> {
    if starts_with(rest, pat_open()) {
        let st = rest.skip(1);
        match find(st, pat_mid()) {
            Some(m) => match find(st.skip(m + 2), pat_close()) {
                Some(c) => Some((st.take(m), trim(st.subrange(m + 2, m + 2 + c)), 1 + m + 2 + c + 1)),
                None => None,
            },
            None => None,
        }
    } else {
        None
    }
}

/// Whether `rest` starts with a bare URL.
pub open spec fn bare_url_start(rest: Seq<char>) -> bool {
    starts_with(rest, pat_http_scheme()) || starts_with(rest, pat_https_scheme()) || starts_with(
        rest,
        pat_www(),
    )
}

/// The bare URL at the start of `rest`: up to the first whitespace, with
/// trailing punctuation trimmed off.
pub open spec fn bare_url(rest: Seq<char>) -> Seq<char> {
    trim_url_tail(rest.take(ws_index(rest)))
}

/// One step of the scan over the remaining text: what it adds to the
/// spoken text, the link it surfaces (if any), and how many characters
/// it consumes.
pub open spec fn speech_step(rest: Seq<char>) -> (Seq<char>, Option<Seq<char>>, int) {
    match image_match(rest) {
        Some((u, k)) => (Seq::empty(), if is_web_target(u) { Some(u) } else { None }, k),
        None => match img_tag_match(rest) {
            Some(k) => (Seq::empty(), None, k),
            None => match link_match(rest) {
                Some((label, u, k)) => (label, if is_web_target(u) { Some(u) } else { None }, k),
                None => if bare_url_start(rest) {
                    (Seq::empty(), Some(bare_url(rest)), bare_url(rest).len() as int)
                } else {
                    (seq![rest[0]], None, 1)
                },
            },
        },
    }
}

/// `l` in front of `ls`, when there is one.
pub open spec fn opt_cons(l: Option<Seq<char>>, ls: Seq<Seq<char>>) -> Seq<Seq<char>> {
    match l {
        Some(u) => seq![u] + ls,
        None => ls,
    }
}

/// The spoken text (before whitespace collapsing) and the links of `rest`.
pub open spec fn speech_scan(rest: Seq<char>) -> (Seq<char>, Seq<Seq<char>>)
    decreases rest.len(),
{
    if rest.len() == 0 {
        (Seq::empty(), Seq::empty())
    } else {
        let (sp, l, k) = speech_step(rest);
        if 1 <= k <= rest.len() {
            let (sp2, ls2) = speech_scan(rest.skip(k));
            (sp + sp2, opt_cons(l, ls2))
        } else {
            (Seq::empty(), Seq::empty())
        }
    }
}

/// A reply's speakable text and the links it contained.
pub open spec fn speech_and_links(text: Seq<char>) -> (Seq<char>, Seq<Seq<char>>) {
    let (sp, ls) = speech_scan(text);
    (collapse_ws(sp), ls)
}

proof fn lemma_find_bounds(s: Seq<char>, p: Seq<char>)
    ensures
        find(s, p) matches Some(i) ==> 0 <= i && i + p.len() <= s.len(),
{
    if exists|i: int| first_occurrence(s, p, i) {
        let i = choose|i: int| first_occurrence(s, p, i);
        assert(occurs_at(s, p, i));
    }
}

proof fn lemma_trim_url_tail(s: Seq<char>)
    ensures
        trim_url_tail(s).len() <= s.len(),
        trim_url_tail(s) == s.take(trim_url_tail(s).len() as int),
        s.len() > 0 && !is_url_tail(s[0]) ==> trim_url_tail(s).len() >= 1,
    decreases s.len(),
{
    if s.len() > 0 && is_url_tail(s.last()) {
        lemma_trim_url_tail(s.drop_last());
        let t = trim_url_tail(s.drop_last());
        assert(s.drop_last().take(t.len() as int) =~= s.take(t.len() as int));
        if s.len() > 1 {
            assert(s.drop_last()[0] == s[0]);
        }
    } else {
        assert(s.take(s.len() as int) =~= s);
    }
}

proof fn lemma_ws_index(s: Seq<char>)
    ensures
        0 <= ws_index(s) <= s.len(),
        forall|j: int| 0 <= j < ws_index(s) ==> !is_ws(#[trigger] s[j]),
        ws_index(s) < s.len() ==> is_ws(s[ws_index(s)]),
    decreases s.len(),
{
    if s.len() > 0 && !is_ws(s[0]) {
        let t = s.drop_first();
        lemma_ws_index(t);
        assert forall|j: int| 0 <= j < ws_index(s) implies !is_ws(#[trigger] s[j]) by {
            if j > 0 {
                assert(s[j] == t[j - 1]);
            }
        }
        if ws_index(s) < s.len() {
            assert(s[ws_index(s)] == t[ws_index(t)]);
        }
    }
}

/// Every step consumes at least one character and no more than remain.
proof fn lemma_step_progress(rest: Seq<char>)
    requires
        rest.len() > 0,
    ensures
        1 <= speech_step(rest).2 <= rest.len(),
{
    if starts_with(rest, pat_image()) {
        let st = rest.skip(2);
        lemma_find_bounds(st, pat_mid());
        if let Some(m) = find(st, pat_mid()) {
            lemma_find_bounds(st.skip(m + 2), pat_close());
        }
    }
    if starts_with(rest, pat_img_tag()) {
        lemma_find_bounds(rest, pat_gt());
    }
    if starts_with(rest, pat_open()) {
        let st = rest.skip(1);
        lemma_find_bounds(st, pat_mid());
        if let Some(m) = find(st, pat_mid()) {
            lemma_find_bounds(st.skip(m + 2), pat_close());
        }
    }
    if image_match(rest) is None && img_tag_match(rest) is None && link_match(rest) is None
        && bare_url_start(rest) {
        lemma_ws_index(rest);
        assert(rest.subrange(0, 4)[0] == rest[0]);
        assert(rest[0] == 'h' || rest[0] == 'w');
        assert(!is_ws(rest[0]));
        let w = rest.take(ws_index(rest));
        assert(w[0] == rest[0]);
        lemma_trim_url_tail(w);
    }
}

/// Unfolding the scan by one step.
proof fn lemma_scan_unfold(rest: Seq<char>)
    requires
        rest.len() > 0,
    ensures
        speech_scan(rest) == ({
            let (sp, l, k) = speech_step(rest);
            (sp + speech_scan(rest.skip(k)).0, opt_cons(l, speech_scan(rest.skip(k)).1))
        }),
{
    lemma_step_progress(rest);
}

proof fn lemma_ws_index_at(s: Seq<char>, k: int)
    requires
        0 <= k <= s.len(),
        forall|j: int| 0 <= j < k ==> !is_ws(#[trigger] s[j]),
        k == s.len() || is_ws(s[k]),
    ensures
        ws_index(s) == k,
    decreases k,
{
    if k > 0 {
        let t = s.drop_first();
        assert(!is_ws(s[0]));
        assert forall|j: int| 0 <= j < k - 1 implies !is_ws(#[trigger] t[j]) by {
            assert(t[j] == s[j + 1]);
        }
        if k < s.len() {
            assert(t[k - 1] == s[k]);
        }
        lemma_ws_index_at(t, k - 1);
    }
}

proof fn lemma_trim_url_tail_at(s: Seq<char>, b: int)
    requires
        0 <= b <= s.len(),
        forall|j: int| b <= j < s.len() ==> is_url_tail(#[trigger] s[j]),
        b == 0 || !is_url_tail(s[b - 1]),
    ensures
        trim_url_tail(s) == s.take(b),
    decreases s.len() - b,
{
    if b < s.len() {
        let t = s.drop_last();
        assert(is_url_tail(s.last()));
        assert forall|j: int| b <= j < t.len() implies is_url_tail(#[trigger] t[j]) by {
            assert(t[j] == s[j]);
        }
        if b > 0 {
            assert(t[b - 1] == s[b - 1]);
        }
        lemma_trim_url_tail_at(t, b);
        assert(t.take(b) =~= s.take(b));
    } else {
        assert(s.take(b) =~= s);
    }
}

fn is_url_tail_char(c: char) -> (r: bool)
    ensures
        r == is_url_tail(c),
{
    c == ',' || c == '.' || c == ';' || c == ':' || c == '!' || c == '?' || c == ')' || c == ']'
        || c == '}' || c == '"' || c == '\''
}

/// The position, counted from `pos`, of the first whitespace character
/// at or after `pos`, or the number of characters left.
fn ws_index_at(s: &[char], pos: usize) -> (r: usize)
    requires
        pos <= s@.len(),
    ensures
        r == ws_index(s@.skip(pos as int)),
        pos + r <= s@.len(),
{
    let n = s.len();
    let mut j: usize = pos;
    while j < n && !is_ws_char(s[j])
        invariant
            n == s@.len(),
            pos <= j <= n,
            forall|i: int| pos <= i < j ==> !is_ws(#[trigger] s@[i]),
        decreases n - j,
    {
        j = j + 1;
    }
    proof {
        let t = s@.skip(pos as int);
        assert forall|i: int| 0 <= i < j - pos implies !is_ws(#[trigger] t[i]) by {
            assert(t[i] == s@[i + pos]);
        }
        if j < n {
            assert(t[j - pos] == s@[j as int]);
        }
        lemma_ws_index_at(t, j - pos);
    }
    j - pos
}

fn trim_url_tail_chars(v: &[char]) -> (r: Vec<char>)
    ensures
        r@ == trim_url_tail(v@),
{
    let n = v.len();
    let mut b: usize = n;
    while b > 0 && is_url_tail_char(v[b - 1])
        invariant
            n == v@.len(),
            b <= n,
            forall|j: int| b <= j < n ==> is_url_tail(#[trigger] v@[j]),
        decreases b,
    {
        b = b - 1;
    }
    proof {
        lemma_trim_url_tail_at(v@, b as int);
        assert(v@.subrange(0, b as int) =~= v@.take(b as int));
    }
    sub_chars(v, 0, b)
}

fn is_web_target_chars(u: &[char]) -> (r: bool)
    ensures
        r == is_web_target(u@),
{
    let http = vec!['h', 't', 't', 'p'];
    let www = vec!['w', 'w', 'w', '.'];
    assert(http@ =~= pat_http());
    assert(www@ =~= pat_www());
    starts_with_chars(u, http.as_slice()) || starts_with_chars(u, www.as_slice())
}

/// `![alt](url)` or `[label](url)` whose opening bracket ends just
/// before `lo`: the positions, counted from `lo`, of `](` and of the
/// following `)`.
fn bracket_target(s: &[char], lo: usize) -> (r: Option<(usize, usize)>)
    requires
        lo <= s@.len(),
    ensures
        match r {
            Some((m, c)) => {
                &&& find(s@.skip(lo as int), pat_mid()) == Some(m as int)
                &&& find(s@.skip(lo as int).skip(m + 2), pat_close()) == Some(c as int)
                &&& lo + m + 2 + c + 1 <= s@.len()
            },
            None => match find(s@.skip(lo as int), pat_mid()) {
                Some(m) => find(s@.skip(lo as int).skip(m + 2), pat_close()) is None,
                None => true,
            },
        },
{
    let n = s.len();
    assert(n == s@.len());
    let mid = vec![']', '('];
    let close = vec![')'];
    assert(mid@ =~= pat_mid());
    assert(close@ =~= pat_close());
    match find_in(s, lo, mid.as_slice()) {
        Some(m) => {
            let a = lo + m + 2;
            assert(s@.skip(lo as int).skip(m + 2) =~= s@.skip(a as int));
            match find_in(s, a, close.as_slice()) {
                Some(c) => Some((m, c)),
                None => None,
            }
        },
        None => None,
    }
}

/// One step of the scan at position `pos` (see [`speech_step`]).
#[verifier::spinoff_prover]
#[verifier::rlimit(40)]
fn step_at(s: &[char], pos: usize) -> (r: (Vec<char>, Option<Vec<char>>, usize))
    requires
        pos < s@.len(),
    ensures
        r.0@ == speech_step(s@.skip(pos as int)).0,
        match r.1 {
            Some(u) => speech_step(s@.skip(pos as int)).1 == Some(u@),
            None => speech_step(s@.skip(pos as int)).1 is None,
        },
        r.2 == speech_step(s@.skip(pos as int)).2,
{
    let ghost rest = s@.skip(pos as int);
    let n = s.len();
    assert(n == s@.len());
    let img = vec!['!', '['];
    let tag = vec!['<', 'i', 'm', 'g'];
    let gt = vec!['>'];
    let open = vec!['['];
    let http_scheme = vec!['h', 't', 't', 'p', ':', '/', '/'];
    let https_scheme = vec!['h', 't', 't', 'p', 's', ':', '/', '/'];
    let www = vec!['w', 'w', 'w', '.'];
    assert(img@ =~= pat_image());
    assert(tag@ =~= pat_img_tag());
    assert(gt@ =~= pat_gt());
    assert(open@ =~= pat_open());
    assert(http_scheme@ =~= pat_http_scheme());
    assert(https_scheme@ =~= pat_https_scheme());
    assert(www@ =~= pat_www());
    proof {
        lemma_step_progress(rest);
    }
    // Markdown image: drop it from speech, surface the url.
    if starts_at(s, pos, img.as_slice()) {
        let lo = pos + 2;
        assert(rest.skip(2) =~= s@.skip(lo as int));
        if let Some((m, c)) = bracket_target(s, lo) {
            let a = lo + m + 2;
            let raw = sub_chars(s, a, a + c);
            assert(raw@ =~= rest.skip(2).subrange(m + 2, m + 2 + c));
            let u = trim_chars(raw.as_slice());
            let web = is_web_target_chars(u.as_slice());
            return (Vec::new(), if web { Some(u) } else { None }, 2 + m + 2 + c + 1);
        }
    }
    assert(image_match(rest) is None);
    // HTML <img …> tag: drop the whole tag.
    if starts_at(s, pos, tag.as_slice()) {
        if let Some(e) = find_in(s, pos, gt.as_slice()) {
            return (Vec::new(), None, e + 1);
        }
    }
    assert(img_tag_match(rest) is None);
    // Markdown link: speak the label, surface the url.
    if starts_at(s, pos, open.as_slice()) {
        let lo = pos + 1;
        assert(rest.skip(1) =~= s@.skip(lo as int));
        if let Some((m, c)) = bracket_target(s, lo) {
            let a = lo + m + 2;
            let label = sub_chars(s, lo, lo + m);
            assert(label@ =~= rest.skip(1).take(m as int));
            let raw = sub_chars(s, a, a + c);
            assert(raw@ =~= rest.skip(1).subrange(m + 2, m + 2 + c));
            let u = trim_chars(raw.as_slice());
            let web = is_web_target_chars(u.as_slice());
            return (label, if web { Some(u) } else { None }, 1 + m + 2 + c + 1);
        }
    }
    assert(link_match(rest) is None);
    // Bare URL: drop it from speech entirely.
    if starts_at(s, pos, http_scheme.as_slice()) || starts_at(s, pos, https_scheme.as_slice())
        || starts_at(s, pos, www.as_slice()) {
        let w = ws_index_at(s, pos);
        let head = sub_chars(s, pos, pos + w);
        assert(head@ =~= rest.take(w as int));
        let u = trim_url_tail_chars(head.as_slice());
        let k = u.len();
        return (Vec::new(), Some(u), k);
    }
    let mut one: Vec<char> = Vec::new();
    one.push(s[pos]);
    assert(one@ =~= seq![rest[0]]);
    (one, None, 1)
}

/// Split a reply into a speakable form plus the links it contained.
///
/// Markdown links `[label](url)` keep only `label` in speech, markdown
/// images `![alt](url)` and `<img …>` tags are dropped from speech, bare
/// `http(s)://`/`www.` URLs are dropped entirely with trailing
/// punctuation trimmed off the link. Only `http`/`www.` targets are
/// surfaced as links. Whitespace left behind is collapsed.
pub fn split_speech_and_links(text: &str) -> (r: (String, Vec<String>))
    ensures
        r.0@ == speech_and_links(text@).0,
        string_views(r.1@) == speech_and_links(text@).1,
{
    let s = chars_of(text);
    let n = s.len();
    let mut spoken: Vec<char> = Vec::new();
    let mut links: Vec<String> = Vec::new();
    let mut pos: usize = 0;
    assert(s@.skip(0) =~= s@);
    while pos < n
        invariant
            n == s@.len(),
            s@ == text@,
            pos <= n,
            speech_scan(s@).0 == spoken@ + speech_scan(s@.skip(pos as int)).0,
            speech_scan(s@).1 == string_views(links@) + speech_scan(s@.skip(pos as int)).1,
        decreases n - pos,
    {
        let ghost rest = s@.skip(pos as int);
        let ghost old_spoken = spoken@;
        let ghost old_links = string_views(links@);
        let (sp, l, k) = step_at(s.as_slice(), pos);
        proof {
            lemma_step_progress(rest);
            lemma_scan_unfold(rest);
            assert(rest.skip(k as int) =~= s@.skip(pos + k));
        }
        append_chars(&mut spoken, sp.as_slice());
        assert(old_spoken + (sp@ + speech_scan(s@.skip(pos + k)).0) =~= spoken@ + speech_scan(
            s@.skip(pos + k),
        ).0);
        match l {
            Some(u) => {
                let us = string_of(u.as_slice());
                links.push(us);
                assert(string_views(links@) =~= old_links.push(u@));
                assert(old_links + (seq![u@] + speech_scan(s@.skip(pos + k)).1) =~= string_views(
                    links@,
                ) + speech_scan(s@.skip(pos + k)).1);
            },
            None => {},
        }
        pos = pos + k;
    }
    assert(s@.skip(n as int).len() == 0);
    assert(spoken@ =~= speech_scan(s@).0);
    assert(string_views(links@) =~= speech_scan(s@).1);
    let ws = split_words(spoken.as_slice());
    let space = vec![' '];
    assert(space@ =~= seq![' ']);
    let joined = join_chars(ws.as_slice(), space.as_slice());
    (string_of(joined.as_slice()), links)
}

/// Whether `u` starts with `http` or `www`.
pub open spec fn web_like(u: Seq<char>) -> bool {
    starts_with(u, pat_http()) || starts_with(u, seq!['w', 'w', 'w'])
}

/// Trimming trailing URL punctuation stops at the last character that is
/// not such punctuation.
proof fn lemma_trim_url_tail_keeps(s: Seq<char>, j: int)
    requires
        0 <= j < s.len(),
        !is_url_tail(s[j]),
    ensures
        trim_url_tail(s).len() > j,
        trim_url_tail(s) == s.take(trim_url_tail(s).len() as int),
    decreases s.len(),
{
    lemma_trim_url_tail(s);
    if is_url_tail(s.last()) {
        assert(j < s.len() - 1);
        assert(s.drop_last()[j] == s[j]);
        lemma_trim_url_tail_keeps(s.drop_last(), j);
    }
}

/// The link one step surfaces starts with `http` or `www`.
proof fn lemma_step_link(rest: Seq<char>)
    requires
        rest.len() > 0,
    ensures
        speech_step(rest).1 matches Some(u) ==> web_like(u),
{
    if image_match(rest) is None && img_tag_match(rest) is None && link_match(rest) is None && bare_url_start(rest) {
        let t = rest.take(ws_index(rest));
        lemma_ws_index(rest);
        let u = bare_url(rest);
        if starts_with(rest, pat_http_scheme()) || starts_with(rest, pat_https_scheme()) {
            assert(rest.subrange(0, 4) =~= pat_http()) by {
                if starts_with(rest, pat_http_scheme()) {
                    assert(rest.subrange(0, 7) == pat_http_scheme());
                    assert(rest[0] == 'h' && rest[1] == 't' && rest[2] == 't' && rest[3] == 'p');
                } else {
                    assert(rest.subrange(0, 8) == pat_https_scheme());
                    assert(rest[0] == 'h' && rest[1] == 't' && rest[2] == 't' && rest[3] == 'p');
                }
            }
            assert(!is_ws(rest[0]) && !is_ws(rest[1]) && !is_ws(rest[2]) && !is_ws(rest[3]));
            assert(ws_index(rest) > 3);
            assert(t[3] == 'p');
            lemma_trim_url_tail_keeps(t, 3);
            lemma_trim_url_tail(t);
            assert forall|i: int| 0 <= i < 4 implies u[i] == rest[i] by {
                assert(u == trim_url_tail(t));
                assert(u.len() > i);
                assert(u[i] == t.take(u.len() as int)[i]);
                assert(t.take(u.len() as int)[i] == t[i]);
                assert(t[i] == rest[i]);
            }
            assert(u.subrange(0, 4) =~= pat_http());
        } else {
            assert(rest.subrange(0, 4) == pat_www());
            assert(rest[0] == 'w' && rest[1] == 'w' && rest[2] == 'w');
            assert(!is_ws(rest[0]) && !is_ws(rest[1]) && !is_ws(rest[2]));
            assert(ws_index(rest) > 2);
            assert(t[2] == 'w');
            lemma_trim_url_tail_keeps(t, 2);
            lemma_trim_url_tail(t);
            assert forall|i: int| 0 <= i < 3 implies u[i] == rest[i] by {
                assert(u == trim_url_tail(t));
                assert(u.len() > i);
                assert(u[i] == t.take(u.len() as int)[i]);
                assert(t.take(u.len() as int)[i] == t[i]);
                assert(t[i] == rest[i]);
            }
            assert(u.subrange(0, 3) =~= seq!['w', 'w', 'w']);
        }
    } else if image_match(rest) is Some || link_match(rest) is Some {
        let st = speech_step(rest);
        if st.1 is Some {
            let u = st.1->0;
            assert(is_web_target(u));
            if starts_with(u, pat_www()) {
                assert(u.subrange(0, 4) == pat_www());
                assert(u.subrange(0, 3) =~= seq!['w', 'w', 'w']);
            }
        }
    }
}

/// Every link pulled out of a reply starts with `http` or `www`: markdown
/// link and image targets are surfaced only when they are web targets,
/// and a bare URL begins with `http://`, `https://` or `www.` (trailing
/// punctuation may shorten a lone `www.` to `www`).
pub proof fn law_links_are_web(text: Seq<char>)
    ensures
        forall|i: int| 0 <= i < speech_and_links(text).1.len() ==> web_like(#[trigger] speech_and_links(text).1[i]),
    decreases text.len(),
{
    if text.len() > 0 {
        let (sp, l, k) = speech_step(text);
        if 1 <= k <= text.len() {
            law_links_are_web(text.skip(k));
            lemma_step_link(text);
            let ls2 = speech_scan(text.skip(k)).1;
            let ls = opt_cons(l, ls2);
            assert forall|i: int| 0 <= i < ls.len() implies web_like(#[trigger] ls[i]) by {
                match l {
                    Some(u) => {
                        if i > 0 {
                            assert(ls[i] == ls2[i - 1]);
                            assert(speech_and_links(text.skip(k)).1[i - 1] == ls2[i - 1]);
                        }
                    },
                    None => {
                        assert(speech_and_links(text.skip(k)).1[i] == ls2[i]);
                    },
                }
            }
        }
    }
}

/// Whether spoken text has anything to pronounce: some alphanumeric
/// character.
pub open spec fn speakable(s: Seq<char>) -> bool {
    exists|i: int| 0 <= i < s.len() && alphanumeric(#[trigger] s[i])
}

/// Whether a sentence is worth sending to speech synthesis.
pub fn worth_speaking(spoken: &str) -> (r: bool)
    ensures
        r == speakable(spoken@),
{
    let c = chars_of(spoken);
    let mut i: usize = 0;
    while i < c.len()
        invariant
            c@ == spoken@,
            i <= c@.len(),
            forall|j: int| 0 <= j < i ==> !alphanumeric(c@[j]),
        decreases c@.len() - i,
    {
        if is_alphanumeric(c[i]) {
            return true;
        }
        i = i + 1;
    }
    false
}

/// The longest source title quoted in the channel, in characters.
pub const SOURCE_TITLE_MAX_CHARS: usize = 90;

/// Said after an answer whose links went to the channel.
pub const LINK_FOLLOWUP: &'static str = "I've posted a link in the channel if you'd like to read more.";

/// The answer to a visual question when no video frame is available.
pub const NO_FRAME_ANSWER: &'static str = "I can't see anything right now — turn on your camera or share your screen, then ask again.";

/// The channel line for a link found in an answer.
pub open spec fn link_line(url: Seq<char>) -> Seq<char> {
    "[eliza] "@ + url
}

/// The channel line for an answer's source: its title (cut to
/// [`SOURCE_TITLE_MAX_CHARS`]) and URL, or a plain pointer when it has
/// no title.
pub open spec fn source_line(title: Seq<char>, url: Seq<char>) -> Seq<char> {
    if title.len() == 0 {
        "[eliza] more on this — "@ + url
    } else {
        "[eliza] "@ + first_chars(title, SOURCE_TITLE_MAX_CHARS as nat) + " — "@ + url
    }
}

/// The lines an answer posts to the channel: one per link in its text,
/// then its source unless that URL was already posted; and whether any
/// link went out (a source counts even when it was already posted).
pub open spec fn answer_link_lines(links: Seq<Seq<char>>, source: Option<(Seq<char>, Seq<char>)>) -> (Seq<Seq<char>>, bool) {
    let body = links.map_values(|u: Seq<char>| link_line(u));
    match source {
        Some((title, url)) => (
            if links.contains(url) {
                body
            } else {
                body.push(source_line(title, url))
            },
            true,
        ),
        None => (body, links.len() > 0),
    }
}

/// The lines an answer posts to the channel, and whether any link went
/// out.
pub fn answer_links(links: &[String], source: Option<(&str, &str)>) -> (r: (Vec<String>, bool))
    ensures
        (string_views(r.0@), r.1) == answer_link_lines(
            string_views(links@),
            match source {
                Some((t, u)) => Some((t@, u@)),
                None => None,
            },
        ),
{
    let ghost ls = string_views(links@);
    let n = links.len();
    let mut out: Vec<String> = Vec::new();
    let mut i: usize = 0;
    while i < n
        invariant
            ls == string_views(links@),
            n == ls.len(),
            i <= n,
            string_views(out@) == ls.take(i as int).map_values(|u: Seq<char>| link_line(u)),
        decreases n - i,
    {
        let mut line = string_from("[eliza] ");
        push_str(&mut line, links[i].as_str());
        let ghost before = out@;
        out.push(line);
        proof {
            assert(ls[i as int] == links@[i as int]@);
            assert(string_views(out@) =~= string_views(before).push(line@));
            assert(ls.take(i + 1).map_values(|u: Seq<char>| link_line(u)) =~= ls.take(i as int).map_values(
                |u: Seq<char>| link_line(u),
            ).push(link_line(ls[i as int])));
        }
        i = i + 1;
    }
    assert(ls.take(n as int) =~= ls);
    match source {
        Some((title, url)) => {
            let uc = chars_of(url);
            let mut seen = false;
            let mut j: usize = 0;
            while j < n
                invariant
                    ls == string_views(links@),
                    n == ls.len(),
                    uc@ == url@,
                    j <= n,
                    seen == exists|k: int| 0 <= k < j && ls[k] == url@,
                decreases n - j,
            {
                let lc = chars_of(links[j].as_str());
                if eq_chars(lc.as_slice(), uc.as_slice()) {
                    seen = true;
                }
                proof {
                    assert(ls[j as int] == links@[j as int]@);
                }
                j = j + 1;
            }
            proof {
                if seen {
                    let k = choose|k: int| 0 <= k < n && ls[k] == url@;
                    assert(ls.contains(url@));
                } else {
                    assert(!ls.contains(url@));
                }
            }
            if !seen {
                let tc = chars_of(title);
                let line = if tc.len() == 0 {
                    let mut l = string_from("[eliza] more on this — ");
                    push_str(&mut l, url);
                    l
                } else {
                    let cut = take_chars(tc.as_slice(), SOURCE_TITLE_MAX_CHARS);
                    let mut l = string_from("[eliza] ");
                    push_str(&mut l, string_of(cut.as_slice()).as_str());
                    push_str(&mut l, " — ");
                    push_str(&mut l, url);
                    l
                };
                let ghost before = out@;
                out.push(line);
                proof {
                    assert(string_views(out@) =~= string_views(before).push(line@));
                }
            }
            (out, true)
        },
        None => (out, n > 0),
    }
}

/// The channel reply when answering failed.
pub fn answer_failed_text(asker: &str, error: &str) -> (r: String)
    ensures
        r@ == asker@ + ": sorry — I couldn't answer that ("@ + error@ + ")."@,
{
    let mut s = string_from(asker);
    push_str(&mut s, ": sorry — I couldn't answer that (");
    push_str(&mut s, error);
    push_str(&mut s, ").");
    s
}

/// The channel reply when the answer could not be spoken.
pub fn text_answer(asker: &str, text: &str) -> (r: String)
    ensures
        r@ == "[eliza→"@ + asker@ + "] "@ + text@,
{
    let mut s = string_from("[eliza→");
    push_str(&mut s, asker);
    push_str(&mut s, "] ");
    push_str(&mut s, text);
    s
}

/// What an answer posts and says after it is spoken: the channel lines
/// for the links in its text and its source, and the follow-up sentence
/// when a link went out and she is speaking.
pub struct AnswerPlan {
    pub lines: Vec<String>,
    pub followup: Option<String>,
}

/// Plan the channel lines and the spoken follow-up of an answer with
/// text `text` and source `(title, url)`, if any; `speaking` says whether
/// the answer goes to speech.
pub fn answer_plan(text: &str, source: Option<(&str, &str)>, speaking: bool) -> (r: AnswerPlan)
    ensures
        ({
            let (lines, posted) = answer_link_lines(
                speech_and_links(text@).1,
                match source {
                    Some((t, u)) => Some((t@, u@)),
                    None => None,
                },
            );
            &&& string_views(r.lines@) == lines
            &&& match r.followup {
                Some(f) => posted && speaking && f@ == LINK_FOLLOWUP@,
                None => !(posted && speaking),
            }
        }),
{
    let (_, links) = split_speech_and_links(text);
    let (lines, posted) = answer_links(links.as_slice(), source);
    let followup = if posted && speaking {
        Some(string_from(LINK_FOLLOWUP))
    } else {
        None
    };
    AnswerPlan { lines, followup }
}

} // verus!
