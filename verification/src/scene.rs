//! Scene-card text for the agent's video tile: layout kinds, accent
//! validation, word wrap, truncation, XML escaping, the shared SVG
//! `<defs>`, and when a scene stays on the tile.
use vstd::prelude::*;
use crate::text::{
    chars_of, collapse_ws, eq_chars, is_ws, join, lowercase, push_char, push_str, split_words,
    string_of, string_views, sub_chars, to_lowercase_chars, trim, trim_chars, views, word_scan,
    words,
};

verus! {

/// Most points a scene shows (extras are dropped).
pub const MAX_POINTS: usize = 6;

/// Accent used when the model gives no (or a malformed) colour.
pub const DEFAULT_ACCENT: &'static str = "#6cb0ff";

/// Which layout a scene card uses. Chosen by the model per answer.
#[derive(Clone, Copy, PartialEq, Eq, Debug)]
pub enum SceneKind {
    /// One big idea: headline + takeaway.
    Hero,
    /// Several distinct points as a numbered list.
    KeyPoints,
    /// A single number carries the answer.
    Stat,
    /// A striking statement or definition.
    Quote,
    /// An ordered sequence or process.
    Timeline,
}

/// The layout a (trimmed, lowercased) kind tag names; unknown tags fall
/// back to key points, the most general layout.
pub open spec fn kind_of_tag(t: Seq<char>) -> SceneKind {
    if t == "hero"@ {
        SceneKind::Hero
    } else if t == "stat"@ {
        SceneKind::Stat
    } else if t == "quote"@ {
        SceneKind::Quote
    } else if t == "timeline"@ {
        SceneKind::Timeline
    } else {
        SceneKind::KeyPoints
    }
}

impl SceneKind {
    /// The layout named by an already trimmed and lowercased tag.
    pub fn from_normalized_tag(t: &[char]) -> (r: SceneKind)
        ensures
            r == kind_of_tag(t@),
    {
        if eq_chars(t, chars_of("hero").as_slice()) {
            SceneKind::Hero
        } else if eq_chars(t, chars_of("stat").as_slice()) {
            SceneKind::Stat
        } else if eq_chars(t, chars_of("quote").as_slice()) {
            SceneKind::Quote
        } else if eq_chars(t, chars_of("timeline").as_slice()) {
            SceneKind::Timeline
        } else {
            SceneKind::KeyPoints
        }
    }

    /// Parse the model's `kind` string (trimmed, lowercased). Unknown
    /// values fall back to [`SceneKind::KeyPoints`].
    pub fn from_tag(s: &str) -> (r: SceneKind)
        ensures
            r == kind_of_tag(lowercase(trim(s@))),
    {
        let t = trim_chars(chars_of(s).as_slice());
        let l = to_lowercase_chars(t.as_slice());
        SceneKind::from_normalized_tag(l.as_slice())
    }
}

/// A scene card description — what the model produces for an answer and
/// what the renderer turns into a frame.
#[derive(Clone, Debug)]
pub struct SceneSpec {
    pub kind: SceneKind,
    pub title: String,
    pub subtitle: String,
    pub points: Vec<String>,
    /// Accent colour as `#RRGGBB`.
    pub accent: String,
    /// A short, concrete subject to illustrate the scene.
    pub image_query: String,
}

/// What the agent is doing, shown by the presence orb.
#[derive(Clone, Copy, PartialEq, Eq, Debug)]
pub enum Mood {
    Idle,
    Listening,
    Thinking,
    Speaking,
}

/// The accent colour of each mood.
pub open spec fn mood_color_of(mood: Mood) -> Seq<char> {
    match mood {
        Mood::Idle => "#6cb0ff"@,
        Mood::Listening => "#54e2c8"@,
        Mood::Thinking => "#b594ff"@,
        Mood::Speaking => "#9fd2ff"@,
    }
}

/// Per-mood accent colour for the presence and the corner status dot.
pub fn mood_color(mood: Mood) -> (r: &'static str)
    ensures
        r@ == mood_color_of(mood),
{
    match mood {
        Mood::Idle => "#6cb0ff",
        Mood::Listening => "#54e2c8",
        Mood::Thinking => "#b594ff",
        Mood::Speaking => "#9fd2ff",
    }
}

/// An ASCII hex digit.
pub open spec fn is_hex(c: char) -> bool {
    ('0' <= c && c <= '9') || ('a' <= c && c <= 'f') || ('A' <= c && c <= 'F')
}

/// `#RRGGBB`: a `#` and six hex digits.
pub open spec fn is_accent(t: Seq<char>) -> bool {
    t.len() == 7 && t[0] == '#' && forall|i: int| 1 <= i < 7 ==> is_hex(t[i])
}

/// The accent a model-supplied colour stands for: the trimmed colour if
/// it is `#RRGGBB`, else the default.
pub open spec fn accent_of(s: Seq<char>) -> Seq<char> {
    if is_accent(trim(s)) {
        trim(s)
    } else {
        "#6cb0ff"@
    }
}

/// Validate a model-supplied accent. Accepts `#RRGGBB` only; anything
/// else falls back to [`DEFAULT_ACCENT`].
pub fn validate_accent(s: &str) -> (r: String)
    ensures
        r@ == accent_of(s@),
{
    let t = trim_chars(chars_of(s).as_slice());
    let mut ok = t.len() == 7 && t[0] == '#';
    if ok {
        let mut i: usize = 1;
        while i < 7
            invariant
                t@.len() == 7,
                1 <= i <= 7,
                ok == forall|j: int| 1 <= j < i ==> is_hex(t@[j]),
            decreases 7 - i,
        {
            let c = t[i];
            let h = ('0' <= c && c <= '9') || ('a' <= c && c <= 'f') || ('A' <= c && c <= 'F');
            ok = ok && h;
            i = i + 1;
        }
    }
    if ok {
        string_of(t.as_slice())
    } else {
        let d = DEFAULT_ACCENT;
        let dc = chars_of(d);
        proof {
            reveal_strlit("#6cb0ff");
        }
        string_of(dc.as_slice())
    }
}

/// Greedy word packing: the finished lines and the line being built,
/// after placing `ws` in order with lines of at most `max` characters
/// (a word longer than `max` overflows its own line).
pub open spec fn wrap_scan(ws: Seq<Seq<char>>, max: int) -> (Seq<Seq<char>>, Seq<char>)
    decreases ws.len(),
{
    if ws.len() == 0 {
        (Seq::empty(), Seq::empty())
    } else {
        let (lines, cur) = wrap_scan(ws.drop_last(), max);
        let w = ws.last();
        if cur.len() == 0 {
            (lines, w)
        } else if cur.len() + 1 + w.len() <= max {
            (lines, cur + seq![' '] + w)
        } else {
            (lines.push(cur), w)
        }
    }
}

/// The lines [`wrap`] produces for `text`.
pub open spec fn wrapped(text: Seq<char>, max: int) -> Seq<Seq<char>> {
    let (lines, cur) = wrap_scan(words(text), max);
    let all = if cur.len() > 0 { lines.push(cur) } else { lines };
    if all.len() == 0 {
        seq![Seq::empty()]
    } else {
        all
    }
}

/// Greedy word-wrap to at most `max_chars` per line. A single word
/// longer than the limit overflows its line rather than being split.
pub fn wrap(text: &str, max_chars: usize) -> (r: Vec<String>)
    ensures
        string_views(r@) == wrapped(text@, max_chars as int),
{
    let ws = split_words(chars_of(text).as_slice());
    let n = ws.len();
    let mut lines: Vec<String> = Vec::new();
    let mut cur: Vec<char> = Vec::new();
    let mut i: usize = 0;
    while i < n
        invariant
            n == ws@.len(),
            i <= n,
            string_views(lines@) == wrap_scan(views(ws@).take(i as int), max_chars as int).0,
            cur@ == wrap_scan(views(ws@).take(i as int), max_chars as int).1,
        decreases n - i,
    {
        let w = &ws[i];
        proof {
            assert(views(ws@).take(i + 1).drop_last() =~= views(ws@).take(i as int));
            assert(views(ws@).take(i + 1).last() == w@);
        }
        if cur.len() == 0 {
            cur = w.clone();
        } else if cur.len() <= max_chars && w.len() <= max_chars - cur.len() && 1 <= max_chars
            - cur.len() - w.len() {
            cur.push(' ');
            let mut k: usize = 0;
            let ghost base = cur@;
            while k < w.len()
                invariant
                    k <= w@.len(),
                    cur@ == base + w@.take(k as int),
                decreases w@.len() - k,
            {
                cur.push(w[k]);
                assert(w@.take(k + 1) =~= w@.take(k as int).push(w@[k as int]));
                k = k + 1;
            }
            assert(w@.take(w@.len() as int) =~= w@);
        } else {
            let line = string_of(cur.as_slice());
            lines.push(line);
            proof {
                assert(string_views(lines@) =~= wrap_scan(views(ws@).take(i as int), max_chars as int).0.push(cur@));
            }
            cur = w.clone();
        }
        i = i + 1;
    }
    assert(views(ws@).take(n as int) =~= views(ws@));
    if cur.len() > 0 {
        let line = string_of(cur.as_slice());
        let ghost before = string_views(lines@);
        lines.push(line);
        assert(string_views(lines@) =~= before.push(cur@));
    }
    if lines.len() == 0 {
        lines.push(String::new());
        assert(string_views(lines@) =~= seq![Seq::<char>::empty()]);
    }
    lines
}

/// `s` cut to `max` characters, the last replaced by an ellipsis, when
/// it is longer than `max`.
pub open spec fn truncated(s: Seq<char>, max: int) -> Seq<char> {
    if s.len() <= max {
        s
    } else {
        s.take(if max >= 1 { max - 1 } else { 0 }).push('…')
    }
}

/// Truncate to `max` characters with an ellipsis — keeps model text
/// from overrunning a fixed-width panel.
pub fn truncate(s: &str, max: usize) -> (r: String)
    ensures
        r@ == truncated(s@, max as int),
{
    let cs = chars_of(s);
    if cs.len() <= max {
        return string_of(cs.as_slice());
    }
    let keep = if max >= 1 { max - 1 } else { 0 };
    let head = sub_chars(cs.as_slice(), 0, keep);
    let mut out = string_of(head.as_slice());
    push_char(&mut out, '…');
    out
}

/// The XML escape of one character.
pub open spec fn xml_escape_char(c: char) -> Seq<char> {
    if c == '&' {
        "&amp;"@
    } else if c == '<' {
        "&lt;"@
    } else if c == '>' {
        "&gt;"@
    } else if c == '"' {
        "&quot;"@
    } else if c == '\'' {
        "&apos;"@
    } else {
        seq![c]
    }
}

/// `s` with the five XML metacharacters escaped.
pub open spec fn xml_escaped(s: Seq<char>) -> Seq<char>
    decreases s.len(),
{
    if s.len() == 0 {
        Seq::empty()
    } else {
        xml_escaped(s.drop_last()) + xml_escape_char(s.last())
    }
}

/// Escape the five XML metacharacters so model-authored text can't
/// break the SVG document.
pub fn xml_escape(s: &str) -> (r: String)
    ensures
        r@ == xml_escaped(s@),
{
    let cs = chars_of(s);
    let n = cs.len();
    let mut out = String::new();
    let mut i: usize = 0;
    while i < n
        invariant
            n == cs@.len(),
            cs@ == s@,
            i <= n,
            out@ == xml_escaped(s@.take(i as int)),
        decreases n - i,
    {
        let c = cs[i];
        assert(s@.take(i + 1).drop_last() =~= s@.take(i as int));
        if c == '&' {
            push_str(&mut out, "&amp;");
        } else if c == '<' {
            push_str(&mut out, "&lt;");
        } else if c == '>' {
            push_str(&mut out, "&gt;");
        } else if c == '"' {
            push_str(&mut out, "&quot;");
        } else if c == '\'' {
            push_str(&mut out, "&apos;");
        } else {
            push_char(&mut out, c);
        }
        i = i + 1;
    }
    assert(s@.take(n as int) =~= s@);
    out
}

/// The shared `<defs>` before the first accent.
pub const DEFS_HEAD: &'static str = r##"<defs>
<linearGradient id="bg" x1="0" y1="0" x2="0.35" y2="1">
<stop offset="0" stop-color="#0b1020"/><stop offset="1" stop-color="#04050d"/>
</linearGradient>
<radialGradient id="glow" cx="50%" cy="50%" r="50%">
<stop offset="0" stop-color=""##;

/// The shared `<defs>` between the two accents.
pub const DEFS_MID: &'static str = r##"" stop-opacity="0.34"/>
<stop offset="100%" stop-color=""##;

/// The shared `<defs>` after the second accent.
pub const DEFS_TAIL: &'static str = r##"" stop-opacity="0"/>
</radialGradient>
<radialGradient id="vig" cx="50%" cy="42%" r="78%">
<stop offset="52%" stop-color="#000000" stop-opacity="0"/>
<stop offset="100%" stop-color="#000000" stop-opacity="0.6"/>
</radialGradient>
<linearGradient id="panel" x1="0" y1="0" x2="0" y2="1">
<stop offset="0" stop-color="#1b2547" stop-opacity="0.95"/>
<stop offset="1" stop-color="#0e1430" stop-opacity="0.95"/>
</linearGradient>
<linearGradient id="scrimV" x1="0" y1="0" x2="0" y2="1">
<stop offset="0" stop-color="#04050d" stop-opacity="0.44"/>
<stop offset="0.6" stop-color="#04050d" stop-opacity="0.62"/>
<stop offset="1" stop-color="#04050d" stop-opacity="0.9"/>
</linearGradient>
<linearGradient id="scrimL" x1="0" y1="0" x2="1" y2="0">
<stop offset="0" stop-color="#04050d" stop-opacity="0.82"/>
<stop offset="0.55" stop-color="#04050d" stop-opacity="0.12"/>
<stop offset="1" stop-color="#04050d" stop-opacity="0"/>
</linearGradient>
<filter id="shadow" x="-40%" y="-40%" width="180%" height="180%">
<feGaussianBlur in="SourceAlpha" stdDeviation="8"/>
<feOffset dy="6" result="o"/>
<feFlood flood-color="#000000" flood-opacity="0.5"/>
<feComposite in2="o" operator="in"/>
<feMerge><feMergeNode/><feMergeNode in="SourceGraphic"/></feMerge>
</filter>
<filter id="textglow" x="-70%" y="-70%" width="240%" height="240%">
<feGaussianBlur stdDeviation="7" result="b"/>
<feMerge><feMergeNode in="b"/><feMergeNode in="SourceGraphic"/></feMerge>
</filter>
</defs>"##;

/// Reusable `<defs>`: background/glow/panel gradients and the soft
/// drop-shadow and text-glow filters, tinted with `accent`.
pub fn defs(accent: &str) -> (r: String)
    ensures
        r@ == DEFS_HEAD@ + accent@ + DEFS_MID@ + accent@ + DEFS_TAIL@,
{
    let mut s = String::new();
    push_str(&mut s, DEFS_HEAD);
    push_str(&mut s, accent);
    push_str(&mut s, DEFS_MID);
    push_str(&mut s, accent);
    push_str(&mut s, DEFS_TAIL);
    s
}

/// A scene as it is stored for display: the accent validated and the
/// points cut to [`MAX_POINTS`].
pub fn prepare_scene(spec: SceneSpec) -> (r: SceneSpec)
    ensures
        r.kind == spec.kind,
        r.title == spec.title,
        r.subtitle == spec.subtitle,
        r.image_query == spec.image_query,
        r.accent@ == accent_of(spec.accent@),
        r.points@ == spec.points@.take(if spec.points@.len() <= 6 { spec.points@.len() as int } else { 6 }),
{
    let mut spec = spec;
    let accent = validate_accent(spec.accent.as_str());
    spec.accent = accent;
    spec.points.truncate(MAX_POINTS);
    spec
}

/// How long a scene stays on the tile, in nanoseconds.
pub const SCENE_HOLD_NANOS: u128 = 28_000_000_000;

/// How long a scene stays once its backdrop image arrived, in nanoseconds.
pub const IMAGE_HOLD_NANOS: u128 = 22_000_000_000;

/// Whether a scene shown `shown_elapsed` nanoseconds ago, whose backdrop
/// image (if any) arrived `image_elapsed` nanoseconds ago, is still on
/// the tile: it holds 28 s, or 22 s past its image's arrival.
pub fn scene_still_visible(shown_elapsed: u128, image_elapsed: Option<u128>) -> (r: bool)
    ensures
        r == (shown_elapsed < 28_000_000_000 || (image_elapsed matches Some(t) && t
            < 22_000_000_000)),
{
    shown_elapsed < SCENE_HOLD_NANOS || match image_elapsed {
        Some(t) => t < IMAGE_HOLD_NANOS,
        None => false,
    }
}

/// Truncation never leaves more than `max` characters (for `max >= 1`;
/// with `max == 0` a non-empty text becomes the lone ellipsis), and text
/// that fits is left as it is.
pub proof fn law_truncate_fits(s: Seq<char>, max: int)
    requires
        max >= 1,
    ensures
        truncated(s, max).len() <= max,
        s.len() <= max ==> truncated(s, max) == s,
{
}

/// Escaped text holds none of the characters that could break out of an
/// SVG text node or attribute: no `<`, `>`, `"` or `'`.
pub proof fn law_xml_escape_is_inert(s: Seq<char>)
    ensures
        forall|i: int| 0 <= i < xml_escaped(s).len() ==> {
            let c = #[trigger] xml_escaped(s)[i];
            c != '<' && c != '>' && c != '"' && c != '\''
        },
    decreases s.len(),
{
    if s.len() > 0 {
        law_xml_escape_is_inert(s.drop_last());
        reveal_strlit("&amp;");
        reveal_strlit("&lt;");
        reveal_strlit("&gt;");
        reveal_strlit("&quot;");
        reveal_strlit("&apos;");
        let a = xml_escaped(s.drop_last());
        let b = xml_escape_char(s.last());
        assert forall|i: int| 0 <= i < b.len() implies {
            let c = #[trigger] b[i];
            c != '<' && c != '>' && c != '"' && c != '\''
        } by {}
        assert forall|i: int| 0 <= i < (a + b).len() implies {
            let c = #[trigger] (a + b)[i];
            c != '<' && c != '>' && c != '"' && c != '\''
        } by {
            if i < a.len() {
                assert((a + b)[i] == a[i]);
            } else {
                assert((a + b)[i] == b[i - a.len()]);
            }
        }
    }
}

/// Whether `w` holds no whitespace.
pub open spec fn one_word(w: Seq<char>) -> bool {
    forall|j: int| 0 <= j < w.len() ==> !is_ws(#[trigger] w[j])
}

/// The words a scan has finished are non-empty and hold no whitespace,
/// and so does the word it is in.
proof fn lemma_word_scan_words(s: Seq<char>)
    ensures
        forall|i: int| 0 <= i < word_scan(s).0.len() ==> (#[trigger] word_scan(s).0[i]).len() > 0 && one_word(word_scan(s).0[i]),
        one_word(word_scan(s).1),
    decreases s.len(),
{
    if s.len() > 0 {
        lemma_word_scan_words(s.drop_last());
        let (done, cur) = word_scan(s.drop_last());
        if !is_ws(s.last()) {
            assert forall|j: int| 0 <= j < cur.push(s.last()).len() implies !is_ws(#[trigger] cur.push(s.last())[j]) by {
                if j < cur.len() {
                    assert(cur.push(s.last())[j] == cur[j]);
                }
            }
        }
    }
}

/// The words of a text are non-empty and hold no whitespace.
proof fn lemma_words_are_words(s: Seq<char>)
    ensures
        forall|i: int| 0 <= i < words(s).len() ==> (#[trigger] words(s)[i]).len() > 0 && one_word(words(s)[i]),
{
    lemma_word_scan_words(s);
    let (done, cur) = word_scan(s);
    if cur.len() > 0 {
        assert forall|i: int| 0 <= i < done.push(cur).len() implies (#[trigger] done.push(cur)[i]).len() > 0 && one_word(done.push(cur)[i]) by {
            if i < done.len() {
                assert(done.push(cur)[i] == done[i]);
            }
        }
    }
}

/// Joining after one more item.
proof fn lemma_join_push(ws: Seq<Seq<char>>, x: Seq<char>, sep: Seq<char>)
    ensures
        join(ws.push(x), sep) == if ws.len() == 0 {
            x
        } else {
            join(ws, sep) + sep + x
        },
{
    assert(ws.push(x).drop_last() =~= ws);
    if ws.len() == 0 {
        assert(ws.push(x).len() == 1);
    }
}

/// Whether a wrapped line keeps to the limit, or is one word too long to
/// split.
pub open spec fn line_ok(l: Seq<char>, max: int) -> bool {
    l.len() <= max || one_word(l)
}

/// What a greedy wrap of words keeps as it goes: every line keeps to the
/// limit or is one word, and the lines and the current line, joined by
/// spaces, are the words joined by spaces.
proof fn lemma_wrap_scan(ws: Seq<Seq<char>>, max: int)
    requires
        forall|i: int| 0 <= i < ws.len() ==> (#[trigger] ws[i]).len() > 0 && one_word(ws[i]),
    ensures
        forall|i: int| 0 <= i < wrap_scan(ws, max).0.len() ==> line_ok(#[trigger] wrap_scan(ws, max).0[i], max),
        line_ok(wrap_scan(ws, max).1, max),
        ws.len() > 0 ==> wrap_scan(ws, max).1.len() > 0,
        ws.len() > 0 ==> join(wrap_scan(ws, max).0.push(wrap_scan(ws, max).1), seq![' ']) == join(ws, seq![' ']),
        ws.len() == 0 ==> wrap_scan(ws, max).0.len() == 0 && wrap_scan(ws, max).1.len() == 0,
    decreases ws.len(),
{
    if ws.len() > 0 {
        let prev = ws.drop_last();
        assert forall|i: int| 0 <= i < prev.len() implies (#[trigger] prev[i]).len() > 0 && one_word(prev[i]) by {
            assert(prev[i] == ws[i]);
        }
        lemma_wrap_scan(prev, max);
        let (lines, cur) = wrap_scan(prev, max);
        let w = ws.last();
        assert(w == ws[ws.len() - 1]);
        let sp = seq![' '];
        if cur.len() == 0 {
            assert(prev.len() == 0);
            assert(ws =~= seq![w]);
            lemma_join_push(lines, w, sp);
        } else if cur.len() + 1 + w.len() <= max {
            lemma_join_push(lines, cur + sp + w, sp);
            lemma_join_push(lines, cur, sp);
            lemma_join_push(prev, w, sp);
            assert(ws =~= prev.push(w));
            if lines.len() > 0 {
                assert(join(lines, sp) + sp + (cur + sp + w) =~= (join(lines, sp) + sp + cur) + sp + w);
            } else {
                assert(cur + sp + w =~= cur + sp + w);
            }
        } else {
            lemma_join_push(lines.push(cur), w, sp);
            lemma_join_push(prev, w, sp);
            assert(ws =~= prev.push(w));
            assert forall|i: int| 0 <= i < lines.push(cur).len() implies line_ok(#[trigger] lines.push(cur)[i], max) by {
                if i < lines.len() {
                    assert(lines.push(cur)[i] == lines[i]);
                }
            }
        }
    }
}

/// Wrapping loses, adds and reorders no word: the lines joined by single
/// spaces are the text with its whitespace runs collapsed. Every line
/// keeps to the limit unless it is a single word longer than the limit.
pub proof fn law_wrap_keeps_words(text: Seq<char>, max: int)
    ensures
        join(wrapped(text, max), seq![' ']) == collapse_ws(text),
        forall|i: int| 0 <= i < wrapped(text, max).len() ==> line_ok(#[trigger] wrapped(text, max)[i], max),
{
    lemma_words_are_words(text);
    let ws = words(text);
    lemma_wrap_scan(ws, max);
    let (lines, cur) = wrap_scan(ws, max);
    if ws.len() == 0 {
        assert(wrapped(text, max) =~= seq![Seq::<char>::empty()]);
        assert(join(seq![Seq::<char>::empty()], seq![' ']) == Seq::<char>::empty());
        assert(collapse_ws(text) == join(ws, seq![' ']));
        assert(line_ok(Seq::<char>::empty(), max)) by {
            assert(one_word(Seq::<char>::empty()));
        }
    } else {
        assert(wrapped(text, max) == lines.push(cur));
        assert forall|i: int| 0 <= i < lines.push(cur).len() implies line_ok(#[trigger] lines.push(cur)[i], max) by {
            if i < lines.len() {
                assert(lines.push(cur)[i] == lines[i]);
            }
        }
    }
}

/// Words that fit on one line, joined by spaces, stay on that line.
proof fn lemma_wrap_fits(ws: Seq<Seq<char>>, max: int)
    requires
        forall|i: int| 0 <= i < ws.len() ==> (#[trigger] ws[i]).len() > 0,
        join(ws, seq![' ']).len() <= max,
    ensures
        wrap_scan(ws, max) == (Seq::<Seq<char>>::empty(), join(ws, seq![' '])),
        ws.len() > 0 ==> join(ws, seq![' ']).len() > 0,
    decreases ws.len(),
{
    if ws.len() > 0 {
        let d = ws.drop_last();
        assert forall|i: int| 0 <= i < d.len() implies (#[trigger] d[i]).len() > 0 by {
            assert(d[i] == ws[i]);
        }
        if ws.len() >= 2 {
            assert(join(ws, seq![' ']) == join(d, seq![' ']) + seq![' '] + ws.last());
        }
        lemma_wrap_fits(d, max);
        if ws.len() == 1 {
            assert(d.len() == 0);
            assert(join(ws, seq![' ']) == ws[0]);
            assert(ws.last() == ws[0]);
        }
    }
}

/// Text whose words fit on one line (joined by single spaces) wraps to
/// exactly that one line.
pub proof fn law_wrap_short_text_is_one_line(text: Seq<char>, max: int)
    requires
        collapse_ws(text).len() <= max,
    ensures
        wrapped(text, max) == seq![collapse_ws(text)],
{
    lemma_words_are_words(text);
    let ws = words(text);
    lemma_wrap_fits(ws, max);
    if ws.len() == 0 {
        assert(collapse_ws(text) == Seq::<char>::empty());
        assert(wrapped(text, max) =~= seq![Seq::<char>::empty()]);
    } else {
        assert(wrapped(text, max) =~= Seq::<Seq<char>>::empty().push(join(ws, seq![' '])));
        assert(Seq::<Seq<char>>::empty().push(join(ws, seq![' '])) =~= seq![collapse_ws(text)]);
    }
}

} // verus!
