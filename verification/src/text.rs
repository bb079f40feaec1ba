//! Character-level text model shared by the rest of the library.
//!
//! Strings are reasoned about through their view, the sequence of
//! `char`s they hold. The functions here convert between `&str`/`String`
//! and `Vec<char>`, and give Unicode whitespace, trimming, word
//! splitting and joining a specification in those terms.
use vstd::prelude::*;

verus! {

/// Unicode `White_Space`, the property `char::is_whitespace` and
/// `str::trim`/`str::split_whitespace` are defined by.
pub open spec fn is_ws(c: char) -> bool {
    ||| c == '\t' || c == '\n' || c == '\u{0B}' || c == '\u{0C}' || c == '\r' || c == ' '
    ||| c == '\u{85}' || c == '\u{A0}' || c == '\u{1680}'
    ||| ('\u{2000}' <= c && c <= '\u{200A}')
    ||| c == '\u{2028}' || c == '\u{2029}' || c == '\u{202F}' || c == '\u{205F}' || c == '\u{3000}'
}

/// Executable Unicode whitespace test.
pub fn is_ws_char(c: char) -> (r: bool)
    ensures
        r == is_ws(c),
{
    c == '\t' || c == '\n' || c == '\u{0B}' || c == '\u{0C}' || c == '\r' || c == ' ' || c
        == '\u{85}' || c == '\u{A0}' || c == '\u{1680}' || ('\u{2000}' <= c && c <= '\u{200A}')
        || c == '\u{2028}' || c == '\u{2029}' || c == '\u{202F}' || c == '\u{205F}' || c
        == '\u{3000}'
}

/// ASCII punctuation (`char::is_ascii_punctuation`).
pub open spec fn is_ascii_punct(c: char) -> bool {
    ('!' <= c && c <= '/') || (':' <= c && c <= '@') || ('[' <= c && c <= '`') || ('{' <= c
        && c <= '~')
}

/// The characters a trim removes: whitespace, and ASCII punctuation too
/// when `punct` holds.
pub open spec fn strippable(c: char, punct: bool) -> bool {
    is_ws(c) || (punct && is_ascii_punct(c))
}

/// Executable form of [`strippable`].
pub fn is_strippable(c: char, punct: bool) -> (r: bool)
    ensures
        r == strippable(c, punct),
{
    is_ws_char(c) || (punct && (('!' <= c && c <= '/') || (':' <= c && c <= '@') || ('[' <= c
        && c <= '`') || ('{' <= c && c <= '~')))
}

/// `s` with its leading strippable characters removed.
pub open spec fn trim_start_by(s: Seq<char>, punct: bool) -> Seq<char>
    decreases s.len(),
{
    if s.len() > 0 && strippable(s[0], punct) {
        trim_start_by(s.drop_first(), punct)
    } else {
        s
    }
}

/// `s` with its trailing strippable characters removed.
pub open spec fn trim_end_by(s: Seq<char>, punct: bool) -> Seq<char>
    decreases s.len(),
{
    if s.len() > 0 && strippable(s.last(), punct) {
        trim_end_by(s.drop_last(), punct)
    } else {
        s
    }
}

/// `s` with leading and trailing strippable characters removed
/// (`str::trim`, or `str::trim_matches` with whitespace and ASCII
/// punctuation when `punct` holds).
pub open spec fn trim_by(s: Seq<char>, punct: bool) -> Seq<char> {
    trim_end_by(trim_start_by(s, punct), punct)
}

/// `s` with leading and trailing whitespace removed (`str::trim`).
pub open spec fn trim(s: Seq<char>) -> Seq<char> {
    trim_by(s, false)
}

/// Strict lexicographic order on character codes (for UTF-8 text this
/// is the byte order `String`'s `Ord` uses).
pub open spec fn key_lt(a: Seq<char>, b: Seq<char>) -> bool
    decreases a.len(),
{
    if a.len() == 0 {
        b.len() > 0
    } else if b.len() == 0 {
        false
    } else if a[0] != b[0] {
        (a[0] as u32) < (b[0] as u32)
    } else {
        key_lt(a.drop_first(), b.drop_first())
    }
}

/// Whether `p` is a prefix of `s`.
pub open spec fn starts_with(s: Seq<char>, p: Seq<char>) -> bool {
    p.len() <= s.len() && s.subrange(0, p.len() as int) == p
}

/// Whether `p` occurs in `s` at position `i`.
pub open spec fn occurs_at(s: Seq<char>, p: Seq<char>, i: int) -> bool {
    0 <= i && i + p.len() <= s.len() && s.subrange(i, i + p.len()) == p
}

/// Whether `i` is the first position at which `p` occurs in `s`.
pub open spec fn first_occurrence(s: Seq<char>, p: Seq<char>, i: int) -> bool {
    occurs_at(s, p, i) && forall|j: int| 0 <= j < i ==> !occurs_at(s, p, j)
}

/// The first position at which `p` occurs in `s` (`str::find`, counted
/// in characters).
pub open spec fn find(s: Seq<char>, p: Seq<char>) -> Option<int> {
    if exists|i: int| first_occurrence(s, p, i) {
        Some(choose|i: int| first_occurrence(s, p, i))
    } else {
        None
    }
}

/// There is at most one first occurrence.
pub proof fn lemma_first_occurrence_unique(s: Seq<char>, p: Seq<char>, i: int, k: int)
    requires
        first_occurrence(s, p, i),
        first_occurrence(s, p, k),
    ensures
        i == k,
{
    if i < k {
        assert(!occurs_at(s, p, i));
    } else if k < i {
        assert(!occurs_at(s, p, k));
    }
}

/// Words and the word being read, after scanning `s` left to right
/// (the state of `str::split_whitespace`).
pub open spec fn word_scan(s: Seq<char>) -> (Seq<Seq<char>>, Seq<char>)
    decreases s.len(),
{
    if s.len() == 0 {
        (Seq::empty(), Seq::empty())
    } else {
        let (done, cur) = word_scan(s.drop_last());
        if is_ws(s.last()) {
            if cur.len() > 0 {
                (done.push(cur), Seq::empty())
            } else {
                (done, cur)
            }
        } else {
            (done, cur.push(s.last()))
        }
    }
}

/// The whitespace-separated words of `s`, in order (`str::split_whitespace`).
pub open spec fn words(s: Seq<char>) -> Seq<Seq<char>> {
    let (done, cur) = word_scan(s);
    if cur.len() > 0 {
        done.push(cur)
    } else {
        done
    }
}

/// `ws` joined with `sep` between consecutive items.
pub open spec fn join(ws: Seq<Seq<char>>, sep: Seq<char>) -> Seq<char>
    decreases ws.len(),
{
    if ws.len() == 0 {
        Seq::empty()
    } else if ws.len() == 1 {
        ws[0]
    } else {
        join(ws.drop_last(), sep) + sep + ws.last()
    }
}

/// The words of `s` joined by single spaces: whitespace runs collapsed
/// and the ends trimmed.
pub open spec fn collapse_ws(s: Seq<char>) -> Seq<char> {
    join(words(s), seq![' '])
}

/// The views of a sequence of character vectors.
pub open spec fn views(v: Seq<Vec<char>>) -> Seq<Seq<char>> {
    v.map_values(|w: Vec<char>| w@)
}

/// The views of a sequence of strings.
pub open spec fn string_views(v: Seq<String>) -> Seq<Seq<char>> {
    v.map_values(|w: String| w@)
}

/// The characters of `s`, in order.
pub fn chars_of(s: &str) -> (r: Vec<char>)
    ensures
        r@ == s@,
{
    let mut v: Vec<char> = Vec::new();
    for c in it: s.chars()
        invariant
            v@ == it.history(),
    {
        v.push(c);
    }
    v
}

/// Appends one character (`String::push`).
#[verifier::external_body]
pub(crate) fn push_char(s: &mut String, c: char)
    ensures
        final(s)@ == old(s)@.push(c),
{
    s.push(c);
}

/// The string holding exactly the characters `v`.
pub fn string_of(v: &[char]) -> (r: String)
    ensures
        r@ == v@,
{
    let mut s = String::new();
    let mut i: usize = 0;
    while i < v.len()
        invariant
            i <= v@.len(),
            s@ == v@.take(i as int),
        decreases v@.len() - i,
    {
        push_char(&mut s, v[i]);
        assert(v@.take(i + 1) == v@.take(i as int).push(v@[i as int]));
        i = i + 1;
    }
    assert(v@.take(v@.len() as int) == v@);
    s
}

/// An owned copy of `s`.
pub fn string_from(s: &str) -> (r: String)
    ensures
        r@ == s@,
{
    let v = chars_of(s);
    string_of(v.as_slice())
}

/// Whether `p` is a prefix of `s`.
pub fn starts_with_chars(s: &[char], p: &[char]) -> (r: bool)
    ensures
        r == starts_with(s@, p@),
{
    if p.len() > s.len() {
        return false;
    }
    let mut i: usize = 0;
    while i < p.len()
        invariant
            p@.len() <= s@.len(),
            i <= p@.len(),
            forall|j: int| 0 <= j < i ==> s@[j] == p@[j],
        decreases p@.len() - i,
    {
        if s[i] != p[i] {
            assert(s@.subrange(0, p@.len() as int)[i as int] != p@[i as int]);
            return false;
        }
        i = i + 1;
    }
    assert(s@.subrange(0, p@.len() as int) =~= p@);
    true
}

/// Whether `p` occurs in `s` at position `i`.
pub fn occurs_at_chars(s: &[char], p: &[char], i: usize) -> (r: bool)
    ensures
        r == occurs_at(s@, p@, i as int),
{
    if i > s.len() || p.len() > s.len() - i {
        return false;
    }
    let n = s.len();
    let mut k: usize = 0;
    while k < p.len()
        invariant
            n == s@.len(),
            i + p@.len() <= s@.len(),
            i <= s@.len(),
            k <= p@.len(),
            forall|j: int| 0 <= j < k ==> s@[i + j] == p@[j],
        decreases p@.len() - k,
    {
        if s[i + k] != p[k] {
            assert(s@.subrange(i as int, i + p@.len())[k as int] != p@[k as int]);
            return false;
        }
        k = k + 1;
    }
    assert(s@.subrange(i as int, i + p@.len()) =~= p@);
    true
}

/// Appends the characters `src` to `dst`.
pub fn append_chars(dst: &mut Vec<char>, src: &[char])
    ensures
        final(dst)@ == old(dst)@ + src@,
{
    let n = src.len();
    let mut i: usize = 0;
    while i < n
        invariant
            n == src@.len(),
            i <= n,
            dst@ == old(dst)@ + src@.take(i as int),
        decreases n - i,
    {
        dst.push(src[i]);
        assert(src@.take(i + 1) == src@.take(i as int).push(src@[i as int]));
        i = i + 1;
    }
    assert(src@.take(n as int) == src@);
}

/// The characters of `s` from `a` (inclusive) to `b` (exclusive).
pub fn sub_chars(s: &[char], a: usize, b: usize) -> (r: Vec<char>)
    requires
        a <= b <= s@.len(),
    ensures
        r@ == s@.subrange(a as int, b as int),
{
    let mut v: Vec<char> = Vec::new();
    let mut i: usize = a;
    while i < b
        invariant
            a <= i <= b,
            b <= s@.len(),
            v@ == s@.subrange(a as int, i as int),
        decreases b - i,
    {
        v.push(s[i]);
        assert(s@.subrange(a as int, i + 1) == s@.subrange(a as int, i as int).push(s@[i as int]));
        i = i + 1;
    }
    v
}

proof fn lemma_trim_start_skip(s: Seq<char>, a: int, punct: bool)
    requires
        0 <= a <= s.len(),
        forall|j: int| 0 <= j < a ==> strippable(#[trigger] s[j], punct),
        a == s.len() || !strippable(s[a], punct),
    ensures
        trim_start_by(s, punct) == s.skip(a),
    decreases a,
{
    if a > 0 {
        assert(strippable(s[0], punct));
        let t = s.drop_first();
        assert forall|j: int| 0 <= j < a - 1 implies strippable(#[trigger] t[j], punct) by {
            assert(t[j] == s[j + 1]);
        }
        if a - 1 < t.len() {
            assert(t[a - 1] == s[a]);
        }
        lemma_trim_start_skip(t, a - 1, punct);
        assert(t.skip(a - 1) =~= s.skip(a));
    } else {
        assert(s.skip(0) =~= s);
    }
}

proof fn lemma_trim_end_take(s: Seq<char>, b: int, punct: bool)
    requires
        0 <= b <= s.len(),
        forall|j: int| b <= j < s.len() ==> strippable(#[trigger] s[j], punct),
        b == 0 || !strippable(s[b - 1], punct),
    ensures
        trim_end_by(s, punct) == s.take(b),
    decreases s.len() - b,
{
    if b < s.len() {
        assert(strippable(s.last(), punct));
        let t = s.drop_last();
        assert forall|j: int| b <= j < t.len() implies strippable(#[trigger] t[j], punct) by {
            assert(t[j] == s[j]);
        }
        if b > 0 {
            assert(t[b - 1] == s[b - 1]);
        }
        lemma_trim_end_take(t, b, punct);
        assert(t.take(b) =~= s.take(b));
    } else {
        assert(s.take(b) =~= s);
    }
}

/// `s` with leading and trailing strippable characters removed.
pub fn trim_chars_by(s: &[char], punct: bool) -> (r: Vec<char>)
    ensures
        r@ == trim_by(s@, punct),
{
    let n = s.len();
    let mut a: usize = 0;
    while a < n && is_strippable(s[a], punct)
        invariant
            n == s@.len(),
            a <= n,
            forall|j: int| 0 <= j < a ==> strippable(#[trigger] s@[j], punct),
        decreases n - a,
    {
        a = a + 1;
    }
    let mut b: usize = n;
    while b > a && is_strippable(s[b - 1], punct)
        invariant
            n == s@.len(),
            a <= b <= n,
            forall|j: int| b <= j < n ==> strippable(#[trigger] s@[j], punct),
        decreases b - a,
    {
        b = b - 1;
    }
    proof {
        lemma_trim_start_skip(s@, a as int, punct);
        let t = s@.skip(a as int);
        let bb = (b - a) as int;
        assert forall|j: int| bb <= j < t.len() implies strippable(#[trigger] t[j], punct) by {
            assert(t[j] == s@[j + a]);
        }
        if bb > 0 {
            assert(t[bb - 1] == s@[b - 1]);
        }
        lemma_trim_end_take(t, bb, punct);
        assert(t.take(bb) =~= s@.subrange(a as int, b as int));
    }
    sub_chars(s, a, b)
}

/// `s` with leading and trailing whitespace removed (`str::trim`).
pub fn trim_chars(s: &[char]) -> (r: Vec<char>)
    ensures
        r@ == trim(s@),
{
    trim_chars_by(s, false)
}

/// The whitespace-separated words of `s` (`str::split_whitespace`).
pub fn split_words(s: &[char]) -> (r: Vec<Vec<char>>)
    ensures
        views(r@) == words(s@),
{
    let n = s.len();
    let mut done: Vec<Vec<char>> = Vec::new();
    let mut cur: Vec<char> = Vec::new();
    let mut i: usize = 0;
    while i < n
        invariant
            n == s@.len(),
            i <= n,
            views(done@) == word_scan(s@.take(i as int)).0,
            cur@ == word_scan(s@.take(i as int)).1,
        decreases n - i,
    {
        let c = s[i];
        proof {
            assert(s@.take(i + 1).drop_last() =~= s@.take(i as int));
            assert(s@.take(i + 1).last() == c);
        }
        if is_ws_char(c) {
            if cur.len() > 0 {
                let w = cur;
                done.push(w);
                cur = Vec::new();
                assert(views(done@) =~= word_scan(s@.take(i as int)).0.push(w@));
            }
        } else {
            cur.push(c);
        }
        i = i + 1;
    }
    assert(s@.take(n as int) =~= s@);
    if cur.len() > 0 {
        let w = cur;
        done.push(w);
        assert(views(done@) =~= word_scan(s@).0.push(w@));
    }
    done
}

/// `ws` joined with `sep` between consecutive items.
pub fn join_chars(ws: &[Vec<char>], sep: &[char]) -> (r: Vec<char>)
    ensures
        r@ == join(views(ws@), sep@),
{
    let n = ws.len();
    let mut res: Vec<char> = Vec::new();
    let mut i: usize = 0;
    while i < n
        invariant
            n == ws@.len(),
            i <= n,
            res@ == join(views(ws@).take(i as int), sep@),
        decreases n - i,
    {
        proof {
            let t = views(ws@).take(i + 1);
            assert(t.drop_last() =~= views(ws@).take(i as int));
            assert(t.last() == ws@[i as int]@);
            if i == 0 {
                assert(t.len() == 1);
            }
        }
        if i > 0 {
            append_chars(&mut res, sep);
        }
        append_chars(&mut res, ws[i].as_slice());
        i = i + 1;
    }
    assert(views(ws@).take(n as int) =~= views(ws@));
    res
}

/// Occurrences in a suffix are occurrences in the whole, shifted.
pub proof fn lemma_occurs_skip(s: Seq<char>, p: Seq<char>, lo: int, k: int)
    requires
        0 <= lo <= s.len(),
        0 <= k,
    ensures
        occurs_at(s.skip(lo), p, k) == occurs_at(s, p, lo + k),
{
    if k + p.len() <= s.len() - lo {
        assert(s.skip(lo).subrange(k, k + p.len()) =~= s.subrange(lo + k, lo + k + p.len()));
    }
}

/// The first position, counted from `lo`, at which `p` occurs in the
/// part of `s` that starts at `lo`.
pub fn find_in(s: &[char], lo: usize, p: &[char]) -> (r: Option<usize>)
    requires
        lo <= s@.len(),
    ensures
        match r {
            Some(i) => find(s@.skip(lo as int), p@) == Some(i as int) && lo + i + p@.len() <= s@.len(),
            None => find(s@.skip(lo as int), p@) is None,
        },
{
    let ghost t = s@.skip(lo as int);
    let n = s.len();
    if p.len() > n - lo {
        assert forall|j: int| !occurs_at(t, p@, j) by {}
        assert(!exists|i: int| first_occurrence(t, p@, i));
        return None;
    }
    let mut i: usize = lo;
    while i <= n - p.len()
        invariant
            n == s@.len(),
            lo <= i,
            lo <= n,
            p@.len() <= n - lo,
            t == s@.skip(lo as int),
            forall|j: int| 0 <= j < i - lo ==> !occurs_at(t, p@, j),
        decreases n + 1 - i,
    {
        let hit = occurs_at_chars(s, p, i);
        proof {
            lemma_occurs_skip(s@, p@, lo as int, i - lo);
        }
        if hit {
            proof {
                assert(first_occurrence(t, p@, i - lo));
                let k = choose|k: int| first_occurrence(t, p@, k);
                lemma_first_occurrence_unique(t, p@, i - lo, k);
            }
            return Some(i - lo);
        }
        if i == n - p.len() {
            assert forall|j: int| !occurs_at(t, p@, j) by {
                if 0 <= j && j >= i - lo {
                    lemma_occurs_skip(s@, p@, lo as int, j);
                }
            }
            assert(!exists|i: int| first_occurrence(t, p@, i));
            return None;
        }
        i = i + 1;
    }
    assert forall|j: int| !occurs_at(t, p@, j) by {
        if 0 <= j {
            lemma_occurs_skip(s@, p@, lo as int, j);
        }
    }
    assert(!exists|i: int| first_occurrence(t, p@, i));
    None
}

/// Whether the part of `s` that starts at `lo` begins with `p`.
pub fn starts_at(s: &[char], lo: usize, p: &[char]) -> (r: bool)
    requires
        lo <= s@.len(),
    ensures
        r == starts_with(s@.skip(lo as int), p@),
{
    let r = occurs_at_chars(s, p, lo);
    proof {
        lemma_occurs_skip(s@, p@, lo as int, 0);
    }
    r
}

/// Whether `a` and `b` hold the same characters.
pub fn eq_chars(a: &[char], b: &[char]) -> (r: bool)
    ensures
        r == (a@ == b@),
{
    if a.len() != b.len() {
        return false;
    }
    let r = starts_with_chars(a, b);
    proof {
        if r {
            assert(a@.subrange(0, b@.len() as int) =~= a@);
        } else {
            if a@ == b@ {
                assert(a@.subrange(0, b@.len() as int) =~= a@);
            }
        }
    }
    r
}

/// What `str::to_lowercase` returns for a string holding `s`.
pub uninterp spec fn lowercase(s: Seq<char>) -> Seq<char>;

/// Calls `str::to_lowercase` (Unicode lowercase mapping). The result is
/// the name [`lowercase`] applied to the input; nothing more is claimed.
#[verifier::external_body]
pub(crate) fn to_lowercase_chars(s: &[char]) -> (r: Vec<char>)
    ensures
        r@ == lowercase(s@),
{
    let t: String = s.iter().collect();
    t.to_lowercase().chars().collect()
}

/// What `str::to_uppercase` returns for a string holding `s`.
pub uninterp spec fn uppercase(s: Seq<char>) -> Seq<char>;

/// Calls `str::to_uppercase` (Unicode uppercase mapping). The result is
/// the name [`uppercase`] applied to the input; nothing more is claimed.
#[verifier::external_body]
pub(crate) fn to_uppercase_chars(s: &[char]) -> (r: Vec<char>)
    ensures
        r@ == uppercase(s@),
{
    let t: String = s.iter().collect();
    t.to_uppercase().chars().collect()
}

/// Whether `s` holds exactly the characters of `lit`.
pub fn same_text(s: &[char], lit: &str) -> (r: bool)
    ensures
        r == (s@ == lit@),
{
    let l = chars_of(lit);
    eq_chars(s, l.as_slice())
}

/// Appends `t` (`String::push_str`).
#[verifier::external_body]
pub(crate) fn push_str(s: &mut String, t: &str)
    ensures
        final(s)@ == old(s)@ + t@,
{
    s.push_str(t);
}

/// `find` reports the first occurrence.
pub proof fn lemma_find_some(s: Seq<char>, p: Seq<char>)
    ensures
        find(s, p) matches Some(i) ==> first_occurrence(s, p, i),
        find(s, p) is None ==> forall|j: int| !first_occurrence(s, p, j),
{
}

/// A first occurrence is what `find` reports.
pub proof fn lemma_find_is(s: Seq<char>, p: Seq<char>, i: int)
    requires
        first_occurrence(s, p, i),
    ensures
        find(s, p) == Some(i),
{
    let k = choose|k: int| first_occurrence(s, p, k);
    lemma_first_occurrence_unique(s, p, i, k);
}

/// The number of bytes of the UTF-8 encoding of `s`.
pub open spec fn byte_len(s: Seq<char>) -> int {
    vstd::utf8::encode_utf8(s).len() as int
}

/// Encoding a concatenation encodes each part.
pub proof fn lemma_encode_append(a: Seq<char>, b: Seq<char>)
    ensures
        vstd::utf8::encode_utf8(a + b) == vstd::utf8::encode_utf8(a) + vstd::utf8::encode_utf8(b),
    decreases a.len(),
{
    if a.len() > 0 {
        assert((a + b).drop_first() =~= a.drop_first() + b);
        assert((a + b)[0] == a[0]);
        lemma_encode_append(a.drop_first(), b);
        assert(vstd::utf8::encode_scalar(a[0] as u32) + (vstd::utf8::encode_utf8(a.drop_first())
            + vstd::utf8::encode_utf8(b)) =~= (vstd::utf8::encode_scalar(a[0] as u32)
            + vstd::utf8::encode_utf8(a.drop_first())) + vstd::utf8::encode_utf8(b));
    } else {
        assert(a + b =~= b);
    }
}

/// The number of UTF-8 bytes of `c` (`char::len_utf8`).
pub fn char_width(c: char) -> (r: u128)
    ensures
        r == vstd::utf8::encode_utf8(seq![c]).len(),
        1 <= r <= 4,
{
    let v = c as u32;
    proof {
        vstd::utf8::char_is_scalar(c);
        assert(seq![c].drop_first() =~= Seq::<char>::empty());
        assert(seq![c][0] == c);
        assert(vstd::utf8::encode_utf8(Seq::<char>::empty()) =~= Seq::<u8>::empty());
        assert(vstd::utf8::encode_utf8(seq![c]) =~= vstd::utf8::encode_scalar(v));
    }
    if v <= 0x7F {
        1
    } else if v <= 0x7FF {
        2
    } else if v <= 0xFFFF {
        3
    } else {
        4
    }
}

/// The number of UTF-8 bytes of the characters `v` (`str::len`).
pub fn byte_len_of(v: &[char]) -> (r: u128)
    ensures
        r == byte_len(v@),
        r <= 4 * (usize::MAX as u128),
{
    let n = v.len();
    let mut acc: u128 = 0;
    let mut i: usize = 0;
    while i < n
        invariant
            n == v@.len(),
            i <= n,
            acc == byte_len(v@.take(i as int)),
            acc <= 4 * i,
        decreases n - i,
    {
        let w = char_width(v[i]);
        proof {
            assert(v@.take(i + 1) =~= v@.take(i as int) + seq![v@[i as int]]);
            lemma_encode_append(v@.take(i as int), seq![v@[i as int]]);
        }
        acc = acc + w;
        i = i + 1;
    }
    assert(v@.take(n as int) =~= v@);
    acc
}

/// The decimal digit for `d < 10`.
pub open spec fn dec_digit(d: int) -> char {
    (48 + d) as char
}

/// The decimal text of `n` (`u64`'s `Display`).
pub open spec fn dec(n: nat) -> Seq<char>
    decreases n,
{
    if n < 10 {
        seq![dec_digit(n as int)]
    } else {
        dec(n / 10).push(dec_digit((n % 10) as int))
    }
}

/// The decimal text of `i`, with a leading `-` when negative.
pub open spec fn sdec(i: int) -> Seq<char> {
    if i < 0 {
        seq!['-'] + dec((-i) as nat)
    } else {
        dec(i as nat)
    }
}

/// The decimal text of `n`.
pub fn u64_decimal(n: u64) -> (r: String)
    ensures
        r@ == dec(n as nat),
{
    let mut acc: Vec<char> = Vec::new();
    let mut t = n;
    loop
        invariant_except_break
            dec(n as nat) == dec(t as nat) + acc@,
        ensures
            dec(n as nat) == acc@,
        decreases t,
    {
        let d = (t % 10) as u8;
        let c = (48 + d) as char;
        let ghost before = acc@;
        acc.insert(0, c);
        proof {
            assert(c == dec_digit((t % 10) as int));
            if t < 10 {
                assert(dec(t as nat) =~= seq![c]);
                assert(acc@ =~= dec(t as nat) + before);
            } else {
                assert(dec(t as nat) == dec((t / 10) as nat).push(c));
                assert(dec((t / 10) as nat).push(c) + before =~= dec((t / 10) as nat) + acc@);
            }
        }
        if t < 10 {
            break;
        }
        t = t / 10;
    }
    string_of(acc.as_slice())
}

/// The decimal text of `i`.
pub fn i64_decimal(i: i64) -> (r: String)
    ensures
        r@ == sdec(i as int),
{
    if i < 0 {
        let m = (-(i as i128)) as u64;
        let mut r = string_from("-");
        let d = u64_decimal(m);
        push_str(&mut r, d.as_str());
        proof {
            reveal_strlit("-");
        }
        r
    } else {
        u64_decimal(i as u64)
    }
}

/// Whether `n` bytes into the UTF-8 of `s` is a character boundary.
pub open spec fn at_boundary(s: Seq<char>, n: int) -> bool {
    exists|k: int| 0 <= k <= s.len() && byte_len(s.take(k)) == n
}

/// Whether the first `k` characters of `s` are the longest prefix within
/// `n` UTF-8 bytes.
pub open spec fn longest_cut(s: Seq<char>, n: int, k: int) -> bool {
    0 <= k <= s.len() && byte_len(s.take(k)) <= n && (k == s.len() || byte_len(s.take(k + 1)) > n)
}

/// The characters of `s` within its first `n` UTF-8 bytes.
pub open spec fn byte_prefix(s: Seq<char>, n: int) -> Seq<char> {
    s.take(choose|k: int| longest_cut(s, n, k))
}

/// One more character adds its width to the byte length of a prefix.
pub proof fn lemma_byte_len_step(s: Seq<char>, k: int)
    requires
        0 <= k < s.len(),
    ensures
        byte_len(s.take(k + 1)) == byte_len(s.take(k)) + vstd::utf8::encode_utf8(seq![s[k]]).len(),
        byte_len(s.take(k + 1)) > byte_len(s.take(k)),
{
    assert(s.take(k + 1) =~= s.take(k) + seq![s[k]]);
    lemma_encode_append(s.take(k), seq![s[k]]);
    vstd::utf8::char_is_scalar(s[k]);
    assert(seq![s[k]].drop_first() =~= Seq::<char>::empty());
    assert(seq![s[k]][0] == s[k]);
    assert(vstd::utf8::encode_utf8(Seq::<char>::empty()) =~= Seq::<u8>::empty());
    assert(vstd::utf8::encode_utf8(seq![s[k]]) =~= vstd::utf8::encode_scalar(s[k] as u32));
}

/// Byte lengths of prefixes grow with the prefix.
pub proof fn lemma_byte_len_mono(s: Seq<char>, j: int, k: int)
    requires
        0 <= j <= k <= s.len(),
    ensures
        byte_len(s.take(j)) <= byte_len(s.take(k)),
        j < k ==> byte_len(s.take(j)) < byte_len(s.take(k)),
    decreases k - j,
{
    if j < k {
        lemma_byte_len_step(s, k - 1);
        lemma_byte_len_mono(s, j, k - 1);
    }
}

/// The characters of `v` within its first `n` UTF-8 bytes: the longest
/// prefix that fits.
pub fn chars_within_bytes(v: &[char], n: u128) -> (r: Vec<char>)
    ensures
        r@ == byte_prefix(v@, n as int),
        at_boundary(v@, n as int) <==> byte_len(r@) == n,
{
    let len = v.len();
    let mut acc: u128 = 0;
    let mut k: usize = 0;
    assert(v@.take(0) =~= Seq::<char>::empty());
    assert(vstd::utf8::encode_utf8(Seq::<char>::empty()) =~= Seq::<u8>::empty());
    while k < len && acc + char_width(v[k]) <= n
        invariant
            len == v@.len(),
            k <= len,
            acc == byte_len(v@.take(k as int)),
            acc <= n,
            acc <= 4 * k,
        decreases len - k,
    {
        let w = char_width(v[k]);
        proof {
            lemma_byte_len_step(v@, k as int);
        }
        acc = acc + w;
        k = k + 1;
    }
    proof {
        if k < len {
            lemma_byte_len_step(v@, k as int);
        }
        let kk = k as int;
        assert(longest_cut(v@, n as int, kk));
        let pick = choose|j: int| longest_cut(v@, n as int, j);
        if pick < kk {
            lemma_byte_len_mono(v@, pick + 1, kk);
        } else if pick > kk {
            lemma_byte_len_mono(v@, kk + 1, pick);
        }
        assert(pick == kk);
        if byte_len(v@.take(kk)) == n {
            assert(0 <= kk <= v@.len() && byte_len(v@.take(kk)) == n);
        }
        if at_boundary(v@, n as int) {
            let b = choose|b: int| 0 <= b <= v@.len() && byte_len(v@.take(b)) == n;
            if b < kk {
                lemma_byte_len_mono(v@, b, kk);
            } else if b > kk {
                lemma_byte_len_mono(v@, kk + 1, b);
            }
        }
    }
    sub_chars(v, 0, k)
}

/// Whether `c` is alphanumeric in Unicode's sense (`char::is_alphanumeric`).
pub uninterp spec fn alphanumeric(c: char) -> bool;

/// Calls `char::is_alphanumeric`.
#[verifier::external_body]
pub(crate) fn is_alphanumeric(c: char) -> (r: bool)
    ensures
        r == alphanumeric(c),
{
    c.is_alphanumeric()
}

/// The lines of `s` as `str::lines` yields them: split at `\n` or
/// `\r\n`, the final line ending optional (a `\r` at the very end, with
/// no `\n` after it, stays in the last line).
pub open spec fn text_lines(s: Seq<char>) -> Seq<Seq<char>> {
    let (done, cur) = line_scan(s);
    if cur.len() > 0 {
        done.push(cur)
    } else {
        done
    }
}

/// `l` without one trailing `\r`.
pub open spec fn strip_cr(l: Seq<char>) -> Seq<char> {
    if l.len() > 0 && l.last() == '\r' {
        l.drop_last()
    } else {
        l
    }
}

/// Finished lines and the line being read, after scanning `s` left to
/// right: a line ends at `\n`, and loses a `\r` just before it.
pub open spec fn line_scan(s: Seq<char>) -> (Seq<Seq<char>>, Seq<char>)
    decreases s.len(),
{
    if s.len() == 0 {
        (Seq::empty(), Seq::empty())
    } else {
        let (done, cur) = line_scan(s.drop_last());
        if s.last() == '\n' {
            (done.push(strip_cr(cur)), Seq::empty())
        } else {
            (done, cur.push(s.last()))
        }
    }
}

/// The lines of `s` (`str::lines`).
pub fn split_lines(s: &[char]) -> (r: Vec<Vec<char>>)
    ensures
        views(r@) == text_lines(s@),
{
    let n = s.len();
    let mut done: Vec<Vec<char>> = Vec::new();
    let mut cur: Vec<char> = Vec::new();
    let mut i: usize = 0;
    while i < n
        invariant
            n == s@.len(),
            i <= n,
            views(done@) == line_scan(s@.take(i as int)).0,
            cur@ == line_scan(s@.take(i as int)).1,
        decreases n - i,
    {
        let c = s[i];
        proof {
            assert(s@.take(i + 1).drop_last() =~= s@.take(i as int));
            assert(s@.take(i + 1).last() == c);
        }
        if c == '\n' {
            let line = strip_cr_chars(cur);
            let ghost before = views(done@);
            done.push(line);
            assert(views(done@) =~= before.push(strip_cr(line_scan(s@.take(i as int)).1)));
            cur = Vec::new();
        } else {
            cur.push(c);
        }
        i = i + 1;
    }
    assert(s@.take(n as int) =~= s@);
    if cur.len() > 0 {
        let ghost before = views(done@);
        let ghost cv = cur@;
        done.push(cur);
        assert(views(done@) =~= before.push(cv));
    }
    done
}

fn strip_cr_chars(v: Vec<char>) -> (r: Vec<char>)
    ensures
        r@ == strip_cr(v@),
{
    let mut v = v;
    if v.len() > 0 && v[v.len() - 1] == '\r' {
        v.pop();
    }
    v
}

/// The first `n` characters of `s` (all of it when shorter).
pub open spec fn first_chars(s: Seq<char>, n: nat) -> Seq<char> {
    if s.len() <= n {
        s
    } else {
        s.take(n as int)
    }
}

/// The first `n` characters of `s`.
pub fn take_chars(s: &[char], n: usize) -> (r: Vec<char>)
    ensures
        r@ == first_chars(s@, n as nat),
{
    if s.len() <= n {
        let r = sub_chars(s, 0, s.len());
        assert(r@ =~= s@);
        r
    } else {
        sub_chars(s, 0, n)
    }
}

/// `c` with ASCII capitals made small (`char::to_ascii_lowercase`).
pub open spec fn ascii_lower_char(c: char) -> char {
    if 'A' <= c && c <= 'Z' {
        ((c as u32) + 32) as char
    } else {
        c
    }
}

/// `s` with ASCII capitals made small (`str::to_ascii_lowercase`).
pub open spec fn ascii_lower(s: Seq<char>) -> Seq<char> {
    s.map_values(|c: char| ascii_lower_char(c))
}

/// `s` with ASCII capitals made small.
pub fn lower_ascii(s: &[char]) -> (r: Vec<char>)
    ensures
        r@ == ascii_lower(s@),
{
    let n = s.len();
    let mut out: Vec<char> = Vec::new();
    let mut i: usize = 0;
    while i < n
        invariant
            n == s@.len(),
            i <= n,
            out@ == ascii_lower(s@.take(i as int)),
        decreases n - i,
    {
        let c = s[i];
        let l = if 'A' <= c && c <= 'Z' {
            ((c as u8) + 32) as char
        } else {
            c
        };
        out.push(l);
        assert(out@ =~= ascii_lower(s@.take(i + 1)));
        i = i + 1;
    }
    assert(s@.take(n as int) =~= s@);
    out
}

/// Whether `a` and `b` are equal ignoring ASCII case
/// (`str::eq_ignore_ascii_case`).
pub open spec fn eq_ascii_nocase(a: Seq<char>, b: Seq<char>) -> bool {
    ascii_lower(a) == ascii_lower(b)
}

/// Whether `a` and `b` are equal ignoring ASCII case.
pub fn same_ignoring_ascii_case(a: &str, b: &str) -> (r: bool)
    ensures
        r == eq_ascii_nocase(a@, b@),
{
    let la = lower_ascii(chars_of(a).as_slice());
    let lb = lower_ascii(chars_of(b).as_slice());
    eq_chars(la.as_slice(), lb.as_slice())
}

} // verus!
