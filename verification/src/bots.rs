//! Agent bots: identities shown in the channel, message wrapping,
//! deploy-URL extraction, project naming, and the chatroom simulator's
//! prompt building and reply cleanup.
use vstd::prelude::*;
use vstd::string::StringSliceAdditionalSpecFns;
use crate::clock::utc_now;
use crate::json::{member, str_of, JsonValue};
use crate::text::{
    alphanumeric, append_chars, at_boundary, byte_len, byte_len_of, byte_prefix, chars_of,
    chars_within_bytes, dec, eq_chars, i64_decimal, is_alphanumeric, join, lemma_byte_len_step,
    lowercase, push_str, same_text, sdec, split_lines, split_words, starts_at, starts_with,
    starts_with_chars, string_from, string_of, string_views, sub_chars, text_lines,
    to_lowercase_chars, trim, trim_chars, u64_decimal, views, words,
};

verus! {

/// An agent identity for channel messages.
#[derive(Debug, Clone)]
pub struct AgentId {
    /// Display name shown in messages, e.g. "architect", "builder".
    pub role: String,
    /// IRC color code (optional).
    pub color: Option<u8>,
}

/// The agent that analyzes specs.
pub fn architect() -> (r: AgentId)
    ensures
        r.role@ == "architect"@,
        r.color is None,
{
    AgentId { role: string_of(chars_of("architect").as_slice()), color: None }
}

/// The agent that writes code.
pub fn builder() -> (r: AgentId)
    ensures
        r.role@ == "builder"@,
        r.color is None,
{
    AgentId { role: string_of(chars_of("builder").as_slice()), color: None }
}

/// The agent that deploys.
pub fn deployer() -> (r: AgentId)
    ensures
        r.role@ == "deploy"@,
        r.color is None,
{
    AgentId { role: string_of(chars_of("deploy").as_slice()), color: None }
}

/// Greedy packing of `ws` into lines of at most `max` bytes, as
/// [`wrap_lines`] does it for one over-long line: the finished lines and
/// the line being built.
pub open spec fn pack_scan(ws: Seq<Seq<char>>, max: int) -> (Seq<Seq<char>>, Seq<char>)
    decreases ws.len(),
{
    if ws.len() == 0 {
        (Seq::empty(), Seq::empty())
    } else {
        let (lines, cur) = pack_scan(ws.drop_last(), max);
        let w = ws.last();
        if byte_len(cur) + byte_len(w) + 1 > max {
            (if cur.len() > 0 { lines.push(cur) } else { lines }, w)
        } else {
            (lines, if cur.len() > 0 { cur + seq![' '] + w } else { w })
        }
    }
}

/// The wrapped lines one input line becomes.
pub open spec fn wrap_one(line: Seq<char>, max: int) -> Seq<Seq<char>> {
    if byte_len(line) <= max {
        seq![line]
    } else {
        let (lines, cur) = pack_scan(words(line), max);
        if cur.len() > 0 {
            lines.push(cur)
        } else {
            lines
        }
    }
}

/// The wrapped lines of the lines of `ls`, in order.
pub open spec fn wrap_all(ls: Seq<Seq<char>>, max: int) -> Seq<Seq<char>>
    decreases ls.len(),
{
    if ls.len() == 0 {
        Seq::empty()
    } else {
        wrap_all(ls.drop_last(), max) + wrap_one(ls.last(), max)
    }
}

/// Wrap text into lines of at most `max_len` bytes, breaking on word
/// boundaries; a line that fits is kept as it is, and a single word
/// longer than the limit stays on its own line.
pub fn wrap_lines(text: &str, max_len: usize) -> (r: Vec<String>)
    ensures
        string_views(r@) == wrap_all(text_lines(text@), max_len as int),
{
    let ls = split_lines(chars_of(text).as_slice());
    let n = ls.len();
    let mut result: Vec<String> = Vec::new();
    let mut i: usize = 0;
    while i < n
        invariant
            n == ls@.len(),
            i <= n,
            string_views(result@) == wrap_all(views(ls@).take(i as int), max_len as int),
        decreases n - i,
    {
        let line = &ls[i];
        proof {
            assert(views(ls@).take(i + 1).drop_last() =~= views(ls@).take(i as int));
            assert(views(ls@).take(i + 1).last() == line@);
        }
        let ghost before = string_views(result@);
        let lb = byte_len_of(line.as_slice());
        if lb <= max_len as u128 {
            result.push(string_of(line.as_slice()));
            assert(string_views(result@) =~= before + seq![line@]);
        } else {
            let ws = split_words(line.as_slice());
            let m = ws.len();
            let mut done: Vec<String> = Vec::new();
            let mut cur: Vec<char> = Vec::new();
            let mut cur_bytes: u128 = 0;
            let mut k: usize = 0;
            while k < m
                invariant
                    m == ws@.len(),
                    k <= m,
                    string_views(done@) == pack_scan(views(ws@).take(k as int), max_len as int).0,
                    cur@ == pack_scan(views(ws@).take(k as int), max_len as int).1,
                    cur_bytes == byte_len(cur@),
                    cur_bytes <= 4 * (usize::MAX as u128),
                decreases m - k,
            {
                let w = &ws[k];
                proof {
                    assert(views(ws@).take(k + 1).drop_last() =~= views(ws@).take(k as int));
                    assert(views(ws@).take(k + 1).last() == w@);
                }
                let wb = byte_len_of(w.as_slice());
                if cur_bytes + wb + 1 > max_len as u128 {
                    if cur.len() > 0 {
                        let ghost b2 = string_views(done@);
                        done.push(string_of(cur.as_slice()));
                        assert(string_views(done@) =~= b2.push(cur@));
                    }
                    cur = w.clone();
                    cur_bytes = wb;
                } else {
                    if cur.len() > 0 {
                        cur.push(' ');
                    }
                    let ghost c0 = cur@;
                    crate::text::append_chars(&mut cur, w.as_slice());
                    cur_bytes = byte_len_of(cur.as_slice());
                }
                k = k + 1;
            }
            assert(views(ws@).take(m as int) =~= views(ws@));
            if cur.len() > 0 {
                let ghost b2 = string_views(done@);
                done.push(string_of(cur.as_slice()));
                assert(string_views(done@) =~= b2.push(cur@));
            }
            let ghost chunk = string_views(done@);
            let mut j: usize = 0;
            while j < done.len()
                invariant
                    j <= done@.len(),
                    string_views(done@) == chunk,
                    string_views(result@) == before + chunk.take(j as int),
                decreases done@.len() - j,
            {
                let ghost b3 = string_views(result@);
                result.push(done[j].clone());
                assert(string_views(result@) =~= b3.push(chunk[j as int]));
                assert(chunk.take(j + 1) =~= chunk.take(j as int).push(chunk[j as int]));
                j = j + 1;
            }
            assert(chunk.take(done@.len() as int) =~= chunk);
        }
        i = i + 1;
    }
    assert(views(ls@).take(n as int) =~= views(ls@));
    result
}

/// The first line of `output` that, trimmed, starts with `https://`.
pub open spec fn deploy_url_in(ls: Seq<Seq<char>>) -> Option<Seq<char>>
    decreases ls.len(),
{
    if ls.len() == 0 {
        None
    } else if starts_with(trim(ls[0]), "https://"@) {
        Some(trim(ls[0]))
    } else {
        deploy_url_in(ls.drop_first())
    }
}

/// Extract a deployed URL from deploy output: the first line that,
/// trimmed, starts with `https://`.
pub fn extract_deploy_url(output: &str) -> (r: Option<String>)
    ensures
        match r {
            Some(u) => deploy_url_in(text_lines(output@)) == Some(u@),
            None => deploy_url_in(text_lines(output@)) is None,
        },
{
    let ls = split_lines(chars_of(output).as_slice());
    let pre = chars_of("https://");
    let n = ls.len();
    let mut i: usize = 0;
    assert(views(ls@).skip(0) =~= views(ls@));
    while i < n
        invariant
            n == ls@.len(),
            i <= n,
            pre@ == "https://"@,
            views(ls@) == text_lines(output@),
            deploy_url_in(views(ls@)) == deploy_url_in(views(ls@).skip(i as int)),
        decreases n - i,
    {
        let t = trim_chars(ls[i].as_slice());
        assert(views(ls@).skip(i as int)[0] == ls@[i as int]@);
        assert(views(ls@).skip(i as int).drop_first() =~= views(ls@).skip(i + 1));
        if starts_with_chars(t.as_slice(), pre.as_slice()) {
            assert(views(ls@).skip(i as int).len() > 0);
            assert(deploy_url_in(views(ls@).skip(i as int)) == Some(trim(ls@[i as int]@)));
            return Some(string_of(t.as_slice()));
        }
        i = i + 1;
    }
    assert(views(ls@).skip(n as int).len() == 0);
    None
}

/// The chatroom simulator's persona for one bot.
pub struct OwnedPersona {
    pub nick: String,
    pub realname: String,
    pub personality: String,
}

/// The system prompt's text before the nick.
pub const PROMPT_HEAD: &'static str = r#"You are "#;

/// The system prompt's text between the nick and the personality.
pub const PROMPT_AFTER_NICK: &'static str = r#" in an IRC chat channel. Here is who you are:

"#;

/// The system prompt's text between the personality and the topic.
pub const PROMPT_AFTER_PERSONALITY: &'static str = r#"

The channel's general vibe: "#;

/// The system prompt's rules, after the topic.
pub const PROMPT_RULES: &'static str = r#"

RULES — follow these exactly:
- Output ONLY your next chat message. No prefix, no quotes, no explanation.
- Keep it SHORT. 1-2 sentences max. This is IRC, not email.
- Be natural. Match your character's voice.
- React to what others said when it makes sense. Sometimes change the subject.
- About 1 in 10 messages, share a real URL — could be:
  • A GitHub repo (github.com/real-org/real-project)
  • An image/meme (i.imgur.com/xxxxx.jpg — make up a plausible hash)
  • A YouTube video (youtube.com/watch?v=...)
  • An xkcd (xkcd.com/NNN)
  • A blog post or HN thread
- You can use /me for actions: /me sighs
- Vary your message style. Don't always start the same way.
- Sometimes just react briefly: "lol", "nice", "oh no", "hah true", "^^ this", "+1"
- NEVER break character. NEVER narrate or describe what you're doing.
- NEVER use quotation marks around your message.
- If the channel is quiet, start a new topic naturally."#;

/// The system prompt for a bot wearing `persona` in a channel about `topic`.
pub fn build_system_prompt(persona: &OwnedPersona, topic: &str) -> (r: String)
    ensures
        r@ == PROMPT_HEAD@ + persona.nick@ + PROMPT_AFTER_NICK@ + persona.personality@
            + PROMPT_AFTER_PERSONALITY@ + topic@ + PROMPT_RULES@,
{
    let mut s = String::new();
    push_str(&mut s, PROMPT_HEAD);
    push_str(&mut s, persona.nick.as_str());
    push_str(&mut s, PROMPT_AFTER_NICK);
    push_str(&mut s, persona.personality.as_str());
    push_str(&mut s, PROMPT_AFTER_PERSONALITY);
    push_str(&mut s, topic);
    push_str(&mut s, PROMPT_RULES);
    s
}

/// `s` without prefix `p`, if it starts with it (`str::strip_prefix`),
/// else `s`.
pub open spec fn strip_once(s: Seq<char>, p: Seq<char>) -> Seq<char> {
    if starts_with(s, p) {
        s.skip(p.len() as int)
    } else {
        s
    }
}

/// The self-prefixes a model may echo before its line: `<nick> `,
/// `nick: `, `[nick] `, stripped in that order.
pub open spec fn strip_self_prefixes(s: Seq<char>, nick: Seq<char>) -> Seq<char> {
    strip_once(
        strip_once(strip_once(s, seq!['<'] + nick + seq!['>', ' ']), nick + seq![':', ' ']),
        seq!['['] + nick + seq![']', ' '],
    )
}

/// `s` without one pair of surrounding double or single quotes, when it
/// is longer than two bytes.
pub open spec fn unquote(s: Seq<char>) -> Seq<char> {
    if byte_len(s) > 2 && ((s[0] == '"' && s[s.len() - 1] == '"') || (s[0] == '\'' && s[s.len() - 1]
        == '\'')) {
        s.subrange(1, s.len() - 1)
    } else {
        s
    }
}

/// The position of the last space in `s`, if any.
pub open spec fn last_space(s: Seq<char>) -> Option<int> {
    if exists|i: int| 0 <= i < s.len() && s[i] == ' ' {
        Some(choose|i: int| 0 <= i < s.len() && s[i] == ' ' && forall|j: int| i < j < s.len() ==> s[j] != ' ')
    } else {
        None
    }
}

/// A long line cut to its first 400 bytes, then back to before its last
/// space, if it has one.
pub open spec fn cap_length(s: Seq<char>) -> Seq<char> {
    if byte_len(s) > 400 {
        let t = byte_prefix(s, 400);
        match last_space(t) {
            Some(i) => t.take(i),
            None => t,
        }
    } else {
        s
    }
}

/// What a chat bot posts of a model's reply `raw`.
pub open spec fn cleaned_response(raw: Seq<char>, nick: Seq<char>) -> Seq<char> {
    cap_length(unquote(strip_self_prefixes(trim(raw), nick)))
}

/// Whether cleaning `raw` cuts at a character boundary (else the
/// byte-indexed cut would not be a valid `String` truncation).
pub open spec fn clean_cut_ok(raw: Seq<char>, nick: Seq<char>) -> bool {
    let u = unquote(strip_self_prefixes(trim(raw), nick));
    byte_len(u) > 400 ==> at_boundary(u, 400)
}

/// `s` without the prefix `p`, if it has it.
fn strip_prefix_chars(s: Vec<char>, p: &[char]) -> (r: Vec<char>)
    ensures
        r@ == strip_once(s@, p@),
{
    let n = s.len();
    let m = p.len();
    assert(s@.skip(0) =~= s@);
    if starts_at(s.as_slice(), 0, p) {
        sub_chars(s.as_slice(), m, n)
    } else {
        s
    }
}

/// Clean up a model's reply before posting it as `nick`: trim, drop an
/// echoed `<nick> `/`nick: `/`[nick] ` prefix, drop surrounding quotes,
/// and cut lines over 400 bytes back to a word boundary.
pub fn clean_response(raw: &str, nick: &str) -> (r: String)
    requires
        clean_cut_ok(raw@, nick@),
    ensures
        r@ == cleaned_response(raw@, nick@),
{
    let rc = chars_of(raw);
    let nc = chars_of(nick);
    let mut msg = trim_chars(rc.as_slice());
    let mut p1: Vec<char> = Vec::new();
    p1.push('<');
    append_chars(&mut p1, nc.as_slice());
    p1.push('>');
    p1.push(' ');
    let mut p2: Vec<char> = Vec::new();
    append_chars(&mut p2, nc.as_slice());
    p2.push(':');
    p2.push(' ');
    let mut p3: Vec<char> = Vec::new();
    p3.push('[');
    append_chars(&mut p3, nc.as_slice());
    p3.push(']');
    p3.push(' ');
    assert(p1@ =~= seq!['<'] + nick@ + seq!['>', ' ']);
    assert(p2@ =~= nick@ + seq![':', ' ']);
    assert(p3@ =~= seq!['['] + nick@ + seq![']', ' ']);
    msg = strip_prefix_chars(msg, p1.as_slice());
    msg = strip_prefix_chars(msg, p2.as_slice());
    msg = strip_prefix_chars(msg, p3.as_slice());
    let n = msg.len();
    let bytes = byte_len_of(msg.as_slice());
    proof {
        if n < 2 && byte_len(msg@) > 2 {
            assert(msg@.take(0) =~= Seq::<char>::empty());
            assert(vstd::utf8::encode_utf8(Seq::<char>::empty()) =~= Seq::<u8>::empty());
            if n == 1 {
                lemma_byte_len_step(msg@, 0);
                assert(msg@.take(1) =~= msg@);
                if msg@[0] == '"' || msg@[0] == '\'' {
                    assert(seq![msg@[0]].drop_first() =~= Seq::<char>::empty());
                    assert(vstd::utf8::encode_utf8(seq![msg@[0]]) =~= vstd::utf8::encode_scalar(msg@[0] as u32));
                }
            } else {
                assert(msg@ =~= Seq::<char>::empty());
            }
        }
    }
    if bytes > 2 && n >= 2 && ((msg[0] == '"' && msg[n - 1] == '"') || (msg[0] == '\'' && msg[n - 1] == '\'')) {
        msg = sub_chars(msg.as_slice(), 1, n - 1);
    }
    let bytes = byte_len_of(msg.as_slice());
    if bytes > 400 {
        let t = chars_within_bytes(msg.as_slice(), 400);
        let m = t.len();
        let mut i: usize = m;
        while i > 0 && t[i - 1] != ' '
            invariant
                i <= m,
                m == t@.len(),
                forall|j: int| i <= j < m ==> t@[j] != ' ',
            decreases i,
        {
            i = i - 1;
        }
        proof {
            if i > 0 {
                let k = (i - 1) as int;
                assert(exists|q: int| 0 <= q < t@.len() && t@[q] == ' ');
                let c = choose|q: int| 0 <= q < t@.len() && t@[q] == ' ' && forall|j: int| q < j < t@.len() ==> t@[j] != ' ';
                assert(0 <= k < t@.len() && t@[k] == ' ' && forall|j: int| k < j < t@.len() ==> t@[j] != ' ');
                if c < k {
                    assert(t@[k] != ' ');
                } else if c > k {
                    assert(t@[c] != ' ');
                }
                assert(last_space(t@) == Some(k));
            } else {
                assert(!exists|q: int| 0 <= q < t@.len() && t@[q] == ' ');
            }
        }
        if i > 0 {
            let cut = sub_chars(t.as_slice(), 0, i - 1);
            assert(cut@ =~= t@.take(i - 1));
            return string_of(cut.as_slice());
        }
        return string_of(t.as_slice());
    }
    string_of(msg.as_slice())
}

/// `c` kept in a project name: alphanumeric or `-`.
pub open spec fn name_char_ok(c: char) -> bool {
    alphanumeric(c) || c == '-'
}

/// A project name made safe for a directory: every character that is
/// not alphanumeric or `-` becomes `-`.
pub open spec fn safe_name(s: Seq<char>) -> Seq<char> {
    s.map_values(|c: char| if name_char_ok(c) { c } else { '-' })
}

/// The directory-safe form of a project name.
pub fn safe_project_name(name: &str) -> (r: String)
    ensures
        r@ == safe_name(name@),
{
    let c = chars_of(name);
    let n = c.len();
    let mut out: Vec<char> = Vec::new();
    let mut i: usize = 0;
    while i < n
        invariant
            n == c@.len(),
            c@ == name@,
            i <= n,
            out@ == safe_name(name@).take(i as int),
        decreases n - i,
    {
        let ch = c[i];
        if is_alphanumeric(ch) || ch == '-' {
            out.push(ch);
        } else {
            out.push('-');
        }
        assert(out@ =~= safe_name(name@).take(i + 1));
        i = i + 1;
    }
    assert(safe_name(name@).take(n as int) =~= safe_name(name@));
    string_of(out.as_slice())
}

/// The characters of `s` that are alphanumeric or `-`, in order.
pub open spec fn name_chars(s: Seq<char>) -> Seq<char> {
    s.filter(|c: char| name_char_ok(c))
}

/// A project name from a model's suggestion `raw`: trimmed, lowercased,
/// only alphanumerics and `-` kept; if nothing is left, `proto-N` with
/// `N = now_secs mod 10000`; if more than 20 bytes, its first 20 bytes.
pub open spec fn project_name(raw: Seq<char>, now_secs: i64) -> Seq<char> {
    let clean = name_chars(lowercase(trim(raw)));
    if clean.len() == 0 {
        seq!['p', 'r', 'o', 't', 'o', '-'] + sdec(trunc_rem(now_secs as int, 10000))
    } else if byte_len(clean) > 20 {
        byte_prefix(clean, 20)
    } else {
        clean
    }
}

/// The remainder of `a / b` with the sign of `a` (Rust's `%`).
pub open spec fn trunc_rem(a: int, b: int) -> int {
    if a >= 0 {
        a % b
    } else {
        -((-a) % b)
    }
}

/// Whether the 20-byte cut of a long suggestion falls on a character
/// boundary (else slicing the `String` there would not be valid).
pub open spec fn project_cut_ok(raw: Seq<char>) -> bool {
    let clean = name_chars(lowercase(trim(raw)));
    byte_len(clean) > 20 ==> at_boundary(clean, 20)
}

/// The characters of a suggestion that a project name keeps: trimmed,
/// lower-cased, letters, digits and `-` only.
fn name_chars_of(raw: &str) -> (r: Vec<char>)
    ensures
        r@ == name_chars(lowercase(trim(raw@))),
{
    let rc = chars_of(raw);
    let t = trim_chars(rc.as_slice());
    let lower = to_lowercase_chars(t.as_slice());
    let n = lower.len();
    let mut clean: Vec<char> = Vec::new();
    let mut i: usize = 0;
    while i < n
        invariant
            n == lower@.len(),
            i <= n,
            clean@ == name_chars(lower@.take(i as int)),
        decreases n - i,
    {
        let ch = lower[i];
        proof {
            assert(lower@.take(i + 1).drop_last() =~= lower@.take(i as int));
            reveal(Seq::filter);
        }
        if is_alphanumeric(ch) || ch == '-' {
            clean.push(ch);
        }
        i = i + 1;
    }
    assert(lower@.take(n as int) =~= lower@);
    clean
}

/// Clean a model's project-name suggestion as [`clean_project_name`]
/// does, when its 20-byte cut falls on a character boundary; `None`
/// when it would not.
pub fn project_name_checked(raw: &str, now_secs: i64) -> (r: Option<String>)
    ensures
        r is Some <==> project_cut_ok(raw@),
        r matches Some(s) ==> s@ == project_name(raw@, now_secs),
{
    let clean = name_chars_of(raw);
    let bytes = byte_len_of(clean.as_slice());
    if bytes > 20 {
        let cut = chars_within_bytes(clean.as_slice(), 20);
        if byte_len_of(cut.as_slice()) != 20 {
            return None;
        }
    }
    Some(clean_project_name(raw, now_secs))
}

/// Clean a model's project-name suggestion, with `now_secs` the current
/// Unix time for the fallback name.
pub fn clean_project_name(raw: &str, now_secs: i64) -> (r: String)
    requires
        project_cut_ok(raw@),
    ensures
        r@ == project_name(raw@, now_secs),
        byte_len(r@) <= 20 || name_chars(lowercase(trim(raw@))).len() == 0,
{
    let clean = name_chars_of(raw);
    if clean.len() == 0 {
        let mut s = string_from("proto-");
        let u: u64 = if now_secs >= 0 {
            now_secs as u64
        } else {
            (-(now_secs as i128)) as u64
        };
        let q = (u % 10000) as i64;
        let m: i64 = if now_secs >= 0 {
            q
        } else {
            -q
        };
        let d = i64_decimal(m);
        push_str(&mut s, d.as_str());
        proof {
            reveal_strlit("proto-");
            assert("proto-"@ =~= seq!['p', 'r', 'o', 't', 'o', '-']);
        }
        return s;
    }
    let bytes = byte_len_of(clean.as_slice());
    if bytes > 20 {
        let cut = chars_within_bytes(clean.as_slice(), 20);
        return string_of(cut.as_slice());
    }
    string_of(clean.as_slice())
}

/// Clean a model's project-name suggestion, falling back on the current
/// time for `proto-N`.
pub fn clean_project_name_now(raw: &str) -> (r: String)
    requires
        project_cut_ok(raw@),
    ensures
        exists|now: i64| r@ == #[trigger] project_name(raw@, now),
{
    let (now, _) = utc_now();
    clean_project_name(raw, now)
}

/// Whether a directory is skipped when listing a workspace: hidden
/// (`.`-prefixed), `node_modules`, `target` or `__pycache__`.
pub open spec fn skipped_dir(name: Seq<char>) -> bool {
    (name.len() > 0 && name[0] == '.') || name == "node_modules"@ || name == "target"@ || name
        == "__pycache__"@
}

/// Whether a directory named `name` is skipped when listing a workspace.
pub fn is_skipped_dir(name: &str) -> (r: bool)
    ensures
        r == skipped_dir(name@),
{
    let c = chars_of(name);
    if c.len() > 0 && c[0] == '.' {
        return true;
    }
    let a = chars_of("node_modules");
    let b = chars_of("target");
    let d = chars_of("__pycache__");
    eq_chars(c.as_slice(), a.as_slice()) || eq_chars(c.as_slice(), b.as_slice()) || eq_chars(
        c.as_slice(),
        d.as_slice(),
    )
}

/// How one chat-log entry reads to the model: `<nick> message`, marked
/// `  [you]` when the bot itself said it.
pub open spec fn log_line(entry: (String, String), me: Seq<char>) -> Seq<char> {
    "<"@ + entry.0@ + "> "@ + entry.1@ + if entry.0@ == me {
        "  [you]"@
    } else {
        ""@
    }
}

/// The prompt for the bot's next message: the recent chat, or a nudge
/// when the channel has been quiet.
pub open spec fn chat_prompt_text(log: Seq<(String, String)>, me: Seq<char>) -> Seq<char> {
    if log.len() == 0 {
        "The channel has been quiet. Say something to get things going."@
    } else {
        "Recent chat:\n"@ + join(log.map_values(|e: (String, String)| log_line(e, me)), seq!['\n'])
            + "\n\nWrite your next message as "@ + me + ":"@
    }
}

/// The prompt for the bot's next message.
pub fn chat_prompt(log: &[(String, String)], my_nick: &str) -> (r: String)
    ensures
        r@ == chat_prompt_text(log@, my_nick@),
{
    let n = log.len();
    if n == 0 {
        return string_from("The channel has been quiet. Say something to get things going.");
    }
    let ghost ls = log@.map_values(|e: (String, String)| log_line(e, my_nick@));
    let me = chars_of(my_nick);
    let mut s = string_from("Recent chat:\n");
    let ghost pre = s@;
    let mut i: usize = 0;
    while i < n
        invariant
            n == log@.len(),
            ls == log@.map_values(|e: (String, String)| log_line(e, my_nick@)),
            me@ == my_nick@,
            i <= n,
            s@ == pre + join(ls.take(i as int), seq!['\n']),
        decreases n - i,
    {
        proof {
            reveal_strlit("\n");
            reveal_strlit("");
            assert(ls.take(i + 1).drop_last() =~= ls.take(i as int));
            if i == 0 {
                assert(ls.take(0) =~= Seq::<Seq<char>>::empty());
                assert(pre + Seq::<char>::empty() =~= pre);
            }
        }
        let ghost before = s@;
        if i > 0 {
            push_str(&mut s, "\n");
        }
        push_str(&mut s, "<");
        push_str(&mut s, log[i].0.as_str());
        push_str(&mut s, "> ");
        push_str(&mut s, log[i].1.as_str());
        let from = chars_of(log[i].0.as_str());
        if eq_chars(from.as_slice(), me.as_slice()) {
            push_str(&mut s, "  [you]");
        }
        proof {
            let l = log_line(log@[i as int], my_nick@);
            assert(ls[i as int] == l);
            if i > 0 {
                assert(s@ =~= pre + (join(ls.take(i as int), seq!['\n']) + seq!['\n'] + l));
            } else {
                assert(s@ =~= pre + l);
            }
        }
        i = i + 1;
    }
    assert(ls.take(n as int) =~= ls);
    push_str(&mut s, "\n\nWrite your next message as ");
    push_str(&mut s, my_nick);
    push_str(&mut s, ":");
    s
}

/// How many chat lines the simulator remembers.
pub const CHAT_LOG_MAX: usize = 60;

/// Whether a message goes into the chat log: a channel message from
/// someone other than the bot.
pub fn should_log(from: &str, target: &str, my_nick: &str) -> (r: bool)
    ensures
        r == (from@ != my_nick@ && target@.len() > 0 && target@[0] == '#'),
{
    let f = chars_of(from);
    let m = chars_of(my_nick);
    let t = chars_of(target);
    !eq_chars(f.as_slice(), m.as_slice()) && t.len() > 0 && t[0] == '#'
}

/// Append a message to the chat log, keeping the newest
/// [`CHAT_LOG_MAX`].
pub fn log_message(log: &mut std::collections::VecDeque<(String, String)>, from: String, text: String)
    requires
        old(log)@.len() <= CHAT_LOG_MAX,
    ensures
        final(log)@ == if old(log)@.len() < CHAT_LOG_MAX {
            old(log)@.push((from, text))
        } else {
            old(log)@.push((from, text)).drop_first()
        },
        final(log)@.len() <= CHAT_LOG_MAX,
{
    log.push_back((from, text));
    if log.len() > CHAT_LOG_MAX {
        log.pop_front();
    }
}

/// What the bot sends for a reply: `/me <action>` as a CTCP ACTION
/// (`true`), anything else as it is.
pub open spec fn outgoing_spec(msg: Seq<char>) -> (bool, Seq<char>) {
    if starts_with(msg, "/me "@) {
        (true, "\x01ACTION "@ + msg.skip(4) + "\x01"@)
    } else {
        (false, msg)
    }
}

/// What the bot sends for a reply.
pub fn outgoing_text(msg: &str) -> (r: (bool, String))
    ensures
        (r.0, r.1@) == outgoing_spec(msg@),
{
    let c = chars_of(msg);
    let p = chars_of("/me ");
    proof {
        reveal_strlit("/me ");
    }
    if starts_with_chars(c.as_slice(), p.as_slice()) {
        let rest = sub_chars(c.as_slice(), 4, c.len());
        let mut s = string_from("\x01ACTION ");
        push_str(&mut s, string_of(rest.as_slice()).as_str());
        push_str(&mut s, "\x01");
        (true, s)
    } else {
        (false, string_from(msg))
    }
}

/// The most iterations of the prototype builder's tool loop.
pub const MAX_ITERATIONS: usize = 20;

/// `s` cut for the channel: when longer than `max` bytes, its first
/// `max - 3` bytes and `...`.
pub open spec fn shorten(s: Seq<char>, max: int) -> Seq<char> {
    if byte_len(s) > max {
        byte_prefix(s, max - 3) + "..."@
    } else {
        s
    }
}

/// Whether a cut by [`shorten`] falls between characters.
pub open spec fn shorten_ok(s: Seq<char>, max: int) -> bool {
    byte_len(s) <= max || at_boundary(s, max - 3)
}

fn shorten_text(s: &[char], max: u128) -> (r: String)
    requires
        3 <= max,
        shorten_ok(s@, max as int),
    ensures
        r@ == shorten(s@, max as int),
{
    if byte_len_of(s) > max {
        let cut = chars_within_bytes(s, max - 3);
        let mut r = string_of(cut.as_slice());
        push_str(&mut r, "...");
        r
    } else {
        string_of(s)
    }
}

/// The text parts of a model turn, concatenated and trimmed.
pub open spec fn turn_text(parts: Seq<Seq<char>>) -> Seq<char> {
    trim(join(parts, Seq::empty()))
}

/// The builder's commentary for a model turn: its text trimmed, cut to
/// 300 bytes for the channel; nothing when the turn had no text.
pub fn commentary(parts: &[String]) -> (r: Option<String>)
    requires
        shorten_ok(turn_text(string_views(parts@)), 300),
    ensures
        match r {
            Some(c) => turn_text(string_views(parts@)).len() > 0 && c@ == shorten(turn_text(string_views(parts@)), 300),
            None => turn_text(string_views(parts@)).len() == 0,
        },
{
    let ghost ps = string_views(parts@);
    let mut all: Vec<char> = Vec::new();
    let mut i: usize = 0;
    while i < parts.len()
        invariant
            ps == string_views(parts@),
            i <= parts@.len(),
            all@ == join(ps.take(i as int), Seq::empty()),
        decreases parts@.len() - i,
    {
        proof {
            assert(ps.take(i + 1).drop_last() =~= ps.take(i as int));
            assert(ps[i as int] == parts@[i as int]@);
            if i == 0 {
                assert(ps.take(0) =~= Seq::<Seq<char>>::empty());
            }
        }
        let ghost before = all@;
        let c = chars_of(parts[i].as_str());
        append_chars(&mut all, c.as_slice());
        proof {
            if i > 0 {
                assert(all@ =~= join(ps.take(i as int), Seq::empty()) + Seq::<char>::empty() + ps[i as int]);
            } else {
                assert(all@ =~= ps[0]);
            }
        }
        i = i + 1;
    }
    assert(ps.take(parts@.len() as int) =~= ps);
    let t = trim_chars(all.as_slice());
    if t.len() == 0 {
        None
    } else {
        Some(shorten_text(t.as_slice(), 300))
    }
}

/// What the channel is shown while a tool runs: which agent, an icon and
/// a line.
#[derive(Debug, Clone)]
pub struct ToolStatus {
    pub agent: AgentId,
    pub icon: String,
    pub text: String,
}

/// A status as (agent role, icon, line).
pub open spec fn status_view(r: Option<ToolStatus>) -> Option<(Seq<char>, Seq<char>, Seq<char>)> {
    match r {
        Some(st) => Some((st.agent.role@, st.icon@, st.text@)),
        None => None,
    }
}

/// The string member `k` of a tool call's input, or `?`.
pub open spec fn input_or_q(input: JsonValue, k: Seq<char>) -> Seq<char> {
    match str_of(member(input, k)) {
        Some(s) => s,
        None => "?"@,
    }
}

fn input_or_question(input: &JsonValue, k: &str) -> (v: String)
    ensures
        v@ == input_or_q(*input, k@),
{
    match input.get(k) {
        Some(x) => match x.as_str() {
            Some(t) => string_from(t),
            None => string_from("?"),
        },
        None => string_from("?"),
    }
}

/// Whether the status line for a tool call can be cut where it is: a
/// shell command over 80 bytes is cut at 77.
pub open spec fn tool_status_ok(name: Seq<char>, input: JsonValue) -> bool {
    name == "shell"@ ==> shorten_ok(input_or_q(input, "command"@), 80)
}

/// The status shown for a tool call.
pub open spec fn tool_status_spec(name: Seq<char>, input: JsonValue) -> Option<(Seq<char>, Seq<char>, Seq<char>)> {
    if name == "write_file"@ {
        Some(("builder"@, "✏️"@, "Writing "@ + input_or_q(input, "path"@)))
    } else if name == "shell"@ {
        Some(("builder"@, "⚙️"@, "Running: "@ + shorten(input_or_q(input, "command"@), 80)))
    } else if name == "deploy"@ {
        Some(("deploy"@, "🚀"@, "Deploying to miren..."@))
    } else if name == "list_files"@ {
        Some(("builder"@, "📁"@, "Listing files"@))
    } else {
        None
    }
}

/// The status shown for a tool call: `write_file` as "Writing <path>",
/// `shell` as "Running: <command>" (cut to 80 bytes), `deploy` and
/// `list_files` by fixed lines; other tools show nothing.
pub fn tool_status(name: &str, input: &JsonValue) -> (r: Option<ToolStatus>)
    requires
        tool_status_ok(name@, *input),
    ensures
        status_view(r) == tool_status_spec(name@, *input),
{
    let n = chars_of(name);
    if same_text(n.as_slice(), "write_file") {
        let mut t = string_from("Writing ");
        push_str(&mut t, input_or_question(input, "path").as_str());
        Some(ToolStatus { agent: builder(), icon: string_from("✏️"), text: t })
    } else if same_text(n.as_slice(), "shell") {
        let cmd = input_or_question(input, "command");
        let short = shorten_text(chars_of(cmd.as_str()).as_slice(), 80);
        let mut t = string_from("Running: ");
        push_str(&mut t, short.as_str());
        Some(ToolStatus { agent: builder(), icon: string_from("⚙️"), text: t })
    } else if same_text(n.as_slice(), "deploy") {
        Some(ToolStatus { agent: deployer(), icon: string_from("🚀"), text: string_from("Deploying to miren...") })
    } else if same_text(n.as_slice(), "list_files") {
        Some(ToolStatus { agent: builder(), icon: string_from("📁"), text: string_from("Listing files") })
    } else {
        None
    }
}

/// The builder's closing line: the live URL, or that none was found.
pub fn build_summary(deployed_url: Option<&str>) -> (r: ToolStatus)
    ensures
        match deployed_url {
            Some(u) => r.agent.role@ == "deploy"@ && r.icon@ == "✅"@ && r.text@ == "Prototype ready: "@ + u@,
            None => r.agent.role@ == "builder"@ && r.icon@ == "⚠️"@ && r.text@ == "Build complete but no deploy URL found"@,
        },
{
    match deployed_url {
        Some(u) => {
            let mut t = string_from("Prototype ready: ");
            push_str(&mut t, u);
            ToolStatus { agent: deployer(), icon: string_from("✅"), text: t }
        },
        None => ToolStatus {
            agent: builder(),
            icon: string_from("⚠️"),
            text: string_from("Build complete but no deploy URL found"),
        },
    }
}

/// A status line: `[<role>] <emoji> <text>`.
pub open spec fn status_text(role: Seq<char>, emoji: Seq<char>, text: Seq<char>) -> Seq<char> {
    "["@ + role + "] "@ + emoji + " "@ + text
}

/// A status line for `agent`.
pub fn status_line(agent: &AgentId, emoji: &str, text: &str) -> (r: String)
    ensures
        r@ == status_text(agent.role@, emoji@, text@),
{
    let mut s = string_from("[");
    push_str(&mut s, agent.role.as_str());
    push_str(&mut s, "] ");
    push_str(&mut s, emoji);
    push_str(&mut s, " ");
    push_str(&mut s, text);
    s
}

/// The line announcing a deploy: `🚀 Deployed → <url>`.
pub fn deploy_line(agent: &AgentId, url: &str) -> (r: String)
    ensures
        r@ == status_text(agent.role@, "🚀"@, "Deployed → "@ + url@),
{
    let mut t = string_from("Deployed → ");
    push_str(&mut t, url);
    status_line(agent, "🚀", t.as_str())
}

/// The line reporting an error: `❌ <text>`.
pub fn error_line(agent: &AgentId, text: &str) -> (r: String)
    ensures
        r@ == status_text(agent.role@, "❌"@, text@),
{
    status_line(agent, "❌", text)
}

/// The lines an agent says `text` in: `[<role>] ` before each line of
/// the text wrapped at 400 bytes.
pub open spec fn say_texts(role: Seq<char>, text: Seq<char>) -> Seq<Seq<char>> {
    wrap_all(text_lines(text), 400).map_values(|l: Seq<char>| "["@ + role + "] "@ + l)
}

/// The lines an agent says `text` in.
pub fn say_lines(agent: &AgentId, text: &str) -> (r: Vec<String>)
    ensures
        string_views(r@) == say_texts(agent.role@, text@),
{
    let ls = wrap_lines(text, 400);
    let ghost w = string_views(ls@);
    let n = ls.len();
    let mut out: Vec<String> = Vec::new();
    let mut i: usize = 0;
    while i < n
        invariant
            n == ls@.len(),
            w == string_views(ls@),
            w == wrap_all(text_lines(text@), 400),
            i <= n,
            string_views(out@) == w.take(i as int).map_values(|l: Seq<char>| "["@ + agent.role@ + "] "@ + l),
        decreases n - i,
    {
        let mut line = string_from("[");
        push_str(&mut line, agent.role.as_str());
        push_str(&mut line, "] ");
        push_str(&mut line, ls[i].as_str());
        let ghost before = out@;
        out.push(line);
        proof {
            assert(w[i as int] == ls@[i as int]@);
            assert(string_views(out@) =~= string_views(before).push(line@));
            assert(w.take(i + 1).map_values(|l: Seq<char>| "["@ + agent.role@ + "] "@ + l) =~= w.take(
                i as int,
            ).map_values(|l: Seq<char>| "["@ + agent.role@ + "] "@ + l).push("["@ + agent.role@ + "] "@ + w[i as int]));
        }
        i = i + 1;
    }
    assert(w.take(n as int) =~= w);
    out
}

/// The lines a file listing is posted as: a `📁 Project files (<n>)`
/// status, the first 20 files indented, and `... and <k> more` when
/// there are more.
pub open spec fn file_tree_texts(role: Seq<char>, files: Seq<Seq<char>>) -> Seq<Seq<char>> {
    let shown = if files.len() > 20 {
        files.take(20)
    } else {
        files
    };
    seq![status_text(role, "📁"@, "Project files ("@ + dec(files.len()) + ")"@)] + shown.map_values(
        |f: Seq<char>| "  "@ + f,
    ) + if files.len() > 20 {
        seq!["  ... and "@ + dec((files.len() - 20) as nat) + " more"@]
    } else {
        Seq::empty()
    }
}

/// The lines a file listing is posted as.
pub fn file_tree_lines(agent: &AgentId, files: &[String]) -> (r: Vec<String>)
    ensures
        string_views(r@) == file_tree_texts(agent.role@, string_views(files@)),
{
    let ghost fs = string_views(files@);
    let n = files.len();
    let count = u64_decimal(n as u64);
    let mut head = string_from("Project files (");
    push_str(&mut head, count.as_str());
    push_str(&mut head, ")");
    let mut out: Vec<String> = Vec::new();
    out.push(status_line(agent, "📁", head.as_str()));
    let shown = if n > 20 {
        20
    } else {
        n
    };
    let ghost sh = if fs.len() > 20 {
        fs.take(20)
    } else {
        fs
    };
    assert(sh =~= fs.take(shown as int));
    let ghost first = out@;
    let mut i: usize = 0;
    while i < shown
        invariant
            n == files@.len(),
            fs == string_views(files@),
            shown <= n,
            sh == fs.take(shown as int),
            i <= shown,
            string_views(first).len() == 1,
            string_views(out@) == string_views(first) + sh.take(i as int).map_values(|f: Seq<char>| "  "@ + f),
        decreases shown - i,
    {
        let mut line = string_from("  ");
        push_str(&mut line, files[i].as_str());
        let ghost before = out@;
        out.push(line);
        proof {
            assert(sh[i as int] == files@[i as int]@);
            assert(string_views(out@) =~= string_views(before).push(line@));
            assert(sh.take(i + 1).map_values(|f: Seq<char>| "  "@ + f) =~= sh.take(i as int).map_values(
                |f: Seq<char>| "  "@ + f,
            ).push("  "@ + sh[i as int]));
        }
        i = i + 1;
    }
    assert(sh.take(shown as int) =~= sh);
    if n > 20 {
        let more = u64_decimal((n - 20) as u64);
        let mut tail = string_from("  ... and ");
        push_str(&mut tail, more.as_str());
        push_str(&mut tail, " more");
        let ghost before = out@;
        out.push(tail);
        proof {
            assert(string_views(out@) =~= string_views(before).push(tail@));
        }
    }
    proof {
        assert(string_views(first) =~= seq![status_text(agent.role@, "📁"@, "Project files ("@ + dec(fs.len()) + ")"@)]);
    }
    out
}

/// The lines a code file is shown in: a `📄 <file> (<n> lines)` status,
/// its first `max_lines` lines indented, and `... (<k> more lines)` when
/// it has more.
pub open spec fn code_texts(role: Seq<char>, filename: Seq<char>, content: Seq<char>, max_lines: nat) -> Seq<Seq<char>> {
    let ls = text_lines(content);
    let shown = if ls.len() > max_lines {
        ls.take(max_lines as int)
    } else {
        ls
    };
    seq![status_text(role, "📄"@, filename + " ("@ + dec(ls.len()) + " lines)"@)] + shown.map_values(
        |l: Seq<char>| "  "@ + l,
    ) + if ls.len() > max_lines {
        seq!["  ... ("@ + dec((ls.len() - max_lines) as nat) + " more lines)"@]
    } else {
        Seq::empty()
    }
}

/// The lines a code file is shown in.
pub fn code_lines(agent: &AgentId, filename: &str, content: &str, max_lines: usize) -> (r: Vec<String>)
    ensures
        string_views(r@) == code_texts(agent.role@, filename@, content@, max_lines as nat),
{
    let ls = split_lines(chars_of(content).as_slice());
    let ghost lv = views(ls@);
    let n = ls.len();
    let count = u64_decimal(n as u64);
    let mut head = string_from(filename);
    push_str(&mut head, " (");
    push_str(&mut head, count.as_str());
    push_str(&mut head, " lines)");
    let mut out: Vec<String> = Vec::new();
    out.push(status_line(agent, "📄", head.as_str()));
    let shown = if n > max_lines {
        max_lines
    } else {
        n
    };
    let ghost sh = if lv.len() > max_lines {
        lv.take(max_lines as int)
    } else {
        lv
    };
    assert(sh =~= lv.take(shown as int));
    let ghost first = out@;
    let mut i: usize = 0;
    while i < shown
        invariant
            n == ls@.len(),
            lv == views(ls@),
            shown <= n,
            sh == lv.take(shown as int),
            i <= shown,
            string_views(out@) == string_views(first) + sh.take(i as int).map_values(|l: Seq<char>| "  "@ + l),
        decreases shown - i,
    {
        let mut line = string_from("  ");
        push_str(&mut line, string_of(ls[i].as_slice()).as_str());
        let ghost before = out@;
        out.push(line);
        proof {
            assert(sh[i as int] == ls@[i as int]@);
            assert(string_views(out@) =~= string_views(before).push(line@));
            assert(sh.take(i + 1).map_values(|l: Seq<char>| "  "@ + l) =~= sh.take(i as int).map_values(
                |l: Seq<char>| "  "@ + l,
            ).push("  "@ + sh[i as int]));
        }
        i = i + 1;
    }
    assert(sh.take(shown as int) =~= sh);
    if n > max_lines {
        let more = u64_decimal((n - max_lines) as u64);
        let mut tail = string_from("  ... (");
        push_str(&mut tail, more.as_str());
        push_str(&mut tail, " more lines)");
        let ghost before = out@;
        out.push(tail);
        proof {
            assert(string_views(out@) =~= string_views(before).push(tail@));
        }
    }
    proof {
        assert(string_views(first) =~= seq![status_text(agent.role@, "📄"@, filename@ + " ("@ + dec(lv.len()) + " lines)"@)]);
    }
    out
}

/// Whether a block of a model reply has the shape the client reads: an
/// object with a string `type`, and a string `text` when that type is
/// `text`.
pub open spec fn block_ok(b: JsonValue) -> bool {
    match str_of(member(b, "type"@)) {
        Some(t) => t != "text"@ || str_of(member(b, "text"@)) is Some,
        None => false,
    }
}

/// The text of a model reply's blocks: the `text` blocks' texts
/// concatenated, other blocks skipped.
pub open spec fn blocks_text(bs: Seq<JsonValue>) -> Seq<char>
    decreases bs.len(),
{
    if bs.len() == 0 {
        Seq::empty()
    } else {
        blocks_text(bs.drop_last()) + if str_of(member(bs.last(), "type"@)) == Some("text"@) {
            match str_of(member(bs.last(), "text"@)) {
                Some(t) => t,
                None => Seq::empty(),
            }
        } else {
            Seq::empty()
        }
    }
}

/// The text of a Messages API reply: `None` when it does not have the
/// shape read (a `content` array of well-formed blocks).
pub open spec fn reply_text_spec(v: JsonValue) -> Option<Seq<char>> {
    match member(v, "content"@) {
        Some(JsonValue::Array(bs)) => if forall|i: int| 0 <= i < bs@.len() ==> block_ok(#[trigger] bs@[i]) {
            Some(blocks_text(bs@))
        } else {
            None
        },
        _ => None,
    }
}

/// The text of a Messages API reply.
pub fn reply_text(v: &JsonValue) -> (r: Option<String>)
    ensures
        match r {
            Some(t) => reply_text_spec(*v) == Some(t@),
            None => reply_text_spec(*v) is None,
        },
{
    match v.get("content") {
        Some(JsonValue::Array(bs)) => {
            let n = bs.len();
            let mut out: Vec<char> = Vec::new();
            let mut i: usize = 0;
            while i < n
                invariant
                    n == bs@.len(),
                    member(*v, "content"@) == Some(JsonValue::Array(*bs)),
                    i <= n,
                    forall|j: int| 0 <= j < i ==> block_ok(#[trigger] bs@[j]),
                    out@ == blocks_text(bs@.take(i as int)),
                decreases n - i,
            {
                proof {
                    assert(bs@.take(i + 1).drop_last() =~= bs@.take(i as int));
                    assert(bs@.take(i + 1).last() == bs@[i as int]);
                }
                let ty = match bs[i].get("type") {
                    Some(t) => t.as_str(),
                    None => None,
                };
                match ty {
                    None => {
                        assert(!block_ok(bs@[i as int]));
                        return None;
                    },
                    Some(t) => {
                        if same_text(chars_of(t).as_slice(), "text") {
                            match bs[i].get("text") {
                                Some(x) => match x.as_str() {
                                    Some(text) => {
                                        let c = chars_of(text);
                                        append_chars(&mut out, c.as_slice());
                                    },
                                    None => {
                                        assert(!block_ok(bs@[i as int]));
                                        return None;
                                    },
                                },
                                None => {
                                    assert(!block_ok(bs@[i as int]));
                                    return None;
                                },
                            }
                        } else {
                            assert(out@ =~= out@ + Seq::<char>::empty());
                        }
                    },
                }
                i = i + 1;
            }
            assert(bs@.take(n as int) =~= bs@);
            Some(string_of(out.as_slice()))
        },
        _ => None,
    }
}

/// The build loop's state: turns taken, the URL deployed to (if any),
/// and whether the model has finished.
pub struct BuildState {
    pub iteration: usize,
    pub deployed_url: Option<String>,
    pub finished: bool,
}

/// What happens in the build loop.
pub enum BuildEvent {
    /// A new turn is about to start.
    BeginTurn,
    /// The model answered with this many tool calls.
    Response { tool_calls: usize },
    /// A tool ran: its name and its output or error text.
    ToolOutput { name: String, output: Result<String, String> },
}

/// What the loop does next.
pub enum BuildAction {
    /// Ask the model.
    CallModel,
    /// Too many turns: post the stop notice and end.
    StopMaxIterations,
    /// The model called no tool: the build is over.
    Done,
    /// Run the tools the model called.
    RunTools,
    /// A deploy produced this URL.
    Deployed(String),
    /// A tool failed: post this text.
    ToolFailed(String),
    /// Nothing to post.
    Continue,
}

/// The view of an optional text.
pub open spec fn opt_text_of(o: Option<String>) -> Option<Seq<char>> {
    match o {
        Some(t) => Some(t@),
        None => None,
    }
}

/// One step of the build loop: a turn starts only while fewer than
/// [`MAX_ITERATIONS`] were taken; a response without tool calls ends the
/// build; a deploy whose output names an `https://` URL records it; a
/// failed tool is reported as `Tool <name> failed: <error>`.
pub fn build_step(st: BuildState, ev: &BuildEvent) -> (r: (BuildState, BuildAction))
    ensures
        match ev {
            BuildEvent::BeginTurn => if st.finished {
                r.1 is Done && r.0.iteration == st.iteration && r.0.finished
                    && opt_text_of(r.0.deployed_url) == opt_text_of(st.deployed_url)
            } else if st.iteration >= 20 {
                r.1 is StopMaxIterations && r.0.iteration == st.iteration && r.0.finished
                    && opt_text_of(r.0.deployed_url) == opt_text_of(st.deployed_url)
            } else {
                r.1 is CallModel && r.0.iteration == st.iteration + 1 && !r.0.finished
                    && opt_text_of(r.0.deployed_url) == opt_text_of(st.deployed_url)
            },
            BuildEvent::Response { tool_calls } => r.0.iteration == st.iteration
                && opt_text_of(r.0.deployed_url) == opt_text_of(st.deployed_url) && if *tool_calls == 0 {
                r.1 is Done && r.0.finished
            } else {
                r.1 is RunTools && r.0.finished == st.finished
            },
            BuildEvent::ToolOutput { name, output } => r.0.iteration == st.iteration && r.0.finished == st.finished
                && match output {
                Ok(out) => if name@ == "deploy"@ && deploy_url_in(text_lines(out@)) is Some {
                    r.1 matches BuildAction::Deployed(u) && u@ == deploy_url_in(text_lines(out@))->0
                        && opt_text_of(r.0.deployed_url) == Some(u@)
                } else {
                    r.1 is Continue && opt_text_of(r.0.deployed_url) == opt_text_of(st.deployed_url)
                },
                Err(e) => r.1 matches BuildAction::ToolFailed(t) && t@ == "Tool "@ + name@ + " failed: "@ + e@
                    && opt_text_of(r.0.deployed_url) == opt_text_of(st.deployed_url),
            },
        },
{
    let BuildState { iteration, deployed_url, finished } = st;
    match ev {
        BuildEvent::BeginTurn => {
            if finished {
                (BuildState { iteration, deployed_url, finished: true }, BuildAction::Done)
            } else if iteration >= MAX_ITERATIONS {
                (BuildState { iteration, deployed_url, finished: true }, BuildAction::StopMaxIterations)
            } else {
                (BuildState { iteration: iteration + 1, deployed_url, finished }, BuildAction::CallModel)
            }
        },
        BuildEvent::Response { tool_calls } => {
            if *tool_calls == 0 {
                (BuildState { iteration, deployed_url, finished: true }, BuildAction::Done)
            } else {
                (BuildState { iteration, deployed_url, finished }, BuildAction::RunTools)
            }
        },
        BuildEvent::ToolOutput { name, output } => match output {
            Ok(out) => {
                let is_deploy = same_text(chars_of(name.as_str()).as_slice(), "deploy");
                if is_deploy {
                    match extract_deploy_url(out.as_str()) {
                        Some(url) => {
                            let shown = string_from(url.as_str());
                            (BuildState { iteration, deployed_url: Some(url), finished }, BuildAction::Deployed(shown))
                        },
                        None => (BuildState { iteration, deployed_url, finished }, BuildAction::Continue),
                    }
                } else {
                    (BuildState { iteration, deployed_url, finished }, BuildAction::Continue)
                }
            },
            Err(e) => {
                let mut t = string_from("Tool ");
                push_str(&mut t, name.as_str());
                push_str(&mut t, " failed: ");
                push_str(&mut t, e.as_str());
                (BuildState { iteration, deployed_url, finished }, BuildAction::ToolFailed(t))
            },
        },
    }
}

} // verus!
