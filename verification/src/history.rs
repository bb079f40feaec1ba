//! `CHATHISTORY` requests: which stored messages of which channel a
//! request asks for.
//!
//! `CHATHISTORY <subcommand> <target> [<param1> [<param2>]] <limit>`
use vstd::prelude::*;
use crate::clock::{parse_rfc3339, rfc3339_instant};
use crate::lines::normalize_channel;
use crate::text::{
    chars_of, dec, dec_digit, lowercase, same_text, starts_with, starts_with_chars, string_of, string_views,
    sub_chars, to_uppercase_chars, uppercase,
};

verus! {

/// Whether `c` is an ASCII digit.
pub open spec fn is_digit(c: char) -> bool {
    '0' <= c && c <= '9'
}

/// The number a string of decimal digits writes.
pub open spec fn digits_value(s: Seq<char>) -> nat
    decreases s.len(),
{
    if s.len() == 0 {
        0
    } else {
        digits_value(s.drop_last()) * 10 + ((s.last() as int) - ('0' as int)) as nat
    }
}

/// The digits of an unsigned number: a leading `+` is dropped when
/// something follows it.
pub open spec fn unsigned_digits(s: Seq<char>) -> Seq<char> {
    if s.len() > 1 && s[0] == '+' {
        s.drop_first()
    } else {
        s
    }
}

/// What `str::parse::<usize>` reads from `s`: an optional `+` and one or
/// more ASCII digits whose value fits in a `usize`.
pub open spec fn usize_of(s: Seq<char>) -> Option<nat> {
    let d = unsigned_digits(s);
    if d.len() > 0 && (forall|i: int| 0 <= i < d.len() ==> is_digit(#[trigger] d[i]))
        && digits_value(d) <= usize::MAX {
        Some(digits_value(d))
    } else {
        None
    }
}

/// A longer string of digits is worth at least as much as its prefix.
pub proof fn lemma_digits_value_prefix(s: Seq<char>, k: int)
    requires
        0 <= k <= s.len(),
    ensures
        digits_value(s.take(k)) <= digits_value(s),
    decreases s.len(),
{
    if k < s.len() {
        lemma_digits_value_prefix(s.drop_last(), k);
        assert(s.drop_last().take(k) =~= s.take(k));
    } else {
        assert(s.take(k) =~= s);
    }
}

/// `s` read as a `usize` (`str::parse::<usize>`).
pub fn parse_usize(s: &[char]) -> (r: Option<usize>)
    ensures
        usize_of(s@) == match r {
            Some(v) => Some(v as nat),
            None => None::<nat>,
        },
{
    let n = s.len();
    let start: usize = if n > 1 && s[0] == '+' {
        1
    } else {
        0
    };
    let ghost d = unsigned_digits(s@);
    assert(d =~= s@.subrange(start as int, n as int));
    if start == n {
        return None;
    }
    let mut v: usize = 0;
    let mut i: usize = start;
    while i < n
        invariant
            n == s@.len(),
            start <= i <= n,
            d == s@.subrange(start as int, n as int),
            d == unsigned_digits(s@),
            forall|j: int| 0 <= j < i - start ==> is_digit(#[trigger] d[j]),
            v == digits_value(d.take(i - start)),
        decreases n - i,
    {
        let c = s[i];
        if !('0' <= c && c <= '9') {
            assert(!is_digit(d[i - start]));
            return None;
        }
        let digit: usize = ((c as u32) - 48) as usize;
        let ghost k: int = i - start;
        assert(d.take(k + 1).drop_last() =~= d.take(k));
        assert(digits_value(d.take(k + 1)) == v * 10 + digit);
        match v.checked_mul(10) {
            None => {
                proof {
                    lemma_digits_value_prefix(d, k + 1);
                }
                return None;
            },
            Some(m) => match m.checked_add(digit) {
                None => {
                    proof {
                        lemma_digits_value_prefix(d, k + 1);
                    }
                    return None;
                },
                Some(w) => {
                    v = w;
                },
            },
        }
        i = i + 1;
    }
    assert(d.take(n - start) =~= d);
    Some(v)
}

/// The `u64` a string of one or more ASCII digits (and nothing else)
/// writes, if it fits.
pub open spec fn u64_digits(s: Seq<char>) -> Option<nat> {
    if s.len() > 0 && (forall|i: int| 0 <= i < s.len() ==> is_digit(#[trigger] s[i])) && digits_value(s)
        <= u64::MAX {
        Some(digits_value(s))
    } else {
        None
    }
}

/// `s` read as a `u64` written in plain decimal digits.
pub fn parse_u64_digits(s: &[char]) -> (r: Option<u64>)
    ensures
        u64_digits(s@) == match r {
            Some(v) => Some(v as nat),
            None => None::<nat>,
        },
{
    let n = s.len();
    if n == 0 {
        return None;
    }
    let mut v: u64 = 0;
    let mut i: usize = 0;
    while i < n
        invariant
            n == s@.len(),
            i <= n,
            forall|j: int| 0 <= j < i ==> is_digit(#[trigger] s@[j]),
            v == digits_value(s@.take(i as int)),
        decreases n - i,
    {
        let c = s[i];
        if !('0' <= c && c <= '9') {
            assert(!is_digit(s@[i as int]));
            return None;
        }
        let digit: u64 = ((c as u32) - 48) as u64;
        assert(s@.take(i + 1).drop_last() =~= s@.take(i as int));
        assert(digits_value(s@.take(i + 1)) == v * 10 + digit);
        match v.checked_mul(10) {
            None => {
                proof {
                    lemma_digits_value_prefix(s@, i + 1);
                }
                return None;
            },
            Some(m) => match m.checked_add(digit) {
                None => {
                    proof {
                        lemma_digits_value_prefix(s@, i + 1);
                    }
                    return None;
                },
                Some(w) => {
                    v = w;
                },
            },
        }
        i = i + 1;
    }
    assert(s@.take(n as int) =~= s@);
    Some(v)
}

/// Decimal text reads back as the number it was printed from: the digits
/// [`crate::text::u64_decimal`] writes for `n` parse to `n`.
pub proof fn law_decimal_round_trip(n: nat)
    requires
        n <= u64::MAX,
    ensures
        u64_digits(dec(n)) == Some(n),
    decreases n,
{
    lemma_dec_digits(n);
}

proof fn lemma_dec_digits(n: nat)
    ensures
        dec(n).len() > 0,
        forall|i: int| 0 <= i < dec(n).len() ==> is_digit(#[trigger] dec(n)[i]),
        digits_value(dec(n)) == n,
    decreases n,
{
    if n < 10 {
        assert(dec(n) == seq![dec_digit(n as int)]);
        assert(dec(n).drop_last() =~= Seq::<char>::empty());
        assert((dec_digit(n as int) as int) == 48 + n);
        assert(digits_value(Seq::<char>::empty()) == 0);
        assert(dec(n).last() == dec_digit(n as int));
        assert(digits_value(dec(n)) == digits_value(dec(n).drop_last()) * 10 + ((dec(n).last() as int) - ('0' as int)) as nat);
    } else {
        assert((dec_digit((n % 10) as int) as int) == 48 + n % 10);
        lemma_dec_digits(n / 10);
        let d = dec(n);
        assert(d == dec(n / 10).push(dec_digit((n % 10) as int)));
        assert(d.drop_last() =~= dec(n / 10));
        assert(d.last() == dec_digit((n % 10) as int));
        assert(digits_value(d) == digits_value(d.drop_last()) * 10 + ((d.last() as int) - ('0' as int)) as nat);
        assert(n == (n / 10) * 10 + n % 10);
        assert forall|i: int| 0 <= i < d.len() implies is_digit(#[trigger] d[i]) by {
            if i < d.len() - 1 {
                assert(d[i] == dec(n / 10)[i]);
            }
        }
    }
}

/// The number of messages a request asks for: its limit parameter read as
/// a `usize` (50 when it does not parse), at most 500.
pub open spec fn history_limit(s: Seq<char>) -> nat {
    let n = match usize_of(s) {
        Some(n) => n,
        None => 50,
    };
    if n < 500 {
        n
    } else {
        500
    }
}

/// The limit a request asks for.
pub fn limit_of(s: &str) -> (r: usize)
    ensures
        r == history_limit(s@),
        r <= 500,
{
    let c = chars_of(s);
    let n = match parse_usize(c.as_slice()) {
        Some(n) => n,
        None => 50,
    };
    if n < 500 {
        n
    } else {
        500
    }
}

/// A timestamp parameter with its `timestamp=` prefix, if any, taken off.
pub open spec fn ts_text(s: Seq<char>) -> Seq<char> {
    if starts_with(s, "timestamp="@) {
        s.skip(10)
    } else {
        s
    }
}

/// The Unix second a timestamp parameter names (an RFC 3339 time, with or
/// without a `timestamp=` prefix), taken as a `u64`.
pub open spec fn history_ts(s: Seq<char>) -> Option<u64> {
    match rfc3339_instant(ts_text(s)) {
        Some((secs, _nanos)) => Some(secs as u64),
        None => None,
    }
}

/// The Unix second a timestamp parameter names, if it parses.
pub fn parse_history_ts(s: &str) -> (r: Option<u64>)
    ensures
        r == history_ts(s@),
{
    let c = chars_of(s);
    let p = chars_of("timestamp=");
    proof {
        reveal_strlit("timestamp=");
    }
    let t = if starts_with_chars(c.as_slice(), p.as_slice()) {
        sub_chars(c.as_slice(), 10, c.len())
    } else {
        c
    };
    let text = string_of(t.as_slice());
    match parse_rfc3339(text.as_str()) {
        Some((secs, _nanos)) => Some(secs as u64),
        None => None,
    }
}

/// Which stored messages a request asks for, newest first or oldest
/// first as the store gives them.
#[derive(Debug, Clone, Copy, PartialEq, Eq, Structural)]
pub enum HistoryQuery {
    /// The latest `limit` messages before the second `before`.
    Before { before: u64, limit: usize },
    /// The first `limit` messages after the second `after`.
    After { after: u64, limit: usize },
    /// The latest `limit` messages.
    Latest { limit: usize },
    /// Up to `limit` messages between the seconds `start` and `end`.
    Between { start: u64, end: u64, limit: usize },
    /// No messages (an unknown subcommand or too few parameters).
    Nothing,
}

fn unwrap_ts(t: Option<u64>, dflt: u64) -> (r: u64)
    ensures
        r == match t {
            Some(v) => v,
            None => dflt,
        },
{
    match t {
        Some(v) => v,
        None => dflt,
    }
}

/// The query a request's parameters ask for. A missing or unparsable
/// `BEFORE` time reads as the end of time, other missing times as the
/// epoch (`BETWEEN`'s end as the end of time); `LATEST *` asks for the
/// newest messages, `LATEST <time>` for those after it.
pub open spec fn history_query(ps: Seq<Seq<char>>) -> HistoryQuery {
    let sub = uppercase(ps[0]);
    let ts_or = |i: int, d: u64|
        match history_ts(ps[i]) {
            Some(t) => t,
            None => d,
        };
    if sub == "BEFORE"@ {
        if ps.len() < 4 {
            HistoryQuery::Nothing
        } else {
            HistoryQuery::Before { before: ts_or(2, u64::MAX), limit: history_limit(ps[3]) as usize }
        }
    } else if sub == "AFTER"@ {
        if ps.len() < 4 {
            HistoryQuery::Nothing
        } else {
            HistoryQuery::After { after: ts_or(2, 0), limit: history_limit(ps[3]) as usize }
        }
    } else if sub == "LATEST"@ {
        if ps.len() < 4 {
            HistoryQuery::Nothing
        } else if ps[2] == "*"@ {
            HistoryQuery::Latest { limit: history_limit(ps[3]) as usize }
        } else {
            HistoryQuery::After { after: ts_or(2, 0), limit: history_limit(ps[3]) as usize }
        }
    } else if sub == "BETWEEN"@ {
        if ps.len() < 5 {
            HistoryQuery::Nothing
        } else {
            HistoryQuery::Between {
                start: ts_or(2, 0),
                end: ts_or(3, u64::MAX),
                limit: history_limit(ps[4]) as usize,
            }
        }
    } else {
        HistoryQuery::Nothing
    }
}

/// A `BEFORE` request fetches the messages before the time it names: with
/// its four parameters, the query's bound is the Unix second of the RFC
/// 3339 time in the third (with or without `timestamp=`), and only a time
/// that does not parse reads as the end of time.
pub proof fn law_before_uses_its_time(ps: Seq<Seq<char>>)
    requires
        ps.len() >= 4,
        uppercase(ps[0]) == "BEFORE"@,
    ensures
        history_query(ps) matches HistoryQuery::Before { before, limit } && limit == history_limit(ps[3])
            && match rfc3339_instant(ts_text(ps[2])) {
            Some((secs, _nanos)) => before == secs as u64,
            None => before == u64::MAX,
        },
{
}

/// `AFTER`, `LATEST <time>` and `BETWEEN` fetch by the times they name:
/// each bound is the Unix second of the RFC 3339 time in its parameter
/// (with or without `timestamp=`); a time that does not parse reads as the
/// epoch, except `BETWEEN`'s end, which reads as the end of time.
pub proof fn law_after_and_between_use_their_times(ps: Seq<Seq<char>>)
    ensures
        ps.len() >= 4 && (uppercase(ps[0]) == "AFTER"@ || (uppercase(ps[0]) == "LATEST"@ && ps[2] != "*"@))
            ==> (history_query(ps) matches HistoryQuery::After { after, limit } && limit == history_limit(ps[3])
            && match rfc3339_instant(ts_text(ps[2])) {
            Some((secs, _nanos)) => after == secs as u64,
            None => after == 0,
        }),
        ps.len() >= 4 && uppercase(ps[0]) == "LATEST"@ && ps[2] == "*"@ ==> history_query(ps)
            == (HistoryQuery::Latest { limit: history_limit(ps[3]) as usize }),
        ps.len() >= 5 && uppercase(ps[0]) == "BETWEEN"@ ==> (history_query(ps) matches HistoryQuery::Between {
            start,
            end,
            limit,
        } && limit == history_limit(ps[4]) && match rfc3339_instant(ts_text(ps[2])) {
            Some((secs, _nanos)) => start == secs as u64,
            None => start == 0,
        } && match rfc3339_instant(ts_text(ps[3])) {
            Some((secs, _nanos)) => end == secs as u64,
            None => end == u64::MAX,
        }),
{
    reveal_strlit("AFTER");
    reveal_strlit("LATEST");
    reveal_strlit("BEFORE");
    reveal_strlit("BETWEEN");
    assert("LATEST"@[0] != "BEFORE"@[0]);
    assert("BETWEEN"@[2] != "BEFORE"@[2]);
    assert("AFTER"@[0] != "BEFORE"@[0]);
    assert("AFTER"@[0] != "LATEST"@[0]);
    assert("BETWEEN"@[0] != "AFTER"@[0]);
    assert("BETWEEN"@[0] != "LATEST"@[0]);
}

/// Read a `CHATHISTORY` request: `None` when it has fewer than three
/// parameters (the server answers `FAIL CHATHISTORY NEED_MORE_PARAMS`),
/// else the channel it names, lowercased, and the query it asks for.
pub fn chathistory_request(params: &[String]) -> (r: Option<(String, HistoryQuery)>)
    ensures
        r is None <==> params@.len() < 3,
        r matches Some((target, q)) ==> target@ == lowercase(params@[1]@) && q == history_query(
            string_views(params@),
        ),
        params@.len() >= 4 && uppercase(params@[0]@) == "BEFORE"@ ==> (r matches Some((_t, q)) && q matches HistoryQuery::Before { before, limit }
            && limit == history_limit(params@[3]@) && match rfc3339_instant(ts_text(params@[2]@)) {
            Some((secs, _nanos)) => before == secs as u64,
            None => before == u64::MAX,
        }),
{
    let n = params.len();
    if n < 3 {
        return None;
    }
    let ghost ps = string_views(params@);
    assert(ps[0] == params@[0]@ && ps[1] == params@[1]@ && ps[2] == params@[2]@);
    let sub = to_uppercase_chars(chars_of(params[0].as_str()).as_slice());
    let target = normalize_channel(params[1].as_str());
    let q = if same_text(sub.as_slice(), "BEFORE") {
        if n < 4 {
            HistoryQuery::Nothing
        } else {
            assert(ps[3] == params@[3]@);
            let before = unwrap_ts(parse_history_ts(params[2].as_str()), u64::MAX);
            HistoryQuery::Before { before, limit: limit_of(params[3].as_str()) }
        }
    } else if same_text(sub.as_slice(), "AFTER") {
        if n < 4 {
            HistoryQuery::Nothing
        } else {
            assert(ps[3] == params@[3]@);
            let after = unwrap_ts(parse_history_ts(params[2].as_str()), 0);
            HistoryQuery::After { after, limit: limit_of(params[3].as_str()) }
        }
    } else if same_text(sub.as_slice(), "LATEST") {
        if n < 4 {
            HistoryQuery::Nothing
        } else {
            assert(ps[3] == params@[3]@);
            let p2 = chars_of(params[2].as_str());
            if same_text(p2.as_slice(), "*") {
                HistoryQuery::Latest { limit: limit_of(params[3].as_str()) }
            } else {
                let after = unwrap_ts(parse_history_ts(params[2].as_str()), 0);
                HistoryQuery::After { after, limit: limit_of(params[3].as_str()) }
            }
        }
    } else if same_text(sub.as_slice(), "BETWEEN") {
        if n < 5 {
            HistoryQuery::Nothing
        } else {
            assert(ps[3] == params@[3]@ && ps[4] == params@[4]@);
            let start = unwrap_ts(parse_history_ts(params[2].as_str()), 0);
            let end = unwrap_ts(parse_history_ts(params[3].as_str()), u64::MAX);
            HistoryQuery::Between { start, end, limit: limit_of(params[4].as_str()) }
        }
    } else {
        HistoryQuery::Nothing
    };
    Some((target, q))
}

} // verus!
