//! A JSON value the library's logic reads and writes: what a parsed
//! JSON document holds, with numbers kept as their JSON text.
use vstd::prelude::*;
use crate::text::{chars_of, eq_chars};

verus! {

/// A JSON value. Numbers hold their JSON text; an object holds its
/// members in order.
#[derive(Debug, PartialEq)]
pub enum JsonValue {
    Null,
    Bool(bool),
    Number(String),
    Str(String),
    Array(Vec<JsonValue>),
    Object(Vec<(String, JsonValue)>),
}

/// The position of the first member of `es` whose key is `k`.
pub open spec fn member_index(es: Seq<(String, JsonValue)>, k: Seq<char>) -> Option<int>
    decreases es.len(),
{
    if es.len() == 0 {
        None
    } else {
        match member_index(es.drop_last(), k) {
            Some(i) => Some(i),
            None => if es.last().0@ == k {
                Some(es.len() - 1)
            } else {
                None
            },
        }
    }
}

/// The member `k` of `v`, when `v` is an object that has one (the first
/// such member).
pub open spec fn member(v: JsonValue, k: Seq<char>) -> Option<JsonValue> {
    match v {
        JsonValue::Object(es) => match member_index(es@, k) {
            Some(i) => Some(es@[i].1),
            None => None,
        },
        _ => None,
    }
}

/// The string `v` holds, when it is a string.
pub open spec fn str_of(v: Option<JsonValue>) -> Option<Seq<char>> {
    match v {
        Some(JsonValue::Str(s)) => Some(s@),
        _ => None,
    }
}

impl JsonValue {
    /// The member with key `k`, when this is an object that has one.
    #[verifier::loop_isolation(false)]
    pub fn get(&self, k: &str) -> (r: Option<&JsonValue>)
        ensures
            match r {
                Some(x) => member(*self, k@) == Some(*x),
                None => member(*self, k@) is None,
            },
    {
        match self {
            JsonValue::Object(es) => {
                let kc = chars_of(k);
                let n = es.len();
                let mut i: usize = 0;
                while i < n
                    invariant
                        n == es@.len(),
                        i <= n,
                        kc@ == k@,
                        member_index(es@.take(i as int), k@) is None,
                    decreases n - i,
                {
                    assert(es@.take(i + 1).drop_last() =~= es@.take(i as int));
                    let ec = chars_of(es[i].0.as_str());
                    if eq_chars(ec.as_slice(), kc.as_slice()) {
                        proof {
                            assert(es@.take(i + 1).last() == es@[i as int]);
                            assert(member_index(es@.take(i + 1), k@) == Some(i as int));
                            lemma_member_index_prefix(es@, i as int + 1, k@);
                        }
                        return Some(&es[i].1);
                    }
                    i = i + 1;
                }
                assert(es@.take(n as int) =~= es@);
                None
            },
            _ => None,
        }
    }

    /// The string this holds, when it is a string.
    pub fn as_str(&self) -> (r: Option<&str>)
        ensures
            match r {
                Some(s) => *self matches JsonValue::Str(t) && t@ == s@,
                None => !(*self is Str),
            },
    {
        match self {
            JsonValue::Str(s) => Some(s.as_str()),
            _ => None,
        }
    }
}

/// A found index in a prefix is the index in the whole.
pub proof fn lemma_member_index_prefix(es: Seq<(String, JsonValue)>, m: int, k: Seq<char>)
    requires
        0 <= m <= es.len(),
        member_index(es.take(m), k) is Some,
    ensures
        member_index(es, k) == member_index(es.take(m), k),
    decreases es.len() - m,
{
    if m < es.len() {
        assert(es.take(m + 1).drop_last() =~= es.take(m));
        lemma_member_index_prefix(es, m + 1, k);
    } else {
        assert(es.take(m) =~= es);
    }
}

} // verus!
