//! ULID-based message IDs: 26 Crockford base32 characters, 10 for a
//! 48-bit millisecond timestamp and 16 for an 80-bit random part, most
//! significant first, so that text order is generation order. Within one
//! millisecond the random part is incremented instead of drawn anew.
use vstd::prelude::*;
use crate::clock::unix_now_millis;
use crate::text::{key_lt, string_of};

verus! {

/// The last timestamp and random part handed out.
#[derive(Debug, Clone, Copy, PartialEq, Eq)]
pub struct MsgIdState {
    pub last_ms: u64,
    pub last_rand: u128,
}

/// `2^80`: the random part's range.
pub const RAND_LIMIT: u128 = 0x1_0000_0000_0000_0000_0000;

/// `2^50`: the range of timestamps the 10 timestamp digits hold.
pub const TIME_LIMIT: u64 = 0x4_0000_0000_0000;

/// The Crockford base32 digit for `d < 32`: `0-9`, then `A-Z` without
/// `I`, `L`, `O` and `U`.
pub open spec fn crockford(d: int) -> char {
    if d < 10 {
        (48 + d) as char
    } else if d < 18 {
        (65 + d - 10) as char
    } else if d < 20 {
        (74 + d - 18) as char
    } else if d < 22 {
        (77 + d - 20) as char
    } else if d < 27 {
        (80 + d - 22) as char
    } else {
        (86 + d - 27) as char
    }
}

/// `32^w`.
pub open spec fn pow32(w: nat) -> int
    decreases w,
{
    if w == 0 {
        1
    } else {
        32 * pow32((w - 1) as nat)
    }
}

/// Powers of 32 are positive.
proof fn lemma_pow32_positive(w: nat)
    ensures
        pow32(w) > 0,
    decreases w,
{
    if w > 0 {
        lemma_pow32_positive((w - 1) as nat);
    }
}

/// The last `w` base32 digits of `x`, most significant first.
pub open spec fn digits(x: int, w: nat) -> Seq<char>
    decreases w,
{
    if w == 0 {
        Seq::empty()
    } else {
        digits(x / 32, (w - 1) as nat).push(crockford(x % 32))
    }
}

/// The ULID text of timestamp `ts` and random part `r`.
pub open spec fn ulid_text(ts: u64, r: u128) -> Seq<char> {
    digits(ts as int, 10) + digits(r as int, 16)
}

/// The state after handing out an ID at millisecond `now`, with `fresh`
/// as the random part a new millisecond draws.
pub open spec fn next_state(s: MsgIdState, now: u64, fresh: u128) -> MsgIdState {
    if now == s.last_ms {
        MsgIdState { last_ms: now, last_rand: if s.last_rand == u128::MAX {
            0
        } else {
            (s.last_rand + 1) as u128
        } }
    } else {
        MsgIdState { last_ms: now, last_rand: fresh }
    }
}

/// The random part drawn from 16 and 64 random bits.
pub open spec fn fresh_rand(hi: u16, lo: u64) -> u128 {
    (hi as int * 0x1_0000_0000_0000_0000 + lo as int) as u128
}

impl MsgIdState {
    /// The state before any ID was handed out.
    pub fn new() -> (r: Self)
        ensures
            r.last_ms == 0,
            r.last_rand == 0,
    {
        MsgIdState { last_ms: 0, last_rand: 0 }
    }

    /// Hand out the timestamp and random part for an ID at millisecond
    /// `now_ms`, where `hi` and `lo` are random bits for a new millisecond.
    pub fn advance(&mut self, now_ms: u64, hi: u16, lo: u64) -> (r: (u64, u128))
        ensures
            *final(self) == next_state(*old(self), now_ms, fresh_rand(hi, lo)),
            r == (final(self).last_ms, final(self).last_rand),
            fresh_rand(hi, lo) < RAND_LIMIT,
    {
        let fresh = (((hi as u128) << 64u128) | (lo as u128)) & 0xFFFF_FFFF_FFFF_FFFF_FFFFu128;
        assert(fresh == (hi as int * 0x1_0000_0000_0000_0000 + lo as int) && fresh < 0x1_0000_0000_0000_0000_0000u128) by (bit_vector)
            requires
                fresh == (((hi as u128) << 64u128) | (lo as u128)) & 0xFFFF_FFFF_FFFF_FFFF_FFFFu128,
        ;
        if now_ms == self.last_ms {
            self.last_rand = self.last_rand.wrapping_add(1);
        } else {
            self.last_ms = now_ms;
            self.last_rand = fresh;
        }
        (self.last_ms, self.last_rand)
    }
}

/// The Crockford base32 digit for `d < 32`.
pub fn crockford_digit(d: u8) -> (c: char)
    requires
        d < 32,
    ensures
        c == crockford(d as int),
{
    if d < 10 {
        (48 + d) as char
    } else if d < 18 {
        (65 + d - 10) as char
    } else if d < 20 {
        (74 + d - 18) as char
    } else if d < 22 {
        (77 + d - 20) as char
    } else if d < 27 {
        (80 + d - 22) as char
    } else {
        (86 + d - 27) as char
    }
}

/// The last `w` base32 digits of `x`, most significant first.
fn digits_of(x: u128, w: usize) -> (r: Vec<char>)
    ensures
        r@ == digits(x as int, w as nat),
{
    let mut acc: Vec<char> = Vec::new();
    let mut t = x;
    let mut j: usize = 0;
    while j < w
        invariant
            j <= w,
            digits(x as int, w as nat) == digits(t as int, (w - j) as nat) + acc@,
        decreases w - j,
    {
        let d = (t & 0x1F) as u8;
        assert((t & 0x1F) == t % 32 && t >> 5 == t / 32) by (bit_vector);
        let c = crockford_digit(d);
        let ghost before = acc@;
        acc.insert(0, c);
        proof {
            assert(acc@ =~= seq![c] + before);
            assert(digits(t as int, (w - j) as nat) == digits(t as int / 32, (w - j - 1) as nat).push(c));
            assert(digits(t as int / 32, (w - j - 1) as nat).push(c) + before =~= digits(
                t as int / 32,
                (w - j - 1) as nat,
            ) + acc@);
        }
        t = t >> 5;
        j = j + 1;
    }
    assert(digits(t as int, 0) + acc@ =~= acc@);
    acc
}

/// The ULID text of timestamp `ts` and random part `r`.
pub fn encode(ts: u64, r: u128) -> (s: String)
    ensures
        s@ == ulid_text(ts, r),
        s@.len() == 26,
{
    let mut v = digits_of(ts as u128, 10);
    let low = digits_of(r, 16);
    proof {
        lemma_digits_len(r as int, 16);
    }
    let mut i: usize = 0;
    let ghost head = v@;
    while i < 16
        invariant
            i <= 16,
            low@.len() == 16,
            v@ == head + low@.take(i as int),
        decreases 16 - i,
    {
        v.push(low[i]);
        assert(v@ =~= head + low@.take(i + 1));
        i = i + 1;
    }
    proof {
        assert(low@.take(16) =~= low@);
        lemma_digits_len(ts as int, 10);
        lemma_digits_len(r as int, 16);
    }
    string_of(v.as_slice())
}

/// Calls `rand::thread_rng` and draws 16 and 64 random bits with
/// `Rng::gen`. Nothing is claimed of them: they are random.
#[verifier::external_body]
fn random_bits() -> (u16, u64) {
    let mut rng = rand::thread_rng();
    (rand::Rng::gen::<u16>(&mut rng), rand::Rng::gen::<u64>(&mut rng))
}

/// Generate a new monotonic ULID string from the clock, updating `state`.
pub fn generate(state: &mut MsgIdState) -> (s: String)
    ensures
        s@ == ulid_text(final(state).last_ms, final(state).last_rand),
        s@.len() == 26,
        exists|now: u64, fresh: u128|
            fresh < RAND_LIMIT && *final(state) == #[trigger] next_state(*old(state), now, fresh),
        (old(state).last_ms <= final(state).last_ms < TIME_LIMIT && old(state).last_rand < RAND_LIMIT
            && (final(state).last_ms == old(state).last_ms ==> old(state).last_rand + 1 < RAND_LIMIT)) ==> (key_lt(
            ulid_text(old(state).last_ms, old(state).last_rand),
            s@,
        ) && final(state).last_rand < RAND_LIMIT),
{
    let now_ms = unix_now_millis();
    let (hi, lo) = random_bits();
    let ghost s0 = *state;
    let (ts, r) = state.advance(now_ms, hi, lo);
    proof {
        if s0.last_ms <= now_ms < TIME_LIMIT && s0.last_rand < RAND_LIMIT && (now_ms == s0.last_ms ==> s0.last_rand + 1 < RAND_LIMIT) {
            law_generate_monotonic(s0, now_ms, fresh_rand(hi, lo));
        }
    }
    encode(ts, r)
}

/// `digits` has the width asked for.
pub proof fn lemma_digits_len(x: int, w: nat)
    ensures
        digits(x, w).len() == w,
    decreases w,
{
    if w > 0 {
        lemma_digits_len(x / 32, (w - 1) as nat);
    }
}

/// Appending to equal-length sequences keeps their order.
proof fn lemma_key_lt_append(a: Seq<char>, b: Seq<char>, c: Seq<char>, d: Seq<char>)
    requires
        a.len() == b.len(),
        key_lt(a, b),
    ensures
        key_lt(a + c, b + d),
    decreases a.len(),
{
    if a[0] == b[0] {
        assert((a + c).drop_first() =~= a.drop_first() + c);
        assert((b + d).drop_first() =~= b.drop_first() + d);
        lemma_key_lt_append(a.drop_first(), b.drop_first(), c, d);
    }
}

/// A common prefix keeps the order of what follows it.
proof fn lemma_key_lt_prefix(a: Seq<char>, c: Seq<char>, d: Seq<char>)
    requires
        key_lt(c, d),
    ensures
        key_lt(a + c, a + d),
    decreases a.len(),
{
    if a.len() == 0 {
        assert(a + c =~= c);
        assert(a + d =~= d);
    } else {
        assert((a + c).drop_first() =~= a.drop_first() + c);
        assert((a + d).drop_first() =~= a.drop_first() + d);
        lemma_key_lt_prefix(a.drop_first(), c, d);
    }
}

/// Digits in Crockford's alphabet sort as their values.
proof fn lemma_crockford_increasing(p: int, q: int)
    requires
        0 <= p < q < 32,
    ensures
        (crockford(p) as u32) < (crockford(q) as u32),
{
}

/// Base32 text of the same width sorts as the numbers.
pub proof fn lemma_digits_order(x: int, y: int, w: nat)
    requires
        0 <= x < y,
        y < pow32(w),
    ensures
        key_lt(digits(x, w), digits(y, w)),
    decreases w,
{
    if w == 0 {
        assert(pow32(0) == 1);
        assert(false);
    }
    let m = (w - 1) as nat;
    lemma_pow32_positive(m);
    assert(pow32(w) == 32 * pow32(m));
    assert(x / 32 <= y / 32) by {
        vstd::arithmetic::div_mod::lemma_div_is_ordered(x, y, 32);
    }
    assert(y / 32 < pow32(m)) by {
        vstd::arithmetic::div_mod::lemma_div_is_ordered(y, pow32(w) - 1, 32);
        vstd::arithmetic::div_mod::lemma_fundamental_div_mod_converse(
            pow32(w) - 1,
            32,
            pow32(m) - 1,
            31,
        );
    }
    lemma_digits_len(x / 32, m);
    lemma_digits_len(y / 32, m);
    let cx = crockford(x % 32);
    let cy = crockford(y % 32);
    if x / 32 < y / 32 {
        lemma_digits_order(x / 32, y / 32, m);
        lemma_key_lt_append(digits(x / 32, m), digits(y / 32, m), seq![cx], seq![cy]);
        assert(digits(x, w) =~= digits(x / 32, m) + seq![cx]);
        assert(digits(y, w) =~= digits(y / 32, m) + seq![cy]);
    } else {
        vstd::arithmetic::div_mod::lemma_fundamental_div_mod(x, 32);
        vstd::arithmetic::div_mod::lemma_fundamental_div_mod(y, 32);
        assert(x % 32 < y % 32);
        lemma_crockford_increasing(x % 32, y % 32);
        assert(key_lt(seq![cx], seq![cy])) by {
            assert(seq![cx][0] != seq![cy][0]);
        }
        lemma_key_lt_prefix(digits(x / 32, m), seq![cx], seq![cy]);
        assert(digits(x, w) =~= digits(x / 32, m) + seq![cx]);
        assert(digits(y, w) =~= digits(y / 32, m) + seq![cy]);
    }
}

/// ULID text sorts as (timestamp, random part) within their ranges: a
/// later millisecond, or a larger random part in the same millisecond,
/// gives a text that sorts after.
pub proof fn law_ulid_order(ts1: u64, r1: u128, ts2: u64, r2: u128)
    requires
        ts1 < TIME_LIMIT,
        ts2 < TIME_LIMIT,
        r1 < RAND_LIMIT,
        r2 < RAND_LIMIT,
        ts1 < ts2 || (ts1 == ts2 && r1 < r2),
    ensures
        key_lt(ulid_text(ts1, r1), ulid_text(ts2, r2)),
{
    assert(pow32(10) == TIME_LIMIT) by {
        reveal_with_fuel(pow32, 11);
    }
    assert(pow32(16) == RAND_LIMIT) by {
        reveal_with_fuel(pow32, 17);
    }
    lemma_digits_len(ts1 as int, 10);
    lemma_digits_len(ts2 as int, 10);
    if ts1 < ts2 {
        lemma_digits_order(ts1 as int, ts2 as int, 10);
        lemma_key_lt_append(
            digits(ts1 as int, 10),
            digits(ts2 as int, 10),
            digits(r1 as int, 16),
            digits(r2 as int, 16),
        );
    } else {
        lemma_digits_order(r1 as int, r2 as int, 16);
        lemma_key_lt_prefix(digits(ts1 as int, 10), digits(r1 as int, 16), digits(r2 as int, 16));
    }
}

/// Consecutive IDs sort in generation order while the clock does not go
/// back, timestamps stay below `2^50` and, within one millisecond, the
/// random part does not reach `2^80`.
pub proof fn law_generate_monotonic(s: MsgIdState, now: u64, fresh: u128)
    requires
        s.last_ms < TIME_LIMIT,
        s.last_rand < RAND_LIMIT,
        fresh < RAND_LIMIT,
        s.last_ms <= now < TIME_LIMIT,
        now == s.last_ms ==> s.last_rand + 1 < RAND_LIMIT,
    ensures
        key_lt(
            ulid_text(s.last_ms, s.last_rand),
            ulid_text(next_state(s, now, fresh).last_ms, next_state(s, now, fresh).last_rand),
        ),
        next_state(s, now, fresh).last_rand < RAND_LIMIT,
{
    let n = next_state(s, now, fresh);
    law_ulid_order(s.last_ms, s.last_rand, n.last_ms, n.last_rand);
}

} // verus!
