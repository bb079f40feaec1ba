use freeq::msgid::{crockford_digit, encode, generate, MsgIdState};

#[test]
fn ulid_length_and_uniqueness() {
    let mut state = MsgIdState::new();
    let a = generate(&mut state);
    let b = generate(&mut state);
    assert_eq!(a.len(), 26);
    assert_eq!(b.len(), 26);
    assert_ne!(a, b);
}

#[test]
fn ulid_is_ascii_crockford() {
    let mut state = MsgIdState::new();
    let id = generate(&mut state);
    for c in id.chars() {
        assert!(
            c.is_ascii_digit()
                || (c.is_ascii_uppercase() && c != 'I' && c != 'L' && c != 'O' && c != 'U'),
            "Invalid Crockford char: {c}"
        );
    }
}

#[test]
fn ulid_monotonic_ordering() {
    let mut state = MsgIdState::new();
    let a = generate(&mut state);
    let b = generate(&mut state);
    assert!(a < b, "ULIDs should sort chronologically: {a} vs {b}");
}

#[test]
fn crockford_alphabet() {
    let s: String = (0u8..32).map(crockford_digit).collect();
    assert_eq!(s, "0123456789ABCDEFGHJKMNPQRSTVWXYZ");
}

#[test]
fn encode_known_values() {
    assert_eq!(encode(0, 0), "00000000000000000000000000");
    assert_eq!(encode(1, 31), "0000000001000000000000000Z");
    assert_eq!(encode(32, 32), "00000000100000000000000010");
    // Timestamp 1_700_000_000_000 ms (2023-11-14) in base32.
    assert_eq!(&encode(1_700_000_000_000, 0)[..10], "01HF7YAT00");
    // All 80 random bits set.
    assert_eq!(&encode(0, (1u128 << 80) - 1)[10..], "ZZZZZZZZZZZZZZZZ");
}

#[test]
fn advance_increments_within_a_millisecond() {
    let mut s = MsgIdState { last_ms: 5, last_rand: 41 };
    assert_eq!(s.advance(5, 0xffff, 0), (5, 42));
    assert_eq!(s, MsgIdState { last_ms: 5, last_rand: 42 });
}

#[test]
fn advance_draws_fresh_bits_in_a_new_millisecond() {
    let mut s = MsgIdState { last_ms: 5, last_rand: 41 };
    let (ts, r) = s.advance(6, 0x1234, 0x0102_0304_0506_0708);
    assert_eq!(ts, 6);
    assert_eq!(r, (0x1234u128 << 64) | 0x0102_0304_0506_0708);
    assert!(encode(5, 41) < encode(ts, r));
}

#[test]
fn advance_wraps_the_random_part() {
    let mut s = MsgIdState { last_ms: 9, last_rand: u128::MAX };
    assert_eq!(s.advance(9, 1, 1), (9, 0));
}

#[test]
fn encoding_orders_like_the_pair() {
    assert!(encode(1, 999) < encode(2, 0));
    assert!(encode(7, 1) < encode(7, 2));
    assert!(encode(0, (1u128 << 80) - 1) < encode(1, 0));
}
