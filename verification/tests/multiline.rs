use freeq::multiline::{
    BatchLine, OpenBatch, MAX_BYTES, MAX_CONCURRENT_BATCHES_PER_SESSION, MAX_LINES,
};
use freeq::tags::TagMap;

fn empty_batch() -> OpenBatch {
    OpenBatch {
        batch_id: "abc".to_string(),
        batch_type: "draft/multiline".to_string(),
        target: "#c".to_string(),
        opener_tags: TagMap::new(),
        lines: Vec::new(),
        byte_count: 0,
        first_command: None,
    }
}

#[test]
fn cost_of_first_line_is_just_the_body() {
    let b = empty_batch();
    assert_eq!(b.cost_of_appending("hello", false), 5);
    // The concat marker on the first line is invalid per spec, but the
    // cost helper doesn't validate — it just accounts.
    assert_eq!(b.cost_of_appending("hello", true), 5);
}

#[test]
fn cost_of_subsequent_normal_line_adds_separator_byte() {
    let mut b = empty_batch();
    b.lines.push(BatchLine {
        body: "first".to_string(),
        concat_to_previous: false,
        command: "PRIVMSG".to_string(),
    });
    // "world" (5) + \n separator (1) = 6.
    assert_eq!(b.cost_of_appending("world", false), 6);
}

#[test]
fn cost_of_subsequent_concat_line_does_not_add_separator() {
    let mut b = empty_batch();
    b.lines.push(BatchLine {
        body: "first".to_string(),
        concat_to_previous: false,
        command: "PRIVMSG".to_string(),
    });
    // Concat means no separator → cost is just body length.
    assert_eq!(b.cost_of_appending("ABC", true), 3);
}

#[test]
fn max_bytes_constant_matches_spec_example() {
    assert_eq!(MAX_BYTES, 40_000);
}

#[test]
fn max_lines_constant_is_sane_default() {
    assert_eq!(MAX_LINES, 100);
}

#[test]
fn max_concurrent_batches_per_session_is_sane_default() {
    assert_eq!(MAX_CONCURRENT_BATCHES_PER_SESSION, 5);
}

#[test]
fn cost_counts_utf8_bytes() {
    let b = empty_batch();
    assert_eq!(b.cost_of_appending("héllo", false), 6);
    assert_eq!(b.cost_of_appending("", false), 0);
}
