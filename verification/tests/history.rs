use freeq::history::{chathistory_request, limit_of, parse_history_ts, parse_u64_digits, parse_usize, HistoryQuery};

fn ps(v: &[&str]) -> Vec<String> {
    v.iter().map(|s| s.to_string()).collect()
}

fn chars(s: &str) -> Vec<char> {
    s.chars().collect()
}

#[test]
fn usize_parsing_follows_std() {
    for s in ["0", "7", "+12", "0042", "18446744073709551615", "", "+", "-1", "1a", " 1", "++1", "18446744073709551616"] {
        assert_eq!(parse_usize(&chars(s)), s.parse::<usize>().ok(), "input {s:?}");
    }
}

#[test]
fn limits_default_to_fifty_and_cap_at_five_hundred() {
    assert_eq!(limit_of("20"), 20);
    assert_eq!(limit_of("abc"), 50);
    assert_eq!(limit_of(""), 50);
    assert_eq!(limit_of("500"), 500);
    assert_eq!(limit_of("501"), 500);
    assert_eq!(limit_of("99999999999999999999999"), 50);
}

#[test]
fn timestamps_parse_with_or_without_prefix() {
    assert_eq!(parse_history_ts("timestamp=2024-01-01T00:00:00Z"), Some(1704067200));
    assert_eq!(parse_history_ts("2024-01-01T00:00:00.500+01:00"), Some(1704063600));
    assert_eq!(parse_history_ts("timestamp=yesterday"), None);
    assert_eq!(parse_history_ts("*"), None);
}

#[test]
fn too_few_params_need_more() {
    assert!(chathistory_request(&ps(&["LATEST", "#c"])).is_none());
    assert!(chathistory_request(&[]).is_none());
}

#[test]
fn subcommands_select_their_queries() {
    let (t, q) = chathistory_request(&ps(&["latest", "#Chan", "*", "10"])).unwrap();
    assert_eq!(t, "#chan");
    assert_eq!(q, HistoryQuery::Latest { limit: 10 });

    let (_, q) = chathistory_request(&ps(&["LATEST", "#c", "timestamp=2024-01-01T00:00:00Z", "5"])).unwrap();
    assert_eq!(q, HistoryQuery::After { after: 1704067200, limit: 5 });

    let (_, q) = chathistory_request(&ps(&["BEFORE", "#c", "bogus", "x"])).unwrap();
    assert_eq!(q, HistoryQuery::Before { before: u64::MAX, limit: 50 });

    let (_, q) = chathistory_request(&ps(&["After", "#c", "bogus", "1000"])).unwrap();
    assert_eq!(q, HistoryQuery::After { after: 0, limit: 500 });

    let (_, q) = chathistory_request(&ps(&["BETWEEN", "#c", "timestamp=2024-01-01T00:00:00Z", "later", "3"])).unwrap();
    assert_eq!(q, HistoryQuery::Between { start: 1704067200, end: u64::MAX, limit: 3 });
}

#[test]
fn short_or_unknown_requests_fetch_nothing() {
    let (_, q) = chathistory_request(&ps(&["BEFORE", "#c", "*"])).unwrap();
    assert_eq!(q, HistoryQuery::Nothing);
    let (_, q) = chathistory_request(&ps(&["BETWEEN", "#c", "a", "b"])).unwrap();
    assert_eq!(q, HistoryQuery::Nothing);
    let (_, q) = chathistory_request(&ps(&["AROUND", "#c", "*", "5"])).unwrap();
    assert_eq!(q, HistoryQuery::Nothing);
}

#[test]
fn plain_digits_read_as_u64() {
    assert_eq!(parse_u64_digits(&chars("0")), Some(0));
    assert_eq!(parse_u64_digits(&chars("18446744073709551615")), Some(u64::MAX));
    assert_eq!(parse_u64_digits(&chars("18446744073709551616")), None);
    assert_eq!(parse_u64_digits(&chars("+1")), None);
    assert_eq!(parse_u64_digits(&chars("1.5")), None);
    assert_eq!(parse_u64_digits(&chars("")), None);
}

#[test]
fn printed_numbers_read_back() {
    for n in [0u64, 7, 10, 99, 12345, u64::MAX] {
        let text = freeq::text::u64_decimal(n);
        assert_eq!(parse_u64_digits(&chars(&text)), Some(n));
    }
}
