use freeq::lines::{make_extended_join, make_standard_join, normalize_channel};

#[test]
fn join_lines() {
    assert_eq!(
        make_extended_join("n!u@h", "#c", Some("did:plc:x"), "Real Name"),
        ":n!u@h JOIN #c did:plc:x :Real Name\r\n"
    );
    assert_eq!(
        make_extended_join("n!u@h", "#c", None, "r"),
        ":n!u@h JOIN #c * :r\r\n"
    );
    assert_eq!(make_standard_join("n!u@h", "#c"), ":n!u@h JOIN #c\r\n");
}

#[test]
fn channel_names_normalize_to_lowercase() {
    assert_eq!(normalize_channel("#FreeQ"), "#freeq");
    assert_eq!(normalize_channel("#ÄBC"), "#äbc");
}
