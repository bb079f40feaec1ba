use freeq::scene::{
    defs, mood_color, prepare_scene, scene_still_visible, truncate, validate_accent, wrap,
    xml_escape, Mood, SceneKind, SceneSpec, DEFAULT_ACCENT, MAX_POINTS,
};

#[test]
fn xml_escape_neutralizes_markup() {
    assert_eq!(xml_escape("a<b>&\"c"), "a&lt;b&gt;&amp;&quot;c");
}

#[test]
fn validate_accent_rejects_garbage() {
    assert_eq!(validate_accent("#1A2b3C"), "#1A2b3C");
    assert_eq!(validate_accent(" #abcdef "), "#abcdef");
    assert_eq!(validate_accent("blue"), DEFAULT_ACCENT);
    assert_eq!(validate_accent("#xyz123"), DEFAULT_ACCENT);
    assert_eq!(validate_accent("#12345"), DEFAULT_ACCENT);
}

#[test]
fn wrap_breaks_on_word_boundaries() {
    let lines = wrap("one two three four five six", 9);
    assert!(lines.len() >= 3, "should wrap into several lines");
    assert!(lines.iter().all(|l| !l.starts_with(' ') && !l.ends_with(' ')));
}

fn sample_spec(kind: SceneKind) -> SceneSpec {
    SceneSpec {
        kind,
        title: "Why Sleep Matters".into(),
        subtitle: "Consolidates memory and learning".into(),
        points: vec!["a".into(), "b".into()],
        accent: "#b594ff".into(),
        image_query: "sleep".into(),
    }
}

#[test]
fn show_scene_caps_points_and_validates_accent() {
    let mut spec = sample_spec(SceneKind::KeyPoints);
    spec.points = (0..20).map(|i| i.to_string()).collect();
    spec.accent = "not-a-color".into();
    let stored = prepare_scene(spec);
    assert!(stored.points.len() <= MAX_POINTS);
    assert_eq!(stored.accent, DEFAULT_ACCENT);
}

#[test]
fn wrap_exact_lines() {
    assert_eq!(wrap("one two three four five six", 9), vec!["one two", "three", "four five", "six"]);
    assert_eq!(wrap("   ", 9), vec![""]);
    assert_eq!(wrap("supercalifragilistic word", 5), vec!["supercalifragilistic", "word"]);
}

#[test]
fn wrap_rejoined_gives_the_words_back() {
    let text = "  the quick\tbrown  fox jumps over the lazy dog ";
    let lines = wrap(text, 10);
    assert_eq!(lines.join(" "), "the quick brown fox jumps over the lazy dog");
    assert!(lines.iter().all(|l| l.chars().count() <= 10 || !l.contains(' ')));
}

#[test]
fn truncate_adds_ellipsis() {
    assert_eq!(truncate("hello", 5), "hello");
    assert_eq!(truncate("hello world", 6), "hello…");
    assert_eq!(truncate("héllo wörld", 3), "hé…");
    assert_eq!(truncate("abc", 0), "…");
}

#[test]
fn xml_escape_all_five() {
    assert_eq!(xml_escape("'\"<>&x"), "&apos;&quot;&lt;&gt;&amp;x");
    assert_eq!(xml_escape("plain"), "plain");
}

#[test]
fn scene_kind_from_tag() {
    assert_eq!(SceneKind::from_tag(" Hero "), SceneKind::Hero);
    assert_eq!(SceneKind::from_tag("STAT"), SceneKind::Stat);
    assert_eq!(SceneKind::from_tag("quote"), SceneKind::Quote);
    assert_eq!(SceneKind::from_tag("Timeline"), SceneKind::Timeline);
    assert_eq!(SceneKind::from_tag("whatever"), SceneKind::KeyPoints);
}

#[test]
fn mood_colors() {
    assert_eq!(mood_color(Mood::Idle), "#6cb0ff");
    assert_eq!(mood_color(Mood::Listening), "#54e2c8");
    assert_eq!(mood_color(Mood::Thinking), "#b594ff");
    assert_eq!(mood_color(Mood::Speaking), "#9fd2ff");
}

#[test]
fn defs_carries_accent_twice() {
    let d = defs("#123456");
    assert!(d.starts_with("<defs>"));
    assert!(d.ends_with("</defs>"));
    assert_eq!(d.matches("#123456").count(), 2);
}

#[test]
fn scene_visibility_window() {
    assert!(scene_still_visible(0, None));
    assert!(scene_still_visible(27_999_999_999, None));
    assert!(!scene_still_visible(28_000_000_000, None));
    assert!(scene_still_visible(40_000_000_000, Some(1_000_000_000)));
    assert!(!scene_still_visible(40_000_000_000, Some(22_000_000_000)));
}

#[test]
fn short_text_wraps_to_one_collapsed_line() {
    assert_eq!(freeq::scene::wrap("  a   b c ", 10), vec!["a b c".to_string()]);
    assert_eq!(freeq::scene::wrap("", 10), vec![String::new()]);
}
