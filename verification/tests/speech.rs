use freeq::speech::{
    answer_failed_text, answer_links, answer_plan, is_hallucination, split_speech_and_links, text_answer, worth_speaking,
    LINK_FOLLOWUP, NO_FRAME_ANSWER,
};

// ---------- is_hallucination ----------

#[test]
fn empty_or_blank_is_a_hallucination() {
    assert!(is_hallucination(""));
    assert!(is_hallucination("   "));
    assert!(is_hallucination("  ...  "));
}

#[test]
fn canonical_whisper_phantoms_are_caught() {
    for phantom in [
        "Thank you.",
        "thank you",
        "Thanks for watching!",
        "thank you for watching",
        "You",
        "Bye.",
        "Okay",
        "so",
        "the",
    ] {
        assert!(is_hallucination(phantom), "{phantom:?} should be a hallucination");
    }
}

#[test]
fn real_speech_is_not_a_hallucination() {
    for real in [
        "thank you for the summary",
        "so what did we decide",
        "the meeting starts at noon",
        "okay let's move on",
    ] {
        assert!(!is_hallucination(real), "{real:?} is real speech");
    }
}

// ---------- split_speech_and_links ----------

#[test]
fn plain_text_passes_through_with_no_links() {
    let (spoken, links) = split_speech_and_links("the answer is forty two");
    assert_eq!(spoken, "the answer is forty two");
    assert!(links.is_empty());
}

#[test]
fn markdown_link_keeps_label_and_surfaces_url() {
    let (spoken, links) =
        split_speech_and_links("see [the docs](https://freeq.at/docs) for more");
    assert_eq!(spoken, "see the docs for more");
    assert_eq!(links, vec!["https://freeq.at/docs"]);
}

#[test]
fn bare_url_is_dropped_from_speech() {
    let (spoken, links) =
        split_speech_and_links("read https://example.com/page now");
    assert_eq!(spoken, "read now");
    assert_eq!(links, vec!["https://example.com/page"]);
}

#[test]
fn trailing_punctuation_is_trimmed_off_a_bare_url() {
    // The sentence-ending "." is trimmed off the *link* but stays in
    // the spoken text (it's punctuation, not part of the URL).
    let (spoken, links) = split_speech_and_links("source: https://example.com.");
    assert_eq!(links, vec!["https://example.com"]);
    assert_eq!(spoken, "source: .");
}

#[test]
fn www_prefixed_url_is_treated_as_a_link() {
    let (spoken, links) = split_speech_and_links("visit www.freeq.at today");
    assert_eq!(spoken, "visit today");
    assert_eq!(links, vec!["www.freeq.at"]);
}

#[test]
fn markdown_image_syntax_drops_the_alt_text_from_speech() {
    // The model occasionally emits ![alt](url) for an image. The alt
    // text isn't for reading aloud — drop the whole thing; surface
    // the URL so the caller can still post it as text.
    let (spoken, links) =
        split_speech_and_links("Here it is: ![A photo of a fluffy cat](https://example.com/cat.jpg) cute!");
    assert!(!spoken.to_lowercase().contains("photo"), "alt text leaked: {spoken:?}");
    assert!(!spoken.to_lowercase().contains("fluffy"), "alt text leaked: {spoken:?}");
    assert_eq!(spoken, "Here it is: cute!");
    assert_eq!(links, vec!["https://example.com/cat.jpg"]);
}

#[test]
fn html_img_tag_dropped_with_attributes() {
    // <img src=… alt=…> — TTS would read "src equals http alt equals…"
    // literally. The whole tag must go.
    let (spoken, links) = split_speech_and_links(
        "Look <img src=\"https://x.com/y.png\" alt=\"the chart\" width=\"640\"> at that.",
    );
    assert_eq!(spoken, "Look at that.");
    assert!(links.is_empty(), "we keep this simple — don't extract src attrs");
}

#[test]
fn markdown_link_to_a_non_web_target_yields_no_link() {
    // The label is still spoken, but a non-http(s)/www target is not
    // surfaced as a postable link.
    let (spoken, links) = split_speech_and_links("[footnote](#section-3) explains it");
    assert_eq!(spoken, "footnote explains it");
    assert!(links.is_empty());
}

#[test]
fn multiple_links_are_all_collected() {
    let (spoken, links) = split_speech_and_links(
        "both [one](https://a.example) and https://b.example matter",
    );
    assert_eq!(spoken, "both one and matter");
    assert_eq!(links, vec!["https://a.example", "https://b.example"]);
}

#[test]
fn unclosed_markdown_bracket_is_left_as_literal_text() {
    // A stray `[` must not panic or eat the rest of the string.
    let (spoken, links) = split_speech_and_links("a [broken link here");
    assert_eq!(spoken, "a [broken link here");
    assert!(links.is_empty());
}

#[test]
fn handles_multibyte_text_without_panicking() {
    let (spoken, links) = split_speech_and_links("café — naïve résumé 日本語");
    assert_eq!(spoken, "café — naïve résumé 日本語");
    assert!(links.is_empty());
}

#[test]
fn every_link_is_a_web_link() {
    let (_, links) = freeq::speech::split_speech_and_links(
        "[a](https://x.example) ![i](www.y.example) [m](mailto:z) see http://q.example, or www. now",
    );
    assert_eq!(
        links,
        vec![
            "https://x.example".to_string(),
            "www.y.example".to_string(),
            "http://q.example".to_string(),
            "www".to_string()
        ]
    );
    for l in &links {
        assert!(l.starts_with("http") || l.starts_with("www"));
    }
}

#[test]
fn only_pronounceable_text_is_spoken() {
    assert!(worth_speaking("Hello."));
    assert!(worth_speaking("  ß "));
    assert!(!worth_speaking(" ... — !"));
    assert!(!worth_speaking(""));
}

#[test]
fn answer_links_post_each_link_then_the_source() {
    let links = vec!["https://a.example".to_string(), "https://b.example".to_string()];
    let (lines, posted) = answer_links(&links, Some(("", "https://c.example")));
    assert!(posted);
    assert_eq!(
        lines,
        vec![
            "[eliza] https://a.example".to_string(),
            "[eliza] https://b.example".to_string(),
            "[eliza] more on this — https://c.example".to_string(),
        ]
    );
    let (lines, posted) = answer_links(&links, Some(("Title", "https://a.example")));
    assert!(posted);
    assert_eq!(lines.len(), 2);
    let long = "t".repeat(100);
    let (lines, _) = answer_links(&[], Some((long.as_str(), "https://s")));
    assert_eq!(lines, vec![format!("[eliza] {} — https://s", "t".repeat(90))]);
    let (lines, posted) = answer_links(&[], None);
    assert!(lines.is_empty());
    assert!(!posted);
}

#[test]
fn fallback_channel_replies() {
    assert_eq!(answer_failed_text("bob", "timeout"), "bob: sorry — I couldn't answer that (timeout).");
    assert_eq!(text_answer("bob", "42."), "[eliza→bob] 42.");
    assert_eq!(LINK_FOLLOWUP, "I've posted a link in the channel if you'd like to read more.");
    assert!(NO_FRAME_ANSWER.starts_with("I can't see anything right now"));
}

#[test]
fn answer_plans_post_links_and_follow_up_only_when_speaking() {
    let p = answer_plan("See https://example.com/a for more.", None, true);
    assert_eq!(p.lines, vec!["[eliza] https://example.com/a".to_string()]);
    assert_eq!(p.followup.as_deref(), Some("I've posted a link in the channel if you'd like to read more."));
    let p = answer_plan("See https://example.com/a for more.", None, false);
    assert!(p.followup.is_none());
    let p = answer_plan("No links here.", None, true);
    assert!(p.lines.is_empty() && p.followup.is_none());
    let p = answer_plan("No links here.", Some(("Title", "https://s.example")), true);
    assert_eq!(p.lines, vec!["[eliza] Title — https://s.example".to_string()]);
    assert!(p.followup.is_some());
}
