use whatstauri::notifications::{escape_body, markup_from_capabilities, prepare_body};

#[test]
fn escapes_markup_characters() {
    assert_eq!(escape_body("a < b && c > d"), "a &lt; b &amp;&amp; c &gt; d");
    assert_eq!(escape_body("&lt;"), "&amp;lt;");
    assert_eq!(escape_body("plain 📷"), "plain 📷");
}

#[test]
fn prepare_caps_then_escapes() {
    let long = "<".repeat(1001);
    let out = prepare_body(&long, true);
    assert_eq!(out, "&lt;".repeat(1000));
    assert_eq!(prepare_body(&long, false), "<".repeat(1000));
    assert_eq!(prepare_body("hi & bye", false), "hi & bye");
    let emoji = "😀".repeat(1200);
    assert_eq!(prepare_body(&emoji, true).chars().count(), 1000);
}

#[test]
fn markup_decision() {
    assert!(markup_from_capabilities(None));
    let caps = vec!["actions".to_string(), "body-markup".to_string()];
    assert!(markup_from_capabilities(Some(&caps)));
    let plain = vec!["actions".to_string(), "body".to_string()];
    assert!(!markup_from_capabilities(Some(&plain)));
    assert!(!markup_from_capabilities(Some(&Vec::new())));
}
