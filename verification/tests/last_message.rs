use whatstauri::last_message::{body_label, from_label};

#[test]
fn from_label_basic() {
    assert_eq!(from_label("Alice", "14:32"), "Alice · 14:32");
}

#[test]
fn from_label_truncates_long_sender() {
    let long = "A".repeat(40);
    let out = from_label(&long, "14:32");
    assert!(out.contains('…'), "long sender should be truncated: {out}");
    assert!(out.ends_with("· 14:32"), "ts must survive: {out}");
    // 30 kept chars + the ellipsis = 31 chars before " · 14:32".
    let name_part = out.split(" · ").next().unwrap();
    assert_eq!(name_part.chars().count(), 31);
}

#[test]
fn body_label_quotes_and_keeps_short_text() {
    assert_eq!(body_label("see you at 5pm"), "“see you at 5pm”");
}

#[test]
fn body_label_truncates_long_message() {
    let long = "x".repeat(80);
    let out = body_label(&long);
    assert!(out.contains('…'), "long body should be truncated: {out}");
    // strip the surrounding quotes, then 50 chars + ellipsis = 51.
    let inner = out.trim_start_matches('“').trim_end_matches('”');
    assert_eq!(inner.chars().count(), 51);
}

#[test]
fn body_label_multibyte_does_not_panic() {
    // Media placeholder + emoji must stay valid UTF-8 and not panic.
    assert_eq!(body_label("📷 Photo"), "“📷 Photo”");
    let emojis = "😀".repeat(80);
    let out = body_label(&emojis);
    assert!(out.contains('…'));
    assert!(std::str::from_utf8(out.as_bytes()).is_ok());
}

#[test]
fn exact_cap_is_not_truncated() {
    let thirty = "B".repeat(30);
    assert_eq!(from_label(&thirty, "Jun 13 14:32"), format!("{thirty} · Jun 13 14:32"));
    let fifty = "y".repeat(50);
    assert_eq!(body_label(&fifty), format!("“{fifty}”"));
    let fifty_one = "y".repeat(51);
    assert_eq!(body_label(&fifty_one), format!("“{fifty}…”"));
}
