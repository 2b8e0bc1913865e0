use whatstauri::unread::{parse_unread, UnreadState};

#[test]
fn count_prefix_wins() {
    assert_eq!(parse_unread("(3) WhatsApp", 0), 3);
    assert_eq!(parse_unread("(12) WhatsApp", 5), 12);
    assert_eq!(parse_unread("(3)", 7), 3);
    assert_eq!(parse_unread("(0) WhatsApp", 5), 0);
}

#[test]
fn plain_whatsapp_title_means_zero() {
    assert_eq!(parse_unread("WhatsApp", 4), 0);
    assert_eq!(parse_unread("  WhatsApp  ", 4), 0);
}

#[test]
fn unrecognized_title_keeps_previous() {
    // A flaky/loading title must never wipe a real count.
    assert_eq!(parse_unread("", 4), 4);
    assert_eq!(parse_unread("Connecting…", 4), 4);
    assert_eq!(parse_unread("(abc) WhatsApp", 2), 2);
    assert_eq!(parse_unread("(", 9), 9);
}

#[test]
fn u32_literal_edge_cases() {
    assert_eq!(parse_unread("(+7) WhatsApp", 1), 1);
    assert_eq!(parse_unread("(-7) WhatsApp", 1), 1);
    assert_eq!(parse_unread("(+) WhatsApp", 1), 1);
    assert_eq!(parse_unread("() WhatsApp", 1), 1);
    assert_eq!(parse_unread("(4294967295)", 1), 4294967295);
    assert_eq!(parse_unread("(4294967296) WhatsApp", 1), 1);
    assert_eq!(parse_unread("( 3) WhatsApp", 1), 1);
    assert_eq!(parse_unread("\u{3000}(5)\u{a0}", 1), 5);
    assert_eq!(parse_unread("x (5) WhatsApp", 1), 0);
    assert_eq!(parse_unread("whatsapp", 6), 6);
}

#[test]
fn state_reports_only_changes() {
    let mut st = UnreadState::new(0);
    assert_eq!(st.observe_title("(2) WhatsApp"), Some(2));
    assert_eq!(st.observe_title("(2) WhatsApp"), None);
    assert_eq!(st.observe_title("Connecting…"), None);
    assert_eq!(st.count(), 2);
    assert_eq!(st.observe_title("WhatsApp"), Some(0));
    assert_eq!(st.count(), 0);
}
