use whatstauri::window::{download_finished_body, CrashGuard, DownloadSlot, OpenThrottle};

const S: u64 = 1_000_000_000;

#[test]
fn repeated_link_opens_once_per_two_seconds() {
    let mut t = OpenThrottle::new();
    assert!(t.should_open("https://example.org/", 10 * S));
    assert!(!t.should_open("https://example.org/", 10 * S + S));
    assert!(t.should_open("https://other.org/", 10 * S + S));
    assert!(!t.should_open("https://example.org/", 10 * S + S + 1));
    assert!(t.should_open("https://example.org/", 12 * S));
    assert!(!t.should_open("https://example.org/", 13 * S + S - 1));
    assert!(t.should_open("https://example.org/", 14 * S));
}

#[test]
fn other_link_in_between_does_not_reopen() {
    // a at 0 s, b at 0.5 s, a again at 1.0 s: a opens once.
    let mut t = OpenThrottle::new();
    assert!(t.should_open("https://a.example/", 0));
    assert!(t.should_open("https://b.example/", S / 2));
    assert!(!t.should_open("https://a.example/", S));
    assert!(!t.should_open("https://b.example/", S));
    assert!(t.should_open("https://a.example/", 2 * S));
    assert!(t.should_open("https://b.example/", 2 * S + S / 2));
}

#[test]
fn crash_loop_stops_after_three_reloads() {
    let mut g = CrashGuard::new();
    assert!(g.on_crash(0));
    assert!(g.on_crash(10 * S));
    assert!(g.on_crash(20 * S));
    assert!(!g.on_crash(30 * S));
    // At 65 s only the first crash has left the window: still four.
    assert!(!g.on_crash(65 * S));
    assert!(g.on_crash(200 * S));
}

#[test]
fn download_texts() {
    assert_eq!(download_finished_body(Some("/home/u/Downloads/a.jpg"), false), "Saved /home/u/Downloads/a.jpg");
    assert_eq!(download_finished_body(None, true), "Download finished");
    assert_eq!(download_finished_body(None, false), "Download failed");
}

#[test]
fn download_slot_reports_requested_destination() {
    let mut slot: DownloadSlot<String> = DownloadSlot::new();
    assert_eq!(slot.finished(None), None);
    slot.requested("/home/u/Downloads/a.jpg".to_string());
    assert_eq!(slot.finished(Some("/tmp/b.jpg".to_string())), Some("/tmp/b.jpg".to_string()));
    assert_eq!(slot.finished(None), Some("/home/u/Downloads/a.jpg".to_string()));
    assert_eq!(slot.finished(None), None);
}

#[test]
fn crashes_spread_out_keep_reloading() {
    let mut g = CrashGuard::new();
    for k in 0..10u64 {
        assert!(g.on_crash(k * 21 * S));
    }
}
