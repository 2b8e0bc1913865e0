use whatstauri::tray::{
    is_gnome_desktop, menu_action, names_gnome, show_hide_label, tooltip_label, TrayAction,
};

#[test]
fn label_without_unread() {
    assert_eq!(show_hide_label(0), "Show/Hide WhatsApp");
}

#[test]
fn label_with_unread() {
    assert_eq!(show_hide_label(3), "Show/Hide WhatsApp (3 unread)");
}

#[test]
fn label_with_large_count() {
    assert_eq!(show_hide_label(4294967295), "Show/Hide WhatsApp (4294967295 unread)");
}

#[test]
fn tooltips() {
    assert_eq!(tooltip_label(0), "WhatsTauri");
    assert_eq!(tooltip_label(12), "WhatsTauri — 12 unread");
}

#[test]
fn gnome_detection() {
    assert!(is_gnome_desktop("GNOME"));
    assert!(is_gnome_desktop("ubuntu:gnome"));
    assert!(is_gnome_desktop("Gnome-Classic"));
    assert!(!is_gnome_desktop("KDE"));
    assert!(!is_gnome_desktop(""));
    assert!(names_gnome("X-GNOME"));
    assert!(!names_gnome("gnome"));
}

#[test]
fn menu_routing() {
    assert_eq!(menu_action("show_hide"), Some(TrayAction::ToggleMain));
    assert_eq!(menu_action("reload"), Some(TrayAction::Reload));
    assert_eq!(menu_action("clear_data"), Some(TrayAction::ClearData));
    assert_eq!(menu_action("quit"), Some(TrayAction::Quit));
    assert_eq!(menu_action("Quit"), None);
}
