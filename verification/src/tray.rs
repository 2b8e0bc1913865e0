//! Texts of the tray: the Show/Hide entry mirrors the unread count, since
//! tooltips do nothing on the Linux tray backend.
use vstd::prelude::*;

use crate::text::{
    chars_of, contains_in, contains_seq, decimal, decimal_chars, lemma_decimal_parses_back,
    parse_digits, string_from_chars,
};

verus! {

/// The Show/Hide entry: plain when nothing is unread, else with the count.
pub open spec fn show_hide_text(count: u32) -> Seq<char> {
    if count == 0 {
        "Show/Hide WhatsApp"@
    } else {
        "Show/Hide WhatsApp ("@ + decimal(count as nat) + " unread)"@
    }
}

/// The tray tooltip: the app name, with the count when something is unread.
pub open spec fn tooltip_text(count: u32) -> Seq<char> {
    if count == 0 {
        "WhatsTauri"@
    } else {
        "WhatsTauri \u{2014} "@ + decimal(count as nat) + " unread"@
    }
}

/// Label of the Show/Hide menu entry for `count` unread chats.
pub fn show_hide_label(count: u32) -> (out: String)
    ensures
        out@ == show_hide_text(count),
{
    if count == 0 {
        String::from_str("Show/Hide WhatsApp")
    } else {
        let d = string_from_chars(decimal_chars(count).as_slice());
        String::from_str("Show/Hide WhatsApp (").concat(d.as_str()).concat(" unread)")
    }
}

/// Tooltip of the tray icon for `count` unread chats.
pub fn tooltip_label(count: u32) -> (out: String)
    ensures
        out@ == tooltip_text(count),
{
    if count == 0 {
        String::from_str("WhatsTauri")
    } else {
        let d = string_from_chars(decimal_chars(count).as_slice());
        String::from_str("WhatsTauri \u{2014} ").concat(d.as_str()).concat(" unread")
    }
}

/// `s` in upper case as `str::to_uppercase` gives it (full Unicode case
/// mapping, independent of locale).
pub uninterp spec fn uppercase(s: Seq<char>) -> Seq<char>;

/// `str::to_uppercase`. The contract claims only that the result is the one
/// named by `uppercase` for this text.
#[verifier::external_body]
fn to_uppercase(s: &str) -> (r: String)
    ensures
        r@ == uppercase(s@),
{
    s.to_uppercase()
}

/// Whether an upper-cased `XDG_CURRENT_DESKTOP` names GNOME.
pub fn names_gnome(upper: &str) -> (b: bool)
    ensures
        b == contains_seq(upper@, "GNOME"@),
{
    let s = chars_of(upper);
    let pat = chars_of("GNOME");
    assert(s@.subrange(0, s@.len() as int) =~= s@);
    contains_in(&s, 0, s.len(), &pat)
}

/// Whether `XDG_CURRENT_DESKTOP` is a GNOME session (compared in upper
/// case), the only desktop that hides the tray without an extension.
pub fn is_gnome_desktop(desktop: &str) -> (b: bool)
    ensures
        b == contains_seq(uppercase(desktop@), "GNOME"@),
{
    let upper = to_uppercase(desktop);
    names_gnome(upper.as_str())
}

/// What a tray menu entry does.
#[derive(Clone, Copy, Debug, PartialEq, Eq)]
pub enum TrayAction {
    /// Show the window if hidden, hide it if shown.
    ToggleMain,
    /// Reload the web view natively.
    Reload,
    /// Ask to clear all local data and log out.
    ClearData,
    /// Leave the app.
    Quit,
}

/// The action of a menu entry id; `None` for an id the menu does not have.
pub open spec fn menu_action_spec(id: Seq<char>) -> Option<TrayAction> {
    if id == "show_hide"@ {
        Some(TrayAction::ToggleMain)
    } else if id == "reload"@ {
        Some(TrayAction::Reload)
    } else if id == "clear_data"@ {
        Some(TrayAction::ClearData)
    } else if id == "quit"@ {
        Some(TrayAction::Quit)
    } else {
        None
    }
}

/// Routes a menu event by the id of its entry.
pub fn menu_action(id: &str) -> (a: Option<TrayAction>)
    ensures
        a == menu_action_spec(id@),
{
    let s = String::from_str(id);
    if s == String::from_str("show_hide") {
        Some(TrayAction::ToggleMain)
    } else if s == String::from_str("reload") {
        Some(TrayAction::Reload)
    } else if s == String::from_str("clear_data") {
        Some(TrayAction::ClearData)
    } else if s == String::from_str("quit") {
        Some(TrayAction::Quit)
    } else {
        None
    }
}

/// The Show/Hide entry reads "Show/Hide WhatsApp" when nothing is unread;
/// otherwise it is "Show/Hide WhatsApp (", the count in decimal digits
/// (reading back as the count), and " unread)". The tooltip is built the
/// same way after "WhatsTauri — ".
pub proof fn lemma_labels_carry_the_count(count: u32)
    ensures
        count == 0 ==> show_hide_text(count) == "Show/Hide WhatsApp"@,
        count == 0 ==> tooltip_text(count) == "WhatsTauri"@,
        count != 0 ==> exists|d: Seq<char>|
            show_hide_text(count) == "Show/Hide WhatsApp ("@ + d + " unread)"@ && tooltip_text(count)
                == "WhatsTauri \u{2014} "@ + d + " unread"@ && #[trigger] parse_digits(d) == Some(
                count,
            ),
{
    lemma_decimal_parses_back(count);
    if count != 0 {
        assert(parse_digits(decimal(count as nat)) == Some(count));
    }
}

/// The four entries of the tray menu route to four different actions, and
/// no other id does anything.
pub proof fn lemma_menu_routes(id: Seq<char>)
    ensures
        menu_action_spec("show_hide"@) == Some(TrayAction::ToggleMain),
        menu_action_spec("reload"@) == Some(TrayAction::Reload),
        menu_action_spec("clear_data"@) == Some(TrayAction::ClearData),
        menu_action_spec("quit"@) == Some(TrayAction::Quit),
        id != "show_hide"@ && id != "reload"@ && id != "clear_data"@ && id != "quit"@
            ==> menu_action_spec(id) is None,
{
    reveal_strlit("show_hide");
    reveal_strlit("reload");
    reveal_strlit("clear_data");
    reveal_strlit("quit");
    assert("show_hide"@.len() == 9);
    assert("reload"@.len() == 6);
    assert("clear_data"@.len() == 10);
    assert("quit"@.len() == 4);
}

} // verus!
