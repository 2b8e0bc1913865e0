//! Formats the "last message received" rows shown in the tray menu.
//! Pure string formatting: sender and time on one row, the quoted preview on
//! the next.
use vstd::prelude::*;

use crate::text::{chars_of, string_from_chars};

verus! {

/// Longest sender name shown before it is cut.
pub const FROM_MAX: usize = 30;

/// Longest message preview shown before it is cut.
pub const BODY_MAX: usize = 50;

/// `s` unchanged if it has at most `max` characters, else its first `max`
/// characters followed by an ellipsis.
pub open spec fn truncated(s: Seq<char>, max: nat) -> Seq<char> {
    if s.len() <= max {
        s
    } else {
        s.take(max as int).push('\u{2026}')
    }
}

/// The separator between sender and time: space, middle dot, space.
pub open spec fn from_separator() -> Seq<char> {
    seq![' ', '\u{b7}', ' ']
}

/// "Alice · 14:32": the sender, cut at `FROM_MAX` characters, then the time.
pub open spec fn from_label_text(from: Seq<char>, ts: Seq<char>) -> Seq<char> {
    truncated(from, FROM_MAX as nat) + from_separator() + ts
}

/// The preview, cut at `BODY_MAX` characters, between typographic quotes.
pub open spec fn body_label_text(message: Seq<char>) -> Seq<char> {
    seq!['\u{201c}'] + truncated(message, BODY_MAX as nat) + seq!['\u{201d}']
}

/// Character-aware truncation: multibyte text is cut between characters,
/// never inside one.
fn truncate(s: &str, max: usize) -> (out: Vec<char>)
    ensures
        out@ == truncated(s@, max as nat),
{
    let mut v = chars_of(s);
    if v.len() > max {
        v.truncate(max);
        v.push('\u{2026}');
    }
    v
}

/// Top row: "Alice · 14:32". The sender is truncated if very long; `ts` is
/// the already formatted local time.
pub fn from_label(from: &str, ts: &str) -> (out: String)
    ensures
        out@ == from_label_text(from@, ts@),
{
    let mut v = truncate(from, FROM_MAX);
    let mut sep: Vec<char> = vec![' ', '\u{b7}', ' '];
    let mut t = chars_of(ts);
    v.append(&mut sep);
    v.append(&mut t);
    string_from_chars(v.as_slice())
}

/// Second row: the message preview, truncated and quoted.
pub fn body_label(message: &str) -> (out: String)
    ensures
        out@ == body_label_text(message@),
{
    let mut v: Vec<char> = vec!['\u{201c}'];
    let mut m = truncate(message, BODY_MAX);
    v.append(&mut m);
    v.push('\u{201d}');
    string_from_chars(v.as_slice())
}

/// A truncated text never has more than `max + 1` characters, starts with
/// the text's own first characters, and is the text itself when it fits.
pub proof fn lemma_truncated_shape(s: Seq<char>, max: nat)
    ensures
        truncated(s, max).len() <= max + 1,
        truncated(s, max).len() == if s.len() <= max {
            s.len()
        } else {
            max + 1
        },
        forall|i: int|
            0 <= i < s.len() && i < max ==> #[trigger] truncated(s, max)[i] == s[i],
        s.len() <= max ==> truncated(s, max) == s,
        s.len() > max ==> truncated(s, max).last() == '\u{2026}',
{
}

/// The sender row: a sender that fits is shown whole, followed by space,
/// middle dot, space and the time; a longer one keeps its first
/// `FROM_MAX` characters and an ellipsis. The time always ends the row.
pub proof fn lemma_from_label_layout(from: Seq<char>, ts: Seq<char>)
    ensures
        from.len() <= 30 ==> from_label_text(from, ts) == from + seq![' ', '\u{b7}', ' '] + ts,
        from.len() > 30 ==> from_label_text(from, ts) == from.take(30) + seq![
            '\u{2026}',
            ' ',
            '\u{b7}',
            ' ',
        ] + ts,
        from_label_text(from, ts).len() >= ts.len() + 3,
        from_label_text(from, ts).subrange(
            from_label_text(from, ts).len() - ts.len(),
            from_label_text(from, ts).len() as int,
        ) == ts,
{
    let r = from_label_text(from, ts);
    if from.len() > 30 {
        assert(from.take(30).push('\u{2026}') + seq![' ', '\u{b7}', ' '] + ts =~= from.take(30)
            + seq!['\u{2026}', ' ', '\u{b7}', ' '] + ts);
    }
    assert(r.subrange(r.len() - ts.len(), r.len() as int) =~= ts);
}

/// The preview row: the message between “ and ”, whole when it has at
/// most `BODY_MAX` characters, else its first `BODY_MAX` and an ellipsis.
pub proof fn lemma_body_label_layout(message: Seq<char>)
    ensures
        message.len() <= 50 ==> body_label_text(message) == seq!['\u{201c}'] + message + seq![
            '\u{201d}',
        ],
        message.len() > 50 ==> body_label_text(message) == seq!['\u{201c}'] + message.take(50)
            + seq!['\u{2026}', '\u{201d}'],
{
    if message.len() > 50 {
        assert(seq!['\u{201c}'] + message.take(50).push('\u{2026}') + seq!['\u{201d}'] =~= seq![
            '\u{201c}',
        ] + message.take(50) + seq!['\u{2026}', '\u{201d}']);
    }
}

} // verus!
