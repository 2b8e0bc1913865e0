//! Unread count from WhatsApp Web's document title ("(3) WhatsApp").
use vstd::prelude::*;

use crate::text::{
    lemma_trim_is_subrange, occurs_at, lemma_decimal_digits, lemma_trim_keeps_prefix, lemma_trim_leading_white_space, chars_of, contains_in, contains_seq, decimal, digit_char, digit_value, digits_value, find_char,
    first_index_of, is_ascii_digit, is_first_index, is_white_space, parse_digits, parse_digits_in,
    trim_bounds, trim_seq,
};

verus! {

/// The word whose presence marks a plain title with nothing unread.
pub open spec fn whatsapp_word() -> Seq<char> {
    seq!['W', 'h', 'a', 't', 's', 'A', 'p', 'p']
}

/// The count that a title announces, if it is recognised: after trimming, a
/// leading `(` must be followed by ASCII digits (a count that fits in a
/// `u32`) and a `)`; a title without the parenthesis that mentions
/// "WhatsApp" announces zero; anything else announces nothing.
pub open spec fn announced_count(title: Seq<char>) -> Option<u32> {
    let t = trim_seq(title);
    if t.len() > 0 && t[0] == '(' {
        let rest = t.drop_first();
        match first_index_of(rest, ')') {
            Some(end) => parse_digits(rest.take(end)),
            None => None,
        }
    } else if contains_seq(t, whatsapp_word()) {
        Some(0)
    } else {
        None
    }
}

/// The count after seeing `title`: the announced one, else `previous`.
pub open spec fn unread_count(title: Seq<char>, previous: u32) -> u32 {
    match announced_count(title) {
        Some(n) => n,
        None => previous,
    }
}

/// Extract the unread count from the document title. Unrecognised titles
/// return `previous`, so noise never wipes a real count.
pub fn parse_unread(title: &str, previous: u32) -> (n: u32)
    ensures
        n == unread_count(title@, previous),
{
    let s = chars_of(title);
    let (lo, hi) = trim_bounds(&s);
    let ghost t = s@.subrange(lo as int, hi as int);
    if lo < hi && s[lo] == '(' {
        let ghost rest = t.drop_first();
        assert(rest =~= s@.subrange(lo + 1, hi as int));
        match find_char(&s, lo + 1, hi, ')') {
            Some(end) => {
                assert(rest.take(end as int) =~= s@.subrange(lo + 1, lo + 1 + end));
                match parse_digits_in(&s, lo + 1, lo + 1 + end) {
                    Some(n) => n,
                    None => previous,
                }
            },
            None => previous,
        }
    } else {
        let word: Vec<char> = vec!['W', 'h', 'a', 't', 's', 'A', 'p', 'p'];
        assert(word@ =~= whatsapp_word());
        if contains_in(&s, lo, hi, &word) {
            0
        } else {
            previous
        }
    }
}

/// A title that is not recognised (loading screens, a malformed or
/// overflowing count) never changes the count: noise cannot wipe a real one.
pub proof fn lemma_unrecognised_title_keeps_count(title: Seq<char>, previous: u32)
    requires
        announced_count(title) is None,
    ensures
        unread_count(title, previous) == previous,
{
}

/// A title that moves the count away from one previous value sets it to the
/// same number from every previous value: the count is read from the title,
/// never combined with the old one.
pub proof fn lemma_count_independent_of_previous(title: Seq<char>, p: u32, q: u32)
    requires
        unread_count(title, p) != p,
    ensures
        unread_count(title, q) == unread_count(title, p),
{
}

/// Feeding the same title twice changes nothing the second time.
pub proof fn lemma_same_title_is_idempotent(title: Seq<char>, previous: u32)
    ensures
        unread_count(title, unread_count(title, previous)) == unread_count(title, previous),
{
}

/// The title format WhatsApp maintains: optional white space, then
/// `(n)`, then anything. The count read back is `n`, whatever came before.
pub proof fn lemma_count_prefix_wins(lead: Seq<char>, n: u32, rest: Seq<char>, previous: u32)
    requires
        forall|i: int| 0 <= i < lead.len() ==> is_white_space(#[trigger] lead[i]),
    ensures
        unread_count(lead + seq!['('] + decimal(n as nat) + seq![')'] + rest, previous) == n,
{
    let d = decimal(n as nat);
    let body = seq!['('] + d + seq![')'] + rest;
    assert(lead + seq!['('] + d + seq![')'] + rest =~= lead + body);
    lemma_trim_leading_white_space(lead, body);
    lemma_decimal_digits(n as nat);
    assert(body[0] == '(');
    let h = lemma_trim_keeps_prefix(body);
    assert(body[d.len() + 1int] == ')');
    assert(h > d.len() + 1);
    let t = trim_seq(body);
    let tail = t.drop_first();
    assert(tail[d.len() as int] == ')');
    assert forall|j: int| 0 <= j < d.len() implies tail[j] != ')' by {
        assert(tail[j] == d[j]);
        assert(is_ascii_digit(d[j]));
    }
    assert(is_first_index(tail, ')', d.len() as int));
    let w = choose|w: int| is_first_index(tail, ')', w);
    assert(w == d.len()) by {
        if w < d.len() {
            assert(tail[w] != ')');
        } else if w > d.len() {
            assert(tail[d.len() as int] != ')');
        }
    }
    assert(tail.take(d.len() as int) =~= d);
    assert(parse_digits(d) == Some(n));
}

/// A title that holds neither `(` nor the word "WhatsApp" anywhere keeps
/// the count, whatever it was.
pub proof fn lemma_title_without_count_or_name_keeps(title: Seq<char>, previous: u32)
    requires
        forall|i: int| 0 <= i < title.len() ==> title[i] != '(',
        forall|i: int|
            0 <= i && i + 8 <= title.len() ==> #[trigger] title.subrange(i, i + 8) != seq![
                'W',
                'h',
                'a',
                't',
                's',
                'A',
                'p',
                'p',
            ],
    ensures
        unread_count(title, previous) == previous,
{
    let (lo, hi) = lemma_trim_is_subrange(title);
    let t = trim_seq(title);
    if t.len() > 0 {
        assert(t[0] == title[lo]);
    }
    if contains_seq(t, whatsapp_word()) {
        let i = choose|i: int| occurs_at(t, whatsapp_word(), i);
        assert(title.subrange(lo + i, lo + i + 8) =~= t.subrange(i, i + 8));
    }
}

/// A title whose text starts, after white space, with something other
/// than `(` and holds the word "WhatsApp" means nothing is unread, whatever
/// the count was.
pub proof fn lemma_plain_whatsapp_title_means_zero(
    lead: Seq<char>,
    body: Seq<char>,
    i: int,
    previous: u32,
)
    requires
        forall|k: int| 0 <= k < lead.len() ==> is_white_space(#[trigger] lead[k]),
        body.len() > 0,
        !is_white_space(body[0]),
        body[0] != '(',
        0 <= i,
        i + 8 <= body.len(),
        body.subrange(i, i + 8) == seq!['W', 'h', 'a', 't', 's', 'A', 'p', 'p'],
    ensures
        unread_count(lead + body, previous) == 0,
{
    lemma_trim_leading_white_space(lead, body);
    let h = lemma_trim_keeps_prefix(body);
    assert(body[i + 7] == body.subrange(i, i + 8)[7]);
    assert(!is_white_space(body[i + 7]));
    assert(i + 7 < h);
    let t = trim_seq(body);
    assert(t.subrange(i, i + 8) =~= body.subrange(i, i + 8));
    assert(occurs_at(t, whatsapp_word(), i));
    assert(t[0] == body[0]);
}

/// A parenthesis that does not close over a count keeps the count: after
/// white space, `(`, then text without `)` that is empty, holds a
/// character other than an ASCII digit, or is a number beyond `u32`, then
/// `)` and anything.
pub proof fn lemma_malformed_count_keeps(
    lead: Seq<char>,
    inner: Seq<char>,
    rest: Seq<char>,
    previous: u32,
)
    requires
        forall|k: int| 0 <= k < lead.len() ==> is_white_space(#[trigger] lead[k]),
        forall|k: int| 0 <= k < inner.len() ==> inner[k] != ')',
        !(inner.len() > 0 && (forall|k: int| 0 <= k < inner.len() ==> is_ascii_digit(#[trigger] inner[k]))
            && digits_value(inner) <= u32::MAX),
    ensures
        unread_count(lead + seq!['('] + inner + seq![')'] + rest, previous) == previous,
{
    let body = seq!['('] + inner + seq![')'] + rest;
    assert(lead + seq!['('] + inner + seq![')'] + rest =~= lead + body);
    lemma_trim_leading_white_space(lead, body);
    assert(body[0] == '(');
    let h = lemma_trim_keeps_prefix(body);
    assert(body[inner.len() + 1int] == ')');
    assert(h > inner.len() + 1);
    let t = trim_seq(body);
    let tail = t.drop_first();
    assert(tail[inner.len() as int] == ')');
    assert forall|j: int| 0 <= j < inner.len() implies tail[j] != ')' by {
        assert(tail[j] == inner[j]);
    }
    assert(is_first_index(tail, ')', inner.len() as int));
    let w = choose|w: int| is_first_index(tail, ')', w);
    assert(w == inner.len()) by {
        if w < inner.len() {
            assert(tail[w] != ')');
        } else if w > inner.len() {
            assert(tail[inner.len() as int] != ')');
        }
    }
    assert(tail.take(inner.len() as int) =~= inner);
    assert(parse_digits(inner) is None);
}

/// An opening parenthesis that is never closed keeps the count.
pub proof fn lemma_unclosed_parenthesis_keeps(lead: Seq<char>, rest: Seq<char>, previous: u32)
    requires
        forall|k: int| 0 <= k < lead.len() ==> is_white_space(#[trigger] lead[k]),
        forall|k: int| 0 <= k < rest.len() ==> rest[k] != ')',
    ensures
        unread_count(lead + seq!['('] + rest, previous) == previous,
{
    let body = seq!['('] + rest;
    assert(lead + seq!['('] + rest =~= lead + body);
    lemma_trim_leading_white_space(lead, body);
    assert(body[0] == '(');
    let h = lemma_trim_keeps_prefix(body);
    let t = trim_seq(body);
    let tail = t.drop_first();
    assert forall|j: int| 0 <= j < tail.len() implies tail[j] != ')' by {
        assert(tail[j] == rest[j]);
    }
    assert(!exists|w: int| is_first_index(tail, ')', w));
}

/// The last unread count seen; a new title only replaces it when the title
/// is recognised.
pub struct UnreadState {
    count: u32,
}

impl View for UnreadState {
    type V = u32;

    closed spec fn view(&self) -> u32 {
        self.count
    }
}

impl UnreadState {
    /// A state holding `initial`.
    pub fn new(initial: u32) -> (st: Self)
        ensures
            st@ == initial,
    {
        UnreadState { count: initial }
    }

    /// The count currently held.
    pub fn count(&self) -> (n: u32)
        ensures
            n == self@,
    {
        self.count
    }

    /// Feeds a document title. The held count becomes what the title
    /// announces (unchanged when it is not recognised); the new count is
    /// returned when it differs from the old one, so the tray is only touched
    /// on a change.
    pub fn observe_title(&mut self, title: &str) -> (changed: Option<u32>)
        ensures
            final(self)@ == unread_count(title@, old(self)@),
            changed == (if final(self)@ != old(self)@ {
                Some(final(self)@)
            } else {
                None::<u32>
            }),
    {
        let n = parse_unread(title, self.count);
        if n != self.count {
            self.count = n;
            Some(n)
        } else {
            None
        }
    }
}

} // verus!
