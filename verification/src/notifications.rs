//! Text handed to the desktop notification daemon.
use vstd::prelude::*;

use crate::text::{chars_of, string_from_chars};

verus! {

/// Longest body, in characters, handed to the daemon.
pub const BODY_LIMIT: usize = 1000;

/// The markup entity for one character: `&`, `<` and `>` become `&amp;`,
/// `&lt;` and `&gt;`; every other character stands for itself.
pub open spec fn escape_char(c: char) -> Seq<char> {
    if c == '&' {
        seq!['&', 'a', 'm', 'p', ';']
    } else if c == '<' {
        seq!['&', 'l', 't', ';']
    } else if c == '>' {
        seq!['&', 'g', 't', ';']
    } else {
        seq![c]
    }
}

/// `s` with each character replaced by its entity.
pub open spec fn escaped(s: Seq<char>) -> Seq<char>
    decreases s.len(),
{
    if s.len() == 0 {
        s
    } else {
        escaped(s.drop_last()) + escape_char(s.last())
    }
}

/// The body after the length cap (first `BODY_LIMIT` characters), escaped
/// when the daemon renders markup.
pub open spec fn prepared_body(body: Seq<char>, markup: bool) -> Seq<char> {
    let cut = if body.len() <= BODY_LIMIT {
        body
    } else {
        body.take(BODY_LIMIT as int)
    };
    if markup {
        escaped(cut)
    } else {
        cut
    }
}

/// The capability name under which daemons announce body markup.
pub open spec fn body_markup_capability() -> Seq<char> {
    seq!['b', 'o', 'd', 'y', '-', 'm', 'a', 'r', 'k', 'u', 'p']
}

/// Whether to escape: the daemon lists `body-markup`, or its capability
/// list could not be had (an unknown daemon is escaped for defensively).
pub open spec fn markup_assumed(caps: Option<Seq<Seq<char>>>) -> bool {
    match caps {
        None => true,
        Some(c) => lists_body_markup(c),
    }
}

/// `body-markup` is one of the names in `c`.
pub open spec fn lists_body_markup(c: Seq<Seq<char>>) -> bool {
    exists|i: int| 0 <= i < c.len() && #[trigger] c[i] == body_markup_capability()
}

/// The capability names as character sequences.
pub open spec fn capabilities_view(caps: Option<&Vec<String>>) -> Option<Seq<Seq<char>>> {
    match caps {
        None => None,
        Some(c) => Some(c@.map_values(|s: String| s@)),
    }
}

fn escape_chars(s: &Vec<char>) -> (out: Vec<char>)
    ensures
        out@ == escaped(s@),
{
    let mut out: Vec<char> = Vec::new();
    let mut i: usize = 0;
    while i < s.len()
        invariant
            i <= s.len(),
            out@ == escaped(s@.take(i as int)),
        decreases s.len() - i,
    {
        let c = s[i];
        let mut piece: Vec<char> = if c == '&' {
            vec!['&', 'a', 'm', 'p', ';']
        } else if c == '<' {
            vec!['&', 'l', 't', ';']
        } else if c == '>' {
            vec!['&', 'g', 't', ';']
        } else {
            vec![c]
        };
        assert(piece@ =~= escape_char(c));
        assert(s@.take(i + 1).drop_last() =~= s@.take(i as int));
        out.append(&mut piece);
        i = i + 1;
    }
    assert(s@.take(s.len() as int) =~= s@);
    out
}

/// Escapes the three characters that notification markup gives a meaning.
pub fn escape_body(s: &str) -> (out: String)
    ensures
        out@ == escaped(s@),
{
    let v = chars_of(s);
    let e = escape_chars(&v);
    string_from_chars(e.as_slice())
}

/// The body as it is sent: at most `BODY_LIMIT` characters, escaped when
/// `markup` (what `markup_from_capabilities` decided for this daemon).
pub fn prepare_body(body: &str, markup: bool) -> (out: String)
    ensures
        out@ == prepared_body(body@, markup),
{
    let mut v = chars_of(body);
    let ghost whole = v@;
    v.truncate(BODY_LIMIT);
    assert(v@ =~= (if whole.len() <= BODY_LIMIT {
        whole
    } else {
        whole.take(BODY_LIMIT as int)
    }));
    if markup {
        let e = escape_chars(&v);
        string_from_chars(e.as_slice())
    } else {
        string_from_chars(v.as_slice())
    }
}

/// Decides escaping from the daemon's capability list (`None` when the list
/// could not be fetched).
pub fn markup_from_capabilities(caps: Option<&Vec<String>>) -> (b: bool)
    ensures
        b == markup_assumed(capabilities_view(caps)),
{
    match caps {
        None => true,
        Some(c) => {
            let target = string_from_chars(
                vec!['b', 'o', 'd', 'y', '-', 'm', 'a', 'r', 'k', 'u', 'p'].as_slice(),
            );
            assert(target@ =~= body_markup_capability());
            let ghost views = c@.map_values(|s: String| s@);
            assert(capabilities_view(caps) == Some(views));
            let mut i: usize = 0;
            while i < c.len()
                invariant
                    i <= c.len(),
                    views == c@.map_values(|s: String| s@),
                    capabilities_view(caps) == Some(views),
                    target@ == body_markup_capability(),
                    forall|j: int| 0 <= j < i ==> views[j] != body_markup_capability(),
                decreases c.len() - i,
            {
                if c[i] == target {
                    assert(views[i as int] == body_markup_capability());
                    assert(0 <= i < views.len() && views[i as int] == body_markup_capability());
                    assert(capabilities_view(caps) == Some(views));
                    assert(lists_body_markup(views));
                    return true;
                }
                i = i + 1;
            }
            false
        },
    }
}

/// Escaping never loses text: every character of the input survives, in
/// order, and the output is only longer where an entity was written.
pub proof fn lemma_escaped_length(s: Seq<char>)
    ensures
        escaped(s).len() >= s.len(),
        (forall|i: int| 0 <= i < s.len() ==> s[i] != '&' && s[i] != '<' && s[i] != '>')
            ==> escaped(s) == s,
    decreases s.len(),
{
    if s.len() > 0 {
        lemma_escaped_length(s.drop_last());
        if forall|i: int| 0 <= i < s.len() ==> s[i] != '&' && s[i] != '<' && s[i] != '>' {
            assert forall|i: int| 0 <= i < s.drop_last().len() implies s.drop_last()[i] != '&'
                && s.drop_last()[i] != '<' && s.drop_last()[i] != '>' by {
                assert(s.drop_last()[i] == s[i]);
            }
            assert(s.drop_last().push(s.last()) =~= s);
        }
    }
}

/// Escaped text holds no bare `<` or `>`: markup in a message body cannot
/// reach the daemon.
pub proof fn lemma_escaped_has_no_angle_brackets(s: Seq<char>)
    ensures
        forall|i: int| 0 <= i < escaped(s).len() ==> #[trigger] escaped(s)[i] != '<'
            && escaped(s)[i] != '>',
    decreases s.len(),
{
    if s.len() > 0 {
        lemma_escaped_has_no_angle_brackets(s.drop_last());
        let a = escaped(s.drop_last());
        let b = escape_char(s.last());
        assert forall|i: int| 0 <= i < escaped(s).len() implies #[trigger] escaped(s)[i] != '<'
            && escaped(s)[i] != '>' by {
            if i < a.len() {
                assert(escaped(s)[i] == a[i]);
            } else {
                assert(escaped(s)[i] == b[i - a.len()]);
            }
        }
    }
}

/// Escaping is decided by membership alone: markup is assumed exactly when
/// the capability list is unavailable or names `body-markup` at any
/// position, whatever other names it holds and in whatever order, so
/// adding names to a list never turns escaping off.
pub proof fn lemma_markup_iff_listed(caps: Option<Seq<Seq<char>>>, a: Seq<Seq<char>>, b: Seq<Seq<char>>)
    ensures
        markup_assumed(caps) <==> match caps {
            None => true,
            Some(c) => c.contains(seq!['b', 'o', 'd', 'y', '-', 'm', 'a', 'r', 'k', 'u', 'p']),
        },
        markup_assumed(Some(a + b)) <==> markup_assumed(Some(a)) || markup_assumed(Some(b)),
        markup_assumed(Some(a + b)) <==> markup_assumed(Some(b + a)),
{
    let m = seq!['b', 'o', 'd', 'y', '-', 'm', 'a', 'r', 'k', 'u', 'p'];
    assert(body_markup_capability() == m);
    assert forall|c: Seq<Seq<char>>| lists_body_markup(c) <==> #[trigger] c.contains(m) by {
        if c.contains(m) {
            let i = choose|i: int| 0 <= i < c.len() && c[i] == m;
            assert(c[i] == body_markup_capability());
        }
    }
    assert forall|x: Seq<Seq<char>>, y: Seq<Seq<char>>| #[trigger] (x + y).contains(m) <==> x.contains(m) || y.contains(m) by {
        if x.contains(m) {
            let i = choose|i: int| 0 <= i < x.len() && x[i] == m;
            assert((x + y)[i] == m);
        }
        if y.contains(m) {
            let i = choose|i: int| 0 <= i < y.len() && y[i] == m;
            assert((x + y)[x.len() + i] == m);
        }
        if (x + y).contains(m) {
            let i = choose|i: int| 0 <= i < (x + y).len() && (x + y)[i] == m;
            if i < x.len() {
                assert(x[i] == m);
            } else {
                assert(y[i - x.len()] == m);
            }
        }
    }
    assert((a + b).contains(m) <==> a.contains(m) || b.contains(m));
    assert((b + a).contains(m) <==> b.contains(m) || a.contains(m));
}

/// Escaping works character by character: the escape of a concatenation
/// is the concatenation of the escapes, `&`, `<` and `>` become `&amp;`,
/// `&lt;` and `&gt;`, and any other character stays itself.
pub proof fn lemma_escaped_by_character(a: Seq<char>, b: Seq<char>, c: char)
    ensures
        escaped(a + b) == escaped(a) + escaped(b),
        escaped(seq![c]) == if c == '&' {
            seq!['&', 'a', 'm', 'p', ';']
        } else if c == '<' {
            seq!['&', 'l', 't', ';']
        } else if c == '>' {
            seq!['&', 'g', 't', ';']
        } else {
            seq![c]
        },
    decreases b.len(),
{
    assert(seq![c].drop_last() =~= Seq::<char>::empty());
    assert(escaped(Seq::<char>::empty()) == Seq::<char>::empty());
    assert(Seq::<char>::empty() + escape_char(c) =~= escape_char(c));
    if b.len() == 0 {
        assert(a + b =~= a);
        assert(escaped(a) + escaped(b) =~= escaped(a));
    } else {
        lemma_escaped_by_character(a, b.drop_last(), c);
        assert((a + b).drop_last() =~= a + b.drop_last());
        assert((a + b).last() == b.last());
        assert(escaped(a) + escaped(b.drop_last()) + escape_char(b.last()) =~= escaped(a) + (
        escaped(b.drop_last()) + escape_char(b.last())));
    }
}

/// The body sent is the first `BODY_LIMIT` characters, escaped only when
/// the daemon renders markup: without markup it is a prefix of the body of
/// at most 1000 characters, the whole body when it fits.
pub proof fn lemma_prepared_body_cut(body: Seq<char>, markup: bool)
    ensures
        !markup ==> prepared_body(body, false).len() == if body.len() <= 1000 {
            body.len()
        } else {
            1000
        },
        !markup ==> body.subrange(0, prepared_body(body, false).len() as int) == prepared_body(
            body,
            false,
        ),
        markup ==> prepared_body(body, true) == escaped(prepared_body(body, false)),
{
    if body.len() <= 1000 {
        assert(body.subrange(0, body.len() as int) =~= body);
    } else {
        assert(body.subrange(0, 1000) =~= body.take(1000));
    }
}

} // verus!
