//! Character-level helpers shared by the label and parsing code: whitespace
//! trimming, substring search, decimal numbers.
use vstd::prelude::*;

verus! {

/// The characters of `s`, in order.
pub(crate) fn chars_of(s: &str) -> (out: Vec<char>)
    ensures
        out@ == s@,
{
    let mut out: Vec<char> = Vec::new();
    for c in it: s.chars()
        invariant
            out@ == it.seq().take(it.index() as int),
            it.seq() == s@,
    {
        out.push(c);
    }
    out
}

/// Collects characters into a `String` (std's `FromIterator<&char>` for `String`).
#[verifier::external_body]
pub(crate) fn string_from_chars(v: &[char]) -> (out: String)
    ensures
        out@ == v@,
{
    v.iter().collect()
}

/// Unicode `White_Space`, the set that `char::is_whitespace` and `str::trim` use.
pub open spec fn is_white_space(c: char) -> bool {
    ||| ('\u{9}' <= c && c <= '\u{d}')
    ||| c == ' '
    ||| c == '\u{85}'
    ||| c == '\u{a0}'
    ||| c == '\u{1680}'
    ||| ('\u{2000}' <= c && c <= '\u{200a}')
    ||| c == '\u{2028}'
    ||| c == '\u{2029}'
    ||| c == '\u{202f}'
    ||| c == '\u{205f}'
    ||| c == '\u{3000}'
}

pub(crate) fn is_white_space_exec(c: char) -> (b: bool)
    ensures
        b == is_white_space(c),
{
    ('\u{9}' <= c && c <= '\u{d}') || c == ' ' || c == '\u{85}' || c == '\u{a0}' || c
        == '\u{1680}' || ('\u{2000}' <= c && c <= '\u{200a}') || c == '\u{2028}' || c
        == '\u{2029}' || c == '\u{202f}' || c == '\u{205f}' || c == '\u{3000}'
}

/// `s` with leading and trailing white space removed (`str::trim`).
pub open spec fn trim_seq(s: Seq<char>) -> Seq<char>
    decreases s.len(),
{
    if s.len() == 0 {
        s
    } else if is_white_space(s[0]) {
        trim_seq(s.drop_first())
    } else if is_white_space(s.last()) {
        trim_seq(s.drop_last())
    } else {
        s
    }
}

/// Bounds `(lo, hi)` of the trimmed part of `s`.
pub(crate) fn trim_bounds(s: &Vec<char>) -> (r: (usize, usize))
    ensures
        r.0 <= r.1 <= s.len(),
        s@.subrange(r.0 as int, r.1 as int) == trim_seq(s@),
{
    let mut lo: usize = 0;
    let mut hi: usize = s.len();
    assert(s@.subrange(0, s.len() as int) =~= s@);
    while lo < hi && is_white_space_exec(s[lo])
        invariant
            lo <= hi <= s.len(),
            hi == s.len(),
            trim_seq(s@.subrange(lo as int, hi as int)) == trim_seq(s@),
        decreases hi - lo,
    {
        assert(s@.subrange(lo as int, hi as int).drop_first() =~= s@.subrange(
            lo + 1,
            hi as int,
        ));
        lo = lo + 1;
    }
    while lo < hi && is_white_space_exec(s[hi - 1])
        invariant
            lo <= hi <= s.len(),
            lo < hi ==> !is_white_space(s@[lo as int]),
            trim_seq(s@.subrange(lo as int, hi as int)) == trim_seq(s@),
        decreases hi - lo,
    {
        assert(s@.subrange(lo as int, hi as int).drop_last() =~= s@.subrange(
            lo as int,
            hi - 1,
        ));
        hi = hi - 1;
    }
    (lo, hi)
}

/// `pat` occurs in `s` starting at index `i`.
pub open spec fn occurs_at(s: Seq<char>, pat: Seq<char>, i: int) -> bool {
    0 <= i && i + pat.len() <= s.len() && s.subrange(i, i + pat.len()) == pat
}

/// `pat` occurs somewhere in `s` (`str::contains` with a string pattern).
pub open spec fn contains_seq(s: Seq<char>, pat: Seq<char>) -> bool {
    exists|i: int| occurs_at(s, pat, i)
}

fn occurs_at_exec(s: &Vec<char>, lo: usize, hi: usize, pat: &Vec<char>, i: usize) -> (b: bool)
    requires
        lo <= i <= hi <= s.len(),
    ensures
        b == occurs_at(s@.subrange(lo as int, hi as int), pat@, i - lo),
{
    let ghost t = s@.subrange(lo as int, hi as int);
    if pat.len() > hi - i {
        return false;
    }
    let mut k: usize = 0;
    while k < pat.len()
        invariant
            lo <= i <= hi <= s.len(),
            t == s@.subrange(lo as int, hi as int),
            i + pat.len() <= hi,
            k <= pat.len(),
            forall|j: int| 0 <= j < k ==> s@[i + j] == pat@[j],
        decreases pat.len() - k,
    {
        if s[i + k] != pat[k] {
            assert(t.subrange(i - lo, i - lo + pat.len())[k as int] != pat@[k as int]);
            return false;
        }
        k = k + 1;
    }
    assert(t.subrange(i - lo, i - lo + pat.len()) =~= pat@);
    true
}

/// Whether `pat` occurs in `s[lo..hi]`.
pub(crate) fn contains_in(s: &Vec<char>, lo: usize, hi: usize, pat: &Vec<char>) -> (b: bool)
    requires
        lo <= hi <= s.len(),
    ensures
        b == contains_seq(s@.subrange(lo as int, hi as int), pat@),
{
    let ghost t = s@.subrange(lo as int, hi as int);
    let mut i: usize = lo;
    while i < hi
        invariant
            lo <= i <= hi,
            hi <= s.len(),
            t == s@.subrange(lo as int, hi as int),
            forall|j: int| 0 <= j < i - lo ==> !occurs_at(t, pat@, j),
        decreases hi - i,
    {
        if occurs_at_exec(s, lo, hi, pat, i) {
            return true;
        }
        i = i + 1;
    }
    if occurs_at_exec(s, lo, hi, pat, hi) {
        return true;
    }
    assert forall|j: int| !occurs_at(t, pat@, j) by {
        if 0 <= j < i - lo {
        } else if j > i - lo {
            assert(j + pat@.len() > t.len());
        }
    }
    false
}

/// `i` is the first index of `c` in `s`.
pub open spec fn is_first_index(s: Seq<char>, c: char, i: int) -> bool {
    0 <= i < s.len() && s[i] == c && forall|j: int| 0 <= j < i ==> s[j] != c
}

/// The first index of `c` in `s`, if `c` occurs (`str::find` with a `char`,
/// counted in characters).
pub open spec fn first_index_of(s: Seq<char>, c: char) -> Option<int> {
    if exists|i: int| is_first_index(s, c, i) {
        Some(choose|i: int| is_first_index(s, c, i))
    } else {
        None
    }
}

/// First index of `c` in `s[lo..hi]`, relative to `lo`.
pub(crate) fn find_char(s: &Vec<char>, lo: usize, hi: usize, c: char) -> (r: Option<usize>)
    requires
        lo <= hi <= s.len(),
    ensures
        match r {
            Some(i) => first_index_of(s@.subrange(lo as int, hi as int), c) == Some(i as int),
            None => first_index_of(s@.subrange(lo as int, hi as int), c) is None,
        },
{
    let ghost t = s@.subrange(lo as int, hi as int);
    let mut i: usize = lo;
    while i < hi
        invariant
            lo <= i <= hi <= s.len(),
            t == s@.subrange(lo as int, hi as int),
            forall|j: int| 0 <= j < i - lo ==> t[j] != c,
        decreases hi - i,
    {
        if s[i] == c {
            let ghost k = i - lo;
            assert(is_first_index(t, c, k));
            let ghost w = choose|w: int| is_first_index(t, c, w);
            assert(w == k) by {
                if w < k {
                    assert(t[w] != c);
                } else if w > k {
                    assert(t[k] != c);
                }
            }
            return Some(i - lo);
        }
        i = i + 1;
    }
    assert(!exists|w: int| is_first_index(t, c, w)) by {
        if exists|w: int| is_first_index(t, c, w) {
            let w = choose|w: int| is_first_index(t, c, w);
            assert(t[w] != c);
        }
    }
    None
}

pub open spec fn is_ascii_digit(c: char) -> bool {
    '0' <= c && c <= '9'
}

pub open spec fn digit_value(c: char) -> nat {
    (c as u32 - '0' as u32) as nat
}

/// The number that a string of decimal digits denotes.
pub open spec fn digits_value(d: Seq<char>) -> nat
    decreases d.len(),
{
    if d.len() == 0 {
        0
    } else {
        digits_value(d.drop_last()) * 10 + digit_value(d.last())
    }
}

/// A non-empty run of ASCII digits whose value fits in a `u32`.
pub open spec fn parse_digits(d: Seq<char>) -> Option<u32> {
    if d.len() > 0 && (forall|i: int| 0 <= i < d.len() ==> is_ascii_digit(#[trigger] d[i]))
        && digits_value(d) <= u32::MAX {
        Some(digits_value(d) as u32)
    } else {
        None
    }
}

proof fn lemma_digits_value_prefix(d: Seq<char>, k: int)
    requires
        0 <= k <= d.len(),
    ensures
        digits_value(d.take(k)) <= digits_value(d),
    decreases d.len(),
{
    if k < d.len() {
        assert(d.drop_last().take(k) =~= d.take(k));
        lemma_digits_value_prefix(d.drop_last(), k);
    } else {
        assert(d.take(k) =~= d);
    }
}

/// The number written by the ASCII digits `s[lo..hi]`, if they are a
/// non-empty run of digits whose value fits in a `u32`.
pub(crate) fn parse_digits_in(s: &Vec<char>, lo: usize, hi: usize) -> (r: Option<u32>)
    requires
        lo <= hi <= s.len(),
    ensures
        r == parse_digits(s@.subrange(lo as int, hi as int)),
{
    let ghost d = s@.subrange(lo as int, hi as int);
    if lo >= hi {
        assert(d.len() == 0);
        return None;
    }
    let mut acc: u64 = 0;
    let mut i = lo;
    while i < hi
        invariant
            lo <= i <= hi <= s.len(),
            d == s@.subrange(lo as int, hi as int),
            forall|j: int| 0 <= j < i - lo ==> is_ascii_digit(#[trigger] d[j]),
            acc == digits_value(d.take(i - lo)),
            acc <= u32::MAX,
        decreases hi - i,
    {
        let c = s[i];
        if !('0' <= c && c <= '9') {
            assert(!is_ascii_digit(d[i - lo]));
            return None;
        }
        let v: u64 = (c as u32 - '0' as u32) as u64;
        assert(d.take(i - lo + 1).drop_last() =~= d.take(i - lo));
        assert(d.take(i - lo + 1).last() == c);
        assert(acc * 10 + v <= u32::MAX as u64 * 10 + 9) by (nonlinear_arith)
            requires
                acc <= u32::MAX,
                v <= 9,
        ;
        acc = acc * 10 + v;
        if acc > u32::MAX as u64 {
            proof {
                lemma_digits_value_prefix(d, i - lo + 1);
            }
            return None;
        }
        i = i + 1;
    }
    assert(d.take(i - lo) =~= d);
    Some(acc as u32)
}

/// The decimal digit for `d < 10`.
pub open spec fn digit_char(d: nat) -> char {
    ('0' as u32 + d) as char
}

/// Decimal representation of `n`, without leading zeros (`u32::to_string`).
pub open spec fn decimal(n: nat) -> Seq<char>
    decreases n,
{
    if n < 10 {
        seq![digit_char(n)]
    } else {
        decimal(n / 10).push(digit_char(n % 10))
    }
}

/// The decimal digits of `n`.
pub(crate) fn decimal_chars(n: u32) -> (out: Vec<char>)
    ensures
        out@ == decimal(n as nat),
{
    // digits of n, least significant first, are collected in `rev`
    let mut rev: Vec<char> = Vec::new();
    let mut m: u32 = n;
    while m >= 10
        invariant
            decimal(n as nat) == decimal(m as nat) + rev@.reverse(),
        decreases m,
    {
        let d = m % 10;
        let c = ((d + '0' as u32) as u8) as char;
        assert(c == digit_char(d as nat));
        let ghost old_rev = rev@;
        rev.push(c);
        assert(rev@.reverse() =~= seq![c] + old_rev.reverse());
        assert(decimal(m as nat) == decimal((m / 10) as nat).push(c));
        assert(decimal((m / 10) as nat).push(c) + old_rev.reverse() =~= decimal((m / 10) as nat)
            + (seq![c] + old_rev.reverse()));
        m = m / 10;
    }
    let c = ((m + '0' as u32) as u8) as char;
    assert(c == digit_char(m as nat));
    let ghost old_rev = rev@;
    rev.push(c);
    assert(rev@.reverse() =~= seq![c] + old_rev.reverse());
    assert(decimal(n as nat) =~= rev@.reverse());
    let mut out: Vec<char> = Vec::new();
    let mut k: usize = rev.len();
    while k > 0
        invariant
            k <= rev.len(),
            out@ == rev@.reverse().take(rev.len() - k),
        decreases k,
    {
        k = k - 1;
        out.push(rev[k]);
        assert(rev@.reverse().take(rev.len() - k) =~= rev@.reverse().take(rev.len() - k - 1).push(
            rev@[k as int],
        ));
    }
    assert(rev@.reverse().take(rev.len() as int) =~= rev@.reverse());
    out
}

/// Trimming ignores leading white space.
pub proof fn lemma_trim_leading_white_space(lead: Seq<char>, s: Seq<char>)
    requires
        forall|i: int| 0 <= i < lead.len() ==> is_white_space(#[trigger] lead[i]),
    ensures
        trim_seq(lead + s) == trim_seq(s),
    decreases lead.len(),
{
    if lead.len() > 0 {
        assert((lead + s).drop_first() =~= lead.drop_first() + s);
        lemma_trim_leading_white_space(lead.drop_first(), s);
    } else {
        assert(lead + s =~= s);
    }
}

/// When `s` starts with a non-white character, trimming only cuts white
/// space off its end.
pub proof fn lemma_trim_keeps_prefix(s: Seq<char>) -> (h: int)
    requires
        s.len() > 0,
        !is_white_space(s[0]),
    ensures
        0 < h <= s.len(),
        trim_seq(s) == s.take(h),
        forall|j: int| h <= j < s.len() ==> is_white_space(#[trigger] s[j]),
        !is_white_space(s[h - 1]),
    decreases s.len(),
{
    if is_white_space(s.last()) {
        let h = lemma_trim_keeps_prefix(s.drop_last());
        assert(s.drop_last().take(h) =~= s.take(h));
        assert(s[h - 1] == s.drop_last()[h - 1]);
        assert forall|j: int| h <= j < s.len() implies is_white_space(#[trigger] s[j]) by {
            if j < s.len() - 1 {
                assert(s[j] == s.drop_last()[j]);
            }
        }
        h
    } else {
        assert(s.take(s.len() as int) =~= s);
        s.len() as int
    }
}

/// A digit character and its value.
pub proof fn lemma_digit_char_value(d: nat)
    requires
        d < 10,
    ensures
        is_ascii_digit(digit_char(d)),
        digit_value(digit_char(d)) == d,
{
}

/// Decimal digits read back as the number they print.
pub proof fn lemma_decimal_digits(n: nat)
    ensures
        decimal(n).len() > 0,
        forall|i: int| 0 <= i < decimal(n).len() ==> is_ascii_digit(#[trigger] decimal(n)[i]),
        digits_value(decimal(n)) == n,
    decreases n,
{
    lemma_digit_char_value(n % 10);
    assert(digits_value(decimal(n)) == digits_value(decimal(n).drop_last()) * 10 + digit_value(
        decimal(n).last(),
    ));
    if n >= 10 {
        lemma_decimal_digits(n / 10);
        assert(decimal(n).drop_last() =~= decimal(n / 10));
        assert(decimal(n).last() == digit_char(n % 10));
        assert((n / 10) * 10 + n % 10 == n) by (nonlinear_arith);
    } else {
        assert(decimal(n).drop_last() =~= Seq::<char>::empty());
        assert(digits_value(Seq::<char>::empty()) == 0);
        assert(n % 10 == n);
    }
}

/// The decimal form of a `u32` parses back to it.
pub proof fn lemma_decimal_parses_back(n: u32)
    ensures
        parse_digits(decimal(n as nat)) == Some(n),
{
    lemma_decimal_digits(n as nat);
}

/// The trimmed text is a contiguous part of the text.
pub proof fn lemma_trim_is_subrange(s: Seq<char>) -> (r: (int, int))
    ensures
        0 <= r.0 <= r.1 <= s.len(),
        trim_seq(s) == s.subrange(r.0, r.1),
    decreases s.len(),
{
    if s.len() == 0 {
        assert(s.subrange(0, 0) =~= s);
        (0, 0)
    } else if is_white_space(s[0]) {
        let (a, b) = lemma_trim_is_subrange(s.drop_first());
        assert(s.drop_first().subrange(a, b) =~= s.subrange(a + 1, b + 1));
        (a + 1, b + 1)
    } else if is_white_space(s.last()) {
        let (a, b) = lemma_trim_is_subrange(s.drop_last());
        assert(s.drop_last().subrange(a, b) =~= s.subrange(a, b));
        (a, b)
    } else {
        assert(s.subrange(0, s.len() as int) =~= s);
        (0, s.len() as int)
    }
}
} // verus!
