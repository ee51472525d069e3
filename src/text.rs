use vstd::prelude::*;

verus! {

/// Whether `char::is_whitespace` holds of a character beyond ASCII.
pub uninterp spec fn white(c: char) -> bool;

/// Whether `char::is_alphabetic` holds of a character beyond ASCII.
pub uninterp spec fn alphabetic(c: char) -> bool;

/// Whether `char::is_alphanumeric` holds of a character beyond ASCII.
pub uninterp spec fn alphanumeric(c: char) -> bool;

pub open spec fn ascii_letter(c: char) -> bool {
    ('a' <= c && c <= 'z') || ('A' <= c && c <= 'Z')
}

pub open spec fn ascii_digit(c: char) -> bool {
    '0' <= c && c <= '9'
}

/// Whitespace as `char::is_whitespace` sees it: on ASCII, space, tab, line
/// feed, vertical tab, form feed and carriage return.
pub open spec fn is_space(c: char) -> bool {
    if (c as u32) < 128 {
        c == ' ' || c == '\t' || c == '\n' || c == '\x0B' || c == '\x0C' || c == '\r'
    } else {
        white(c)
    }
}

/// `char::is_alphabetic`: on ASCII, the letters.
pub open spec fn is_letter(c: char) -> bool {
    if (c as u32) < 128 {
        ascii_letter(c)
    } else {
        alphabetic(c)
    }
}

/// `char::is_alphanumeric`: on ASCII, the letters and digits.
pub open spec fn is_letter_or_digit(c: char) -> bool {
    if (c as u32) < 128 {
        ascii_letter(c) || ascii_digit(c)
    } else {
        alphanumeric(c)
    }
}

/// Relies on char::is_whitespace, whose ASCII members are listed above.
#[verifier::external_body]
pub fn is_white(c: char) -> (r: bool)
    ensures
        (c as u32) < 128 ==> (r <==> (c == ' ' || c == '\t' || c == '\n' || c == '\x0B' || c
            == '\x0C' || c == '\r')),
        (c as u32) >= 128 ==> r == white(c),
{
    c.is_whitespace()
}

/// Relies on char::is_alphabetic; on ASCII it holds of the letters alone.
#[verifier::external_body]
pub fn is_alphabetic(c: char) -> (r: bool)
    ensures
        (c as u32) < 128 ==> r == ascii_letter(c),
        (c as u32) >= 128 ==> r == alphabetic(c),
{
    c.is_alphabetic()
}

/// Relies on char::is_alphanumeric; on ASCII it holds of letters and digits,
/// and it holds of every character that `char::is_alphabetic` holds of.
#[verifier::external_body]
pub fn is_alphanumeric(c: char) -> (r: bool)
    ensures
        (c as u32) < 128 ==> r == (ascii_letter(c) || ascii_digit(c)),
        (c as u32) >= 128 ==> r == alphanumeric(c),
        (c as u32) >= 128 && alphabetic(c) ==> r,
{
    c.is_alphanumeric()
}

/// The characters of a text, in order.
pub fn chars_of(s: &str) -> (r: Vec<char>)
    ensures
        r@ == s@,
{
    let mut r: Vec<char> = Vec::new();
    for c in it: s.chars()
        invariant
            it.seq() == s@,
            r@ == it.seq().take(it.index() as int),
    {
        r.push(c);
    }
    assert(r@ =~= s@);
    r
}

/// Characters that a trim removes: whitespace, or the one character given.
pub open spec fn skippable(c: char, mark: Option<char>) -> bool {
    match mark {
        Some(m) => c == m,
        None => is_space(c),
    }
}

pub fn is_skippable(c: char, mark: Option<char>) -> (r: bool)
    ensures
        r == skippable(c, mark),
{
    match mark {
        Some(m) => c == m,
        None => is_white(c),
    }
}

/// The first index at or after `lo` (and not past `hi`) that holds a character
/// a trim keeps.
pub open spec fn skip_forward(s: Seq<char>, lo: int, hi: int, mark: Option<char>) -> int
    decreases hi - lo,
{
    if lo < hi && skippable(s[lo], mark) {
        skip_forward(s, lo + 1, hi, mark)
    } else {
        lo
    }
}

/// The end of `s[lo..hi]` once the characters a trim removes are taken off its
/// tail.
pub open spec fn skip_backward(s: Seq<char>, lo: int, hi: int, mark: Option<char>) -> int
    decreases hi - lo,
{
    if lo < hi && skippable(s[hi - 1], mark) {
        skip_backward(s, lo, hi - 1, mark)
    } else {
        hi
    }
}

pub fn trim_start_at(s: &Vec<char>, lo: usize, hi: usize, mark: Option<char>) -> (r: usize)
    requires
        lo <= hi <= s@.len(),
    ensures
        r == skip_forward(s@, lo as int, hi as int, mark),
        lo <= r <= hi,
{
    let mut a: usize = lo;
    while a < hi && is_skippable(s[a], mark)
        invariant
            lo <= a <= hi <= s@.len(),
            skip_forward(s@, a as int, hi as int, mark) == skip_forward(
                s@,
                lo as int,
                hi as int,
                mark,
            ),
        decreases hi - a,
    {
        a = a + 1;
    }
    a
}

pub fn trim_end_at(s: &Vec<char>, lo: usize, hi: usize, mark: Option<char>) -> (r: usize)
    requires
        lo <= hi <= s@.len(),
    ensures
        r == skip_backward(s@, lo as int, hi as int, mark),
        lo <= r <= hi,
{
    let mut b: usize = hi;
    while b > lo && is_skippable(s[b - 1], mark)
        invariant
            lo <= b <= hi <= s@.len(),
            skip_backward(s@, lo as int, b as int, mark) == skip_backward(
                s@,
                lo as int,
                hi as int,
                mark,
            ),
        decreases b - lo,
    {
        b = b - 1;
    }
    b
}

/// The bounds of `s[lo..hi]` with removable characters taken off both ends.
pub fn trim_bounds(s: &Vec<char>, lo: usize, hi: usize, mark: Option<char>) -> (r: (usize, usize))
    requires
        lo <= hi <= s@.len(),
    ensures
        r.0 == skip_forward(s@, lo as int, hi as int, mark),
        r.1 == skip_backward(s@, r.0 as int, hi as int, mark),
        lo <= r.0 <= r.1 <= hi,
{
    let a = trim_start_at(s, lo, hi, mark);
    (a, trim_end_at(s, a, hi, mark))
}

/// Whether `t[at..]` begins with `p`.
pub open spec fn has_at(t: Seq<char>, at: int, p: Seq<char>) -> bool {
    0 <= at && at + p.len() <= t.len() && t.subrange(at, at + p.len()) == p
}

pub fn matches_at(t: &Vec<char>, at: usize, p: &str) -> (r: bool)
    requires
        at <= t@.len(),
    ensures
        r == has_at(t@, at as int, p@),
{
    let n: usize = p.unicode_len();
    if n > t.len() - at {
        return false;
    }
    let mut j: usize = 0;
    while j < n
        invariant
            j <= n == p@.len(),
            at + n <= t.len(),
            forall|k: int| 0 <= k < j ==> t@[at + k] == p@[k],
        decreases n - j,
    {
        if t[at + j] != p.get_char(j) {
            assert(t@.subrange(at as int, at + n)[j as int] != p@[j as int]);
            return false;
        }
        j = j + 1;
    }
    assert(t@.subrange(at as int, at + n) =~= p@);
    true
}

/// Text that equals another, character for character.
pub fn same_text(a: &str, b: &str) -> (r: bool)
    ensures
        r == (a@ == b@),
{
    let n: usize = a.unicode_len();
    if n != b.unicode_len() {
        return false;
    }
    let mut i: usize = 0;
    while i < n
        invariant
            n == a@.len() == b@.len(),
            i <= n,
            forall|j: int| 0 <= j < i ==> a@[j] == b@[j],
        decreases n - i,
    {
        if a.get_char(i) != b.get_char(i) {
            return false;
        }
        i = i + 1;
    }
    assert(a@ =~= b@);
    true
}

} // verus!
