//! Character-level string helpers with their mathematical models.
//!
//! Strings are modelled by their view, a `Seq<char>`.  Every helper here
//! states its result over that view.

use vstd::prelude::*;

verus! {

broadcast use vstd::string::group_string_axioms;

/// An ASCII decimal digit.
pub open spec fn is_ascii_digit(c: char) -> bool {
    '0' <= c && c <= '9'
}

/// An ASCII letter or decimal digit (`char::is_ascii_alphanumeric`).
pub open spec fn is_ascii_alnum(c: char) -> bool {
    ('a' <= c && c <= 'z') || ('A' <= c && c <= 'Z') || is_ascii_digit(c)
}

/// `char::to_ascii_lowercase`.
pub open spec fn ascii_lower(c: char) -> char {
    if 'A' <= c && c <= 'Z' {
        ((c as u32) + 32) as char
    } else {
        c
    }
}

/// `char::to_ascii_uppercase`.
pub open spec fn ascii_upper(c: char) -> char {
    if 'a' <= c && c <= 'z' {
        ((c as u32) - 32) as char
    } else {
        c
    }
}

/// `str::to_ascii_lowercase`, on the character model.
pub open spec fn lower_seq(s: Seq<char>) -> Seq<char> {
    Seq::new(s.len(), |i: int| ascii_lower(s[i]))
}

/// `str::to_ascii_uppercase`, on the character model.
pub open spec fn upper_seq(s: Seq<char>) -> Seq<char> {
    Seq::new(s.len(), |i: int| ascii_upper(s[i]))
}

/// The Unicode `White_Space` property, which `char::is_whitespace` tests.
pub open spec fn is_whitespace(c: char) -> bool {
    ||| ('\u{9}' <= c && c <= '\u{d}')
    ||| c == ' '
    ||| c == '\u{85}'
    ||| c == '\u{a0}'
    ||| c == '\u{1680}'
    ||| ('\u{2000}' <= c && c <= '\u{200a}')
    ||| c == '\u{2028}'
    ||| c == '\u{2029}'
    ||| c == '\u{202f}'
    ||| c == '\u{205f}'
    ||| c == '\u{3000}'
}

/// `str::trim_start`: the sequence without its leading whitespace.
pub open spec fn trim_start(s: Seq<char>) -> Seq<char>
    decreases s.len(),
{
    if s.len() > 0 && is_whitespace(s[0]) {
        trim_start(s.drop_first())
    } else {
        s
    }
}

/// `str::trim_end`: the sequence without its trailing whitespace.
pub open spec fn trim_end(s: Seq<char>) -> Seq<char>
    decreases s.len(),
{
    if s.len() > 0 && is_whitespace(s.last()) {
        trim_end(s.drop_last())
    } else {
        s
    }
}

/// `str::trim`.
pub open spec fn trim(s: Seq<char>) -> Seq<char> {
    trim_end(trim_start(s))
}

/// Lexicographic order on character sequences.  On valid strings it is the
/// order of `Ord for str`, since UTF-8 preserves the order of code points.
pub open spec fn seq_less(a: Seq<char>, b: Seq<char>) -> bool
    decreases a.len(),
{
    if a.len() == 0 {
        b.len() > 0
    } else if b.len() == 0 {
        false
    } else if a[0] != b[0] {
        a[0] < b[0]
    } else {
        seq_less(a.drop_first(), b.drop_first())
    }
}

/// The decimal digit for `d < 10`.
pub open spec fn digit_char(d: nat) -> char {
    (('0' as u32) + d) as char
}

/// The decimal representation of `n`, without leading zeros.
pub open spec fn decimal(n: nat) -> Seq<char>
    decreases n,
{
    if n < 10 {
        seq![digit_char(n)]
    } else {
        decimal(n / 10).push(digit_char(n % 10))
    }
}

/// Appends one character (`String::push`).
#[verifier::external_body]
pub(crate) fn push_char(s: &mut String, c: char)
    ensures
        final(s)@ == old(s)@.push(c),
{
    s.push(c);
}

/// The characters of `s`, one element each.
pub fn chars_of(s: &str) -> (v: Vec<char>)
    ensures
        v@ == s@,
{
    let mut v: Vec<char> = Vec::new();
    for c in it: s.chars()
        invariant
            v@ == it.seq().take(it.index() as int),
            it.seq() == s@,
    {
        v.push(c);
    }
    v
}

/// The string made of the given characters.
pub fn string_of(v: &[char]) -> (s: String)
    ensures
        s@ == v@,
{
    let mut s = String::new();
    let mut i: usize = 0;
    while i < v.len()
        invariant
            i <= v.len(),
            s@ == v@.take(i as int),
        decreases v.len() - i,
    {
        push_char(&mut s, v[i]);
        i = i + 1;
        assert(s@ =~= v@.take(i as int));
    }
    assert(v@.take(v.len() as int) =~= v@);
    s
}


/// `char::to_ascii_lowercase`.
pub fn lower_char(c: char) -> (r: char)
    ensures
        r == ascii_lower(c),
{
    if 'A' <= c && c <= 'Z' {
        let code: u32 = (c as u32) + 32;
        let r = char_from_ascii(code);
        r
    } else {
        c
    }
}

/// `char::to_ascii_uppercase`.
pub fn upper_char(c: char) -> (r: char)
    ensures
        r == ascii_upper(c),
{
    if 'a' <= c && c <= 'z' {
        let code: u32 = (c as u32) - 32;
        char_from_ascii(code)
    } else {
        c
    }
}

/// The character with an ASCII code point.
fn char_from_ascii(code: u32) -> (r: char)
    requires
        code < 128,
    ensures
        r == code as char,
{
    let b: u8 = code as u8;
    b as char
}

/// `char::is_whitespace`.
pub fn whitespace(c: char) -> (r: bool)
    ensures
        r == is_whitespace(c),
{
    ('\u{9}' <= c && c <= '\u{d}') || c == ' ' || c == '\u{85}' || c == '\u{a0}' || c == '\u{1680}'
        || ('\u{2000}' <= c && c <= '\u{200a}') || c == '\u{2028}' || c == '\u{2029}' || c
        == '\u{202f}' || c == '\u{205f}' || c == '\u{3000}'
}

/// `char::is_ascii_alphanumeric`.
pub fn ascii_alnum(c: char) -> (r: bool)
    ensures
        r == is_ascii_alnum(c),
{
    ('a' <= c && c <= 'z') || ('A' <= c && c <= 'Z') || ('0' <= c && c <= '9')
}

/// `char::is_ascii_digit`.
pub fn ascii_digit(c: char) -> (r: bool)
    ensures
        r == is_ascii_digit(c),
{
    '0' <= c && c <= '9'
}

/// Dropping leading whitespace from a suffix continues the trim of the whole.
proof fn lemma_trim_start_step(s: Seq<char>, i: int)
    requires
        0 <= i < s.len(),
        is_whitespace(s[i]),
    ensures
        trim_start(s.subrange(i, s.len() as int)) == trim_start(s.subrange(i + 1, s.len() as int)),
{
    let t = s.subrange(i, s.len() as int);
    assert(t.drop_first() =~= s.subrange(i + 1, s.len() as int));
}

/// Dropping trailing whitespace from a prefix continues the trim of the whole.
proof fn lemma_trim_end_step(s: Seq<char>, j: int)
    requires
        0 < j <= s.len(),
        is_whitespace(s[j - 1]),
    ensures
        trim_end(s.subrange(0, j)) == trim_end(s.subrange(0, j - 1)),
{
    let t = s.subrange(0, j);
    assert(t.drop_last() =~= s.subrange(0, j - 1));
}

/// The bounds of `str::trim` within `v`.
pub fn trim_bounds(v: &Vec<char>) -> (r: (usize, usize))
    ensures
        r.0 <= r.1 <= v.len(),
        v@.subrange(r.0 as int, r.1 as int) == trim(v@),
{
    let mut lo: usize = 0;
    assert(v@.subrange(0, v.len() as int) =~= v@);
    while lo < v.len() && whitespace(v[lo])
        invariant
            lo <= v.len(),
            trim_start(v@) == trim_start(v@.subrange(lo as int, v.len() as int)),
        decreases v.len() - lo,
    {
        proof {
            lemma_trim_start_step(v@, lo as int);
        }
        lo = lo + 1;
    }
    let ghost start = v@.subrange(lo as int, v.len() as int);
    assert(trim_start(start) == start) by {
        if start.len() > 0 {
            assert(start[0] == v@[lo as int]);
        }
    }
    let mut hi: usize = v.len();
    assert(start.subrange(0, start.len() as int) =~= start);
    while hi > lo && whitespace(v[hi - 1])
        invariant
            lo <= hi <= v.len(),
            start == v@.subrange(lo as int, v.len() as int),
            trim_end(start) == trim_end(v@.subrange(lo as int, hi as int)),
        decreases hi,
    {
        proof {
            let k = (hi - lo) as int;
            assert(start.subrange(0, k) =~= v@.subrange(lo as int, hi as int));
            assert(start.subrange(0, k - 1) =~= v@.subrange(lo as int, hi - 1));
            lemma_trim_end_step(v@.subrange(lo as int, hi as int), k);
            assert(v@.subrange(lo as int, hi as int).subrange(0, k - 1) =~= v@.subrange(
                lo as int,
                hi - 1,
            ));
            assert(v@.subrange(lo as int, hi as int).subrange(0, k) =~= v@.subrange(
                lo as int,
                hi as int,
            ));
        }
        hi = hi - 1;
    }
    let ghost mid = v@.subrange(lo as int, hi as int);
    assert(trim_end(mid) == mid) by {
        if mid.len() > 0 {
            assert(mid.last() == v@[hi - 1]);
        }
    }
    (lo, hi)
}

/// `str::trim`, returning the trimmed characters.
pub fn trimmed_chars(s: &str) -> (r: Vec<char>)
    ensures
        r@ == trim(s@),
{
    let v = chars_of(s);
    let (lo, hi) = trim_bounds(&v);
    slice_chars(&v, lo, hi)
}

/// The characters `v[lo..hi]`.
pub fn slice_chars(v: &Vec<char>, lo: usize, hi: usize) -> (r: Vec<char>)
    requires
        lo <= hi <= v.len(),
    ensures
        r@ == v@.subrange(lo as int, hi as int),
{
    let mut r: Vec<char> = Vec::new();
    let mut i = lo;
    while i < hi
        invariant
            lo <= i <= hi <= v.len(),
            r@ == v@.subrange(lo as int, i as int),
        decreases hi - i,
    {
        r.push(v[i]);
        i = i + 1;
        assert(r@ =~= v@.subrange(lo as int, i as int));
    }
    r
}

/// `str::to_ascii_lowercase` on a character vector.
pub fn lower_chars(v: &Vec<char>) -> (r: Vec<char>)
    ensures
        r@ == lower_seq(v@),
{
    let mut r: Vec<char> = Vec::new();
    let mut i: usize = 0;
    while i < v.len()
        invariant
            i <= v.len(),
            r@ == lower_seq(v@.take(i as int)),
        decreases v.len() - i,
    {
        let c = lower_char(v[i]);
        r.push(c);
        i = i + 1;
        assert(r@ =~= lower_seq(v@.take(i as int)));
    }
    assert(v@.take(v.len() as int) =~= v@);
    r
}

/// `str::to_ascii_uppercase` on a character vector.
pub fn upper_chars(v: &Vec<char>) -> (r: Vec<char>)
    ensures
        r@ == upper_seq(v@),
{
    let mut r: Vec<char> = Vec::new();
    let mut i: usize = 0;
    while i < v.len()
        invariant
            i <= v.len(),
            r@ == upper_seq(v@.take(i as int)),
        decreases v.len() - i,
    {
        let c = upper_char(v[i]);
        r.push(c);
        i = i + 1;
        assert(r@ =~= upper_seq(v@.take(i as int)));
    }
    assert(v@.take(v.len() as int) =~= v@);
    r
}

/// Whether two character vectors are equal.
pub fn chars_eq(a: &Vec<char>, b: &Vec<char>) -> (r: bool)
    ensures
        r == (a@ == b@),
{
    if a.len() != b.len() {
        return false;
    }
    let mut i: usize = 0;
    while i < a.len()
        invariant
            i <= a.len() == b.len(),
            a@.take(i as int) == b@.take(i as int),
        decreases a.len() - i,
    {
        if a[i] != b[i] {
            assert(a@[i as int] != b@[i as int]);
            return false;
        }
        assert(a@.take(i + 1) =~= a@.take(i as int).push(a@[i as int]));
        assert(b@.take(i + 1) =~= b@.take(i as int).push(b@[i as int]));
        i = i + 1;
    }
    assert(a@.take(a.len() as int) =~= a@);
    assert(b@.take(b.len() as int) =~= b@);
    true
}

/// Whether two strings hold the same characters.
pub fn str_eq(a: &str, b: &str) -> (r: bool)
    ensures
        r == (a@ == b@),
{
    let x = chars_of(a);
    let y = chars_of(b);
    chars_eq(&x, &y)
}

/// Lexicographic order is decided at the first position where the sequences differ.
proof fn lemma_seq_less_skip(a: Seq<char>, b: Seq<char>, i: int)
    requires
        0 <= i <= a.len(),
        i <= b.len(),
        a.take(i) == b.take(i),
    ensures
        seq_less(a, b) == seq_less(a.skip(i), b.skip(i)),
    decreases i,
{
    if i > 0 {
        assert(a[0] == a.take(i)[0]);
        assert(b[0] == b.take(i)[0]);
        assert(a.drop_first().take(i - 1) =~= a.take(i).drop_first());
        assert(b.drop_first().take(i - 1) =~= b.take(i).drop_first());
        lemma_seq_less_skip(a.drop_first(), b.drop_first(), i - 1);
        assert(a.drop_first().skip(i - 1) =~= a.skip(i));
        assert(b.drop_first().skip(i - 1) =~= b.skip(i));
    } else {
        assert(a.skip(0) =~= a);
        assert(b.skip(0) =~= b);
    }
}

/// Whether `a` comes before `b` in lexicographic order.
pub fn chars_less(a: &Vec<char>, b: &Vec<char>) -> (r: bool)
    ensures
        r == seq_less(a@, b@),
{
    let mut i: usize = 0;
    while i < a.len() && i < b.len()
        invariant
            i <= a.len(),
            i <= b.len(),
            a@.take(i as int) == b@.take(i as int),
        decreases a.len() - i,
    {
        if a[i] != b[i] {
            proof {
                lemma_seq_less_skip(a@, b@, i as int);
                assert(a@.skip(i as int)[0] == a@[i as int]);
                assert(b@.skip(i as int)[0] == b@[i as int]);
            }
            return a[i] < b[i];
        }
        assert(a@.take(i + 1) =~= a@.take(i as int).push(a@[i as int]));
        assert(b@.take(i + 1) =~= b@.take(i as int).push(b@[i as int]));
        i = i + 1;
    }
    proof {
        lemma_seq_less_skip(a@, b@, i as int);
    }
    i < b.len()
}

/// Whether `a` comes before `b` in the order of `Ord for str`.
pub fn str_less(a: &str, b: &str) -> (r: bool)
    ensures
        r == seq_less(a@, b@),
{
    let x = chars_of(a);
    let y = chars_of(b);
    chars_less(&x, &y)
}

/// The decimal digits of `n` (`n.to_string()`).
pub fn decimal_string(n: u128) -> (s: String)
    ensures
        s@ == decimal(n as nat),
    decreases n,
{
    if n < 10 {
        let mut s = String::new();
        let code: u32 = 48 + (n as u32);
        push_char(&mut s, char_from_ascii(code));
        assert(s@ =~= decimal(n as nat));
        s
    } else {
        let mut s = decimal_string(n / 10);
        let d: u32 = (n % 10) as u32;
        push_char(&mut s, char_from_ascii(48 + d));
        s
    }
}


/// No sequence comes before itself.
pub proof fn lemma_seq_less_irreflexive(a: Seq<char>)
    ensures
        !seq_less(a, a),
    decreases a.len(),
{
    if a.len() > 0 {
        lemma_seq_less_irreflexive(a.drop_first());
    }
}

/// Lexicographic order is a strict total order on distinct sequences.
pub proof fn lemma_seq_less_total(a: Seq<char>, b: Seq<char>)
    ensures
        seq_less(a, b) ==> !seq_less(b, a) && a != b,
        !seq_less(a, b) && a != b ==> seq_less(b, a),
    decreases a.len(),
{
    lemma_seq_less_irreflexive(a);
    if a.len() > 0 && b.len() > 0 {
        lemma_seq_less_total(a.drop_first(), b.drop_first());
        if a[0] == b[0] && a.drop_first() == b.drop_first() {
            assert forall|i: int| 0 <= i < a.len() implies a[i] == b[i] by {
                if i > 0 {
                    assert(a[i] == a.drop_first()[i - 1]);
                    assert(b[i] == b.drop_first()[i - 1]);
                }
            }
            assert(a =~= b);
        }
    } else if a.len() == 0 && b.len() == 0 {
        assert(a =~= b);
    }
}


/// Lexicographic order is transitive.
pub proof fn lemma_seq_less_transitive(a: Seq<char>, b: Seq<char>, c: Seq<char>)
    requires
        seq_less(a, b),
        seq_less(b, c),
    ensures
        seq_less(a, c),
    decreases a.len(),
{
    if a.len() > 0 && b.len() > 0 && c.len() > 0 && a[0] == b[0] && b[0] == c[0] {
        lemma_seq_less_transitive(a.drop_first(), b.drop_first(), c.drop_first());
    }
}


/// Whether the characters spell `word`.
pub fn spells(v: &Vec<char>, word: &str) -> (r: bool)
    ensures
        r == (v@ == word@),
{
    let w = chars_of(word);
    chars_eq(v, &w)
}

/// The decimal digit `d`.
pub fn digit_of(d: u128) -> (c: char)
    requires
        d < 10,
    ensures
        c == digit_char(d as nat),
{
    let code: u32 = 48 + (d as u32);
    char_from_ascii(code)
}

/// `str::trim_end`, on characters.
pub fn trim_end_chars(v: &Vec<char>) -> (r: Vec<char>)
    ensures
        r@ == trim_end(v@),
{
    let mut hi: usize = v.len();
    assert(v@.subrange(0, v.len() as int) =~= v@);
    while hi > 0 && whitespace(v[hi - 1])
        invariant
            hi <= v.len(),
            trim_end(v@) == trim_end(v@.subrange(0, hi as int)),
        decreases hi,
    {
        proof {
            lemma_trim_end_step(v@, hi as int);
            assert(v@.subrange(0, hi as int).subrange(0, hi - 1) =~= v@.subrange(0, hi - 1));
            assert(v@.subrange(0, hi as int).drop_last() =~= v@.subrange(0, hi - 1));
        }
        hi = hi - 1;
    }
    let ghost kept = v@.subrange(0, hi as int);
    assert(trim_end(kept) == kept) by {
        if kept.len() > 0 {
            assert(kept.last() == v@[hi - 1]);
        }
    }
    slice_chars(v, 0, hi)
}

} // verus!
