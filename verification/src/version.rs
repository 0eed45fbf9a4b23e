//! Package version comparison.
//!
//! A version is split into tokens: maximal runs of ASCII digits become
//! numbers, maximal runs of ASCII letters become lower-case words, and every
//! other character separates tokens.  Versions compare token by token;
//! numbers sort after words, and trailing zero tokens do not count.

use std::cmp::Ordering;

use vstd::prelude::*;

use crate::text::{
    ascii_alnum, ascii_digit, digit_char, is_ascii_alnum, is_ascii_digit, lower_char, lower_seq,
    seq_less, string_of, chars_less, chars_of, lemma_seq_less_irreflexive, lemma_seq_less_total,
};

verus! {

/// One token of a version.
#[derive(Debug, PartialEq, Eq)]
pub enum VersionToken {
    Number(u128),
    Text(String),
}

/// The model of a [`VersionToken`].
pub enum TokenModel {
    Number(u128),
    Text(Seq<char>),
}

impl View for VersionToken {
    type V = TokenModel;

    open spec fn view(&self) -> TokenModel {
        match self {
            VersionToken::Number(n) => TokenModel::Number(*n),
            VersionToken::Text(t) => TokenModel::Text(t@),
        }
    }
}

impl DeepView for VersionToken {
    type V = TokenModel;

    open spec fn deep_view(&self) -> TokenModel {
        self@
    }
}

/// The outcome of comparing two versions.
#[derive(Debug, Clone, Copy, PartialEq, Eq, Structural)]
pub enum VersionOrdering {
    Less,
    Equal,
    Greater,
}

/// The value of a run of decimal digits.
pub open spec fn digits_value(s: Seq<char>) -> nat
    decreases s.len(),
{
    if s.len() == 0 {
        0
    } else {
        digits_value(s.drop_last()) * 10 + ((s.last() as u32) - ('0' as u32)) as nat
    }
}

/// The value of a run of digits, or `u128::MAX` where it does not fit.
pub open spec fn saturated_value(s: Seq<char>) -> u128 {
    if digits_value(s) <= u128::MAX {
        digits_value(s) as u128
    } else {
        u128::MAX
    }
}

/// The maximal runs of ASCII letters and of ASCII digits in `s`, in order.
pub open spec fn version_runs(s: Seq<char>) -> Seq<Seq<char>>
    decreases s.len(),
{
    if s.len() == 0 {
        Seq::empty()
    } else {
        let prev = version_runs(s.drop_last());
        let c = s.last();
        if !is_ascii_alnum(c) {
            prev
        } else if continues_run(s) {
            prev.drop_last().push(prev.last().push(c))
        } else {
            prev.push(seq![c])
        }
    }
}

/// Whether the last character of `s` extends the run before it.
pub open spec fn continues_run(s: Seq<char>) -> bool {
    &&& s.len() >= 2
    &&& is_ascii_alnum(s[s.len() - 2])
    &&& is_ascii_digit(s[s.len() - 2]) == is_ascii_digit(s.last())
}

/// The token that one run stands for.
pub open spec fn run_token(run: Seq<char>) -> TokenModel {
    if run.len() > 0 && is_ascii_digit(run[0]) {
        TokenModel::Number(saturated_value(run))
    } else {
        TokenModel::Text(lower_seq(run))
    }
}

/// The tokens of a version.
pub open spec fn version_tokens(s: Seq<char>) -> Seq<TokenModel> {
    Seq::new(version_runs(s).len(), |i: int| run_token(version_runs(s)[i]))
}

/// Whether a token does not count at the end of a version.
pub open spec fn token_is_zero(t: TokenModel) -> bool {
    match t {
        TokenModel::Number(n) => n == 0,
        TokenModel::Text(t) => t.len() == 0,
    }
}

/// The order of two tokens.
pub open spec fn token_order(a: TokenModel, b: TokenModel) -> VersionOrdering {
    match (a, b) {
        (TokenModel::Number(x), TokenModel::Number(y)) => if x < y {
            VersionOrdering::Less
        } else if x == y {
            VersionOrdering::Equal
        } else {
            VersionOrdering::Greater
        },
        (TokenModel::Text(x), TokenModel::Text(y)) => if seq_less(x, y) {
            VersionOrdering::Less
        } else if x == y {
            VersionOrdering::Equal
        } else {
            VersionOrdering::Greater
        },
        (TokenModel::Number(_), TokenModel::Text(_)) => VersionOrdering::Greater,
        (TokenModel::Text(_), TokenModel::Number(_)) => VersionOrdering::Less,
    }
}

/// The order of two token sequences: the first differing token decides;
/// where one sequence ends, the rest of the other decides by its first
/// token that is not zero.
pub open spec fn tokens_order(l: Seq<TokenModel>, r: Seq<TokenModel>) -> VersionOrdering
    decreases l.len() + r.len(),
{
    if l.len() == 0 && r.len() == 0 {
        VersionOrdering::Equal
    } else if l.len() == 0 {
        if token_is_zero(r[0]) {
            tokens_order(l, r.drop_first())
        } else {
            VersionOrdering::Less
        }
    } else if r.len() == 0 {
        if token_is_zero(l[0]) {
            tokens_order(l.drop_first(), r)
        } else {
            VersionOrdering::Greater
        }
    } else {
        match token_order(l[0], r[0]) {
            VersionOrdering::Equal => tokens_order(l.drop_first(), r.drop_first()),
            other => other,
        }
    }
}

/// The order of two versions.
pub open spec fn version_order(left: Seq<char>, right: Seq<char>) -> VersionOrdering {
    tokens_order(version_tokens(left), version_tokens(right))
}

/// The value of a run of digits, saturating at `u128::MAX`.
fn parse_digits(digits: &Vec<char>) -> (r: u128)
    requires
        forall|i: int| 0 <= i < digits@.len() ==> is_ascii_digit(#[trigger] digits@[i]),
    ensures
        r == saturated_value(digits@),
{
    let mut value: u128 = 0;
    let mut overflow = false;
    let mut i: usize = 0;
    while i < digits.len()
        invariant
            i <= digits.len(),
            forall|k: int| 0 <= k < digits@.len() ==> is_ascii_digit(#[trigger] digits@[k]),
            !overflow ==> value == digits_value(digits@.take(i as int)),
            overflow ==> digits_value(digits@.take(i as int)) > u128::MAX,
        decreases digits.len() - i,
    {
        let c = digits[i];
        let d: u32 = (c as u32) - ('0' as u32);
        assert(digits@.take(i + 1).drop_last() =~= digits@.take(i as int));
        assert(digits@.take(i + 1).last() == c);
        if !overflow {
            match value.checked_mul(10) {
                Some(m) => match m.checked_add(d as u128) {
                    Some(n) => {
                        value = n;
                    },
                    None => {
                        overflow = true;
                    },
                },
                None => {
                    overflow = true;
                },
            }
        }
        i = i + 1;
    }
    assert(digits@.take(digits.len() as int) =~= digits@);
    if overflow {
        u128::MAX
    } else {
        value
    }
}

/// A run is non-empty and all of one class.
pub open spec fn is_run(run: Seq<char>) -> bool {
    &&& run.len() > 0
    &&& forall|i: int| 0 <= i < run.len() ==> is_ascii_alnum(#[trigger] run[i])
    &&& forall|i: int| 0 <= i < run.len() ==> is_ascii_digit(#[trigger] run[i]) == is_ascii_digit(
        run[0],
    )
}

/// Every run of a version is a run, and the last one ends with the last
/// character of the version whenever that character is a letter or digit.
proof fn lemma_runs_shape(s: Seq<char>)
    ensures
        forall|i: int| 0 <= i < version_runs(s).len() ==> is_run(#[trigger] version_runs(s)[i]),
        s.len() > 0 && is_ascii_alnum(s.last()) ==> version_runs(s).len() > 0
            && version_runs(s).last().last() == s.last(),
    decreases s.len(),
{
    if s.len() > 0 {
        let p = s.drop_last();
        lemma_runs_shape(p);
        let prev = version_runs(p);
        let c = s.last();
        if is_ascii_alnum(c) && continues_run(s) {
            assert(p.last() == s[s.len() - 2]);
            let run = prev.last().push(c);
            let runs = version_runs(s);
            assert(runs == prev.drop_last().push(run));
            assert(is_run(prev.last()));
            assert(is_ascii_digit(prev.last().last()) == is_ascii_digit(prev.last()[0]));
            assert(is_run(run)) by {
                assert forall|i: int| 0 <= i < run.len() implies is_ascii_digit(#[trigger] run[i])
                    == is_ascii_digit(run[0]) by {
                    if i < run.len() - 1 {
                        assert(run[i] == prev.last()[i]);
                    }
                }
            }
            assert forall|i: int| 0 <= i < runs.len() implies is_run(#[trigger] runs[i]) by {
                if i < runs.len() - 1 {
                    assert(runs[i] == prev[i]);
                }
            }
        } else if is_ascii_alnum(c) {
            let runs = version_runs(s);
            assert(runs == prev.push(seq![c]));
            assert forall|i: int| 0 <= i < runs.len() implies is_run(#[trigger] runs[i]) by {
                if i < runs.len() - 1 {
                    assert(runs[i] == prev[i]);
                }
            }
        }
    }
}

/// The tokens of a version end with the token of its last run.
proof fn lemma_tokens_last(s: Seq<char>)
    requires
        version_runs(s).len() > 0,
    ensures
        version_tokens(s) == version_tokens(s).drop_last().push(run_token(version_runs(s).last())),
{
    assert(version_tokens(s) =~= version_tokens(s).drop_last().push(
        run_token(version_runs(s).last()),
    ));
}

/// The token of a completed run.
fn run_to_token(run: &Vec<char>, is_digit: bool) -> (t: VersionToken)
    requires
        is_run(run@),
        is_digit == is_ascii_digit(run@[0]),
    ensures
        t@ == run_token(run@),
{
    if is_digit {
        VersionToken::Number(parse_digits(run))
    } else {
        let mut lowered: Vec<char> = Vec::new();
        let mut i: usize = 0;
        while i < run.len()
            invariant
                i <= run.len(),
                lowered@ == lower_seq(run@.take(i as int)),
            decreases run.len() - i,
        {
            lowered.push(lower_char(run[i]));
            i = i + 1;
            assert(lowered@ =~= lower_seq(run@.take(i as int)));
        }
        assert(run@.take(run.len() as int) =~= run@);
        VersionToken::Text(string_of(&lowered))
    }
}

/// Ends the run being read: where it holds a character, its token joins
/// `tokens`; the run starts over empty.
pub fn flush_version_token(tokens: &mut Vec<VersionToken>, current: &mut Vec<char>, current_is_digit: bool)
    requires
        old(current)@.len() > 0 ==> is_run(old(current)@) && current_is_digit == is_ascii_digit(
            old(current)@[0],
        ),
    ensures
        final(current)@.len() == 0,
        final(tokens).deep_view() == (if old(current)@.len() > 0 {
            old(tokens).deep_view().push(run_token(old(current)@))
        } else {
            old(tokens).deep_view()
        }),
{
    if current.len() > 0 {
        let t = run_to_token(current, current_is_digit);
        let ghost before = tokens.deep_view();
        tokens.push(t);
        assert(tokens.deep_view() =~= before.push(t@));
        *current = Vec::new();
    }
}

/// The tokens of a version.
pub fn tokenize_version(version: &str) -> (tokens: Vec<VersionToken>)
    ensures
        tokens.deep_view() == version_tokens(version@),
{
    let chars = chars_of(version);
    let mut tokens: Vec<VersionToken> = Vec::new();
    let mut current: Vec<char> = Vec::new();
    let mut current_is_digit = false;
    let mut i: usize = 0;
    while i < chars.len()
        invariant
            i <= chars.len(),
            chars@ == version@,
            current@.len() > 0 <==> (i > 0 && is_ascii_alnum(chars@[i - 1])),
            current@.len() > 0 ==> current@ == version_runs(chars@.take(i as int)).last()
                && current_is_digit == is_ascii_digit(chars@[i - 1]),
            current@.len() > 0 ==> tokens.deep_view() == version_tokens(
                chars@.take(i as int),
            ).drop_last(),
            current@.len() == 0 ==> tokens.deep_view() == version_tokens(chars@.take(i as int)),
        decreases chars.len() - i,
    {
        let c = chars[i];
        let ghost prefix = chars@.take(i as int);
        let ghost next = chars@.take(i + 1);
        assert(next.drop_last() =~= prefix);
        assert(next.last() == c);
        proof {
            lemma_runs_shape(prefix);
            lemma_runs_shape(next);
        }
        if !ascii_alnum(c) {
            if current.len() > 0 {
                proof {
                    assert(prefix.last() == chars@[i - 1]);
                    lemma_tokens_last(prefix);
                }
                flush_version_token(&mut tokens, &mut current, current_is_digit);
                assert(version_runs(next) == version_runs(prefix));
                assert(tokens.deep_view() =~= version_tokens(next));
            } else {
                assert(tokens.deep_view() =~= version_tokens(next));
            }
        } else {
            let is_digit = ascii_digit(c);
            if current.len() > 0 && current_is_digit != is_digit {
                proof {
                    assert(prefix.last() == chars@[i - 1]);
                    lemma_tokens_last(prefix);
                }
                flush_version_token(&mut tokens, &mut current, current_is_digit);
                assert(tokens.deep_view() =~= version_tokens(prefix));
            }
            if current.len() > 0 {
                assert(prefix.last() == chars@[i - 1]);
                assert(continues_run(next));
            } else {
                assert(!continues_run(next));
            }
            current.push(c);
            current_is_digit = is_digit;
            assert(current@ == version_runs(next).last());
            assert(tokens.deep_view() =~= version_tokens(next).drop_last());
        }
        i = i + 1;
    }
    assert(chars@.take(chars.len() as int) =~= chars@);
    if current.len() > 0 {
        proof {
            lemma_runs_shape(chars@);
        }
        proof {
            lemma_tokens_last(chars@);
        }
        flush_version_token(&mut tokens, &mut current, current_is_digit);
        assert(tokens.deep_view() =~= version_tokens(chars@));
    }
    tokens
}


impl VersionToken {
    /// Whether this token does not count at the end of a version: the
    /// number 0 or empty text.
    pub fn is_zero(&self) -> (r: bool)
        ensures
            r == token_is_zero(self@),
    {
        match self {
            VersionToken::Number(n) => *n == 0,
            VersionToken::Text(s) => s.as_str().is_empty(),
        }
    }
}

/// The order of two tokens.
fn compare_tokens(a: &VersionToken, b: &VersionToken) -> (r: VersionOrdering)
    ensures
        r == token_order(a@, b@),
{
    match (a, b) {
        (VersionToken::Number(x), VersionToken::Number(y)) => {
            if *x < *y {
                VersionOrdering::Less
            } else if *x == *y {
                VersionOrdering::Equal
            } else {
                VersionOrdering::Greater
            }
        },
        (VersionToken::Text(x), VersionToken::Text(y)) => {
            let xs = chars_of(x.as_str());
            let ys = chars_of(y.as_str());
            if chars_less(&xs, &ys) {
                VersionOrdering::Less
            } else if *x == *y {
                VersionOrdering::Equal
            } else {
                VersionOrdering::Greater
            }
        },
        (VersionToken::Number(_), VersionToken::Text(_)) => VersionOrdering::Greater,
        (VersionToken::Text(_), VersionToken::Number(_)) => VersionOrdering::Less,
    }
}

/// The order of two token sequences.
fn compare_token_seqs(left: &Vec<VersionToken>, right: &Vec<VersionToken>) -> (r: VersionOrdering)
    ensures
        r == tokens_order(left.deep_view(), right.deep_view()),
{
    let ghost l = left.deep_view();
    let ghost rr = right.deep_view();
    let mut i: usize = 0;
    assert(l.skip(0) =~= l);
    assert(rr.skip(0) =~= rr);
    while i < left.len() && i < right.len()
        invariant
            i <= left.len(),
            i <= right.len(),
            l == left.deep_view(),
            rr == right.deep_view(),
            tokens_order(l, rr) == tokens_order(l.skip(i as int), rr.skip(i as int)),
        decreases left.len() - i,
    {
        let o = compare_tokens(&left[i], &right[i]);
        assert(l.skip(i as int)[0] == l[i as int]);
        assert(rr.skip(i as int)[0] == rr[i as int]);
        assert(l.skip(i as int).drop_first() =~= l.skip(i + 1));
        assert(rr.skip(i as int).drop_first() =~= rr.skip(i + 1));
        match o {
            VersionOrdering::Equal => {},
            _ => {
                return o;
            },
        }
        i = i + 1;
    }
    if i < left.len() {
        let mut j = i;
        assert(rr.skip(i as int).len() == 0);
        while j < left.len()
            invariant
                i <= j <= left.len(),
                l == left.deep_view(),
                rr == right.deep_view(),
                rr.skip(i as int).len() == 0,
                tokens_order(l, rr) == tokens_order(l.skip(j as int), rr.skip(i as int)),
            decreases left.len() - j,
        {
            assert(l.skip(j as int)[0] == l[j as int]);
            assert(l.skip(j as int).drop_first() =~= l.skip(j + 1));
            assert(l[j as int] == left@[j as int]@);
            if !left[j].is_zero() {
                assert(!token_is_zero(l.skip(j as int)[0]));
                return VersionOrdering::Greater;
            }
            j = j + 1;
        }
        assert(l.skip(j as int).len() == 0);
        VersionOrdering::Equal
    } else {
        let mut j = i;
        assert(l.skip(i as int).len() == 0);
        while j < right.len()
            invariant
                i <= j <= right.len(),
                l == left.deep_view(),
                rr == right.deep_view(),
                l.skip(i as int).len() == 0,
                tokens_order(l, rr) == tokens_order(l.skip(i as int), rr.skip(j as int)),
            decreases right.len() - j,
        {
            assert(rr.skip(j as int)[0] == rr[j as int]);
            assert(rr.skip(j as int).drop_first() =~= rr.skip(j + 1));
            assert(rr[j as int] == right@[j as int]@);
            if !right[j].is_zero() {
                assert(!token_is_zero(rr.skip(j as int)[0]));
                return VersionOrdering::Less;
            }
            j = j + 1;
        }
        assert(rr.skip(j as int).len() == 0);
        VersionOrdering::Equal
    }
}

/// The order of two versions.
pub fn compare_versions(left: &str, right: &str) -> (r: VersionOrdering)
    ensures
        r == version_order(left@, right@),
{
    let l = tokenize_version(left);
    let r = tokenize_version(right);
    compare_token_seqs(&l, &r)
}


/// The standard-library ordering that a version ordering stands for.
pub open spec fn ordering_of(o: VersionOrdering) -> Ordering {
    match o {
        VersionOrdering::Less => Ordering::Less,
        VersionOrdering::Equal => Ordering::Equal,
        VersionOrdering::Greater => Ordering::Greater,
    }
}

/// Compares two package versions (see the module documentation).
pub fn version_cmp(left: &str, right: &str) -> (r: Ordering)
    ensures
        r == ordering_of(version_order(left@, right@)),
{
    match compare_versions(left, right) {
        VersionOrdering::Less => Ordering::Less,
        VersionOrdering::Equal => Ordering::Equal,
        VersionOrdering::Greater => Ordering::Greater,
    }
}

/// The reverse of an ordering.
pub open spec fn reversed(o: VersionOrdering) -> VersionOrdering {
    match o {
        VersionOrdering::Less => VersionOrdering::Greater,
        VersionOrdering::Equal => VersionOrdering::Equal,
        VersionOrdering::Greater => VersionOrdering::Less,
    }
}

proof fn lemma_token_order_reversed(a: TokenModel, b: TokenModel)
    ensures
        token_order(b, a) == reversed(token_order(a, b)),
        token_order(a, a) == VersionOrdering::Equal,
{
    lemma_seq_less_strict(a, b);
    lemma_seq_less_strict(a, a);
}

proof fn lemma_seq_less_strict(a: TokenModel, b: TokenModel)
    ensures
        (a, b) matches (TokenModel::Text(x), TokenModel::Text(y)) ==> {
            &&& !seq_less(x, x)
            &&& seq_less(x, y) ==> !seq_less(y, x) && x != y
            &&& !seq_less(x, y) && x != y ==> seq_less(y, x)
        },
{
    if let (TokenModel::Text(x), TokenModel::Text(y)) = (a, b) {
        lemma_seq_less_irreflexive(x);
        lemma_seq_less_total(x, y);
    }
}

/// Comparing two token sequences the other way round reverses the outcome.
proof fn lemma_tokens_order_reversed(l: Seq<TokenModel>, r: Seq<TokenModel>)
    ensures
        tokens_order(r, l) == reversed(tokens_order(l, r)),
    decreases l.len() + r.len(),
{
    if l.len() == 0 && r.len() == 0 {
    } else if l.len() == 0 {
        if token_is_zero(r[0]) {
            lemma_tokens_order_reversed(l, r.drop_first());
        }
    } else if r.len() == 0 {
        if token_is_zero(l[0]) {
            lemma_tokens_order_reversed(l.drop_first(), r);
        }
    } else {
        lemma_token_order_reversed(l[0], r[0]);
        lemma_tokens_order_reversed(l.drop_first(), r.drop_first());
    }
}

/// A token sequence is equal to itself.
proof fn lemma_tokens_order_reflexive(l: Seq<TokenModel>)
    ensures
        tokens_order(l, l) == VersionOrdering::Equal,
    decreases l.len(),
{
    if l.len() > 0 {
        lemma_token_order_reversed(l[0], l[0]);
        lemma_tokens_order_reflexive(l.drop_first());
    }
}

/// Every version compares equal to itself.
pub proof fn version_order_reflexive(v: Seq<char>)
    ensures
        version_order(v, v) == VersionOrdering::Equal,
{
    lemma_tokens_order_reflexive(version_tokens(v));
}

/// Swapping the two versions reverses the outcome of the comparison:
/// `a < b` exactly when `b > a`, and equality is symmetric.
pub proof fn version_order_antisymmetric(a: Seq<char>, b: Seq<char>)
    ensures
        version_order(b, a) == reversed(version_order(a, b)),
{
    lemma_tokens_order_reversed(version_tokens(a), version_tokens(b));
}

/// Two letter tokens compare by their text: distinct texts never compare
/// equal, and one is less exactly when it sorts first.
pub proof fn letter_tokens_order_by_text(x: Seq<char>, y: Seq<char>)
    ensures
        x != y ==> token_order(TokenModel::Text(x), TokenModel::Text(y)) != VersionOrdering::Equal,
        token_order(TokenModel::Text(x), TokenModel::Text(y)) == VersionOrdering::Less <==> seq_less(
            x,
            y,
        ),
        x == y ==> token_order(TokenModel::Text(x), TokenModel::Text(y)) == VersionOrdering::Equal,
{
    lemma_seq_less_irreflexive(x);
    lemma_seq_less_total(x, y);
}

/// Versions that agree token by token up to a last letter token are ordered
/// by that letter: `1.1.1k` comes before `1.1.1l`.
pub proof fn versions_differing_in_last_letter(prefix: Seq<TokenModel>, x: Seq<char>, y: Seq<char>)
    requires
        seq_less(x, y),
    ensures
        tokens_order(prefix.push(TokenModel::Text(x)), prefix.push(TokenModel::Text(y)))
            == VersionOrdering::Less,
        tokens_order(prefix.push(TokenModel::Text(y)), prefix.push(TokenModel::Text(x)))
            == VersionOrdering::Greater,
    decreases prefix.len(),
{
    letter_tokens_order_by_text(x, y);
    letter_tokens_order_by_text(y, x);
    let l = prefix.push(TokenModel::Text(x));
    let r = prefix.push(TokenModel::Text(y));
    if prefix.len() > 0 {
        lemma_token_order_reversed(prefix[0], prefix[0]);
        versions_differing_in_last_letter(prefix.drop_first(), x, y);
        assert(l.drop_first() =~= prefix.drop_first().push(TokenModel::Text(x)));
        assert(r.drop_first() =~= prefix.drop_first().push(TokenModel::Text(y)));
        assert(l[0] == prefix[0] && r[0] == prefix[0]);
    } else {
        assert(l.drop_first().len() == 0 && r.drop_first().len() == 0);
        assert(l[0] == TokenModel::Text(x) && r[0] == TokenModel::Text(y));
    }
    lemma_tokens_order_reversed(l, r);
}

} // verus!
