//! Character-level text helpers shared by the widgets: views of strings as
//! character sequences, non-overlapping search and replacement, decimal
//! rendering and parsing of integers, and Unicode whitespace.
use vstd::prelude::*;

verus! {

broadcast use vstd::string::group_string_axioms;

// ---------------------------------------------------------------------------
// Conversions between strings and character vectors
// ---------------------------------------------------------------------------

/// The characters of `s`, in order.
pub fn chars_of(s: &str) -> (r: Vec<char>)
    ensures
        r@ == s@,
{
    let mut r: Vec<char> = Vec::new();
    for c in it: s.chars()
        invariant
            r@ == it.seq().take(it.index() as int),
    {
        r.push(c);
    }
    r
}

/// Collects characters into a `String` (std's `FromIterator<&char>` for
/// `String`); the string holds exactly those characters in order.
#[verifier::external_body]
pub fn string_of(v: &Vec<char>) -> (s: String)
    ensures
        s@ == v@,
{
    v.iter().collect()
}

/// Appends all characters of `src` to `dst`.
pub fn append_chars(dst: &mut Vec<char>, src: &Vec<char>)
    ensures
        final(dst)@ == old(dst)@ + src@,
{
    let mut i: usize = 0;
    while i < src.len()
        invariant
            i <= src.len(),
            dst@ == old(dst)@ + src@.take(i as int),
        decreases src.len() - i,
    {
        dst.push(src[i]);
        i = i + 1;
        assert(src@.take(i as int) == src@.take(i - 1) + seq![src@[i - 1]]);
    }
    assert(src@.take(i as int) == src@);
}

// ---------------------------------------------------------------------------
// Searching and replacing
// ---------------------------------------------------------------------------

/// `s` begins with `p`.
pub open spec fn starts_with(s: Seq<char>, p: Seq<char>) -> bool {
    p.len() <= s.len() && s.take(p.len() as int) == p
}

/// `p` occurs somewhere in `s`.
pub open spec fn contains(s: Seq<char>, p: Seq<char>) -> bool {
    exists|i: int| 0 <= i <= s.len() && #[trigger] starts_with(s.skip(i), p)
}

/// `s` with every non-overlapping occurrence of `from`, found from left to
/// right, replaced by `to`. An empty `from` leaves `s` as it is.
pub open spec fn replaced(s: Seq<char>, from: Seq<char>, to: Seq<char>) -> Seq<char>
    decreases s.len(),
{
    if from.len() == 0 || s.len() == 0 {
        s
    } else if starts_with(s, from) {
        to + replaced(s.skip(from.len() as int), from, to)
    } else {
        seq![s[0]] + replaced(s.skip(1), from, to)
    }
}

/// The number of non-overlapping occurrences of `p` in `s`, found from left
/// to right; zero for an empty `p`.
pub open spec fn occurrences(s: Seq<char>, p: Seq<char>) -> nat
    decreases s.len(),
{
    if p.len() == 0 || s.len() == 0 {
        0
    } else if starts_with(s, p) {
        1 + occurrences(s.skip(p.len() as int), p)
    } else {
        occurrences(s.skip(1), p)
    }
}

/// Whether `p` occurs in `s` at position `i`.
pub fn matches_at(s: &Vec<char>, i: usize, p: &Vec<char>) -> (r: bool)
    requires
        i <= s.len(),
    ensures
        r == starts_with(s@.skip(i as int), p@),
{
    if p.len() > s.len() - i {
        return false;
    }
    let mut k: usize = 0;
    while k < p.len()
        invariant
            i + p.len() <= s.len(),
            k <= p.len(),
            forall|j: int| 0 <= j < k ==> s@[i + j] == p@[j],
        decreases p.len() - k,
    {
        if s[i + k] != p[k] {
            assert(s@.skip(i as int).take(p.len() as int)[k as int] != p@[k as int]);
            return false;
        }
        k = k + 1;
    }
    assert(s@.skip(i as int).take(p.len() as int) =~= p@);
    true
}

/// Skipping `a` and then `b` characters skips `a + b`.
pub proof fn lemma_skip_skip(s: Seq<char>, a: int, b: int)
    requires
        0 <= a,
        0 <= b,
        a + b <= s.len(),
    ensures
        s.skip(a).skip(b) == s.skip(a + b),
{
    assert(s.skip(a).skip(b) =~= s.skip(a + b));
}

/// `s` with every occurrence of `from` replaced by `to`, as `replaced`
/// describes.
pub fn replace_chars(s: &Vec<char>, from: &Vec<char>, to: &Vec<char>) -> (r: Vec<char>)
    ensures
        r@ == replaced(s@, from@, to@),
{
    if from.len() == 0 {
        return s.clone();
    }
    let mut out: Vec<char> = Vec::new();
    let mut i: usize = 0;
    assert(s@.skip(0) =~= s@);
    while i < s.len()
        invariant
            from.len() > 0,
            i <= s.len(),
            out@ + replaced(s@.skip(i as int), from@, to@) == replaced(s@, from@, to@),
        decreases s.len() - i,
    {
        let ghost rest = s@.skip(i as int);
        if matches_at(s, i, from) {
            append_chars(&mut out, to);
            proof {
                lemma_skip_skip(s@, i as int, from.len() as int);
                assert(out@ + replaced(s@.skip(i + from.len()), from@, to@) =~= replaced(s@, from@, to@));
            }
            i = i + from.len();
        } else {
            out.push(s[i]);
            proof {
                lemma_skip_skip(s@, i as int, 1);
                assert(rest[0] == s@[i as int]);
                assert(out@ + replaced(s@.skip(i + 1), from@, to@) =~= replaced(s@, from@, to@));
            }
            i = i + 1;
        }
    }
    assert(out@ + replaced(s@.skip(i as int), from@, to@) =~= out@);
    out
}

/// The number of non-overlapping occurrences of `p` in `s`.
pub fn count_chars(s: &Vec<char>, p: &Vec<char>) -> (r: usize)
    ensures
        r == occurrences(s@, p@),
{
    if p.len() == 0 {
        return 0;
    }
    let mut n: usize = 0;
    let mut i: usize = 0;
    assert(s@.skip(0) =~= s@);
    while i < s.len()
        invariant
            p.len() > 0,
            i <= s.len(),
            n <= i,
            n + occurrences(s@.skip(i as int), p@) == occurrences(s@, p@),
        decreases s.len() - i,
    {
        if matches_at(s, i, p) {
            proof {
                lemma_skip_skip(s@, i as int, p.len() as int);
            }
            n = n + 1;
            i = i + p.len();
        } else {
            proof {
                lemma_skip_skip(s@, i as int, 1);
            }
            i = i + 1;
        }
    }
    n
}

/// Replacing a pattern that does not occur leaves the text unchanged.
pub proof fn lemma_replaced_absent(s: Seq<char>, from: Seq<char>, to: Seq<char>)
    requires
        !contains(s, from),
    ensures
        replaced(s, from, to) == s,
    decreases s.len(),
{
    if from.len() == 0 || s.len() == 0 {
    } else {
        assert(s.skip(0) =~= s);
        assert(!starts_with(s.skip(0), from));
        assert(!contains(s.skip(1), from)) by {
            if contains(s.skip(1), from) {
                let i = choose|i: int| 0 <= i <= s.skip(1).len() && #[trigger] starts_with(s.skip(1).skip(i), from);
                lemma_skip_skip(s, 1, i);
                assert(starts_with(s.skip(1 + i), from));
            }
        }
        lemma_replaced_absent(s.skip(1), from, to);
        assert(seq![s[0]] + s.skip(1) =~= s);
    }
}

// ---------------------------------------------------------------------------
// Decimal numbers
// ---------------------------------------------------------------------------

/// The ASCII digit for `d` (0 to 9).
pub open spec fn digit_char(d: int) -> char {
    if d == 0 { '0' }
    else if d == 1 { '1' }
    else if d == 2 { '2' }
    else if d == 3 { '3' }
    else if d == 4 { '4' }
    else if d == 5 { '5' }
    else if d == 6 { '6' }
    else if d == 7 { '7' }
    else if d == 8 { '8' }
    else { '9' }
}

/// The value of an ASCII digit, or `None` for any other character.
pub open spec fn digit_value(c: char) -> Option<nat> {
    if c == '0' { Some(0) }
    else if c == '1' { Some(1) }
    else if c == '2' { Some(2) }
    else if c == '3' { Some(3) }
    else if c == '4' { Some(4) }
    else if c == '5' { Some(5) }
    else if c == '6' { Some(6) }
    else if c == '7' { Some(7) }
    else if c == '8' { Some(8) }
    else if c == '9' { Some(9) }
    else { None }
}

/// The shortest decimal writing of `n`, without sign or leading zeros.
pub open spec fn decimal(n: nat) -> Seq<char>
    decreases n,
{
    if n < 10 {
        seq![digit_char(n as int)]
    } else {
        decimal(n / 10).push(digit_char((n % 10) as int))
    }
}

fn digit_of(d: u64) -> (c: char)
    requires
        d < 10,
    ensures
        c == digit_char(d as int),
{
    if d == 0 { '0' }
    else if d == 1 { '1' }
    else if d == 2 { '2' }
    else if d == 3 { '3' }
    else if d == 4 { '4' }
    else if d == 5 { '5' }
    else if d == 6 { '6' }
    else if d == 7 { '7' }
    else if d == 8 { '8' }
    else { '9' }
}

/// `n` written in decimal, as `to_string` writes it.
pub fn decimal_chars(n: u64) -> (r: Vec<char>)
    ensures
        r@ == decimal(n as nat),
    decreases n,
{
    if n < 10 {
        let mut r: Vec<char> = Vec::new();
        r.push(digit_of(n));
        r
    } else {
        let mut r = decimal_chars(n / 10);
        r.push(digit_of(n % 10));
        r
    }
}

/// All characters of `s` are ASCII digits.
pub open spec fn all_digits(s: Seq<char>) -> bool {
    forall|i: int| 0 <= i < s.len() ==> (#[trigger] digit_value(s[i])) is Some
}

/// The number that the digits `s` write in decimal.
pub open spec fn digits_value(s: Seq<char>) -> nat
    decreases s.len(),
{
    if s.len() == 0 {
        0
    } else {
        digits_value(s.drop_last()) * 10 + match digit_value(s.last()) {
            Some(d) => d,
            None => 0,
        }
    }
}

/// What std's `u64::from_str` gives for `s`: an optional `+` followed by at
/// least one ASCII digit, whose value fits in a `u64`.
pub open spec fn parsed_u64(s: Seq<char>) -> Option<u64> {
    let d = if s.len() > 1 && s[0] == '+' { s.skip(1) } else { s };
    if d.len() > 0 && all_digits(d) && digits_value(d) <= u64::MAX {
        Some(digits_value(d) as u64)
    } else {
        None
    }
}

fn value_of_digit(c: char) -> (r: Option<u64>)
    ensures
        match digit_value(c) {
            Some(d) => r == Some(d as u64),
            None => r is None,
        },
{
    if c == '0' { Some(0) }
    else if c == '1' { Some(1) }
    else if c == '2' { Some(2) }
    else if c == '3' { Some(3) }
    else if c == '4' { Some(4) }
    else if c == '5' { Some(5) }
    else if c == '6' { Some(6) }
    else if c == '7' { Some(7) }
    else if c == '8' { Some(8) }
    else if c == '9' { Some(9) }
    else { None }
}

proof fn lemma_digits_value_prefix(s: Seq<char>, i: int)
    requires
        0 <= i <= s.len(),
    ensures
        digits_value(s.take(i)) <= digits_value(s),
    decreases s.len(),
{
    if i < s.len() {
        assert(s.drop_last().take(i) =~= s.take(i));
        lemma_digits_value_prefix(s.drop_last(), i);
    } else {
        assert(s.take(i) =~= s);
    }
}

/// Parses `s` as std's `u64::from_str` does.
pub fn parse_u64(s: &Vec<char>) -> (r: Option<u64>)
    ensures
        r == parsed_u64(s@),
{
    let start: usize = if s.len() > 1 && s[0] == '+' { 1 } else { 0 };
    let ghost d = if s@.len() > 1 && s@[0] == '+' { s@.skip(1) } else { s@ };
    assert(d =~= s@.skip(start as int));
    if start >= s.len() {
        return None;
    }
    let mut acc: u64 = 0;
    let mut i: usize = start;
    assert(d.take(0) =~= Seq::<char>::empty());
    while i < s.len()
        invariant
            start <= i <= s.len(),
            start == (if s@.len() > 1 && s@[0] == '+' { 1int } else { 0int }),
            d == s@.skip(start as int),
            d == (if s@.len() > 1 && s@[0] == '+' { s@.skip(1) } else { s@ }),
            all_digits(d.take(i - start)),
            acc as nat == digits_value(d.take(i - start)),
        decreases s.len() - i,
    {
        let ghost k = (i - start) as int;
        assert(d[k] == s@[i as int]);
        match value_of_digit(s[i]) {
            None => {
                assert(digit_value(d[k]) is None);
                assert(!all_digits(d));
                return None;
            },
            Some(v) => {
                assert(d.take(k + 1).drop_last() =~= d.take(k));
                assert(d.take(k + 1).last() == d[k]);
                if acc > (u64::MAX - v) / 10 {
                    proof {
                        assert(acc * 10 + v > u64::MAX) by (nonlinear_arith)
                            requires acc > (u64::MAX - v) / 10, v < 10;
                        assert(digit_value(d.take(k + 1).last()) == Some(v as nat));
                        assert(digits_value(d.take(k + 1)) == digits_value(d.take(k)) * 10 + v);
                        lemma_digits_value_prefix(d, k + 1);
                        assert(digits_value(d) > u64::MAX);
                    }
                    return None;
                }
                assert(acc * 10 + v <= u64::MAX) by (nonlinear_arith)
                    requires acc <= (u64::MAX - v) / 10, v < 10;
                acc = acc * 10 + v;
                i = i + 1;
                assert forall|j: int| 0 <= j < d.take(k + 1).len() implies (#[trigger] digit_value(d.take(k + 1)[j])) is Some by {
                    if j < k {
                        assert(d.take(k + 1)[j] == d.take(k)[j]);
                    }
                }
            },
        }
    }
    assert(d.take(i - start) =~= d);
    Some(acc)
}

// ---------------------------------------------------------------------------
// Whitespace
// ---------------------------------------------------------------------------

/// Unicode White_Space, the set that `char::is_whitespace` tests.
pub open spec fn is_space(c: char) -> bool {
    ||| ('\u{9}' <= c && c <= '\u{d}')
    ||| c == ' '
    ||| c == '\u{85}'
    ||| c == '\u{a0}'
    ||| c == '\u{1680}'
    ||| ('\u{2000}' <= c && c <= '\u{200a}')
    ||| c == '\u{2028}'
    ||| c == '\u{2029}'
    ||| c == '\u{202f}'
    ||| c == '\u{205f}'
    ||| c == '\u{3000}'
}

/// Whether `c` is Unicode whitespace.
pub fn is_space_char(c: char) -> (r: bool)
    ensures
        r == is_space(c),
{
    ('\u{9}' <= c && c <= '\u{d}') || c == ' ' || c == '\u{85}' || c == '\u{a0}'
        || c == '\u{1680}' || ('\u{2000}' <= c && c <= '\u{200a}') || c == '\u{2028}'
        || c == '\u{2029}' || c == '\u{202f}' || c == '\u{205f}' || c == '\u{3000}'
}

} // verus!

verus! {

/// Whether `a` and `b` hold the same characters.
pub fn str_eq(a: &str, b: &str) -> (r: bool)
    ensures
        r == (a@ == b@),
{
    let x = chars_of(a);
    let y = chars_of(b);
    if x.len() != y.len() {
        return false;
    }
    let mut i: usize = 0;
    while i < x.len()
        invariant
            x@ == a@,
            y@ == b@,
            x.len() == y.len(),
            i <= x.len(),
            forall|j: int| 0 <= j < i ==> x@[j] == y@[j],
        decreases x.len() - i,
    {
        if x[i] != y[i] {
            assert(x@[i as int] != y@[i as int]);
            return false;
        }
        i = i + 1;
    }
    assert(x@ =~= y@);
    true
}

} // verus!

verus! {

// ---------------------------------------------------------------------------
// Lines and words
// ---------------------------------------------------------------------------

/// The text before the first `'\n'` of `s` (all of `s` when it has none).
pub open spec fn first_line(s: Seq<char>) -> Seq<char>
    decreases s.len(),
{
    if s.len() == 0 || s[0] == '\n' {
        Seq::empty()
    } else {
        seq![s[0]] + first_line(s.skip(1))
    }
}

/// The words of `s` after the unfinished word `cur`: the maximal runs of
/// characters that are not whitespace, in order.
pub open spec fn words_after(s: Seq<char>, cur: Seq<char>) -> Seq<Seq<char>>
    decreases s.len(),
{
    if s.len() == 0 {
        if cur.len() > 0 { seq![cur] } else { Seq::empty() }
    } else if is_space(s[0]) {
        (if cur.len() > 0 { seq![cur] } else { Seq::empty() }) + words_after(s.skip(1), Seq::empty())
    } else {
        words_after(s.skip(1), cur.push(s[0]))
    }
}

/// The words of `s`, as `str::split_whitespace` yields them.
pub open spec fn words(s: Seq<char>) -> Seq<Seq<char>> {
    words_after(s, Seq::empty())
}

/// The text of `s` up to its first line break.
pub fn first_line_chars(s: &Vec<char>) -> (r: Vec<char>)
    ensures
        r@ == first_line(s@),
{
    let mut r: Vec<char> = Vec::new();
    let mut i: usize = 0;
    assert(s@.skip(0) =~= s@);
    while i < s.len() && s[i] != '\n'
        invariant
            i <= s.len(),
            r@ + first_line(s@.skip(i as int)) == first_line(s@),
        decreases s.len() - i,
    {
        r.push(s[i]);
        proof {
            lemma_skip_skip(s@, i as int, 1);
        }
        assert(r@ + first_line(s@.skip(i + 1)) =~= first_line(s@));
        i = i + 1;
    }
    assert(r@ + first_line(s@.skip(i as int)) =~= r@);
    r
}

/// The words of `s`.
pub fn split_words(s: &Vec<char>) -> (r: Vec<Vec<char>>)
    ensures
        r@.map_values(|w: Vec<char>| w@) == words(s@),
{
    let mut out: Vec<Vec<char>> = Vec::new();
    let mut cur: Vec<char> = Vec::new();
    let mut i: usize = 0;
    assert(s@.skip(0) =~= s@);
    assert(out@.map_values(|w: Vec<char>| w@) =~= Seq::<Seq<char>>::empty());
    while i < s.len()
        invariant
            i <= s.len(),
            out@.map_values(|w: Vec<char>| w@) + words_after(s@.skip(i as int), cur@) == words(s@),
        decreases s.len() - i,
    {
        let ghost before = out@.map_values(|w: Vec<char>| w@);
        proof {
            lemma_skip_skip(s@, i as int, 1);
        }
        if is_space_char(s[i]) {
            if cur.len() > 0 {
                out.push(cur);
                assert(out@.map_values(|w: Vec<char>| w@) =~= before + seq![cur@]);
            }
            cur = Vec::new();
        } else {
            cur.push(s[i]);
        }
        i = i + 1;
    }
    if cur.len() > 0 {
        let ghost before = out@.map_values(|w: Vec<char>| w@);
        out.push(cur);
        assert(out@.map_values(|w: Vec<char>| w@) =~= before + seq![cur@]);
    }
    assert(out@.map_values(|w: Vec<char>| w@) =~= words(s@));
    out
}

} // verus!

verus! {

/// `a` followed by `b`.
pub fn concat(a: &str, b: &str) -> (r: String)
    ensures
        r@ == a@ + b@,
{
    let mut v = chars_of(a);
    append_chars(&mut v, &chars_of(b));
    string_of(&v)
}

} // verus!

verus! {

/// A pattern whose first character does not occur in `s` does not occur in
/// `s` at all.
pub proof fn lemma_absent_first_char(s: Seq<char>, p: Seq<char>)
    requires
        p.len() > 0,
        forall|i: int| 0 <= i < s.len() ==> s[i] != p[0],
    ensures
        !contains(s, p),
        occurrences(s, p) == 0,
    decreases s.len(),
{
    assert forall|i: int| 0 <= i <= s.len() implies !#[trigger] starts_with(s.skip(i), p) by {
        if starts_with(s.skip(i), p) {
            assert(s.skip(i).take(p.len() as int)[0] == s[i]);
        }
    }
    if s.len() > 0 {
        assert(s.skip(0) =~= s);
        lemma_absent_first_char(s.skip(1), p);
    }
}

} // verus!

verus! {

// ---------------------------------------------------------------------------
// Tokens in braces
// ---------------------------------------------------------------------------

/// `t` is a token: `{`, then characters that are no braces, then `}`.
pub open spec fn is_token(t: Seq<char>) -> bool {
    &&& t.len() >= 2
    &&& t[0] == '{'
    &&& t[t.len() - 1] == '}'
    &&& forall|i: int| 1 <= i < t.len() - 1 ==> #[trigger] t[i] != '{' && t[i] != '}'
}

/// `s` holds no `{`.
pub open spec fn brace_free(s: Seq<char>) -> bool {
    forall|i: int| 0 <= i < s.len() ==> #[trigger] s[i] != '{'
}

/// A token does not occur inside another, different token.
pub proof fn lemma_token_not_inside(s: Seq<char>, p: Seq<char>)
    requires
        is_token(s),
        is_token(p),
        s != p,
    ensures
        !contains(s, p),
{
    if contains(s, p) {
        let i = choose|i: int| 0 <= i <= s.len() && #[trigger] starts_with(s.skip(i), p);
        assert(s.skip(i).take(p.len() as int)[0] == p[0]);
        assert(s[i] == '{');
        assert(i == 0);
        assert(s.take(p.len() as int)[p.len() - 1] == '}');
        assert(s[p.len() - 1] == '}');
        assert(p.len() == s.len());
        assert(s.take(p.len() as int) =~= s);
        assert(false);
    }
}

/// A token does not occur in a text without `{`, and replacing it there
/// changes nothing.
pub proof fn lemma_token_absent(s: Seq<char>, p: Seq<char>, v: Seq<char>)
    requires
        brace_free(s),
        is_token(p),
    ensures
        !contains(s, p),
        replaced(s, p, v) == s,
{
    lemma_absent_first_char(s, p);
    lemma_replaced_absent(s, p, v);
}

/// Replacing a whole text by its own pattern gives the replacement.
pub proof fn lemma_replaced_whole(p: Seq<char>, v: Seq<char>)
    requires
        p.len() > 0,
    ensures
        replaced(p, p, v) == v,
{
    assert(p.take(p.len() as int) =~= p);
    assert(p.skip(p.len() as int) =~= Seq::<char>::empty());
    assert(starts_with(p, p));
    assert(replaced(p.skip(p.len() as int), p, v) == p.skip(p.len() as int));
    assert(replaced(p, p, v) == v + replaced(p.skip(p.len() as int), p, v));
    assert(v + Seq::<char>::empty() =~= v);
}

/// Decimal numbers hold no `{`.
pub proof fn lemma_decimal_brace_free(n: nat)
    ensures
        brace_free(decimal(n)),
    decreases n,
{
    if n >= 10 {
        lemma_decimal_brace_free(n / 10);
        assert forall|i: int| 0 <= i < decimal(n).len() implies #[trigger] decimal(n)[i] != '{' by {
            if i < decimal(n / 10).len() {
                assert(decimal(n)[i] == decimal(n / 10)[i]);
            }
        }
    }
}

} // verus!

verus! {

/// `t` with the pattern of each pair replaced by its text, one pair after
/// the other, each over the whole result of the one before.
pub open spec fn replaced_in_turn(t: Seq<char>, pairs: Seq<(Seq<char>, Seq<char>)>) -> Seq<char>
    decreases pairs.len(),
{
    if pairs.len() == 0 {
        t
    } else {
        replaced_in_turn(replaced(t, pairs[0].0, pairs[0].1), pairs.skip(1))
    }
}

/// The patterns are distinct tokens and the texts hold no `{`.
pub open spec fn tokens_and_plain_values(pairs: Seq<(Seq<char>, Seq<char>)>) -> bool {
    &&& forall|i: int| 0 <= i < pairs.len() ==> is_token(#[trigger] pairs[i].0)
    &&& forall|i: int| 0 <= i < pairs.len() ==> brace_free(#[trigger] pairs[i].1)
    &&& forall|i: int, j: int|
        0 <= i < pairs.len() && 0 <= j < pairs.len() && i != j ==> #[trigger] pairs[i].0
            != #[trigger] pairs[j].0
}

proof fn lemma_in_turn_plain(s: Seq<char>, pairs: Seq<(Seq<char>, Seq<char>)>)
    requires
        brace_free(s),
        forall|i: int| 0 <= i < pairs.len() ==> is_token(#[trigger] pairs[i].0),
    ensures
        replaced_in_turn(s, pairs) == s,
    decreases pairs.len(),
{
    if pairs.len() > 0 {
        lemma_token_absent(s, pairs[0].0, pairs[0].1);
        assert forall|i: int| 0 <= i < pairs.skip(1).len() implies is_token(#[trigger] pairs.skip(1)[i].0) by {
            assert(pairs.skip(1)[i] == pairs[i + 1]);
        }
        lemma_in_turn_plain(s, pairs.skip(1));
    }
}

/// Replacing distinct tokens in turn by texts without `{` fills a template
/// that is one of the tokens with that token's own text.
pub proof fn lemma_token_in_turn(pairs: Seq<(Seq<char>, Seq<char>)>, k: int)
    requires
        tokens_and_plain_values(pairs),
        0 <= k < pairs.len(),
    ensures
        replaced_in_turn(pairs[k].0, pairs) == pairs[k].1,
    decreases pairs.len(),
{
    let rest = pairs.skip(1);
    assert forall|i: int| 0 <= i < rest.len() implies is_token(#[trigger] rest[i].0) by {
        assert(rest[i] == pairs[i + 1]);
    }
    if k == 0 {
        lemma_replaced_whole(pairs[0].0, pairs[0].1);
        lemma_in_turn_plain(pairs[0].1, rest);
    } else {
        assert(is_token(pairs[0].0));
        assert(pairs[k].0 != pairs[0].0);
        lemma_token_not_inside(pairs[k].0, pairs[0].0);
        lemma_replaced_absent(pairs[k].0, pairs[0].0, pairs[0].1);
        assert(rest[k - 1] == pairs[k]);
        assert forall|i: int| 0 <= i < rest.len() implies brace_free(#[trigger] rest[i].1) by {
            assert(rest[i] == pairs[i + 1]);
        }
        assert forall|i: int, j: int|
            0 <= i < rest.len() && 0 <= j < rest.len() && i != j implies #[trigger] rest[i].0
                != #[trigger] rest[j].0 by {
            assert(rest[i] == pairs[i + 1]);
            assert(rest[j] == pairs[j + 1]);
        }
        lemma_token_in_turn(rest, k - 1);
    }
}

} // verus!
