//! Searching, cutting and rewriting text. What each executable function
//! returns is stated over the characters of its arguments.

use vstd::prelude::*;
use vstd::std_specs::iter::IteratorSpec;
use vstd::string::*;

verus! {

/// The index of the first `c` in `s`, or `s.len()` when `s` holds none.
pub open spec fn first_index(s: Seq<char>, c: char) -> int
    decreases s.len(),
{
    if s.len() == 0 || s[0] == c {
        0
    } else {
        1 + first_index(s.skip(1), c)
    }
}

/// `pattern` stands in `s` at position `at`.
pub open spec fn occurs_at(s: Seq<char>, pattern: Seq<char>, at: int) -> bool {
    0 <= at && at + pattern.len() <= s.len() && s.subrange(at, at + pattern.len()) == pattern
}

/// `pattern` stands somewhere in `s`.
pub open spec fn contains_text(s: Seq<char>, pattern: Seq<char>) -> bool {
    exists|at: int| occurs_at(s, pattern, at)
}

/// `s` with every occurrence of `from` replaced by `to`, occurrences taken
/// from the left and not overlapping. An empty `from` occurs nowhere.
pub open spec fn replaced(s: Seq<char>, from: Seq<char>, to: Seq<char>) -> Seq<char>
    decreases s.len(),
{
    if from.len() == 0 || s.len() < from.len() {
        s
    } else if from.is_prefix_of(s) {
        to + replaced(s.skip(from.len() as int), from, to)
    } else {
        seq![s[0]] + replaced(s.skip(1), from, to)
    }
}

/// White space as Unicode's `White_Space` property has it.
pub open spec fn is_whitespace(c: char) -> bool {
    ||| '\u{9}' <= c <= '\u{d}'
    ||| c == ' '
    ||| c == '\u{85}'
    ||| c == '\u{a0}'
    ||| c == '\u{1680}'
    ||| '\u{2000}' <= c <= '\u{200a}'
    ||| c == '\u{2028}'
    ||| c == '\u{2029}'
    ||| c == '\u{202f}'
    ||| c == '\u{205f}'
    ||| c == '\u{3000}'
}

/// `s` without its leading white space.
pub open spec fn trimmed_start(s: Seq<char>) -> Seq<char>
    decreases s.len(),
{
    if s.len() > 0 && is_whitespace(s[0]) {
        trimmed_start(s.skip(1))
    } else {
        s
    }
}

/// `s` without its trailing white space.
pub open spec fn trimmed_end(s: Seq<char>) -> Seq<char>
    decreases s.len(),
{
    if s.len() > 0 && is_whitespace(s.last()) {
        trimmed_end(s.drop_last())
    } else {
        s
    }
}

/// `s` without the white space at either end.
pub open spec fn trimmed(s: Seq<char>) -> Seq<char> {
    trimmed_end(trimmed_start(s))
}

/// The character for a decimal digit.
pub open spec fn digit(d: int) -> char {
    if d == 0 {
        '0'
    } else if d == 1 {
        '1'
    } else if d == 2 {
        '2'
    } else if d == 3 {
        '3'
    } else if d == 4 {
        '4'
    } else if d == 5 {
        '5'
    } else if d == 6 {
        '6'
    } else if d == 7 {
        '7'
    } else if d == 8 {
        '8'
    } else {
        '9'
    }
}

/// `n` in decimal, without leading zeros.
pub open spec fn decimal(n: nat) -> Seq<char>
    decreases n,
{
    if n < 10 {
        seq![digit(n as int)]
    } else {
        decimal(n / 10).push(digit((n % 10) as int))
    }
}

/// What `first_index` finds: a position in range, with no `c` before it,
/// and `c` at it unless `s` holds none.
pub proof fn lemma_first_index(s: Seq<char>, c: char)
    ensures
        0 <= first_index(s, c) <= s.len(),
        forall|i: int| 0 <= i < first_index(s, c) ==> s[i] != c,
        first_index(s, c) < s.len() ==> s[first_index(s, c)] == c,
    decreases s.len(),
{
    if s.len() == 0 || s[0] == c {
    } else {
        let rest = s.skip(1);
        lemma_first_index(rest, c);
        assert forall|i: int| 0 <= i < first_index(s, c) implies s[i] != c by {
            if i > 0 {
                assert(rest[i - 1] == s[i]);
            }
        }
        let n = first_index(rest, c);
        if n < rest.len() {
            assert(rest[n] == s[n + 1]);
        }
    }
}

/// A position with no `c` before it, and `c` at it unless it is the end,
/// is the one that `first_index` finds.
pub proof fn lemma_first_index_is(s: Seq<char>, c: char, at: int)
    requires
        0 <= at <= s.len(),
        forall|i: int| 0 <= i < at ==> s[i] != c,
        at < s.len() ==> s[at] == c,
    ensures
        first_index(s, c) == at,
{
    lemma_first_index(s, c);
}

/// The characters of `s`, for indexing.
pub fn to_chars(s: &str) -> (v: Vec<char>)
    ensures
        v@ == s@,
{
    broadcast use vstd::string::group_string_axioms;
    let mut v: Vec<char> = Vec::new();
    for c in it: s.chars()
        invariant
            it.seq() == s@,
            v@ == it.seq().take(it.index()),
    {
        v.push(c);
    }
    v
}

/// Whether `s` begins with `prefix`.
pub fn starts_with(s: &str, prefix: &str) -> (r: bool)
    ensures
        r == prefix@.is_prefix_of(s@),
{
    broadcast use vstd::string::group_string_axioms;
    let mut rest = s.chars();
    let ghost mut k: int = 0;
    for c in it: prefix.chars()
        invariant
            it.seq() == prefix@,
            k == it.index(),
            k <= s@.len(),
            rest.remaining() == s@.skip(k),
            s@.take(k) == prefix@.take(k),
    {
        match rest.next() {
            None => {
                return false;
            },
            Some(d) => {
                assert(d == s@.skip(k)[0]);
                if c != d {
                    proof {
                        if prefix@.len() <= s@.len() {
                            assert(s@.subrange(0, prefix@.len() as int)[k] == s@[k]);
                        }
                    }
                    return false;
                }
                proof {
                    assert(s@.take(k + 1) =~= s@.take(k).push(s@[k]));
                    assert(prefix@.take(k + 1) =~= prefix@.take(k).push(prefix@[k]));
                    assert(s@.skip(k).drop_first() =~= s@.skip(k + 1));
                    k = k + 1;
                }
            },
        }
    }
    assert(prefix@.take(k) =~= prefix@);
    true
}

/// The position of the first `c` in `s`, counted in characters, or the
/// number of characters of `s` when it holds none.
pub fn find_char(s: &[char], c: char) -> (at: usize)
    ensures
        at == first_index(s@, c),
        at <= s@.len(),
        at < s@.len() ==> s@[at as int] == c,
{
    let mut at: usize = 0;
    while at < s.len() && s[at] != c
        invariant
            0 <= at <= s.len(),
            forall|i: int| 0 <= i < at ==> s@[i] != c,
        decreases s.len() - at,
    {
        at += 1;
    }
    proof {
        lemma_first_index_is(s@, c, at as int);
    }
    at
}

/// Whether `pattern` stands in `s` at position `at`.
pub fn matches_at(s: &[char], pattern: &[char], at: usize) -> (r: bool)
    ensures
        r == occurs_at(s@, pattern@, at as int),
{
    if pattern.len() > s.len() || at > s.len() - pattern.len() {
        return false;
    }
    let mut k: usize = 0;
    while k < pattern.len()
        invariant
            0 <= k <= pattern.len(),
            at + pattern.len() <= s.len(),
            s@.subrange(at as int, at + k) == pattern@.take(k as int),
        decreases pattern.len() - k,
    {
        if s[at + k] != pattern[k] {
            assert(s@.subrange(at as int, at + pattern.len())[k as int] == s@[at + k]);
            return false;
        }
        proof {
            assert(s@.subrange(at as int, at + k + 1) =~= s@.subrange(at as int, at + k).push(
                s@[at + k],
            ));
            assert(pattern@.take(k + 1) =~= pattern@.take(k as int).push(pattern@[k as int]));
        }
        k += 1;
    }
    assert(pattern@.take(k as int) =~= pattern@);
    true
}

/// Whether `pattern` stands somewhere in `s`.
pub fn contains(s: &[char], pattern: &[char]) -> (r: bool)
    ensures
        r == contains_text(s@, pattern@),
{
    if pattern.len() > s.len() {
        return false;
    }
    if pattern.len() == 0 {
        assert(s@.subrange(0, 0) =~= pattern@);
        assert(occurs_at(s@, pattern@, 0));
        return true;
    }
    let last: usize = s.len() - pattern.len();
    let mut at: usize = 0;
    while at <= last
        invariant
            0 <= at <= last + 1,
            last == s.len() - pattern.len(),
            last < s.len(),
            forall|i: int| 0 <= i < at ==> !occurs_at(s@, pattern@, i),
        decreases last + 1 - at,
    {
        if matches_at(s, pattern, at) {
            return true;
        }
        at += 1;
    }
    false
}

/// `s` with every occurrence of `from` replaced by `to`. An empty `from`
/// occurs nowhere.
pub fn replace_all(s: &str, from: &str, to: &str) -> (r: String)
    ensures
        r@ == replaced(s@, from@, to@),
{
    let chars = to_chars(s);
    let pattern = to_chars(from);
    let n = chars.len();
    let m = pattern.len();
    let mut out = String::new();
    if m == 0 || m > n {
        out.append(s);
        assert(out@ =~= s@);
        return out;
    }
    let mut run: usize = 0;
    let mut at: usize = 0;
    proof {
        assert(s@.skip(0) =~= s@);
        assert(out@ + s@.subrange(0, 0) + s@ =~= s@);
        assert(out@ + s@.subrange(0, 0) =~= Seq::<char>::empty());
    }
    while at <= n - m
        invariant
            chars@ == s@,
            pattern@ == from@,
            n == s@.len(),
            m == from@.len(),
            0 < m <= n,
            run <= at <= n,
            replaced(s@, from@, to@) == out@ + s@.subrange(run as int, at as int) + replaced(
                s@.skip(at as int),
                from@,
                to@,
            ),
        decreases n - at,
    {
        let ghost tail = s@.skip(at as int);
        assert(tail.subrange(0, m as int) =~= s@.subrange(at as int, at + m));
        if matches_at(chars.as_slice(), pattern.as_slice(), at) {
            out.append(s.substring_char(run, at));
            out.append(to);
            proof {
                assert(from@.is_prefix_of(tail));
                assert(tail.skip(m as int) =~= s@.skip(at + m));
                assert(s@.subrange(at + m, at + m) =~= Seq::<char>::empty());
            }
            at += m;
            run = at;
        } else {
            proof {
                assert(!from@.is_prefix_of(tail));
                assert(tail.skip(1) =~= s@.skip(at + 1));
                assert(s@.subrange(run as int, at + 1) =~= s@.subrange(run as int, at as int)
                    + seq![s@[at as int]]);
            }
            at += 1;
        }
    }
    out.append(s.substring_char(run, n));
    proof {
        assert(s@.subrange(run as int, at as int) + s@.skip(at as int) =~= s@.subrange(
            run as int,
            n as int,
        ));
    }
    out
}

/// Whether `c` is white space.
pub fn is_whitespace_char(c: char) -> (r: bool)
    ensures
        r == is_whitespace(c),
{
    ('\u{9}' <= c && c <= '\u{d}') || c == ' ' || c == '\u{85}' || c == '\u{a0}' || c == '\u{1680}'
        || ('\u{2000}' <= c && c <= '\u{200a}') || c == '\u{2028}' || c == '\u{2029}' || c
        == '\u{202f}' || c == '\u{205f}' || c == '\u{3000}'
}

/// `s` without the white space at either end.
pub fn trim(s: &str) -> (r: &str)
    ensures
        r@ == trimmed(s@),
{
    let chars = to_chars(s);
    let mut start: usize = 0;
    assert(s@.skip(0) =~= s@);
    while start < chars.len() && is_whitespace_char(chars[start])
        invariant
            chars@ == s@,
            0 <= start <= chars.len(),
            trimmed_start(s@) == trimmed_start(s@.skip(start as int)),
        decreases chars.len() - start,
    {
        assert(s@.skip(start as int).skip(1) =~= s@.skip(start + 1));
        start += 1;
    }
    assert(trimmed_start(s@) == s@.skip(start as int));
    let mut end: usize = chars.len();
    while end > start && is_whitespace_char(chars[end - 1])
        invariant
            chars@ == s@,
            start <= end <= chars.len(),
            trimmed(s@) == trimmed_end(s@.subrange(start as int, end as int)),
        decreases end,
    {
        assert(s@.subrange(start as int, end as int).drop_last() =~= s@.subrange(
            start as int,
            end - 1,
        ));
        end -= 1;
    }
    s.substring_char(start, end)
}

/// The one-character text of a decimal digit.
fn digit_text(d: u64) -> (r: &'static str)
    requires
        d < 10,
    ensures
        r@ == seq![digit(d as int)],
{
    proof {
        reveal_strlit("0");
        reveal_strlit("1");
        reveal_strlit("2");
        reveal_strlit("3");
        reveal_strlit("4");
        reveal_strlit("5");
        reveal_strlit("6");
        reveal_strlit("7");
        reveal_strlit("8");
        reveal_strlit("9");
    }
    let r = if d == 0 {
        "0"
    } else if d == 1 {
        "1"
    } else if d == 2 {
        "2"
    } else if d == 3 {
        "3"
    } else if d == 4 {
        "4"
    } else if d == 5 {
        "5"
    } else if d == 6 {
        "6"
    } else if d == 7 {
        "7"
    } else if d == 8 {
        "8"
    } else {
        "9"
    };
    assert(r@ =~= seq![digit(d as int)]);
    r
}

/// Appends `n` in decimal to `out`.
pub fn push_decimal(out: &mut String, n: u64)
    ensures
        final(out)@ == old(out)@ + decimal(n as nat),
    decreases n,
{
    if n < 10 {
        out.append(digit_text(n));
    } else {
        push_decimal(out, n / 10);
        out.append(digit_text(n % 10));
        assert(out@ =~= old(out)@ + decimal(n as nat));
    }
}

} // verus!
