//! Character-level helpers shared by the parsers: searching for a separator,
//! reading decimal numbers, and splitting a text into lines.

use vstd::prelude::*;

verus! {

/// Position of the first occurrence of `c` in `s`, or `s.len()` when `c`
/// does not occur.
pub open spec fn first_index(s: Seq<char>, c: char) -> int
    decreases s.len(),
{
    if s.len() == 0 {
        0
    } else if s[0] == c {
        0
    } else {
        1 + first_index(s.drop_first(), c)
    }
}

/// `first_index` is characterised by: nothing before it is `c`, and it is
/// either the end or an occurrence of `c`.
pub proof fn lemma_first_index(s: Seq<char>, c: char, k: int)
    requires
        0 <= k <= s.len(),
        forall|j: int| 0 <= j < k ==> s[j] != c,
        k == s.len() || s[k] == c,
    ensures
        first_index(s, c) == k,
    decreases s.len(),
{
    if s.len() != 0 && k != 0 {
        let rest = s.drop_first();
        assert forall|j: int| 0 <= j < k - 1 implies rest[j] != c by {
            assert(rest[j] == s[j + 1]);
        }
        lemma_first_index(rest, c, k - 1);
    }
}

pub open spec fn is_digit(c: char) -> bool {
    '0' <= c && c <= '9'
}

pub open spec fn digit_value(c: char) -> nat {
    if is_digit(c) {
        (c as u32 - '0' as u32) as nat
    } else {
        0
    }
}

pub open spec fn all_digits(s: Seq<char>) -> bool {
    forall|i: int| 0 <= i < s.len() ==> is_digit(#[trigger] s[i])
}

/// The number that the digits of `s` write in base ten.
pub open spec fn decimal_value(s: Seq<char>) -> nat
    decreases s.len(),
{
    if s.len() == 0 {
        0
    } else {
        decimal_value(s.drop_last()) * 10 + digit_value(s.last())
    }
}

/// The number written by `s`, if `s` is a non-empty run of ASCII digits whose
/// value does not exceed `max`.
pub open spec fn number_of(s: Seq<char>, max: nat) -> Option<nat> {
    if s.len() > 0 && all_digits(s) && decimal_value(s) <= max {
        Some(decimal_value(s))
    } else {
        None
    }
}

/// A prefix never writes a larger number than the whole.
pub proof fn lemma_prefix_value(s: Seq<char>, k: int)
    requires
        0 <= k <= s.len(),
    ensures
        decimal_value(s.take(k)) <= decimal_value(s),
    decreases s.len() - k,
{
    if k == s.len() {
        assert(s.take(k) =~= s);
    } else {
        assert(s.drop_last().take(k) =~= s.take(k));
        lemma_prefix_value(s.drop_last(), k);
    }
}

/// The characters of `text`, in order.
pub fn to_chars(text: &str) -> (chars: Vec<char>)
    ensures
        chars@ == text@,
{
    broadcast use vstd::string::axiom_spec_iter;

    let mut chars: Vec<char> = Vec::new();
    for c in it: text.chars()
        invariant
            it.seq() == text@,
            chars@ =~= text@.subrange(0, it.index()),
    {
        chars.push(c);
    }
    assert(chars@ =~= text@);
    chars
}

/// Finds the first `c` in `chars[from..to]`; returns `to` when there is none.
pub fn find_char(chars: &Vec<char>, from: usize, to: usize, c: char) -> (k: usize)
    requires
        from <= to <= chars.len(),
    ensures
        from <= k <= to,
        k - from == first_index(chars@.subrange(from as int, to as int), c),
{
    let mut k: usize = from;
    while k < to && chars[k] != c
        invariant
            from <= k <= to <= chars.len(),
            forall|j: int| from <= j < k ==> chars@[j] != c,
        decreases to - k,
    {
        k += 1;
    }
    proof {
        lemma_first_index(chars@.subrange(from as int, to as int), c, k - from);
    }
    k
}

/// `needle` stands in `hay` at position `at`.
pub open spec fn occurs_at(hay: Seq<char>, needle: Seq<char>, at: int) -> bool {
    0 <= at && at + needle.len() <= hay.len() && hay.subrange(at, at + needle.len()) == needle
}

/// `needle` stands somewhere in `hay`.
pub open spec fn occurs_in(hay: Seq<char>, needle: Seq<char>) -> bool {
    exists|at: int| occurs_at(hay, needle, at)
}

/// Whether `needle` stands somewhere in `chars`.
pub fn contains_text(chars: &Vec<char>, needle: &Vec<char>) -> (found: bool)
    ensures
        found == occurs_in(chars@, needle@),
{
    let n: usize = chars.len();
    let m: usize = needle.len();
    if m > n {
        return false;
    }
    let mut at: usize = 0;
    while at <= n - m
        invariant
            m <= n,
            n == chars.len(),
            m == needle.len(),
            at <= n - m + 1,
            forall|k: int| 0 <= k < at ==> !occurs_at(chars@, needle@, k),
        decreases n - m + 1 - at,
    {
        let mut j: usize = 0;
        while j < m && chars[at + j] == needle[j]
            invariant
                j <= m,
                at + m <= n,
                n == chars.len(),
                m == needle.len(),
                forall|t: int| 0 <= t < j ==> chars@[at + t] == needle@[t],
            decreases m - j,
        {
            j += 1;
        }
        if j == m {
            proof {
                assert(chars@.subrange(at as int, at + m) =~= needle@);
                assert(occurs_at(chars@, needle@, at as int));
            }
            return true;
        }
        proof {
            assert(chars@.subrange(at as int, at + m)[j as int] == chars@[at + j]);
        }
        at += 1;
    }
    false
}

/// Reads `chars[from..to]` as a decimal number no larger than `max`. The
/// limit leaves room for one more digit in the arithmetic.
pub fn parse_number(chars: &Vec<char>, from: usize, to: usize, max: u32) -> (value: Option<u32>)
    requires
        from <= to <= chars.len(),
        max <= (u32::MAX - 9) / 10,
    ensures
        match value {
            Some(v) => number_of(chars@.subrange(from as int, to as int), max as nat) == Some(
                v as nat,
            ),
            None => number_of(chars@.subrange(from as int, to as int), max as nat) is None,
        },
{
    if from == to {
        return None;
    }
    let ghost whole = chars@.subrange(from as int, to as int);
    let mut value: u32 = 0;
    let mut i: usize = from;
    while i < to
        invariant
            from <= i <= to <= chars.len(),
            max <= (u32::MAX - 9) / 10,
            whole == chars@.subrange(from as int, to as int),
            all_digits(whole.take(i - from)),
            value == decimal_value(whole.take(i - from)),
            value <= max,
        decreases to - i,
    {
        let c: char = chars[i];
        proof {
            assert(whole[i - from] == c);
            assert(whole.take(i - from + 1).drop_last() =~= whole.take(i - from));
            assert(whole.take(i - from + 1).last() == c);
        }
        if !(c >= '0' && c <= '9') {
            return None;
        }
        let digit: u32 = c as u32 - '0' as u32;
        value = value * 10 + digit;
        if value > max {
            proof {
                lemma_prefix_value(whole, i - from + 1);
            }
            return None;
        }
        i += 1;
    }
    proof {
        assert(whole.take(to - from) =~= whole);
    }
    Some(value)
}

/// `line` without one trailing carriage return.
pub open spec fn without_carriage_return(line: Seq<char>) -> Seq<char> {
    if line.len() > 0 && line.last() == '\r' {
        line.drop_last()
    } else {
        line
    }
}

/// The lines of `text`. A line ends at a line feed; a carriage return just
/// before that line feed belongs to the line ending. The last line need not
/// be terminated, and an empty remainder after the last line feed is no line.
pub open spec fn lines_of(text: Seq<char>) -> Seq<Seq<char>>
    decreases text.len(),
{
    let k = first_index(text, '\n');
    if text.len() == 0 {
        Seq::empty()
    } else if k < 0 || k >= text.len() {
        seq![text]
    } else {
        seq![without_carriage_return(text.take(k))] + lines_of(text.skip(k + 1))
    }
}

/// The text of each string slice in `lines`.
pub open spec fn texts_of(lines: Seq<&str>) -> Seq<Seq<char>> {
    Seq::new(lines.len(), |i: int| lines[i]@)
}

/// Splits `text` into its lines.
pub fn split_lines<'a>(text: &'a str) -> (lines: Vec<&'a str>)
    ensures
        texts_of(lines@) == lines_of(text@),
{
    let chars = to_chars(text);
    let n: usize = chars.len();
    let mut lines: Vec<&'a str> = Vec::new();
    let mut start: usize = 0;
    proof {
        assert(text@.skip(0) =~= text@);
        assert(texts_of(lines@) + lines_of(text@) =~= lines_of(text@));
    }
    while start < n
        invariant
            start <= n,
            n == chars.len(),
            chars@ == text@,
            lines_of(text@) == texts_of(lines@) + lines_of(text@.skip(start as int)),
        decreases n - start,
    {
        let ghost rest = text@.skip(start as int);
        let ghost done = texts_of(lines@);
        let k: usize = find_char(&chars, start, n, '\n');
        assert(chars@.subrange(start as int, n as int) =~= rest);
        if k == n {
            let line = text.substring_char(start, n);
            lines.push(line);
            proof {
                assert(line@ =~= rest);
                assert(texts_of(lines@) =~= done + seq![rest]);
                assert(text@.skip(n as int).len() == 0);
            }
            start = n;
        } else {
            let end: usize = if k > start && chars[k - 1] == '\r' {
                k - 1
            } else {
                k
            };
            let line = text.substring_char(start, end);
            lines.push(line);
            proof {
                assert(rest.take(k - start) =~= text@.subrange(start as int, k as int));
                assert(line@ =~= without_carriage_return(rest.take(k - start)));
                assert(rest.skip(k - start + 1) =~= text@.skip(k + 1));
                assert(texts_of(lines@) =~= done + seq![line@]);
                assert(lines_of(rest) == seq![line@] + lines_of(text@.skip(k + 1)));
                assert(done + (seq![line@] + lines_of(text@.skip(k + 1))) =~= (done + seq![line@])
                    + lines_of(text@.skip(k + 1)));
            }
            start = k + 1;
        }
    }
    proof {
        assert(text@.skip(start as int).len() == 0);
        assert(texts_of(lines@) + Seq::<Seq<char>>::empty() =~= texts_of(lines@));
    }
    lines
}

} // verus!
