//! Whitespace and lines in text.

use vstd::prelude::*;
use vstd::std_specs::iter::IteratorSpec;
use vstd::string::*;

verus! {

/// `c` is white space: a character with the Unicode property `White_Space`.
pub open spec fn is_space(c: char) -> bool {
    ||| '\u{9}' <= c <= '\u{d}'
    ||| c == ' '
    ||| c == '\u{85}'
    ||| c == '\u{a0}'
    ||| c == '\u{1680}'
    ||| '\u{2000}' <= c <= '\u{200a}'
    ||| c == '\u{2028}'
    ||| c == '\u{2029}'
    ||| c == '\u{202f}'
    ||| c == '\u{205f}'
    ||| c == '\u{3000}'
}

/// Whether `c` is white space.
pub fn is_space_char(c: char) -> (r: bool)
    ensures
        r == is_space(c),
{
    ('\u{9}' <= c && c <= '\u{d}') || c == ' ' || c == '\u{85}' || c == '\u{a0}' || c
        == '\u{1680}' || ('\u{2000}' <= c && c <= '\u{200a}') || c == '\u{2028}' || c
        == '\u{2029}' || c == '\u{202f}' || c == '\u{205f}' || c == '\u{3000}'
}

/// The number of white-space characters at the start of `s`.
pub open spec fn leading_space(s: Seq<char>) -> nat
    decreases s.len(),
{
    if s.len() > 0 && is_space(s[0]) {
        1 + leading_space(s.drop_first())
    } else {
        0
    }
}

/// The number of white-space characters at the end of `s`.
pub open spec fn trailing_space(s: Seq<char>) -> nat
    decreases s.len(),
{
    if s.len() > 0 && is_space(s.last()) {
        1 + trailing_space(s.drop_last())
    } else {
        0
    }
}

/// `s` without the white space at its start and at its end.
pub open spec fn trimmed(s: Seq<char>) -> Seq<char> {
    if leading_space(s) == s.len() {
        Seq::empty()
    } else {
        s.subrange(leading_space(s) as int, s.len() - trailing_space(s))
    }
}

/// The white space at the start of a text ends at its first character that
/// is no white space.
pub proof fn lemma_leading_space(s: Seq<char>)
    ensures
        leading_space(s) <= s.len(),
        leading_space(s) < s.len() ==> !is_space(s[leading_space(s) as int]),
        forall|i: int| 0 <= i < leading_space(s) ==> is_space(#[trigger] s[i]),
    decreases s.len(),
{
    if s.len() > 0 && is_space(s[0]) {
        let rest = s.drop_first();
        lemma_leading_space(rest);
        assert forall|i: int| 0 <= i < leading_space(s) implies is_space(#[trigger] s[i]) by {
            if i > 0 {
                assert(s[i] == rest[i - 1]);
            }
        }
    }
}

/// The white space at the end of a text begins behind every character that
/// is no white space.
pub proof fn lemma_trailing_space(s: Seq<char>, j: int)
    requires
        0 <= j < s.len(),
        !is_space(s[j]),
    ensures
        trailing_space(s) <= s.len() - 1 - j,
    decreases s.len(),
{
    if is_space(s.last()) {
        lemma_trailing_space(s.drop_last(), j);
    }
}

/// What is left of a text that is not all white space, once the white space
/// at both ends is gone, is not empty.
pub proof fn lemma_space_bounds(s: Seq<char>)
    ensures
        leading_space(s) <= s.len(),
        leading_space(s) < s.len() ==> leading_space(s) + trailing_space(s) < s.len(),
{
    lemma_leading_space(s);
    if leading_space(s) < s.len() {
        lemma_trailing_space(s, leading_space(s) as int);
    }
}

/// Counts the white-space characters at the start of `s`.
pub fn count_leading_space(s: &str) -> (n: usize)
    ensures
        n == leading_space(s@),
{
    let total = s.unicode_len();
    let mut it = s.chars();
    let mut n: usize = 0;
    loop
        invariant
            it.obeys_prophetic_iter_laws(),
            total == s@.len(),
            n + it.remaining().len() == total,
            it.remaining() == s@.subrange(n as int, s@.len() as int),
            leading_space(s@) == n + leading_space(it.remaining()),
        decreases total - n,
    {
        match it.next() {
            Some(c) => {
                if !is_space_char(c) {
                    return n;
                }
                n = n + 1;
            },
            None => {
                return n;
            },
        }
    }
}

/// Counts the white-space characters at the end of `s`.
pub fn count_trailing_space(s: &str) -> (n: usize)
    ensures
        n == trailing_space(s@),
{
    let total = s.unicode_len();
    let mut it = s.chars();
    let mut seen: usize = 0;
    let mut n: usize = 0;
    loop
        invariant
            it.obeys_prophetic_iter_laws(),
            total == s@.len(),
            seen + it.remaining().len() == total,
            it.remaining() == s@.subrange(seen as int, s@.len() as int),
            n <= seen,
            n == trailing_space(s@.subrange(0, seen as int)),
        decreases total - seen,
    {
        match it.next() {
            Some(c) => {
                let ghost before = s@.subrange(0, seen as int);
                let ghost after = s@.subrange(0, seen + 1);
                assert(after.last() == c);
                assert(after.drop_last() =~= before);
                if is_space_char(c) {
                    n = n + 1;
                } else {
                    n = 0;
                }
                seen = seen + 1;
            },
            None => {
                assert(s@.subrange(0, seen as int) =~= s@);
                return n;
            },
        }
    }
}

/// A copy of `s` without the white space at its start and at its end.
pub fn trim(s: &str) -> (r: String)
    ensures
        r@ == trimmed(s@),
{
    let total = s.unicode_len();
    let lead = count_leading_space(s);
    proof {
        lemma_space_bounds(s@);
    }
    if lead == total {
        String::new()
    } else {
        let trail = count_trailing_space(s);
        String::from_str(s.substring_char(lead, total - trail))
    }
}

/// The line is a comment: behind leading white space stands `#` or `//`.
pub open spec fn is_comment(line: Seq<char>) -> bool {
    let t = trimmed(line);
    (t.len() >= 1 && t[0] == '#') || (t.len() >= 2 && t[0] == '/' && t[1] == '/')
}

/// Whether the line is a comment.
pub fn is_comment_line(line: &str) -> (r: bool)
    ensures
        r == is_comment(line@),
{
    let t = trim(line);
    let n = t.as_str().unicode_len();
    if n >= 1 && t.as_str().get_char(0) == '#' {
        true
    } else {
        n >= 2 && t.as_str().get_char(0) == '/' && t.as_str().get_char(1) == '/'
    }
}

/// The length of the first line of `s`: the number of characters in front of
/// its first line feed, or its length where it has none.
pub open spec fn first_line_len(s: Seq<char>) -> nat
    decreases s.len(),
{
    if s.len() == 0 || s[0] == '\n' {
        0
    } else {
        1 + first_line_len(s.drop_first())
    }
}

/// A line without the carriage return in front of the line feed that ended
/// it.
pub open spec fn without_return(line: Seq<char>, ended: bool) -> Seq<char> {
    if ended && line.len() > 0 && line.last() == '\r' {
        line.drop_last()
    } else {
        line
    }
}

/// The lines of a text. A line ends at a line feed, or at a carriage return
/// and a line feed; neither belongs to the line. The last line need not be
/// ended, and an ended last line is not followed by an empty one.
pub open spec fn lines_of(s: Seq<char>) -> Seq<Seq<char>>
    decreases s.len(),
{
    if s.len() == 0 {
        Seq::empty()
    } else {
        let k = first_line_len(s) as int;
        if k < s.len() {
            seq![without_return(s.subrange(0, k), true)] + lines_of(
                s.subrange(k + 1, s.len() as int),
            )
        } else {
            seq![s]
        }
    }
}

/// A stretch without a line feed, followed by a line feed or by the end of
/// the text, is the first line.
pub proof fn lemma_first_line_is(s: Seq<char>, k: int)
    requires
        0 <= k <= s.len(),
        forall|i: int| 0 <= i < k ==> #[trigger] s[i] != '\n',
        k < s.len() ==> s[k] == '\n',
    ensures
        first_line_len(s) == k,
    decreases s.len(),
{
    if k > 0 {
        let rest = s.drop_first();
        assert forall|i: int| 0 <= i < k - 1 implies #[trigger] rest[i] != '\n' by {
            assert(rest[i] == s[i + 1]);
        }
        lemma_first_line_is(rest, k - 1);
    }
}

/// The texts of a list of strings.
pub open spec fn texts(lines: Seq<String>) -> Seq<Seq<char>> {
    lines.map_values(|l: String| l@)
}

/// Splits a text into its lines.
pub fn split_lines(text: &str) -> (lines: Vec<String>)
    ensures
        texts(lines@) == lines_of(text@),
{
    let total = text.unicode_len();
    let mut it = text.chars();
    let mut lines: Vec<String> = Vec::new();
    let mut start: usize = 0;
    let mut at: usize = 0;
    let mut after_return = false;
    proof {
        assert(text@.subrange(0, total as int) =~= text@);
        assert(texts(lines@) + lines_of(text@) =~= lines_of(text@));
    }
    loop
        invariant
            it.obeys_prophetic_iter_laws(),
            total == text@.len(),
            start <= at,
            at + it.remaining().len() == total,
            it.remaining() == text@.subrange(at as int, total as int),
            forall|i: int| start <= i < at ==> #[trigger] text@[i] != '\n',
            after_return == (at > start && text@[at - 1] == '\r'),
            lines_of(text@) == texts(lines@) + lines_of(text@.subrange(start as int, total as int)),
        decreases total - at,
    {
        let ghost tail = text@.subrange(start as int, total as int);
        match it.next() {
            Some(c) => {
                if c == '\n' {
                    proof {
                        assert forall|i: int| 0 <= i < at - start implies #[trigger] tail[i]
                            != '\n' by {
                            assert(tail[i] == text@[start + i]);
                        }
                        lemma_first_line_is(tail, at - start);
                    }
                    let end = if after_return {
                        at - 1
                    } else {
                        at
                    };
                    let line = String::from_str(text.substring_char(start, end));
                    proof {
                        let whole = tail.subrange(0, at - start);
                        assert(whole =~= text@.subrange(start as int, at as int));
                        if after_return {
                            assert(whole.last() == '\r');
                            assert(whole.drop_last() =~= text@.subrange(start as int, end as int));
                        }
                        assert(line@ == without_return(whole, true));
                        assert(tail.subrange(at - start + 1, tail.len() as int) =~= text@.subrange(
                            at + 1,
                            total as int,
                        ));
                        assert(texts(lines@.push(line)) =~= texts(lines@) + seq![line@]);
                    }
                    lines.push(line);
                    start = at + 1;
                    after_return = false;
                } else {
                    after_return = c == '\r';
                }
                at = at + 1;
            },
            None => {
                if start < total {
                    proof {
                        assert forall|i: int| 0 <= i < tail.len() implies #[trigger] tail[i]
                            != '\n' by {
                            assert(tail[i] == text@[start + i]);
                        }
                        lemma_first_line_is(tail, tail.len() as int);
                    }
                    let line = String::from_str(text.substring_char(start, total));
                    proof {
                        assert(texts(lines@.push(line)) =~= texts(lines@) + seq![line@]);
                    }
                    lines.push(line);
                } else {
                    assert(tail.len() == 0);
                    assert(texts(lines@) + Seq::<Seq<char>>::empty() =~= texts(lines@));
                }
                return lines;
            },
        }
    }
}

} // verus!
