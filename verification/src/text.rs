//! Searching and trimming text, character by character.

use vstd::prelude::*;
use vstd::std_specs::iter::IteratorSpec;

verus! {

/// The number of characters of `text` that stand before the first `stop`: all of them, if
/// `stop` does not occur.
pub open spec fn span(text: Seq<char>, stop: char) -> int
    decreases text.len(),
{
    if text.len() == 0 || text[0] == stop {
        0
    } else {
        1 + span(text.skip(1), stop)
    }
}

/// Whether `pattern` occurs in `text`.
pub open spec fn contains(text: Seq<char>, pattern: Seq<char>) -> bool {
    exists|i: int| occurs_at(text, pattern, i)
}

/// Whether `pattern` occurs in `text` at index `i`.
pub open spec fn occurs_at(text: Seq<char>, pattern: Seq<char>, i: int) -> bool {
    0 <= i && i + pattern.len() <= text.len() && text.subrange(i, i + pattern.len()) == pattern
}

/// Whether a character is white space: one that Unicode classes as `White_Space`.
pub open spec fn is_space(c: char) -> bool {
    let code = c as u32;
    ||| 0x09 <= code <= 0x0d
    ||| code == 0x20
    ||| code == 0x85
    ||| code == 0xa0
    ||| code == 0x1680
    ||| 0x2000 <= code <= 0x200a
    ||| code == 0x2028
    ||| code == 0x2029
    ||| code == 0x202f
    ||| code == 0x205f
    ||| code == 0x3000
}

/// The text without the white space at its start.
pub open spec fn trim_start(text: Seq<char>) -> Seq<char>
    decreases text.len(),
{
    if text.len() > 0 && is_space(text[0]) {
        trim_start(text.skip(1))
    } else {
        text
    }
}

/// The text without the white space at its end.
pub open spec fn trim_end(text: Seq<char>) -> Seq<char>
    decreases text.len(),
{
    if text.len() > 0 && is_space(text.last()) {
        trim_end(text.drop_last())
    } else {
        text
    }
}

/// The text without the white space at its start and at its end.
pub open spec fn trim(text: Seq<char>) -> Seq<char> {
    trim_end(trim_start(text))
}

/// The first `stop` stands where none stands before and one stands, or the text ends.
pub proof fn lemma_span(text: Seq<char>, stop: char, k: int)
    requires
        0 <= k <= text.len(),
        forall|j: int| 0 <= j < k ==> text[j] != stop,
        k == text.len() || text[k] == stop,
    ensures
        span(text, stop) == k,
    decreases k,
{
    if k > 0 {
        lemma_span(text.skip(1), stop, k - 1);
    }
}

/// Trimming the start drops exactly the white space that stands before the first other
/// character.
pub proof fn lemma_trim_start(text: Seq<char>, k: int)
    requires
        0 <= k <= text.len(),
        forall|j: int| 0 <= j < k ==> is_space(text[j]),
        k == text.len() || !is_space(text[k]),
    ensures
        trim_start(text) == text.skip(k),
    decreases k,
{
    if k > 0 {
        lemma_trim_start(text.skip(1), k - 1);
        assert(text.skip(1).skip(k - 1) =~= text.skip(k));
    } else {
        assert(text.skip(0) =~= text);
    }
}

/// Trimming the end drops exactly the white space that stands behind the last other
/// character.
pub proof fn lemma_trim_end(text: Seq<char>, k: int)
    requires
        0 <= k <= text.len(),
        forall|j: int| k <= j < text.len() ==> is_space(text[j]),
        k == 0 || !is_space(text[k - 1]),
    ensures
        trim_end(text) == text.take(k),
    decreases text.len() - k,
{
    if k < text.len() {
        lemma_trim_end(text.drop_last(), k);
        assert(text.drop_last().take(k) =~= text.take(k));
    } else {
        assert(text.take(k) =~= text);
    }
}

/// Lists the characters of a text.
pub fn chars_of(text: &str) -> (chars: Vec<char>)
    ensures
        chars@ == text@,
{
    broadcast use vstd::string::group_string_axioms;

    let mut chars: Vec<char> = Vec::new();
    let mut rest = text.chars();
    loop
        invariant
            rest.remaining() == text@.skip(chars@.len() as int),
            chars@ == text@.take(chars@.len() as int),
            chars@.len() <= text@.len(),
            rest.decrease() is Some,
        ensures
            chars@ == text@,
        decreases rest.decrease()->0,
    {
        match rest.next() {
            None => {
                proof {
                    assert(text@.take(chars@.len() as int) =~= text@);
                }
                break ;
            },
            Some(c) => {
                proof {
                    let n = chars@.len() as int;
                    assert(text@.skip(n).drop_first() =~= text@.skip(n + 1));
                    assert(text@.take(n + 1) =~= text@.take(n).push(c));
                }
                chars.push(c);
            },
        }
    }
    chars
}

/// Finds the first `stop` among the characters from index `from` up to index `to`; returns
/// `to` if there is none.
pub fn find(chars: &Vec<char>, from: usize, to: usize, stop: char) -> (at: usize)
    requires
        from <= to <= chars@.len(),
    ensures
        from <= at <= to,
        at == from + span(chars@.subrange(from as int, to as int), stop),
{
    let mut at = from;
    while at < to && chars[at] != stop
        invariant
            from <= at <= to <= chars@.len(),
            forall|j: int| from <= j < at ==> chars@[j] != stop,
        decreases to - at,
    {
        at += 1;
    }
    proof {
        lemma_span(chars@.subrange(from as int, to as int), stop, at - from);
    }
    at
}

/// Tells whether `pattern` stands among the characters at index `at`, before index `to`.
fn matches_at(chars: &Vec<char>, at: usize, to: usize, pattern: &Vec<char>) -> (found: bool)
    requires
        at <= to <= chars@.len(),
    ensures
        found == (at + pattern@.len() <= to && chars@.subrange(
            at as int,
            at + pattern@.len(),
        ) == pattern@),
{
    if pattern.len() > to - at {
        return false;
    }
    let mut k: usize = 0;
    while k < pattern.len()
        invariant
            k <= pattern@.len(),
            at + pattern@.len() <= to <= chars@.len(),
            forall|j: int| 0 <= j < k ==> chars@[at + j] == pattern@[j],
        decreases pattern@.len() - k,
    {
        if chars[at + k] != pattern[k] {
            proof {
                assert(chars@.subrange(at as int, at + pattern@.len())[k as int] != pattern@[k as int]);
            }
            return false;
        }
        k += 1;
    }
    proof {
        assert(chars@.subrange(at as int, at + pattern@.len()) =~= pattern@);
    }
    true
}

/// Tells whether `pattern` occurs among the characters from index `from` up to index `to`.
pub fn occurs(chars: &Vec<char>, from: usize, to: usize, pattern: &Vec<char>) -> (found: bool)
    requires
        from <= to <= chars@.len(),
    ensures
        found == contains(chars@.subrange(from as int, to as int), pattern@),
{
    let ghost line = chars@.subrange(from as int, to as int);
    let mut at = from;
    loop
        invariant
            from <= at <= to <= chars@.len(),
            line == chars@.subrange(from as int, to as int),
            forall|i: int| 0 <= i < at - from ==> !occurs_at(line, pattern@, i),
        decreases to - at,
    {
        proof {
            if at + pattern@.len() <= to {
                assert(line.subrange(at - from, at - from + pattern@.len()) =~= chars@.subrange(
                    at as int,
                    at + pattern@.len(),
                ));
            }
        }
        if matches_at(chars, at, to, pattern) {
            proof {
                assert(occurs_at(line, pattern@, at - from));
            }
            return true;
        }
        if at == to {
            proof {
                assert forall|i: int| !occurs_at(line, pattern@, i) by {
                    if i >= 0 && i + pattern@.len() <= line.len() {
                        assert(i < at - from || i == at - from);
                    }
                }
            }
            return false;
        }
        at += 1;
    }
}

/// Tells whether a character is white space.
pub fn is_white_space(c: char) -> (space: bool)
    ensures
        space == is_space(c),
{
    let code = c as u32;
    (0x09 <= code && code <= 0x0d) || code == 0x20 || code == 0x85 || code == 0xa0 || code
        == 0x1680 || (0x2000 <= code && code <= 0x200a) || code == 0x2028 || code == 0x2029
        || code == 0x202f || code == 0x205f || code == 0x3000
}

/// Finds where the characters from index `from` up to index `to` start and end once the
/// white space at both ends is trimmed.
pub fn trim_bounds(chars: &Vec<char>, from: usize, to: usize) -> (bounds: (usize, usize))
    requires
        from <= to <= chars@.len(),
    ensures
        from <= bounds.0 <= bounds.1 <= to,
        chars@.subrange(bounds.0 as int, bounds.1 as int) == trim(
            chars@.subrange(from as int, to as int),
        ),
{
    let mut start = from;
    while start < to && is_white_space(chars[start])
        invariant
            from <= start <= to <= chars@.len(),
            forall|j: int| from <= j < start ==> is_space(chars@[j]),
        decreases to - start,
    {
        start += 1;
    }
    let mut end = to;
    while end > start && is_white_space(chars[end - 1])
        invariant
            start <= end <= to <= chars@.len(),
            forall|j: int| end <= j < to ==> is_space(chars@[j]),
        decreases end,
    {
        end -= 1;
    }
    proof {
        let text = chars@.subrange(from as int, to as int);
        lemma_trim_start(text, start - from);
        assert(text.skip(start - from) =~= chars@.subrange(start as int, to as int));
        let tail = chars@.subrange(start as int, to as int);
        lemma_trim_end(tail, end - start);
        assert(tail.take(end - start) =~= chars@.subrange(start as int, end as int));
    }
    (start, end)
}

} // verus!
